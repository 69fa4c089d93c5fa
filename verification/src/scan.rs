//! Scanning primitives over character sequences: prefixes, trimming, words.

use vstd::prelude::*;

use crate::text::{char_is_ws, is_ws, join, lemma_join_first};

verus! {

/// Length of the longest prefix of `s` whose characters all satisfy `p`.
pub open spec fn prefix_len(s: Seq<char>, p: spec_fn(char) -> bool) -> nat
    decreases s.len(),
{
    if s.len() == 0 || !p(s[0]) {
        0
    } else {
        1 + prefix_len(s.drop_first(), p)
    }
}

/// Length of the longest suffix of `s` whose characters all satisfy `p`.
pub open spec fn suffix_len(s: Seq<char>, p: spec_fn(char) -> bool) -> nat
    decreases s.len(),
{
    if s.len() == 0 || !p(s.last()) {
        0
    } else {
        1 + suffix_len(s.drop_last(), p)
    }
}

pub proof fn lemma_prefix_len(s: Seq<char>, p: spec_fn(char) -> bool, n: nat)
    requires
        n <= s.len(),
        forall|i: int| 0 <= i < n ==> p(#[trigger] s[i]),
        n == s.len() || !p(s[n as int]),
    ensures
        prefix_len(s, p) == n,
    decreases n,
{
    if n > 0 {
        assert forall|i: int| 0 <= i < n - 1 implies p(#[trigger] s.drop_first()[i]) by {
            assert(s.drop_first()[i] == s[i + 1]);
        }
        lemma_prefix_len(s.drop_first(), p, (n - 1) as nat);
    }
}

pub proof fn lemma_prefix_len_bounds(s: Seq<char>, p: spec_fn(char) -> bool)
    ensures
        prefix_len(s, p) <= s.len(),
        forall|i: int| 0 <= i < prefix_len(s, p) ==> p(#[trigger] s[i]),
        prefix_len(s, p) == s.len() || !p(s[prefix_len(s, p) as int]),
    decreases s.len(),
{
    if s.len() > 0 && p(s[0]) {
        lemma_prefix_len_bounds(s.drop_first(), p);
        assert forall|i: int| 0 <= i < prefix_len(s, p) implies p(#[trigger] s[i]) by {
            if i > 0 {
                assert(s[i] == s.drop_first()[i - 1]);
            }
        }
    }
}

pub proof fn lemma_suffix_len(s: Seq<char>, p: spec_fn(char) -> bool, n: nat)
    requires
        n <= s.len(),
        forall|i: int| s.len() - n <= i < s.len() ==> p(#[trigger] s[i]),
        n == s.len() || !p(s[s.len() - n - 1]),
    ensures
        suffix_len(s, p) == n,
    decreases n,
{
    if n > 0 {
        assert forall|i: int| s.len() - 1 - (n - 1) <= i < s.len() - 1 implies p(
            #[trigger] s.drop_last()[i],
        ) by {
            assert(s.drop_last()[i] == s[i]);
        }
        lemma_suffix_len(s.drop_last(), p, (n - 1) as nat);
    }
}

pub open spec fn ws_pred() -> spec_fn(char) -> bool {
    |c: char| is_ws(c)
}

pub open spec fn non_ws_pred() -> spec_fn(char) -> bool {
    |c: char| !is_ws(c)
}

/// `str::trim_start`.
pub open spec fn trim_start(s: Seq<char>) -> Seq<char> {
    s.skip(prefix_len(s, ws_pred()) as int)
}

/// `str::trim_end`.
pub open spec fn trim_end(s: Seq<char>) -> Seq<char> {
    s.take(s.len() - suffix_len(s, ws_pred()))
}

/// `str::trim`.
pub open spec fn trim(s: Seq<char>) -> Seq<char> {
    trim_end(trim_start(s))
}

/// Number of leading non-white-space characters of `v[from..]`.
pub fn count_non_ws(v: &[char], from: usize) -> (n: usize)
    requires
        from <= v@.len(),
    ensures
        n == prefix_len(v@.skip(from as int), non_ws_pred()),
        from + n <= v@.len(),
{
    let mut i = from;
    while i < v.len() && !char_is_ws(v[i])
        invariant
            from <= i <= v@.len(),
            forall|j: int| from <= j < i ==> !is_ws(#[trigger] v@[j]),
        decreases v@.len() - i,
    {
        i = i + 1;
    }
    proof {
        let s = v@.skip(from as int);
        assert forall|j: int| 0 <= j < i - from implies (non_ws_pred())(#[trigger] s[j]) by {
            assert(s[j] == v@[from + j]);
        }
        lemma_prefix_len(s, non_ws_pred(), (i - from) as nat);
    }
    i - from
}

/// Number of trailing white-space characters of `v[..to]`.
pub fn count_ws_back(v: &[char], to: usize) -> (n: usize)
    requires
        to <= v@.len(),
    ensures
        n == suffix_len(v@.take(to as int), ws_pred()),
        n <= to,
{
    let mut i = to;
    while i > 0 && char_is_ws(v[i - 1])
        invariant
            0 <= i <= to,
            to <= v@.len(),
            forall|j: int| i <= j < to ==> is_ws(#[trigger] v@[j]),
        decreases i,
    {
        i = i - 1;
    }
    proof {
        let s = v@.take(to as int);
        assert forall|j: int| s.len() - (to - i) <= j < s.len() implies (ws_pred())(
            #[trigger] s[j],
        ) by {
            assert(s[j] == v@[j]);
        }
        lemma_suffix_len(s, ws_pred(), (to - i) as nat);
    }
    to - i
}

/// The bounds `[a, b)` of `trim(v[from..to])` within `v`.
pub fn trim_bounds(v: &[char], from: usize, to: usize) -> (r: (usize, usize))
    requires
        from <= to <= v@.len(),
    ensures
        from <= r.0 <= r.1 <= to,
        v@.subrange(r.0 as int, r.1 as int) == trim(v@.subrange(from as int, to as int)),
{
    let ghost s = v@.subrange(from as int, to as int);
    let mut a = from;
    while a < to && char_is_ws(v[a])
        invariant
            from <= a <= to,
            to <= v@.len(),
            forall|j: int| from <= j < a ==> is_ws(#[trigger] v@[j]),
        decreases to - a,
    {
        a = a + 1;
    }
    proof {
        assert forall|j: int| 0 <= j < a - from implies (ws_pred())(#[trigger] s[j]) by {
            assert(s[j] == v@[from + j]);
        }
        lemma_prefix_len(s, ws_pred(), (a - from) as nat);
    }
    let ghost t = trim_start(s);
    assert(t =~= v@.subrange(a as int, to as int));
    let mut b = to;
    while b > a && char_is_ws(v[b - 1])
        invariant
            a <= b <= to,
            to <= v@.len(),
            forall|j: int| b <= j < to ==> is_ws(#[trigger] v@[j]),
        decreases b,
    {
        b = b - 1;
    }
    proof {
        assert forall|j: int| t.len() - (to - b) <= j < t.len() implies (ws_pred())(
            #[trigger] t[j],
        ) by {
            assert(t[j] == v@[a + j]);
        }
        lemma_suffix_len(t, ws_pred(), (to - b) as nat);
        assert(v@.subrange(a as int, b as int) =~= trim_end(t));
    }
    (a, b)
}

/// `str::split_whitespace`: the maximal runs of non-white-space characters.
pub open spec fn words(s: Seq<char>) -> Seq<Seq<char>>
    decreases s.len(),
{
    let a = prefix_len(s, ws_pred());
    if a >= s.len() {
        seq![]
    } else {
        let t = s.skip(a as int);
        let b = prefix_len(t, non_ws_pred());
        proof {
            lemma_prefix_len_bounds(s, ws_pred());
            lemma_prefix_len_bounds(t, non_ws_pred());
            assert(t[0] == s[a as int]);
        }
        seq![t.take(b as int)] + words(t.skip(b as int))
    }
}

/// The characters of `v` between each pair of bounds.
pub open spec fn pieces(v: Seq<char>, b: Seq<(usize, usize)>) -> Seq<Seq<char>> {
    b.map_values(|p: (usize, usize)| v.subrange(p.0 as int, p.1 as int))
}

/// A word: non-empty, without white space.
pub open spec fn is_word(w: Seq<char>) -> bool {
    w.len() > 0 && forall|j: int| 0 <= j < w.len() ==> !is_ws(#[trigger] w[j])
}

/// White space in front of a text does not change its words.
proof fn lemma_words_after_ws(c: char, t: Seq<char>)
    requires
        is_ws(c),
    ensures
        words(seq![c] + t) == words(t),
{
    let s = seq![c] + t;
    assert(s.drop_first() =~= t);
    let a = prefix_len(t, ws_pred());
    assert(prefix_len(s, ws_pred()) == 1 + a);
    lemma_prefix_len_bounds(t, ws_pred());
    assert(s.skip(1 + a as int) =~= t.skip(a as int));
}

/// A word, white space and a text: the word, then the words of the text.
proof fn lemma_words_word_then(w: Seq<char>, c: char, t: Seq<char>)
    requires
        is_word(w),
        is_ws(c),
    ensures
        words(w + seq![c] + t) == seq![w] + words(t),
{
    let s = w + seq![c] + t;
    lemma_prefix_len(s, ws_pred(), 0);
    assert forall|i: int| 0 <= i < w.len() implies (non_ws_pred())(#[trigger] s[i]) by {
        assert(s[i] == w[i]);
    }
    assert(s[w.len() as int] == c);
    lemma_prefix_len(s, non_ws_pred(), w.len());
    assert(s.skip(0) =~= s);
    assert(s.take(w.len() as int) =~= w);
    assert(s.skip(w.len() as int) =~= seq![c] + t);
    lemma_words_after_ws(c, t);
}

/// A single word is read back as itself.
proof fn lemma_words_single(w: Seq<char>)
    requires
        is_word(w),
    ensures
        words(w) == seq![w],
{
    lemma_prefix_len(w, ws_pred(), 0);
    assert forall|i: int| 0 <= i < w.len() implies (non_ws_pred())(#[trigger] w[i]) by {}
    lemma_prefix_len(w, non_ws_pred(), w.len());
    assert(w.skip(0) =~= w);
    assert(w.take(w.len() as int) =~= w);
    assert(w.skip(w.len() as int) =~= Seq::<char>::empty());
    assert(words(Seq::<char>::empty()) =~= Seq::<Seq<char>>::empty());
}

/// Words joined by single spaces are read back as the same words.
pub proof fn lemma_words_of_join(parts: Seq<Seq<char>>)
    requires
        forall|i: int| 0 <= i < parts.len() ==> is_word(#[trigger] parts[i]),
    ensures
        words(join(parts, " "@)) == parts,
    decreases parts.len(),
{
    reveal_strlit(" ");
    if parts.len() == 0 {
        assert(words(Seq::<char>::empty()) =~= Seq::<Seq<char>>::empty());
        assert(parts =~= Seq::<Seq<char>>::empty());
    } else if parts.len() == 1 {
        lemma_words_single(parts[0]);
        assert(parts =~= seq![parts[0]]);
    } else {
        let rest = parts.drop_first();
        lemma_join_first(parts, " "@);
        lemma_words_of_join(rest);
        assert(parts[0] + " "@ + join(rest, " "@) =~= parts[0] + seq![' '] + join(rest, " "@));
        lemma_words_word_then(parts[0], ' ', join(rest, " "@));
        assert(seq![parts[0]] + rest =~= parts);
    }
}

/// Bounds of the white-space separated words of `v[from..to]`.
pub fn split_words(v: &[char], from: usize, to: usize) -> (r: Vec<(usize, usize)>)
    requires
        from <= to <= v@.len(),
    ensures
        pieces(v@, r@) == words(v@.subrange(from as int, to as int)),
        forall|k: int| 0 <= k < r@.len() ==> from <= (#[trigger] r@[k]).0 <= r@[k].1 <= to,
{
    let mut r: Vec<(usize, usize)> = Vec::new();
    let mut i = from;
    while i < to
        invariant
            from <= i <= to <= v@.len(),
            words(v@.subrange(from as int, to as int)) == pieces(v@, r@) + words(
                v@.subrange(i as int, to as int),
            ),
            forall|k: int| 0 <= k < r@.len() ==> from <= (#[trigger] r@[k]).0 <= r@[k].1 <= to,
        decreases to - i,
    {
        let ghost s = v@.subrange(i as int, to as int);
        let mut a = i;
        while a < to && char_is_ws(v[a])
            invariant
                i <= a <= to <= v@.len(),
                forall|j: int| i <= j < a ==> is_ws(#[trigger] v@[j]),
            decreases to - a,
        {
            a = a + 1;
        }
        proof {
            assert forall|j: int| 0 <= j < a - i implies (ws_pred())(#[trigger] s[j]) by {
                assert(s[j] == v@[i + j]);
            }
            lemma_prefix_len(s, ws_pred(), (a - i) as nat);
        }
        if a == to {
            proof {
                assert(words(s) =~= Seq::<Seq<char>>::empty());
                assert(pieces(v@, r@) + words(s) =~= pieces(v@, r@));
            }
            i = to;
        } else {
            let ghost t = s.skip((a - i) as int);
            assert(t =~= v@.subrange(a as int, to as int));
            let mut b = a;
            while b < to && !char_is_ws(v[b])
                invariant
                    a <= b <= to <= v@.len(),
                    forall|j: int| a <= j < b ==> !is_ws(#[trigger] v@[j]),
                decreases to - b,
            {
                b = b + 1;
            }
            proof {
                assert forall|j: int| 0 <= j < b - a implies (non_ws_pred())(#[trigger] t[j]) by {
                    assert(t[j] == v@[a + j]);
                }
                lemma_prefix_len(t, non_ws_pred(), (b - a) as nat);
                assert(t.take((b - a) as int) =~= v@.subrange(a as int, b as int));
                assert(t.skip((b - a) as int) =~= v@.subrange(b as int, to as int));
            }
            let ghost old_r = r@;
            r.push((a, b));
            proof {
                assert(pieces(v@, r@) =~= pieces(v@, old_r).push(v@.subrange(a as int, b as int)));
                assert(words(s) == seq![v@.subrange(a as int, b as int)] + words(
                    v@.subrange(b as int, to as int),
                ));
                assert(pieces(v@, old_r) + words(s) =~= pieces(v@, r@) + words(
                    v@.subrange(b as int, to as int),
                ));
            }
            i = b;
        }
    }
    proof {
        let e = v@.subrange(to as int, to as int);
        assert(e.len() == 0);
        assert(words(e) =~= Seq::<Seq<char>>::empty());
        assert(pieces(v@, r@) + words(e) =~= pieces(v@, r@));
    }
    r
}

/// Position of the first occurrence of `c` in `s`.
pub open spec fn find_char(s: Seq<char>, c: char) -> Option<nat>
    decreases s.len(),
{
    if s.len() == 0 {
        None
    } else if s[0] == c {
        Some(0)
    } else {
        match find_char(s.drop_first(), c) {
            Some(k) => Some(k + 1),
            None => None,
        }
    }
}

pub proof fn lemma_find_char(s: Seq<char>, c: char, k: nat)
    requires
        k <= s.len(),
        forall|j: int| 0 <= j < k ==> s[j] != c,
    ensures
        k < s.len() && s[k as int] == c ==> find_char(s, c) == Some(k),
        k == s.len() ==> find_char(s, c) is None,
    decreases k,
{
    if k > 0 {
        assert forall|j: int| 0 <= j < k - 1 implies s.drop_first()[j] != c by {
            assert(s.drop_first()[j] == s[j + 1]);
        }
        lemma_find_char(s.drop_first(), c, (k - 1) as nat);
    }
}

/// A found position lies inside the sequence and holds the character.
pub proof fn lemma_find_char_bound(s: Seq<char>, c: char)
    ensures
        find_char(s, c) matches Some(k) ==> k < s.len() && s[k as int] == c,
    decreases s.len(),
{
    if s.len() > 0 && s[0] != c {
        lemma_find_char_bound(s.drop_first(), c);
        if let Some(k) = find_char(s.drop_first(), c) {
            assert(s[k as int + 1] == s.drop_first()[k as int]);
        }
    }
}

/// Index, relative to `from`, of the first `c` in `v[from..to]`.
pub fn find_char_in(v: &[char], from: usize, to: usize, c: char) -> (r: Option<usize>)
    requires
        from <= to <= v@.len(),
    ensures
        r matches Some(k) ==> from + k < to,
        find_char(v@.subrange(from as int, to as int), c) matches Some(k) ==> k < to - from,
        match find_char(v@.subrange(from as int, to as int), c) {
            Some(k) => r == Some(k as usize),
            None => r is None,
        },
{
    let ghost s = v@.subrange(from as int, to as int);
    let mut i = from;
    while i < to && v[i] != c
        invariant
            from <= i <= to <= v@.len(),
            forall|j: int| from <= j < i ==> v@[j] != c,
        decreases to - i,
    {
        i = i + 1;
    }
    proof {
        assert forall|j: int| 0 <= j < i - from implies s[j] != c by {
            assert(s[j] == v@[from + j]);
        }
        lemma_find_char(s, c, (i - from) as nat);
        lemma_find_char_bound(s, c);
    }
    if i < to {
        Some(i - from)
    } else {
        None
    }
}

pub open spec fn is_digit(c: char) -> bool {
    '0' <= c <= '9'
}

pub open spec fn digit_pred() -> spec_fn(char) -> bool {
    |c: char| is_digit(c)
}

pub open spec fn all_digits(s: Seq<char>) -> bool {
    forall|i: int| 0 <= i < s.len() ==> is_digit(#[trigger] s[i])
}

/// Value of a string of decimal digits.
pub open spec fn digits_val(s: Seq<char>) -> nat
    decreases s.len(),
{
    if s.len() == 0 {
        0
    } else {
        digits_val(s.drop_last()) * 10 + ((s.last() as u32) - 48) as nat
    }
}

/// `str::parse` of an unsigned integer type whose largest value is `max`:
/// an optional `+`, then one or more decimal digits, with a value that fits.
pub open spec fn parse_uint(s: Seq<char>, max: nat) -> Option<nat> {
    let d = if s.len() > 0 && s[0] == '+' {
        s.drop_first()
    } else {
        s
    };
    if d.len() == 0 || !all_digits(d) {
        None
    } else if digits_val(d) <= max {
        Some(digits_val(d))
    } else {
        None
    }
}

proof fn lemma_digits_val_mono(s: Seq<char>, k: int)
    requires
        0 <= k <= s.len(),
        all_digits(s),
    ensures
        digits_val(s.take(k)) <= digits_val(s),
    decreases s.len(),
{
    if k < s.len() {
        assert(s.drop_last().take(k) =~= s.take(k));
        lemma_digits_val_mono(s.drop_last(), k);
    } else {
        assert(s.take(k) =~= s);
    }
}

/// Parses `v[from..to]` as an unsigned integer no larger than `max`.
pub fn parse_uint_in(v: &[char], from: usize, to: usize, max: u64) -> (r: Option<u64>)
    requires
        from <= to <= v@.len(),
    ensures
        match parse_uint(v@.subrange(from as int, to as int), max as nat) {
            Some(n) => r == Some(n as u64),
            None => r is None,
        },
{
    let ghost s = v@.subrange(from as int, to as int);
    let mut start = from;
    if from < to && v[from] == '+' {
        start = from + 1;
    }
    let ghost d = v@.subrange(start as int, to as int);
    assert(d =~= (if s.len() > 0 && s[0] == '+' { s.drop_first() } else { s }));
    if start == to {
        return None;
    }
    let mut acc: u64 = 0;
    let mut i = start;
    while i < to
        invariant
            start <= i <= to <= v@.len(),
            d == v@.subrange(start as int, to as int),
            s == v@.subrange(from as int, to as int),
            d == (if s.len() > 0 && s[0] == '+' { s.drop_first() } else { s }),
            forall|j: int| start <= j < i ==> is_digit(#[trigger] v@[j]),
            acc == digits_val(d.take(i - start)),
            acc <= max,
        decreases to - i,
    {
        let c = v[i];
        if !('0' <= c && c <= '9') {
            assert(!is_digit(d[i - start]));
            assert(!all_digits(d));
            return None;
        }
        let dv: u64 = ((c as u8) - 48) as u64;
        assert(d.take(i + 1 - start).drop_last() =~= d.take(i - start));
        let next: u128 = (acc as u128) * 10 + (dv as u128);
        assert(next == digits_val(d.take(i + 1 - start)));
        if next > max as u128 {
            proof {
                if all_digits(d) {
                    lemma_digits_val_mono(d, i + 1 - start);
                }
            }
            return None;
        }
        acc = next as u64;
        i = i + 1;
    }
    assert(d.take(to - start) =~= d);
    Some(acc)
}

/// Length of the longest prefix of `v[from..]` accepted by `f`, which decides `p`.
pub fn count_while<F: Fn(char) -> bool>(
    v: &[char],
    from: usize,
    f: F,
    Ghost(p): Ghost<spec_fn(char) -> bool>,
) -> (n: usize)
    requires
        from <= v@.len(),
        forall|c: char| f.requires((c,)),
        forall|c: char, r: bool| f.ensures((c,), r) ==> r == p(c),
    ensures
        n == prefix_len(v@.skip(from as int), p),
        from + n <= v@.len(),
{
    let mut i = from;
    while i < v.len() && f(v[i])
        invariant
            from <= i <= v@.len(),
            forall|c: char| f.requires((c,)),
            forall|c: char, r: bool| f.ensures((c,), r) ==> r == p(c),
            forall|j: int| from <= j < i ==> p(#[trigger] v@[j]),
        decreases v@.len() - i,
    {
        i = i + 1;
    }
    proof {
        let s = v@.skip(from as int);
        assert forall|j: int| 0 <= j < i - from implies p(#[trigger] s[j]) by {
            assert(s[j] == v@[from + j]);
        }
        if i < v@.len() {
            assert(s[i - from] == v@[i as int]);
        }
        lemma_prefix_len(s, p, (i - from) as nat);
    }
    i - from
}

} // verus!
