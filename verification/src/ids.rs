//! Identifiers (UUIDs, held as their 128-bit value) and instants in time.

use vstd::prelude::*;

verus! {

/// The lower-case hexadecimal digit of a value below 16.
pub open spec fn hex_digit(v: int) -> char {
    if v < 10 {
        (48 + v) as char
    } else {
        (87 + v) as char
    }
}

/// The simple text of a UUID (`Uuid::simple`): its 32 hexadecimal digits,
/// lower case, most significant first.
pub open spec fn uuid_simple_text(u: u128) -> Seq<char> {
    Seq::new(32, |i: int| hex_digit(((u >> ((124 - 4 * i) as u128)) & 0xfu128) as int))
}

/// The hyphenated text of a UUID (`Uuid`'s `Display`): its simple text in groups
/// of 8, 4, 4, 4 and 12 digits joined by `-`.
pub open spec fn uuid_text(u: u128) -> Seq<char> {
    let s = uuid_simple_text(u);
    s.subrange(0, 8) + seq!['-'] + s.subrange(8, 12) + seq!['-'] + s.subrange(12, 16) + seq!['-']
        + s.subrange(16, 20) + seq!['-'] + s.subrange(20, 32)
}

/// `Uuid::parse_str`: the value, or the text of the parse error.
pub uninterp spec fn uuid_parse(s: Seq<char>) -> Result<u128, Seq<char>>;

pub open spec fn uuid_ok(u: u128) -> Result<u128, Seq<char>> {
    Ok(u)
}

pub open spec fn uuid_err(e: Seq<char>) -> Result<u128, Seq<char>> {
    Err(e)
}

pub open spec fn instant_ok(secs: i64, nanos: u32) -> Result<(i64, u32), Seq<char>> {
    Ok((secs, nanos))
}

pub open spec fn instant_err(e: Seq<char>) -> Result<(i64, u32), Seq<char>> {
    Err(e)
}

/// A UUID of version 7 and of the RFC 9562 variant, as a big-endian 128-bit value:
/// its version nibble is 7 and its two variant bits are `10`.
pub open spec fn is_v7_uuid(u: u128) -> bool {
    &&& (u >> 76u128) & 0xfu128 == 7
    &&& (u >> 62u128) & 3u128 == 2
}

/// A fresh version-7 UUID (`Uuid::now_v7`, as `as_u128`). Its timestamp and random
/// bits depend on the clock and on chance and are not stated; `now_v7` always sets
/// the version nibble to 7 and the variant bits to `10` (`encode_unix_timestamp_millis`).
#[verifier::external_body]
pub(crate) fn fresh_uuid() -> (r: u128)
    ensures
        is_v7_uuid(r),
{
    uuid::Uuid::now_v7().as_u128()
}

/// `Uuid::to_string`. The text names the value, and `Uuid::parse_str`, which accepts
/// every format this crate generates, reads it back.
#[verifier::external_body]
pub(crate) fn uuid_to_string(u: u128) -> (r: String)
    ensures
        r@ == uuid_text(u),
        uuid_parse(r@) == uuid_ok(u),
{
    uuid::Uuid::from_u128(u).to_string()
}

/// `Uuid::parse_str`, with the error turned into its text.
#[verifier::external_body]
pub(crate) fn uuid_from_str(s: &str) -> (r: Result<u128, String>)
    ensures
        match r {
            Ok(u) => uuid_parse(s@) == uuid_ok(u),
            Err(e) => uuid_parse(s@) == uuid_err(e@),
        },
{
    match uuid::Uuid::parse_str(s) {
        Ok(u) => Ok(u.as_u128()),
        Err(e) => Err(e.to_string()),
    }
}

/// Whether `DateTime::from_timestamp(secs, nanos)` gives an instant.
pub uninterp spec fn instant_exists(secs: i64, nanos: u32) -> bool;

/// `DateTime::<Utc>::to_rfc3339` of the instant with these coordinates.
pub uninterp spec fn rfc3339_text(secs: i64, nanos: u32) -> Seq<char>;

/// `DateTime::<Utc>::to_rfc2822` of the instant with these coordinates.
pub uninterp spec fn rfc2822_text(secs: i64, nanos: u32) -> Seq<char>;

/// `DateTime::parse_from_rfc3339` (converted to UTC): the instant's coordinates, or
/// the text of the parse error.
pub uninterp spec fn rfc3339_parse(s: Seq<char>) -> Result<(i64, u32), Seq<char>>;

/// `DateTime::from_timestamp(secs, nanos).is_some()`.
#[verifier::external_body]
pub(crate) fn timestamp_exists(secs: i64, nanos: u32) -> (r: bool)
    ensures
        r == instant_exists(secs, nanos),
{
    chrono::DateTime::from_timestamp(secs, nanos).is_some()
}

/// An instant, as a UNIX timestamp in seconds and the nanoseconds past that second.
#[derive(Debug, Clone, Copy, PartialEq, Eq, Structural)]
pub struct Timestamp {
    pub secs: i64,
    pub nanos: u32,
}

impl Timestamp {
    pub open spec fn valid(self) -> bool {
        instant_exists(self.secs, self.nanos)
    }

    /// Seconds and nanoseconds of an instant between the years 0 and 9999 that is
    /// not a leap second: the instants whose RFC 3339 text has a four-digit year.
    pub open spec fn plain(self) -> bool {
        &&& -62167219200 <= self.secs <= 253402300799
        &&& self.nanos < 1_000_000_000
    }

    /// The current time (`Utc::now`). Its value depends on the clock; the
    /// coordinates it yields denote an instant (they round-trip through
    /// `DateTime::from_timestamp`, as chrono guarantees), taken from a duration
    /// since the UNIX epoch, so the seconds are not negative and the nanoseconds
    /// are those of a duration. That the year is below 10000 is not stated.
    #[verifier::external_body]
    pub(crate) fn now() -> (t: Timestamp)
        ensures
            instant_exists(t.secs, t.nanos),
            t.secs >= 0,
            t.nanos < 1_000_000_000,
    {
        let d = chrono::Utc::now();
        Timestamp { secs: d.timestamp(), nanos: d.timestamp_subsec_nanos() }
    }

    /// `DateTime::to_rfc3339`. For an instant with a four-digit year that is not a
    /// leap second, the text carries the seconds and every non-zero nanosecond
    /// digit with offset `+00:00`, which `DateTime::parse_from_rfc3339` reads back
    /// to the same instant; other years are written with a sign, which it refuses.
    #[verifier::external_body]
    pub(crate) fn to_rfc3339(&self) -> (s: String)
        requires
            self.valid(),
        ensures
            s@ == rfc3339_text(self.secs, self.nanos),
            self.plain() ==> rfc3339_parse(s@) == instant_ok(self.secs, self.nanos),
    {
        chrono::DateTime::from_timestamp(self.secs, self.nanos).unwrap().to_rfc3339()
    }

    /// Whether the instant is `plain`: a year between 0 and 9999, no leap second.
    pub fn is_plain(&self) -> (r: bool)
        ensures
            r == self.plain(),
    {
        -62167219200 <= self.secs && self.secs <= 253402300799 && self.nanos < 1_000_000_000
    }

    /// `DateTime::to_rfc2822` of the instant (the form of a mail `Date:` header).
    /// chrono writes only the years 0 to 9999 in this form and panics on others.
    #[verifier::external_body]
    pub(crate) fn to_rfc2822(&self) -> (s: String)
        requires
            self.valid(),
            self.plain(),
        ensures
            s@ == rfc2822_text(self.secs, self.nanos),
    {
        chrono::DateTime::from_timestamp(self.secs, self.nanos).unwrap().to_rfc2822()
    }

    /// `DateTime::parse_from_rfc3339` converted to UTC; an instant it yields exists.
    #[verifier::external_body]
    pub(crate) fn parse_rfc3339(s: &str) -> (r: Result<Timestamp, String>)
        ensures
            match r {
                Ok(t) => rfc3339_parse(s@) == instant_ok(t.secs, t.nanos)
                    && instant_exists(t.secs, t.nanos),
                Err(e) => rfc3339_parse(s@) == instant_err(e@),
            },
    {
        match chrono::DateTime::parse_from_rfc3339(s) {
            Ok(d) => Ok(Timestamp { secs: d.timestamp(), nanos: d.timestamp_subsec_nanos() }),
            Err(e) => Err(e.to_string()),
        }
    }
}


/// The identifier of an account.
#[derive(Debug, Clone, Copy, PartialEq, Eq, Structural, Hash)]
pub struct AccountId(pub u128);

impl AccountId {
    /// A fresh identifier (a version-7 UUID).
    pub fn new() -> (r: Self)
        ensures
            is_v7_uuid(r.0),
    {
        AccountId(fresh_uuid())
    }

    pub fn from_uuid(u: u128) -> (r: Self)
        ensures
            r.0 == u,
    {
        AccountId(u)
    }

    pub fn as_uuid(&self) -> (u: u128)
        ensures
            u == self.0,
    {
        self.0
    }

    /// The hyphenated text of the identifier.
    pub fn to_text(&self) -> (r: String)
        ensures
            r@ == uuid_text(self.0),
            uuid_parse(r@) == uuid_ok(self.0),
    {
        uuid_to_string(self.0)
    }
}

/// The identifier of a mailbox.
#[derive(Debug, Clone, Copy, PartialEq, Eq, Structural, Hash)]
pub struct FolderId(pub u128);

impl FolderId {
    /// A fresh identifier (a version-7 UUID).
    pub fn new() -> (r: Self)
        ensures
            is_v7_uuid(r.0),
    {
        FolderId(fresh_uuid())
    }

    pub fn from_uuid(u: u128) -> (r: Self)
        ensures
            r.0 == u,
    {
        FolderId(u)
    }

    pub fn as_uuid(&self) -> (u: u128)
        ensures
            u == self.0,
    {
        self.0
    }

    /// The hyphenated text of the identifier.
    pub fn to_text(&self) -> (r: String)
        ensures
            r@ == uuid_text(self.0),
            uuid_parse(r@) == uuid_ok(self.0),
    {
        uuid_to_string(self.0)
    }
}

/// The identifier of a stored message.
#[derive(Debug, Clone, Copy, PartialEq, Eq, Structural, Hash)]
pub struct MessageId(pub u128);

impl MessageId {
    /// A fresh identifier (a version-7 UUID).
    pub fn new() -> (r: Self)
        ensures
            is_v7_uuid(r.0),
    {
        MessageId(fresh_uuid())
    }

    pub fn from_uuid(u: u128) -> (r: Self)
        ensures
            r.0 == u,
    {
        MessageId(u)
    }

    pub fn as_uuid(&self) -> (u: u128)
        ensures
            u == self.0,
    {
        self.0
    }

    /// The hyphenated text of the identifier.
    pub fn to_text(&self) -> (r: String)
        ensures
            r@ == uuid_text(self.0),
            uuid_parse(r@) == uuid_ok(self.0),
    {
        uuid_to_string(self.0)
    }
}

/// The identifier of a queued mutation.
#[derive(Debug, Clone, Copy, PartialEq, Eq, Structural, Hash)]
pub struct MutationId(pub u128);

impl MutationId {
    /// A fresh identifier (a version-7 UUID).
    pub fn new() -> (r: Self)
        ensures
            is_v7_uuid(r.0),
    {
        MutationId(fresh_uuid())
    }

    pub fn from_uuid(u: u128) -> (r: Self)
        ensures
            r.0 == u,
    {
        MutationId(u)
    }

    pub fn as_uuid(&self) -> (u: u128)
        ensures
            u == self.0,
    {
        self.0
    }

    /// The hyphenated text of the identifier.
    pub fn to_text(&self) -> (r: String)
        ensures
            r@ == uuid_text(self.0),
            uuid_parse(r@) == uuid_ok(self.0),
    {
        uuid_to_string(self.0)
    }
}

/// The identifier of an outgoing message.
#[derive(Debug, Clone, Copy, PartialEq, Eq, Structural, Hash)]
pub struct OutboxId(pub u128);

impl OutboxId {
    /// A fresh identifier (a version-7 UUID).
    pub fn new() -> (r: Self)
        ensures
            is_v7_uuid(r.0),
    {
        OutboxId(fresh_uuid())
    }

    pub fn from_uuid(u: u128) -> (r: Self)
        ensures
            r.0 == u,
    {
        OutboxId(u)
    }

    pub fn as_uuid(&self) -> (u: u128)
        ensures
            u == self.0,
    {
        self.0
    }

    /// The hyphenated text of the identifier.
    pub fn to_text(&self) -> (r: String)
        ensures
            r@ == uuid_text(self.0),
            uuid_parse(r@) == uuid_ok(self.0),
    {
        uuid_to_string(self.0)
    }
}

/// The identifier of a stored attachment.
#[derive(Debug, Clone, Copy, PartialEq, Eq, Structural, Hash)]
pub struct AttachmentId(pub u128);

impl AttachmentId {
    /// A fresh identifier (a version-7 UUID).
    pub fn new() -> (r: Self)
        ensures
            is_v7_uuid(r.0),
    {
        AttachmentId(fresh_uuid())
    }

    pub fn from_uuid(u: u128) -> (r: Self)
        ensures
            r.0 == u,
    {
        AttachmentId(u)
    }

    pub fn as_uuid(&self) -> (u: u128)
        ensures
            u == self.0,
    {
        self.0
    }

    /// The hyphenated text of the identifier.
    pub fn to_text(&self) -> (r: String)
        ensures
            r@ == uuid_text(self.0),
            uuid_parse(r@) == uuid_ok(self.0),
    {
        uuid_to_string(self.0)
    }
}

} // verus!
