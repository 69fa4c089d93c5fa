//! Sending the queued messages of an account.

use vstd::prelude::*;

use crate::message::EmailAddress;
use crate::outbox::OutboxMessage;
use crate::smtp::error::SmtpError;

verus! {

pub open spec fn address_strings(v: Seq<EmailAddress>) -> Seq<Seq<char>> {
    v.map_values(|a: EmailAddress| a.address@)
}

/// Every envelope recipient of a message: the addresses of To, then Cc, then Bcc.
pub open spec fn all_recipients(m: OutboxMessage) -> Seq<Seq<char>> {
    address_strings(m.to@) + address_strings(m.cc@) + address_strings(m.bcc@)
}

fn push_addresses(out: &mut Vec<String>, v: &Vec<EmailAddress>)
    ensures
        final(out)@.map_values(|s: String| s@) == old(out)@.map_values(|s: String| s@)
            + address_strings(v@),
{
    let mut i: usize = 0;
    while i < v.len()
        invariant
            0 <= i <= v@.len(),
            out@.map_values(|s: String| s@) == old(out)@.map_values(|s: String| s@)
                + address_strings(v@.take(i as int)),
        decreases v@.len() - i,
    {
        let ghost before = out@;
        out.push(v[i].address.clone());
        proof {
            assert(out@.map_values(|s: String| s@) =~= before.map_values(|s: String| s@).push(
                v@[i as int].address@,
            ));
            assert(address_strings(v@.take(i + 1)) =~= address_strings(v@.take(i as int)).push(
                v@[i as int].address@,
            ));
        }
        i = i + 1;
    }
    assert(v@.take(v@.len() as int) =~= v@);
}

/// Sends the queued messages of an account.
pub struct OutboxDispatcher;

impl OutboxDispatcher {
    /// The envelope recipients of a message; a message without any is refused.
    pub fn recipients(msg: &OutboxMessage) -> (r: Result<Vec<String>, SmtpError>)
        ensures
            match r {
                Ok(v) => v@.map_values(|s: String| s@) == all_recipients(*msg) && v@.len() > 0,
                Err(e) => all_recipients(*msg).len() == 0 && (e matches SmtpError::MimeBuild(m)
                    && m@ == "No recipients specified"@),
            },
    {
        let mut out: Vec<String> = Vec::new();
        assert(out@.map_values(|s: String| s@) =~= Seq::<Seq<char>>::empty());
        push_addresses(&mut out, &msg.to);
        push_addresses(&mut out, &msg.cc);
        push_addresses(&mut out, &msg.bcc);
        if out.len() == 0 {
            return Err(SmtpError::MimeBuild("No recipients specified".to_owned()));
        }
        Ok(out)
    }
}

} // verus!
