//! SOCKS for applications that only connect.

pub use crate::proxy::socks5::{
    send_failure, send_reply, send_success, TargetAddr, REP_ADDRESS_NOT_SUPPORTED,
    REP_COMMAND_NOT_SUPPORTED, REP_GENERAL_FAILURE,
};

use vstd::prelude::*;
use crate::bytes::extend;
use crate::proxy::socks5::{
    accept_request, negotiation, no_auth, offers_no_auth, plain_reply, Accept, Negotiation,
    SocksError,
};

verus! {

/// Whether the bytes ask for something else than a connection.
pub open spec fn asks_otherwise(b: Seq<u8>) -> bool {
    &&& b.len() >= 2
    &&& b[0] == 5
    &&& b.len() >= 2 + b[1] + 4
    &&& offers_no_auth(b.subrange(2, 2 + b[1]))
    &&& b[2 + b[1]] == 5
    &&& b[2 + b[1] + 1] != 1
}

/// What a server that only connects makes of the bytes received so far.
pub open spec fn connects(b: Seq<u8>) -> Negotiation {
    if asks_otherwise(b) {
        Negotiation::Refused {
            answered: no_auth() + plain_reply(REP_COMMAND_NOT_SUPPORTED),
            error: SocksError::OnlyConnect,
        }
    } else {
        negotiation(b)
    }
}

fn has_no_auth(b: &[u8], to: usize) -> (r: bool)
    requires
        2 <= to <= b@.len(),
    ensures
        r == offers_no_auth(b@.subrange(2, to as int)),
{
    let ghost methods = b@.subrange(2, to as int);
    let mut i: usize = 2;
    while i < to
        invariant
            2 <= i <= to <= b@.len(),
            methods == b@.subrange(2, to as int),
            forall|k: int| 0 <= k < i - 2 ==> methods[k] != 0,
        decreases to - i,
    {
        assert(methods[i - 2] == b@[i as int]);
        if b[i] == 0 {
            return true;
        }
        i = i + 1;
    }
    false
}

/// Negotiates a connection out of the bytes received so far.
pub fn accept(received: &[u8]) -> (r: Accept)
    ensures
        r@ == connects(received@),
{
    let len: usize = received.len();
    if len >= 2 && received[0] == 5 {
        let at: usize = 2 + received[1] as usize;
        if len >= at + 4 && has_no_auth(received, at) && received[at] == 5 && received[at + 1]
            != 1 {
            let mut answered: Vec<u8> = Vec::new();
            answered.push(5);
            answered.push(0);
            extend(&mut answered, send_reply(REP_COMMAND_NOT_SUPPORTED).as_slice());
            assert(answered@ =~= no_auth() + plain_reply(REP_COMMAND_NOT_SUPPORTED));
            return Accept::Refused { answered, error: SocksError::OnlyConnect };
        }
    }
    accept_request(received)
}

} // verus!
