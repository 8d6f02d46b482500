//! Failures that say no more than that the other side went away.

use vstd::prelude::*;
use crate::failure::Failure;
use crate::text::{contains, has};

verus! {

/// Whether a text reports that the other side went away.
pub open spec fn is_noise(text: Seq<char>) -> bool {
    ||| contains(text, "peer closed connection without sending TLS close_notify"@)
    ||| contains(text, "Broken pipe (os error 32)"@)
    ||| contains(text, "Connection reset by peer (os error 54)"@)
    ||| contains(text, "Connection reset by peer (os error 104)"@)
}

/// Whether one of the texts reports that.
pub open spec fn any_noise(texts: Seq<Seq<char>>) -> bool {
    exists|i: int| 0 <= i < texts.len() && is_noise(#[trigger] texts[i])
}

fn noise(text: &str) -> (r: bool)
    ensures
        r == is_noise(text@),
{
    has(text, "peer closed connection without sending TLS close_notify") || has(
        text,
        "Broken pipe (os error 32)",
    ) || has(text, "Connection reset by peer (os error 54)") || has(
        text,
        "Connection reset by peer (os error 104)",
    )
}

/// Whether a failure, or one of its causes, reports that the other side went away.
pub fn is_noisy_disconnect(err: &Failure) -> (r: bool)
    ensures
        r == exists|i: int| 0 <= i < err@.len() && is_noise(#[trigger] err@[i]),
        r == any_noise(err@),
{
    let chain = err.chain();
    let mut i: usize = 0;
    while i < chain.len()
        invariant
            i <= chain@.len(),
            crate::text::views(chain@) == err@,
            forall|k: int| 0 <= k < i ==> !is_noise(#[trigger] err@[k]),
        decreases chain@.len() - i,
    {
        assert(err@[i as int] == chain@[i as int]@);
        if noise(chain[i].as_str()) {
            return true;
        }
        i = i + 1;
    }
    false
}

/// A failure is noise just where one of its messages tells of a peer that went away,
/// wherever in it that stands.
pub proof fn departures_are_noise(
    err: &Failure,
    i: int,
    a: Seq<char>,
    b: Seq<char>,
    r: bool,
    quiet: &Failure,
    s: bool,
)
    requires
        call_ensures(is_noisy_disconnect, (err,), r),
        0 <= i < err@.len(),
        err@[i] == a + "Broken pipe (os error 32)"@ + b || err@[i] == a
            + "Connection reset by peer (os error 104)"@ + b || err@[i] == a
            + "Connection reset by peer (os error 54)"@ + b || err@[i] == a
            + "peer closed connection without sending TLS close_notify"@ + b,
        call_ensures(is_noisy_disconnect, (quiet,), s),
        forall|k: int| 0 <= k < quiet@.len() ==> (#[trigger] quiet@[k]).len() < 25,
    ensures
        r,
        !s,
{
    reveal_strlit("Broken pipe (os error 32)");
    reveal_strlit("Connection reset by peer (os error 104)");
    reveal_strlit("Connection reset by peer (os error 54)");
    reveal_strlit("peer closed connection without sending TLS close_notify");
    lemma_holds(a, "Broken pipe (os error 32)"@, b);
    lemma_holds(a, "Connection reset by peer (os error 104)"@, b);
    lemma_holds(a, "Connection reset by peer (os error 54)"@, b);
    lemma_holds(a, "peer closed connection without sending TLS close_notify"@, b);
    assert(is_noise(err@[i]));
    assert forall|k: int| 0 <= k < quiet@.len() implies !is_noise(#[trigger] quiet@[k]) by {}
}

proof fn lemma_holds(a: Seq<char>, pat: Seq<char>, b: Seq<char>)
    ensures
        contains(a + pat + b, pat),
{
    let s = a + pat + b;
    let n = a.len() as int;
    assert(s.subrange(n, n + pat.len()) =~= pat);
    assert(crate::text::occurs_at(s, pat, n));
}

} // verus!
