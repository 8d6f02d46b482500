//! Failures: what went wrong, and why.

use vstd::prelude::*;
use crate::text::{clone_strings, join, views};

verus! {

/// A failure, told from the outside in.
#[derive(Debug)]
pub struct Failure {
    pub message: String,
    pub causes: Vec<String>,
}

impl View for Failure {
    type V = Seq<Seq<char>>;

    open spec fn view(&self) -> Seq<Seq<char>> {
        seq![self.message@] + views(self.causes@)
    }
}

/// A result with the texts of its failure.
pub open spec fn outcome<T>(r: Result<T, Failure>) -> Result<T, Seq<Seq<char>>> {
    match r {
        Ok(v) => Ok(v),
        Err(e) => Err(e@),
    }
}

/// What is told of something that took too long: a timer gives the cause.
pub open spec fn timed_out(message: Seq<char>) -> Seq<Seq<char>> {
    seq![message, "deadline has elapsed"@]
}

impl Failure {
    /// A failure without a cause.
    pub fn new(message: &str) -> (r: Self)
        ensures
            r@ == seq![message@],
    {
        let r = Failure { message: message.to_owned(), causes: Vec::new() };
        assert(r@ =~= seq![message@]);
        r
    }

    /// A failure with a cause.
    pub fn caused(message: &str, cause: &str) -> (r: Self)
        ensures
            r@ == seq![message@, cause@],
    {
        let r = Failure::new(cause).context(message);
        assert(r@ =~= seq![message@, cause@]);
        r
    }

    /// The failure of something that took too long.
    pub fn timed_out(message: &str) -> (r: Self)
        ensures
            r@ == timed_out(message@),
    {
        Failure::caused(message, "deadline has elapsed")
    }

    /// The failure that this one is the cause of.
    pub fn context(self, message: &str) -> (r: Self)
        ensures
            r@ == seq![message@] + self@,
    {
        let mut causes: Vec<String> = Vec::new();
        causes.push(self.message.clone());
        let mut rest = clone_strings(&self.causes);
        causes.append(&mut rest);
        let r = Failure { message: message.to_owned(), causes };
        assert(r@ =~= seq![message@] + self@);
        r
    }

    /// What went wrong.
    pub fn to_text(&self) -> (r: String)
        ensures
            r@ == self@[0],
    {
        self.message.clone()
    }

    /// What went wrong, then the causes, each behind a colon.
    pub fn full_text(&self) -> (r: String)
        ensures
            r@ == crate::text::joined(self@, ": "@),
    {
        let chain = self.chain();
        let r = join(&chain, 0, ": ");
        assert(views(chain@).skip(0) =~= self@);
        r
    }

    /// The texts of the failure, from the outside in.
    pub fn chain(&self) -> (r: Vec<String>)
        ensures
            views(r@) == self@,
    {
        let mut chain: Vec<String> = Vec::new();
        chain.push(self.message.clone());
        let mut rest = clone_strings(&self.causes);
        chain.append(&mut rest);
        assert(views(chain@) =~= self@);
        chain
    }
}

// ---------------------------------------------------------------------------
// Laws

/// A failure tells its own message first and then its causes; a context goes before
/// all of it.
pub proof fn failures_tell_their_causes(
    message: &str,
    cause: &str,
    plain: Failure,
    caused: Failure,
    late: Failure,
    inner: Failure,
    around: Failure,
    text: String,
    chain: Vec<String>,
    inner_chain: Vec<String>,
)
    requires
        call_ensures(Failure::new, (message,), plain),
        call_ensures(Failure::caused, (message, cause), caused),
        call_ensures(Failure::timed_out, (message,), late),
        call_ensures(Failure::context, (inner, message), around),
        call_ensures(Failure::to_text, (&around,), text),
        call_ensures(Failure::chain, (&around,), chain),
        call_ensures(Failure::chain, (&inner,), inner_chain),
    ensures
        plain@.len() == 1 && plain@[0] == message@,
        caused@.len() == 2 && caused@[0] == message@ && caused@[1] == cause@,
        late@.len() == 2 && late@[0] == message@,
        text@ == message@,
        chain@.len() == inner_chain@.len() + 1,
        views(chain@).skip(1) == views(inner_chain@),
{
    assert(views(chain@).len() == chain@.len());
    assert(views(inner_chain@).len() == inner_chain@.len());
    assert(views(chain@).skip(1) =~= views(inner_chain@));
}

} // verus!
