//! Errors as a chain of messages.

use vstd::prelude::*;

use crate::text::clone_strings;
use crate::text::join;
use crate::text::joined;
use crate::text::texts;

verus! {

/// The text of the error that a failed integer conversion gives.
pub const OUT_OF_RANGE: &'static str = "out of range integral type conversion attempted";

/// A failure: what went wrong, and beneath it the causes, one message each, the outermost first.
#[derive(Debug)]
pub struct Failure {
    chain: Vec<String>,
}

impl View for Failure {
    type V = Seq<Seq<char>>;

    closed spec fn view(&self) -> Seq<Seq<char>> {
        texts(self.chain@)
    }
}

impl Failure {
    #[verifier::type_invariant]
    spec fn has_a_message(&self) -> bool {
        self.chain.len() > 0
    }

    /// A failure with a message and no cause.
    pub fn new(message: String) -> (failure: Failure)
        ensures
            failure@ == seq![message@],
    {
        let mut chain: Vec<String> = Vec::new();
        chain.push(message);
        let failure = Failure { chain };
        assert(failure@ =~= seq![message@]);
        failure
    }

    /// A failure with a fixed message and no cause.
    pub fn of(message: &str) -> (failure: Failure)
        ensures
            failure@ == seq![message@],
    {
        Failure::new(message.to_owned())
    }

    /// This failure as the cause of another.
    pub fn context(self, message: String) -> (failure: Failure)
        ensures
            failure@ == seq![message@] + self@,
    {
        let mut chain: Vec<String> = Vec::new();
        chain.push(message);
        for i in 0..self.chain.len()
            invariant
                texts(chain@) == seq![message@] + texts(self.chain@).take(i as int),
                chain.len() > 0,
        {
            let ghost before = texts(chain@);
            chain.push(self.chain[i].clone());
            assert(texts(chain@) =~= before.push(self.chain@[i as int]@));
            assert(texts(self.chain@).take(i + 1) =~= texts(self.chain@).take(i as int).push(
                self.chain@[i as int]@,
            ));
        }
        assert(texts(self.chain@).take(self.chain@.len() as int) =~= texts(self.chain@));
        Failure { chain }
    }

    /// A copy of the failure.
    pub fn duplicate(&self) -> (copy: Failure)
        ensures
            copy@ == self@,
    {
        proof {
            use_type_invariant(self);
        }
        Failure { chain: clone_strings(&self.chain) }
    }

    /// The messages, the outermost first.
    pub fn messages(&self) -> (list: Vec<String>)
        ensures
            texts(list@) == self@,
            list.len() > 0,
    {
        proof {
            use_type_invariant(self);
        }
        clone_strings(&self.chain)
    }

    /// The outermost message.
    pub fn to_string(&self) -> (message: String)
        ensures
            self@.len() > 0,
            message@ == self@[0],
    {
        proof {
            use_type_invariant(self);
        }
        self.chain[0].clone()
    }

    /// The whole chain on one line.
    pub fn in_full(&self) -> (message: String)
        ensures
            message@ == joined(self@, ": "@),
    {
        join(&self.chain, ": ")
    }
}

/// The failure of an integer conversion, with what was being converted as its context.
pub fn out_of_range(message: String) -> (failure: Failure)
    ensures
        failure@ == seq![message@, OUT_OF_RANGE@],
{
    let failure = Failure::of(OUT_OF_RANGE).context(message);
    assert(failure@ =~= seq![message@, OUT_OF_RANGE@]);
    failure
}

}
