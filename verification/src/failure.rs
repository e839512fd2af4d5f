//! What an operation reports when it cannot be carried out.
use vstd::prelude::*;

use crate::script::Trail;
use crate::text;

verus! {

/// A failure: a message, then what caused it, and so on to the root cause.
#[derive(Debug, PartialEq, Eq)]
pub struct Failure {
    pub trail: Vec<String>,
}

impl View for Failure {
    type V = Trail;

    open spec fn view(&self) -> Trail {
        self.trail.deep_view()
    }
}

impl Failure {
    /// A failure that is its own cause.
    pub fn new(message: String) -> (failure: Failure)
        ensures
            failure@ == seq![message@],
    {
        let failure = Failure { trail: vec![message] };
        assert(failure@ =~= seq![message@]);
        failure
    }

    /// A failure with the reason for it.
    pub fn because(message: String, cause: String) -> (failure: Failure)
        ensures
            failure@ == seq![message@, cause@],
    {
        let failure = Failure { trail: vec![message, cause] };
        assert(failure@ =~= seq![message@, cause@]);
        failure
    }

    /// The failure that this one is the cause of.
    pub fn context(self, message: String) -> (failure: Failure)
        ensures
            failure@ == seq![message@] + self@,
    {
        let mut trail = self.trail;
        trail.insert(0, message);
        let failure = Failure { trail };
        assert(failure@ =~= seq![message@] + self@);
        failure
    }

    /// The whole trail on one line.
    pub fn one_line(&self) -> (line: String)
        ensures
            line@ == text::joined(self@, ": "@),
    {
        text::join(&self.trail, ": ")
    }
}

} // verus!
