//! The replies that an operation has received, and the operation's way of
//! asking for more.
//!
//! An operation is an ordinary function that asks its dialogue for whatever only
//! the host can do. Where the reply is already there, it goes on; where it is
//! not, the operation stops with the request that has to be answered first. The
//! host answers it, adds the reply to those it has, and calls the operation
//! again from the start.
use vstd::prelude::*;

use crate::failure::Failure;
use crate::request::{FileKind, Reply, ReplyView, Request};
use crate::script::{Ending, Progress, Script};

verus! {

/// Why an operation did not come to its end with a value.
#[derive(Debug, PartialEq, Eq)]
pub enum Stop {
    /// This request has to be answered first.
    Waiting(Request),
    /// The operation failed.
    Failed(Failure),
    /// A reply does not answer the request it was given for.
    Garbled,
}

/// The replies to the requests that one operation has made so far.
pub struct Dialogue<'a> {
    replies: &'a Vec<Reply>,
    used: usize,
}

impl<'a> Dialogue<'a> {
    #[verifier::type_invariant]
    spec fn well_formed(self) -> bool {
        self.used <= self.replies@.len()
    }

    /// What some replies stand for.
    pub open spec fn views(replies: Seq<Reply>) -> Seq<ReplyView> {
        replies.map_values(|reply: Reply| reply@)
    }

    /// The replies that no request has used.
    pub closed spec fn pending(self) -> Seq<ReplyView> {
        Dialogue::views(self.replies@.skip(self.used as int))
    }

    /// The progress that `result` tells of, where this is what the operation
    /// left of the dialogue.
    pub open spec fn tells<T: DeepView>(self, result: Result<T, Stop>) -> Progress<T::V> {
        match result {
            Ok(value) => Progress::Ended(Ending::Value(value.deep_view()), self.pending()),
            Err(Stop::Waiting(request)) => Progress::Waiting(request@),
            Err(Stop::Failed(failure)) => Progress::Ended(
                Ending::Failed(failure@),
                self.pending(),
            ),
            Err(Stop::Garbled) => Progress::Ended(Ending::Garbled, self.pending()),
        }
    }

    /// A dialogue in which `replies` answer the first requests, in order.
    pub fn new(replies: &'a Vec<Reply>) -> (dialogue: Dialogue<'a>)
        ensures
            dialogue.pending() == Dialogue::views(replies@),
    {
        assert(replies@.skip(0) =~= replies@);
        Dialogue { replies, used: 0 }
    }

    /// Asks for the reply to `request`.
    pub fn ask(&mut self, request: Request) -> (reply: Result<&'a Reply, Stop>)
        ensures
            match reply {
                Ok(reply) => {
                    &&& old(self).pending().len() > 0
                    &&& reply@ == old(self).pending()[0]
                    &&& final(self).pending() == old(self).pending().drop_first()
                },
                Err(stop) => {
                    &&& old(self).pending().len() == 0
                    &&& stop == Stop::Waiting(request)
                    &&& final(self).pending() == old(self).pending()
                },
            },
    {
        proof {
            use_type_invariant(&*self);
        }
        if self.used < self.replies.len() {
            let reply = &self.replies[self.used];
            self.used = self.used + 1;
            assert(self.pending() =~= old(self).pending().drop_first());
            Ok(reply)
        } else {
            Err(Stop::Waiting(request))
        }
    }

    /// Has `request` done; fails with `message` and the reason where it cannot
    /// be.
    pub fn perform(&mut self, request: Request, message: String) -> (result: Result<(), Stop>)
        ensures
            final(self).tells(result) == Script::perform(request@, message@).play(
                old(self).pending(),
            ),
    {
        match self.ask(request)? {
            Reply::Done => Ok(()),
            Reply::Error { not_found, cause } => Err(Stop::fail(message, cause)),
            _ => Err(Stop::Garbled),
        }
    }

    /// Prints a line to standard output.
    pub fn print(&mut self, line: String) -> (result: Result<(), Stop>)
        ensures
            final(self).tells(result) == Script::print(line@).play(old(self).pending()),
    {
        match self.ask(Request::Print { line })? {
            Reply::Done => Ok(()),
            _ => Err(Stop::Garbled),
        }
    }

    /// Prints a line to standard error.
    pub fn print_error(&mut self, line: String) -> (result: Result<(), Stop>)
        ensures
            final(self).tells(result) == Script::print_error(line@).play(old(self).pending()),
    {
        match self.ask(Request::PrintError { line })? {
            Reply::Done => Ok(()),
            _ => Err(Stop::Garbled),
        }
    }

    /// Fails with `message` unless the open file is of `kind`.
    pub fn expect_kind(&mut self, kind: FileKind, message: String) -> (result: Result<(), Stop>)
        ensures
            final(self).tells(result) == Script::expect_kind(kind, message@).play(
                old(self).pending(),
            ),
    {
        match self.ask(Request::OpenKind)? {
            Reply::Kind(found) => {
                if *found == kind {
                    Ok(())
                } else {
                    Err(Stop::refuse(message))
                }
            },
            Reply::Error { not_found, cause } => Err(Stop::refuse(cause.clone())),
            _ => Err(Stop::Garbled),
        }
    }

    /// Asks a question.
    pub fn question(&mut self, request: Request) -> (result: Result<bool, Stop>)
        ensures
            final(self).tells(result) == Script::question(request@).play(old(self).pending()),
    {
        match self.ask(request)? {
            Reply::Flag(flag) => Ok(*flag),
            _ => Err(Stop::Garbled),
        }
    }
}

impl Stop {
    /// A failure with one message.
    pub fn refuse(message: String) -> (stop: Stop)
        ensures
            stop matches Stop::Failed(failure) && failure@ == seq![message@],
    {
        Stop::Failed(Failure::new(message))
    }

    /// A failure with a message and its cause.
    pub fn fail(message: String, cause: &String) -> (stop: Stop)
        ensures
            stop matches Stop::Failed(failure) && failure@ == seq![message@, cause@],
    {
        Stop::Failed(Failure::because(message, cause.clone()))
    }

    /// Goes on after a check that found no fault.
    pub fn unless(check: Result<(), Failure>) -> (result: Result<(), Stop>)
        ensures
            match check {
                Ok(()) => result == Ok::<(), Stop>(()),
                Err(failure) => result == Err::<(), Stop>(Stop::Failed(failure)),
            },
    {
        match check {
            Ok(()) => Ok(()),
            Err(failure) => Err(Stop::Failed(failure)),
        }
    }
}

} // verus!
