//! What an operation does, as a mathematical object: a script says, of the
//! replies received so far, either what is asked next or how it all ended.
use vstd::prelude::*;

use crate::request::{FileKind, ReplyView, RequestView};

verus! {

/// What went wrong: a message, then what caused it, and so on to the root.
pub type Trail = Seq<Seq<char>>;

/// How a script came to its end.
pub enum Ending<T> {
    /// With a value.
    Value(T),
    /// With a failure.
    Failed(Trail),
    /// On a reply that does not answer the request.
    Garbled,
}

/// How far some replies take a script.
pub enum Progress<T> {
    /// They are all used up, and this request is asked next.
    Waiting(RequestView),
    /// It is over, and these replies were not used.
    Ended(Ending<T>, Seq<ReplyView>),
}

impl<T> Progress<T> {
    /// Whether a request that is asked next is `allowed`.
    pub open spec fn asks_only(self, allowed: spec_fn(RequestView) -> bool) -> bool {
        match self {
            Progress::Waiting(request) => allowed(request),
            Progress::Ended(_, _) => true,
        }
    }

    /// Whether the replies that were not used are the last ones.
    pub open spec fn leaves_last(self, replies: Seq<ReplyView>) -> bool {
        match self {
            Progress::Waiting(_) => true,
            Progress::Ended(_, rest) => rest.len() <= replies.len() && rest == replies.skip(
                replies.len() - rest.len(),
            ),
        }
    }

    /// Whether `more` is what one more reply can make of this progress: where it
    /// was all over the reply is left over, and where it was not the reply is
    /// used.
    pub open spec fn grows_to(self, reply: ReplyView, more: Progress<T>) -> bool {
        match self {
            Progress::Waiting(_) => match more {
                Progress::Waiting(_) => true,
                Progress::Ended(_, rest) => rest.len() == 0,
            },
            Progress::Ended(ending, rest) => more == Progress::Ended(ending, rest.push(reply)),
        }
    }
}

/// What an operation asks and how it ends, for every sequence of replies.
pub struct Script<T> {
    pub course: spec_fn(Seq<ReplyView>) -> Progress<T>,
}

impl<T> Script<T> {
    /// How far `replies` take this script.
    pub open spec fn play(self, replies: Seq<ReplyView>) -> Progress<T> {
        (self.course)(replies)
    }

    /// This script and, however it ends, the script that `next` has for that.
    pub open spec fn after<U>(self, next: spec_fn(Ending<T>) -> Script<U>) -> Script<U> {
        Script {
            course: |replies: Seq<ReplyView>|
                match self.play(replies) {
                    Progress::Waiting(request) => Progress::Waiting(request),
                    Progress::Ended(ending, rest) => next(ending).play(rest),
                },
        }
    }

    /// This script and, if it ends with a value, the script that `next` has for
    /// that value.
    pub open spec fn and_then<U>(self, next: spec_fn(T) -> Script<U>) -> Script<U> {
        self.after(
            |ending: Ending<T>|
                match ending {
                    Ending::Value(value) => next(value),
                    Ending::Failed(trail) => Script::end(Ending::Failed(trail)),
                    Ending::Garbled => Script::end(Ending::Garbled),
                },
        )
    }

    /// This script and, if it ends with a value, `next`.
    pub open spec fn and<U>(self, next: Script<U>) -> Script<U> {
        self.and_then(|value: T| next)
    }

    /// This script, with `message` in front of whatever failure it ends with.
    pub open spec fn context(self, message: Seq<char>) -> Script<T> {
        self.after(
            |ending: Ending<T>|
                match ending {
                    Ending::Failed(trail) => Script::end(Ending::Failed(seq![message] + trail)),
                    _ => Script::end(ending),
                },
        )
    }

    /// Whether whatever is asked in the course of this script is `allowed`.
    #[verifier::opaque]
    pub open spec fn only_asks(self, allowed: spec_fn(RequestView) -> bool) -> bool {
        forall|replies: Seq<ReplyView>| (#[trigger] self.play(replies)).asks_only(allowed)
    }

    /// Whether replies are used one by one, each for the request that was asked
    /// for it.
    #[verifier::opaque]
    pub open spec fn causal(self) -> bool {
        &&& forall|replies: Seq<ReplyView>| (#[trigger] self.play(replies)).leaves_last(replies)
        &&& forall|replies: Seq<ReplyView>, reply: ReplyView|
            self.play(replies).grows_to(reply, #[trigger] self.play(replies.push(reply)))
    }

    /// The script that is over at once.
    pub open spec fn end(ending: Ending<T>) -> Script<T> {
        Script { course: |replies: Seq<ReplyView>| Progress::Ended(ending, replies) }
    }

    /// The script that ends with `value` at once.
    pub open spec fn give(value: T) -> Script<T> {
        Script::end(Ending::Value(value))
    }

    /// The script that fails at once, with one message.
    pub open spec fn refuse(message: Seq<char>) -> Script<T> {
        Script::end(Ending::Failed(seq![message]))
    }

    /// The script that fails at once, with a message and its cause.
    pub open spec fn fail(message: Seq<char>, cause: Seq<char>) -> Script<T> {
        Script::end(Ending::Failed(seq![message, cause]))
    }

    /// The script that ends at once because a reply does not answer its request.
    pub open spec fn garbled() -> Script<T> {
        Script::end(Ending::Garbled)
    }

    /// The script that asks `request` and goes on as `next` says of the reply.
    pub open spec fn ask(request: RequestView, next: spec_fn(ReplyView) -> Script<T>) -> Script<T> {
        Script {
            course: |replies: Seq<ReplyView>|
                if replies.len() == 0 {
                    Progress::Waiting(request)
                } else {
                    next(replies[0]).play(replies.drop_first())
                },
        }
    }
}

impl Script<()> {
    /// The script that is over at once, with a failure if there is a fault.
    pub open spec fn check(fault: Option<Seq<char>>) -> Script<()> {
        match fault {
            Some(message) => Script::refuse(message),
            None => Script::give(()),
        }
    }

    /// The script that has `request` done, and fails with `message` and the
    /// reason where it cannot be.
    pub open spec fn perform(request: RequestView, message: Seq<char>) -> Script<()> {
        Script::ask(
            request,
            |reply: ReplyView|
                match reply {
                    ReplyView::Done => Script::give(()),
                    ReplyView::Error { not_found, cause } => Script::fail(message, cause),
                    _ => Script::garbled(),
                },
        )
    }

    /// The script that prints a line to standard output.
    pub open spec fn print(line: Seq<char>) -> Script<()> {
        Script::ask(
            RequestView::Print { line },
            |reply: ReplyView|
                match reply {
                    ReplyView::Done => Script::give(()),
                    _ => Script::garbled(),
                },
        )
    }

    /// The script that prints a line to standard error.
    pub open spec fn print_error(line: Seq<char>) -> Script<()> {
        Script::ask(
            RequestView::PrintError { line },
            |reply: ReplyView|
                match reply {
                    ReplyView::Done => Script::give(()),
                    _ => Script::garbled(),
                },
        )
    }

    /// The script that fails with `message` unless the open file is of `kind`.
    pub open spec fn expect_kind(kind: FileKind, message: Seq<char>) -> Script<()> {
        Script::ask(
            RequestView::OpenKind,
            |reply: ReplyView|
                match reply {
                    ReplyView::Kind(found) => if found == kind {
                        Script::give(())
                    } else {
                        Script::refuse(message)
                    },
                    ReplyView::Error { not_found, cause } => Script::refuse(cause),
                    _ => Script::garbled(),
                },
        )
    }

    /// The scripts that `step` has for the items, one after another, up to the
    /// first that does not end with a value.
    pub open spec fn each<A>(items: Seq<A>, step: spec_fn(A) -> Script<()>) -> Script<()>
        decreases items.len(),
    {
        if items.len() == 0 {
            Script::give(())
        } else {
            step(items[0]).and(Script::each(items.drop_first(), step))
        }
    }
}

impl Script<bool> {
    /// The script that ends with the answer to a question.
    pub open spec fn question(request: RequestView) -> Script<bool> {
        Script::ask(
            request,
            |reply: ReplyView|
                match reply {
                    ReplyView::Flag(flag) => Script::give(flag),
                    _ => Script::garbled(),
                },
        )
    }
}

/// A script that is over at once uses no reply.
pub broadcast proof fn end_is_causal<T>(ending: Ending<T>)
    ensures
        #[trigger] Script::end(ending).causal(),
{
    reveal(Script::causal);
    let script = Script::end(ending);
    assert forall|replies: Seq<ReplyView>| (#[trigger] script.play(replies)).leaves_last(
        replies,
    ) by {
        assert(replies.skip(0) =~= replies);
    }
}

/// A script that asks uses the first reply for that.
pub broadcast proof fn ask_is_causal<T>(request: RequestView, next: spec_fn(ReplyView) -> Script<T>)
    requires
        forall|reply: ReplyView| (#[trigger] next(reply)).causal(),
    ensures
        #[trigger] Script::ask(request, next).causal(),
{
    reveal(Script::causal);
    let script = Script::ask(request, next);
    assert forall|replies: Seq<ReplyView>| (#[trigger] script.play(replies)).leaves_last(
        replies,
    ) by {
        if replies.len() > 0 {
            assert(next(replies[0]).causal());
            if let Progress::Ended(_, rest) = next(replies[0]).play(replies.drop_first()) {
                assert(replies.drop_first().skip(replies.len() - 1 - rest.len()) =~= replies.skip(
                    replies.len() - rest.len(),
                ));
            }
        }
    }
    assert forall|replies: Seq<ReplyView>, reply: ReplyView|
        script.play(replies).grows_to(reply, #[trigger] script.play(replies.push(reply))) by {
        let more = replies.push(reply);
        assert(next(more[0]).causal());
        if replies.len() > 0 {
            assert(more.drop_first() =~= replies.drop_first().push(reply));
        } else {
            assert(more.drop_first() =~= seq![]);
        }
    }
}

/// A script that goes on after another uses what that one left.
pub broadcast proof fn after_is_causal<T, U>(
    script: Script<T>,
    next: spec_fn(Ending<T>) -> Script<U>,
)
    requires
        script.causal(),
        forall|ending: Ending<T>| (#[trigger] next(ending)).causal(),
    ensures
        #[trigger] script.after(next).causal(),
{
    reveal(Script::causal);
    let whole = script.after(next);
    assert forall|replies: Seq<ReplyView>| (#[trigger] whole.play(replies)).leaves_last(
        replies,
    ) by {
        if let Progress::Ended(ending, middle) = script.play(replies) {
            assert(next(ending).causal());
            if let Progress::Ended(_, rest) = next(ending).play(middle) {
                assert(middle.skip(middle.len() - rest.len()) =~= replies.skip(
                    replies.len() - rest.len(),
                ));
            }
        }
    }
    assert forall|replies: Seq<ReplyView>, reply: ReplyView|
        whole.play(replies).grows_to(reply, #[trigger] whole.play(replies.push(reply))) by {
        let more = replies.push(reply);
        match script.play(replies) {
            Progress::Ended(ending, rest) => {
                assert(script.play(more) == Progress::Ended(ending, rest.push(reply)));
                assert(next(ending).causal());
                assert(next(ending).play(rest.push(reply)) == whole.play(more));
            },
            Progress::Waiting(_) => {
                if let Progress::Ended(ending, rest) = script.play(more) {
                    assert(next(ending).causal());
                }
            },
        }
    }
}

/// A script that goes on after another only if that one ends with a value uses
/// what that one left.
pub broadcast proof fn and_then_is_causal<T, U>(script: Script<T>, next: spec_fn(T) -> Script<U>)
    requires
        script.causal(),
        forall|value: T| (#[trigger] next(value)).causal(),
    ensures
        #[trigger] script.and_then(next).causal(),
{
    broadcast use {end_is_causal, after_is_causal};

}

/// A script that is followed by another uses replies before that one does.
pub broadcast proof fn and_is_causal<T, U>(script: Script<T>, next: Script<U>)
    requires
        script.causal(),
        next.causal(),
    ensures
        #[trigger] script.and(next).causal(),
{
    broadcast use and_then_is_causal;

}

/// A message in front of a failure uses no reply.
pub broadcast proof fn context_is_causal<T>(script: Script<T>, message: Seq<char>)
    requires
        script.causal(),
    ensures
        #[trigger] script.context(message).causal(),
{
    broadcast use {end_is_causal, after_is_causal};

}

pub broadcast group group_causal {
    end_is_causal,
    ask_is_causal,
    after_is_causal,
    and_then_is_causal,
    and_is_causal,
    context_is_causal,
}

/// Where a causal script is over, all further replies are left over.
pub proof fn lemma_over_is_over<T>(
    script: Script<T>,
    replies: Seq<ReplyView>,
    ending: Ending<T>,
    rest: Seq<ReplyView>,
    more: Seq<ReplyView>,
)
    requires
        script.causal(),
        script.play(replies) == Progress::Ended(ending, rest),
    ensures
        script.play(replies + more) == Progress::Ended(ending, rest + more),
    decreases more.len(),
{
    reveal(Script::causal);
    if more.len() == 0 {
        assert(replies + more =~= replies);
        assert(rest + more =~= rest);
    } else {
        let fewer = more.drop_last();
        lemma_over_is_over(script, replies, ending, rest, fewer);
        assert(replies + more =~= (replies + fewer).push(more.last()));
        assert(rest + more =~= (rest + fewer).push(more.last()));
    }
}

/// Where a causal script left replies over, it was over already before them.
pub proof fn lemma_over_before<T>(
    script: Script<T>,
    replies: Seq<ReplyView>,
    ending: Ending<T>,
    rest: Seq<ReplyView>,
    kept: int,
)
    requires
        script.causal(),
        script.play(replies) == Progress::Ended(ending, rest),
        0 <= kept <= rest.len(),
    ensures
        rest.len() <= replies.len(),
        rest == replies.skip(replies.len() - rest.len()),
        script.play(replies.take(replies.len() - rest.len() + kept)) == Progress::Ended(
            ending,
            rest.take(kept),
        ),
    decreases rest.len() - kept,
{
    reveal(Script::causal);
    assert(script.play(replies).leaves_last(replies));
    let used = replies.len() - rest.len();
    if kept == rest.len() {
        assert(replies.take(used + kept) =~= replies);
        assert(rest.take(kept) =~= rest);
    } else {
        lemma_over_before(script, replies, ending, rest, kept + 1);
        let fewer = replies.take(used + kept);
        let reply = replies[used + kept];
        assert(replies.take(used + kept + 1) =~= fewer.push(reply));
        assert(script.play(fewer).grows_to(reply, script.play(fewer.push(reply))));
        if let Progress::Ended(_, left) = script.play(fewer) {
            assert(left =~= left.push(reply).drop_last());
            assert(rest.take(kept) =~= rest.take(kept + 1).drop_last());
        }
    }
}

/// Where a causal script waits for a reply, it waited for every reply before.
pub proof fn lemma_waited_before<T>(script: Script<T>, replies: Seq<ReplyView>, count: int)
    requires
        script.causal(),
        script.play(replies) is Waiting,
        0 <= count <= replies.len(),
    ensures
        script.play(replies.take(count)) is Waiting,
{
    if let Progress::Ended(ending, rest) = script.play(replies.take(count)) {
        lemma_over_is_over(script, replies.take(count), ending, rest, replies.skip(count));
        assert(replies.take(count) + replies.skip(count) =~= replies);
    }
}

/// A script that is over at once asks nothing.
pub broadcast proof fn end_only_asks<T>(ending: Ending<T>, allowed: spec_fn(RequestView) -> bool)
    ensures
        #[trigger] Script::end(ending).only_asks(allowed),
{
    reveal(Script::only_asks);
}

/// A script that asks goes on to ask what comes after.
pub broadcast proof fn ask_only_asks<T>(
    request: RequestView,
    next: spec_fn(ReplyView) -> Script<T>,
    allowed: spec_fn(RequestView) -> bool,
)
    requires
        allowed(request),
        forall|reply: ReplyView| (#[trigger] next(reply)).only_asks(allowed),
    ensures
        #[trigger] Script::ask(request, next).only_asks(allowed),
{
    reveal(Script::only_asks);
    let script = Script::ask(request, next);
    assert forall|replies: Seq<ReplyView>| (#[trigger] script.play(replies)).asks_only(allowed) by {
        if replies.len() > 0 {
            assert(next(replies[0]).only_asks(allowed));
        }
    }
}

/// A script that goes on after another asks what the two ask.
pub broadcast proof fn after_only_asks<T, U>(
    script: Script<T>,
    next: spec_fn(Ending<T>) -> Script<U>,
    allowed: spec_fn(RequestView) -> bool,
)
    requires
        script.only_asks(allowed),
        forall|ending: Ending<T>| (#[trigger] next(ending)).only_asks(allowed),
    ensures
        #[trigger] script.after(next).only_asks(allowed),
{
    reveal(Script::only_asks);
    let whole = script.after(next);
    assert forall|replies: Seq<ReplyView>| (#[trigger] whole.play(replies)).asks_only(allowed) by {
        if let Progress::Ended(ending, rest) = script.play(replies) {
            assert(next(ending).only_asks(allowed));
        } else {
            assert(script.play(replies).asks_only(allowed));
        }
    }
}

/// A script that goes on after a value asks what the two ask.
pub broadcast proof fn and_then_only_asks<T, U>(
    script: Script<T>,
    next: spec_fn(T) -> Script<U>,
    allowed: spec_fn(RequestView) -> bool,
)
    requires
        script.only_asks(allowed),
        forall|value: T| (#[trigger] next(value)).only_asks(allowed),
    ensures
        #[trigger] script.and_then(next).only_asks(allowed),
{
    broadcast use {end_only_asks, after_only_asks};

}

/// What goes on after a value need only be allowed for the values that there can
/// be.
pub proof fn lemma_values_only_ask<T, U>(
    script: Script<T>,
    next: spec_fn(T) -> Script<U>,
    given: spec_fn(T) -> bool,
    allowed: spec_fn(RequestView) -> bool,
)
    requires
        script.only_asks(allowed),
        forall|replies: Seq<ReplyView>|
            #[trigger] script.play(replies) matches Progress::Ended(Ending::Value(value), _)
                ==> given(value),
        forall|value: T| given(value) ==> (#[trigger] next(value)).only_asks(allowed),
    ensures
        script.and_then(next).only_asks(allowed),
{
    reveal(Script::only_asks);
    let whole = script.and_then(next);
    assert forall|replies: Seq<ReplyView>| (#[trigger] whole.play(replies)).asks_only(allowed) by {
        match script.play(replies) {
            Progress::Ended(Ending::Value(value), rest) => {
                assert(given(value));
                assert(next(value).only_asks(allowed));
            },
            _ => {
                assert(script.play(replies).asks_only(allowed));
            },
        }
    }
}

/// Two scripts in a row ask what the two ask.
pub broadcast proof fn and_only_asks<T, U>(
    script: Script<T>,
    next: Script<U>,
    allowed: spec_fn(RequestView) -> bool,
)
    requires
        script.only_asks(allowed),
        next.only_asks(allowed),
    ensures
        #[trigger] script.and(next).only_asks(allowed),
{
    broadcast use and_then_only_asks;

}

/// A message in front of a failure asks nothing.
pub broadcast proof fn context_only_asks<T>(
    script: Script<T>,
    message: Seq<char>,
    allowed: spec_fn(RequestView) -> bool,
)
    requires
        script.only_asks(allowed),
    ensures
        #[trigger] script.context(message).only_asks(allowed),
{
    broadcast use {end_only_asks, after_only_asks};

}

pub broadcast group group_only_asks {
    end_only_asks,
    ask_only_asks,
    after_only_asks,
    and_then_only_asks,
    and_only_asks,
    context_only_asks,
}

} // verus!
