//! What is asked in the course of a script, request by request.
use vstd::prelude::*;

use crate::path;
use crate::request::{FileKind, ReplyView, RequestView, WordView};
use crate::script;
use crate::script::{Ending, Progress, Script};

verus! {

/// Whether `request` is what is asked once the first `count` replies are there,
/// and one more reply is there to answer it.
pub open spec fn asks_at<T>(
    script: Script<T>,
    replies: Seq<ReplyView>,
    count: int,
    request: RequestView,
) -> bool {
    &&& 0 <= count < replies.len()
    &&& script.play(replies.take(count)) == Progress::<T>::Waiting(request)
}

/// Whether the requests are asked one right after another, the first of them once
/// the first `count` replies are there, and all of them are answered.
pub open spec fn asks_in_turn<T>(
    script: Script<T>,
    replies: Seq<ReplyView>,
    count: int,
    requests: Seq<RequestView>,
) -> bool {
    forall|k: int|
        #![trigger requests[k]]
        0 <= k < requests.len() ==> asks_at(script, replies, count + k, requests[k])
}

/// How many replies a script used that left these.
pub open spec fn used(replies: Seq<ReplyView>, rest: Seq<ReplyView>) -> int {
    replies.len() - rest.len()
}

/// Whether a reply tells of a program that succeeded.
pub open spec fn is_success(reply: ReplyView) -> bool {
    reply matches ReplyView::Exited { code, status } && code == Some(0i32)
}

/// Whether a reply tells that there is nothing at a path.
pub open spec fn is_missing(reply: ReplyView) -> bool {
    reply matches ReplyView::Error { not_found, cause } && not_found
}

/// Whether a script, once the first `offset` replies are there, asks what `part`
/// asks of the others.
#[verifier::opaque]
pub open spec fn goes_on_as<T, U>(
    whole: Script<T>,
    replies: Seq<ReplyView>,
    offset: int,
    part: Script<U>,
    others: Seq<ReplyView>,
) -> bool {
    &&& 0 <= offset <= replies.len()
    &&& others == replies.skip(offset)
    &&& forall|count: int|
        #![trigger part.play(others.take(count))]
        0 <= count <= others.len() ==> (part.play(others.take(count)) matches Progress::Waiting(
            request,
        ) ==> whole.play(replies.take(offset + count)) == Progress::<T>::Waiting(request))
}

pub(crate) proof fn goes_on_as_itself<T>(script: Script<T>, replies: Seq<ReplyView>)
    ensures
        goes_on_as(script, replies, 0, script, replies),
{
    reveal(goes_on_as);
    assert(replies.skip(0) =~= replies);
}

pub(crate) proof fn asks_as_part<T, U>(
    whole: Script<T>,
    replies: Seq<ReplyView>,
    offset: int,
    part: Script<U>,
    others: Seq<ReplyView>,
    count: int,
    request: RequestView,
)
    requires
        goes_on_as(whole, replies, offset, part, others),
        asks_at(part, others, count, request),
    ensures
        asks_at(whole, replies, offset + count, request),
        replies[offset + count] == others[count],
{
    reveal(goes_on_as);
    assert(part.play(others.take(count)) is Waiting);
}

pub(crate) proof fn goes_on_after<T, U, V>(
    whole: Script<T>,
    all: Seq<ReplyView>,
    offset: int,
    first: Script<U>,
    next: spec_fn(Ending<U>) -> Script<V>,
    replies: Seq<ReplyView>,
    ending: Ending<U>,
    rest: Seq<ReplyView>,
)
    requires
        first.causal(),
        goes_on_as(whole, all, offset, first.after(next), replies),
        first.play(replies) == Progress::Ended(ending, rest),
    ensures
        rest.len() <= replies.len(),
        goes_on_as(whole, all, offset, first, replies),
        goes_on_as(whole, all, offset + used(replies, rest), next(ending), rest),
{
    reveal(goes_on_as);
    let both = first.after(next);
    assert forall|count: int|
        #![trigger first.play(replies.take(count))]
        0 <= count <= replies.len() implies (first.play(
        replies.take(count),
    ) matches Progress::Waiting(request) ==> whole.play(all.take(offset + count)) == Progress::<
        T,
    >::Waiting(request)) by {
        if first.play(replies.take(count)) is Waiting {
            assert(both.play(replies.take(count)) is Waiting);
        }
    }
    script::lemma_over_before(first, replies, ending, rest, 0);
    let start = used(replies, rest);
    assert(rest =~= all.skip(offset + start));
    assert forall|count: int|
        #![trigger next(ending).play(rest.take(count))]
        0 <= count <= rest.len() implies (next(ending).play(
        rest.take(count),
    ) matches Progress::Waiting(request) ==> whole.play(all.take(offset + start + count))
        == Progress::<T>::Waiting(request)) by {
        script::lemma_over_before(first, replies, ending, rest, count);
        assert(both.play(replies.take(start + count)) == next(ending).play(rest.take(count)));
        if next(ending).play(rest.take(count)) is Waiting {
            assert(both.play(replies.take(start + count)) is Waiting);
        }
    }
}

/// What a script that goes on after a value did to end with a value.
pub(crate) proof fn split_after_value<T, U, V>(
    whole: Script<T>,
    all: Seq<ReplyView>,
    offset: int,
    first: Script<U>,
    next: spec_fn(U) -> Script<V>,
    replies: Seq<ReplyView>,
    value: V,
    rest: Seq<ReplyView>,
) -> (middle: (U, Seq<ReplyView>))
    requires
        first.causal(),
        goes_on_as(whole, all, offset, first.and_then(next), replies),
        first.and_then(next).play(replies) == Progress::Ended(Ending::Value(value), rest),
    ensures
        middle.1.len() <= replies.len(),
        first.play(replies) == Progress::Ended(Ending::Value(middle.0), middle.1),
        next(middle.0).play(middle.1) == Progress::Ended(Ending::Value(value), rest),
        goes_on_as(whole, all, offset, first, replies),
        goes_on_as(whole, all, offset + used(replies, middle.1), next(middle.0), middle.1),
{
    let then_what = |ending: Ending<U>|
        match ending {
            Ending::Value(value) => next(value),
            Ending::Failed(trail) => Script::end(Ending::Failed(trail)),
            Ending::Garbled => Script::end(Ending::Garbled),
        };
    assert(first.and_then(next) == first.after(then_what));
    match first.play(replies) {
        Progress::Ended(Ending::Value(given), left) => {
            goes_on_after(
                whole,
                all,
                offset,
                first,
                then_what,
                replies,
                Ending::Value(given),
                left,
            );
            (given, left)
        },
        _ => (arbitrary(), replies),
    }
}

/// What two scripts in a row did to end with a value.
pub(crate) proof fn split_and<T, U, V>(
    whole: Script<T>,
    all: Seq<ReplyView>,
    offset: int,
    first: Script<U>,
    next: Script<V>,
    replies: Seq<ReplyView>,
    value: V,
    rest: Seq<ReplyView>,
) -> (middle: (U, Seq<ReplyView>))
    requires
        first.causal(),
        goes_on_as(whole, all, offset, first.and(next), replies),
        first.and(next).play(replies) == Progress::Ended(Ending::Value(value), rest),
    ensures
        middle.1.len() <= replies.len(),
        first.play(replies) == Progress::Ended(Ending::Value(middle.0), middle.1),
        next.play(middle.1) == Progress::Ended(Ending::Value(value), rest),
        goes_on_as(whole, all, offset, first, replies),
        goes_on_as(whole, all, offset + used(replies, middle.1), next, middle.1),
{
    split_after_value(whole, all, offset, first, |given: U| next, replies, value, rest)
}

pub(crate) broadcast proof fn first_of_some(replies: Seq<ReplyView>, count: int)
    requires
        0 < count <= replies.len(),
    ensures
        #[trigger] replies.take(count).drop_first() == replies.drop_first().take(count - 1),
{
    assert(replies.take(count).drop_first() =~= replies.drop_first().take(count - 1));
}

/// What gives a path to an owner, who is written with a group.
pub open spec fn gives(path: Seq<char>, owner: Seq<char>) -> RequestView {
    RequestView::Run {
        program: "chown"@,
        arguments: seq![WordView::Text("-h"@), WordView::Text(owner), WordView::Text(path)],
    }
}

/// Whether a directory is seen to between two points: it is created where there
/// is nothing, then opened, found to be a directory, given its permission bits and
/// handed to its owner, and all of that goes well.
pub open spec fn directory_seen_to<T>(
    script: Script<T>,
    replies: Seq<ReplyView>,
    start: int,
    end: int,
    path: Seq<char>,
    mode: u32,
    owner: Seq<char>,
) -> bool {
    &&& 0 <= start < end <= replies.len()
    &&& asks_at(script, replies, start, RequestView::Exists { place: WordView::Text(path) })
    &&& if replies[start] == ReplyView::Flag(true) {
        end == start + 5
    } else {
        &&& end == start + 6
        &&& replies[start] == ReplyView::Flag(false)
        &&& asks_at(script, replies, start + 1, RequestView::CreateDirectories { path })
        &&& replies[start + 1] is Done
    }
    &&& asks_at(script, replies, end - 4, RequestView::OpenDirectory { path })
    &&& replies[end - 4] is Done
    &&& asks_at(script, replies, end - 3, RequestView::OpenKind)
    &&& replies[end - 3] == ReplyView::Kind(FileKind::Directory)
    &&& asks_at(script, replies, end - 2, RequestView::SetMode { mode })
    &&& replies[end - 2] is Done
    &&& asks_at(script, replies, end - 1, gives(path, owner))
    &&& is_success(replies[end - 1])
}

/// Whether a file is seen to between two points: it is created where it is
/// missing, and only there, then found to be a regular file, given its permission
/// bits and handed to its owner, and all of that goes well.
pub open spec fn file_seen_to<T>(
    script: Script<T>,
    replies: Seq<ReplyView>,
    start: int,
    end: int,
    path: Seq<char>,
    mode: u32,
    owner: Seq<char>,
    created: bool,
) -> bool {
    &&& 0 <= start < end <= replies.len()
    &&& asks_at(script, replies, start, RequestView::OpenFile { path })
    &&& if created {
        &&& end == start + 5
        &&& is_missing(replies[start])
        &&& asks_at(script, replies, start + 1, RequestView::CreateFile { path })
        &&& replies[start + 1] is Done
    } else {
        end == start + 4 && replies[start] is Done
    }
    &&& asks_at(script, replies, end - 3, RequestView::OpenKind)
    &&& replies[end - 3] == ReplyView::Kind(FileKind::Regular)
    &&& asks_at(script, replies, end - 2, RequestView::SetMode { mode })
    &&& replies[end - 2] is Done
    &&& asks_at(script, replies, end - 1, gives(path, owner))
    &&& is_success(replies[end - 1])
}

/// Whether a file is emptied and written from some point on, and that goes well.
pub open spec fn file_written<T>(
    script: Script<T>,
    replies: Seq<ReplyView>,
    start: int,
    path: Seq<char>,
    text: Seq<char>,
) -> bool {
    &&& asks_at(script, replies, start, RequestView::OpenEmptied { path })
    &&& replies[start] is Done
    &&& asks_at(script, replies, start + 1, RequestView::WriteContents { text })
    &&& replies[start + 1] is Done
}

/// Whether a link is seen to between two points: it is there and goes the same way
/// as its target, or it is missing and is created, and it is handed to its owner.
pub open spec fn link_seen_to<T>(
    script: Script<T>,
    replies: Seq<ReplyView>,
    start: int,
    end: int,
    link: Seq<char>,
    target: Seq<char>,
    owner: Seq<char>,
) -> bool {
    &&& 0 <= start < end <= replies.len()
    &&& asks_at(script, replies, start, RequestView::ReadLink { path: link })
    &&& match replies[start] {
        ReplyView::Bytes(existing) => end == start + 2 && path::same_way(
            existing,
            vstd::utf8::encode_utf8(target),
        ),
        _ => {
            &&& end == start + 3
            &&& is_missing(replies[start])
            &&& asks_at(script, replies, start + 1, RequestView::CreateLink { link, target })
            &&& replies[start + 1] is Done
        },
    }
    &&& asks_at(script, replies, end - 1, gives(link, owner))
    &&& is_success(replies[end - 1])
}

} // verus!
