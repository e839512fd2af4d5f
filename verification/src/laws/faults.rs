//! Which replies an operation goes on after, and what it fails with after the
//! others.
use vstd::prelude::*;

use crate::encoding;
use crate::laws::accounts;
use crate::laws::causality;
use crate::laws::conversation;
use crate::laws::furnishing;
use crate::path;
use crate::process;
use crate::provision;
use crate::request::{FileKind, ReplyView, RequestView, WordView};
use crate::script;
use crate::script::{Ending, Progress, Script, Trail};
use crate::text;
use crate::users;

verus! {

broadcast use {crate::script::group_causal, conversation::first_of_some};

/// What a reply means for the operation that asked for it.
pub enum Verdict {
    /// It goes on, or is over and went well.
    Fine,
    /// It is over, with this failure.
    Fails(Trail),
    /// It is over, for the reply does not answer the request.
    Garbled,
}

/// Whether a request opens something.
pub open spec fn opens(request: RequestView) -> bool {
    ||| request is OpenDirectory
    ||| request is OpenFile
    ||| request is CreateFile
    ||| request is OpenEmptied
    ||| request is OpenReadable
}

/// The last of some requests that opens something, or `before` if none does.
pub open spec fn standing(before: RequestView, requests: Seq<RequestView>) -> RequestView
    decreases requests.len(),
{
    if requests.len() == 0 {
        before
    } else if opens(requests.last()) {
        requests.last()
    } else {
        standing(before, requests.drop_last())
    }
}

/// The requests that were asked for some replies.
pub open spec fn asked_for<T>(script: Script<T>, replies: Seq<ReplyView>) -> Seq<RequestView> {
    Seq::new(replies.len(), |i: int| script.play(replies.take(i))->Waiting_0)
}

/// Whether a verdict is what a script made of the last reply.
pub open spec fn agrees<T>(verdict: Verdict, progress: Progress<T>) -> bool {
    match verdict {
        Verdict::Fine => goes_well(progress),
        Verdict::Fails(trail) => progress == Progress::<T>::Ended(Ending::Failed(trail), seq![]),
        Verdict::Garbled => progress == Progress::<T>::Ended(Ending::Garbled, seq![]),
    }
}

/// Whether a script that waits does with one more reply what the verdict on that
/// reply says. The verdict depends on what was opened last, on the request and on
/// the reply.
pub open spec fn heeds_at<T>(
    script: Script<T>,
    verdict: spec_fn(RequestView, RequestView, ReplyView) -> Verdict,
    before: RequestView,
    replies: Seq<ReplyView>,
    reply: ReplyView,
) -> bool {
    let more = script.play(replies.push(reply));
    match script.play(replies) {
        Progress::Waiting(request) => agrees(
            verdict(standing(before, asked_for(script, replies)), request, reply),
            more,
        ),
        Progress::Ended(_, _) => true,
    }
}

/// Whether a script asks something more, or ended with a value.
pub open spec fn goes_well<T>(progress: Progress<T>) -> bool {
    match progress {
        Progress::Waiting(_) => true,
        Progress::Ended(Ending::Value(_), _) => true,
        Progress::Ended(_, _) => false,
    }
}

/// Whether a script heeds the verdict on every reply.
#[verifier::opaque]
pub open spec fn heeds<T>(
    script: Script<T>,
    verdict: spec_fn(RequestView, RequestView, ReplyView) -> Verdict,
) -> bool {
    forall|before: RequestView, replies: Seq<ReplyView>, reply: ReplyView| #[trigger]
        heeds_at(script, verdict, before, replies, reply)
}

/// Whether a script does not fail before anything is asked.
pub open spec fn starts_well<T>(script: Script<T>) -> bool {
    goes_well(script.play(seq![]))
}

proof fn standing_in_a_row(before: RequestView, one: Seq<RequestView>, other: Seq<RequestView>)
    ensures
        standing(before, one + other) == standing(standing(before, one), other),
    decreases other.len(),
{
    if other.len() == 0 {
        assert(one + other =~= one);
    } else {
        assert((one + other).drop_last() =~= one + other.drop_last());
        standing_in_a_row(before, one, other.drop_last());
    }
}

broadcast proof fn ending_heeds<T>(
    ending: Ending<T>,
    verdict: spec_fn(RequestView, RequestView, ReplyView) -> Verdict,
)
    ensures
        #[trigger] heeds(Script::end(ending), verdict),
{
    reveal(heeds);
}

broadcast proof fn after_heeds<T, U>(
    first: Script<T>,
    next: spec_fn(T) -> Script<U>,
    verdict: spec_fn(RequestView, RequestView, ReplyView) -> Verdict,
)
    requires
        first.causal(),
        heeds(first, verdict),
        forall|value: T| (#[trigger] next(value)).causal(),
        forall|value: T| heeds(#[trigger] next(value), verdict),
        forall|value: T| starts_well(#[trigger] next(value)),
    ensures
        #[trigger] heeds(first.and_then(next), verdict),
{
    reveal(heeds);
    let whole = first.and_then(next);
    assert forall|before: RequestView, replies: Seq<ReplyView>, reply: ReplyView| #[trigger]
        heeds_at(whole, verdict, before, replies, reply) by {
        let more = replies.push(reply);
        if whole.play(replies) is Waiting {
            match first.play(replies) {
                Progress::Waiting(_) => {
                    assert(heeds_at(first, verdict, before, replies, reply));
                    assert forall|i: int| 0 <= i < replies.len() implies asked_for(
                        first,
                        replies,
                    )[i] == asked_for(whole, replies)[i] by {
                        script::lemma_waited_before(first, replies, i);
                    }
                    assert(asked_for(first, replies) =~= asked_for(whole, replies));
                    reveal(Script::causal);
                    assert(first.play(replies).grows_to(reply, first.play(more)));
                    if let Progress::Ended(Ending::Value(value), rest) = first.play(more) {
                        assert(rest =~= seq![]);
                        assert(starts_well(next(value)));
                    }
                },
                Progress::Ended(Ending::Value(value), rest) => {
                    let part = next(value);
                    script::lemma_over_before(first, replies, Ending::Value(value), rest, 0);
                    let start = replies.len() - rest.len();
                    let early = replies.take(start);
                    let later = standing(before, asked_for(first, early));
                    assert(heeds_at(part, verdict, later, rest, reply));
                    standing_in_a_row(before, asked_for(first, early), asked_for(part, rest));
                    assert(asked_for(whole, replies) =~= asked_for(first, early) + asked_for(
                        part,
                        rest,
                    )) by {
                        assert forall|i: int| 0 <= i < replies.len() implies asked_for(
                            whole,
                            replies,
                        )[i] == (asked_for(first, early) + asked_for(part, rest))[i] by {
                            if i < start {
                                assert(early.take(i) =~= replies.take(i));
                                if let Progress::Ended(ending, left) = first.play(
                                    replies.take(i),
                                ) {
                                    script::lemma_over_is_over(
                                        first,
                                        replies.take(i),
                                        ending,
                                        left,
                                        early.skip(i),
                                    );
                                    assert(replies.take(i) + early.skip(i) =~= early);
                                    assert((left + early.skip(i)).len() > 0);
                                }
                            } else {
                                script::lemma_over_before(
                                    first,
                                    replies,
                                    Ending::Value(value),
                                    rest,
                                    i - start,
                                );
                            }
                        }
                    }
                    reveal(Script::causal);
                    assert(first.play(replies).grows_to(reply, first.play(more)));
                },
                _ => {},
            }
        }
    }
}

broadcast proof fn and_heeds<T, U>(
    first: Script<T>,
    next: Script<U>,
    verdict: spec_fn(RequestView, RequestView, ReplyView) -> Verdict,
)
    requires
        first.causal(),
        heeds(first, verdict),
        next.causal(),
        heeds(next, verdict),
        starts_well(next),
    ensures
        #[trigger] heeds(first.and(next), verdict),
{
    after_heeds(first, |value: T| next, verdict);
}

broadcast proof fn ask_heeds<T>(
    request: RequestView,
    next: spec_fn(ReplyView) -> Script<T>,
    verdict: spec_fn(RequestView, RequestView, ReplyView) -> Verdict,
)
    requires
        forall|reply: ReplyView| heeds(#[trigger] next(reply), verdict),
        forall|before: RequestView, reply: ReplyView|
            #![trigger verdict(before, request, reply)]
            agrees(verdict(before, request, reply), next(reply).play(seq![])),
    ensures
        #[trigger] heeds(Script::ask(request, next), verdict),
{
    reveal(heeds);
    let whole = Script::ask(request, next);
    assert forall|before: RequestView, replies: Seq<ReplyView>, reply: ReplyView| #[trigger]
        heeds_at(whole, verdict, before, replies, reply) by {
        let more = replies.push(reply);
        if replies.len() == 0 {
            assert(asked_for(whole, replies) =~= seq![]);
            assert(more.drop_first() =~= seq![]);
            assert(agrees(verdict(before, request, reply), next(reply).play(seq![])));
        } else {
            let part = next(replies[0]);
            let rest = replies.drop_first();
            let later = standing(before, seq![request]);
            assert(heeds_at(part, verdict, later, rest, reply));
            assert(more.drop_first() =~= rest.push(reply));
            standing_in_a_row(before, seq![request], asked_for(part, rest));
            assert forall|i: int| 0 <= i < replies.len() implies asked_for(whole, replies)[i] == (
            seq![request] + asked_for(part, rest))[i] by {
                if i == 0 {
                    assert(replies.take(0).len() == 0);
                } else {
                    assert(replies.take(i).drop_first() =~= rest.take(i - 1));
                }
            }
            assert(asked_for(whole, replies) =~= seq![request] + asked_for(part, rest));
        }
    }
}

broadcast proof fn after_starts<T, U>(first: Script<T>, next: spec_fn(T) -> Script<U>)
    requires
        first.causal(),
        starts_well(first),
        forall|value: T| starts_well(#[trigger] next(value)),
    ensures
        #[trigger] starts_well(first.and_then(next)),
{
    reveal(Script::causal);
    assert(first.play(seq![]).leaves_last(seq![]));
    if let Progress::Ended(Ending::Value(value), rest) = first.play(seq![]) {
        assert(rest =~= seq![]);
        assert(starts_well(next(value)));
    }
}

broadcast proof fn and_starts<T, U>(first: Script<T>, next: Script<U>)
    requires
        first.causal(),
        starts_well(first),
        starts_well(next),
    ensures
        #[trigger] starts_well(first.and(next)),
{
    after_starts(first, |value: T| next);
}

broadcast group group_heeds {
    after_starts,
    and_starts,
    ending_heeds,
    after_heeds,
    and_heeds,
    ask_heeds,
}

/// What an operation on an account is about.
pub enum Purpose {
    /// The account is added.
    Adding,
    /// The account is repaired or deleted.
    Tending,
    /// The addresses of the account are shown.
    Showing,
    /// The addresses of the account are changed.
    Changing,
}

/// Where nothing but what was asked for will do.
pub open spec fn unless_done(reply: ReplyView, message: Seq<char>) -> Verdict {
    match reply {
        ReplyView::Done => Verdict::Fine,
        ReplyView::Error { not_found, cause } => Verdict::Fails(seq![message, cause]),
        _ => Verdict::Garbled,
    }
}

/// Where a program must succeed.
pub open spec fn unless_success(
    reply: ReplyView,
    unsuccessful: Seq<char>,
    not_run: Seq<char>,
) -> Verdict {
    match reply {
        ReplyView::Exited { code, status } => if code == Some(0i32) {
            Verdict::Fine
        } else {
            Verdict::Fails(seq![unsuccessful + status])
        },
        ReplyView::Error { not_found, cause } => Verdict::Fails(seq![not_run, cause]),
        _ => Verdict::Garbled,
    }
}

/// A failure of which this is said first.
pub open spec fn said_first(message: Seq<char>, verdict: Verdict) -> Verdict {
    match verdict {
        Verdict::Fails(trail) => Verdict::Fails(seq![message] + trail),
        other => other,
    }
}

/// The path that a request opens.
pub open spec fn path_of(request: RequestView) -> Seq<char> {
    match request {
        RequestView::OpenDirectory { path } => path,
        RequestView::OpenFile { path } => path,
        RequestView::CreateFile { path } => path,
        RequestView::OpenEmptied { path } => path,
        RequestView::OpenReadable { path } => path,
        _ => seq![],
    }
}

/// What a reply means for an operation on an account: which replies are as they
/// should be, and what is told of every other.
pub open spec fn on_account(
    purpose: Purpose,
    username: Seq<char>,
    open: RequestView,
    request: RequestView,
    reply: ReplyView,
) -> Verdict {
    let home = "/home/"@ + username;
    let path = path_of(open);
    match request {
        RequestView::RunQuietly { program, arguments } => match reply {
            ReplyView::Exited { code, status } => if code == Some(0i32) {
                if purpose is Adding {
                    Verdict::Fails(seq!["account already exists: "@ + username])
                } else {
                    Verdict::Fine
                }
            } else if code == Some(2i32) {
                if purpose is Adding {
                    Verdict::Fine
                } else {
                    Verdict::Fails(seq!["account does not exist: "@ + username])
                }
            } else {
                Verdict::Fails(seq!["getent passwd failed with "@ + status])
            },
            ReplyView::Error { not_found, cause } => Verdict::Fails(seq!["run getent"@, cause]),
            _ => Verdict::Garbled,
        },
        RequestView::Run { program, arguments } => {
            let plain = unless_success(reply, program + " failed with "@, "run "@ + program);
            if program == "chown"@ {
                said_first("set owner of "@ + arguments[2]->Text_0, plain)
            } else {
                plain
            }
        },
        RequestView::LinkKind { path } => match reply {
            ReplyView::Kind(kind) => if kind == FileKind::Directory {
                Verdict::Fine
            } else {
                Verdict::Fails(seq!["expected home directory does not exist: "@ + path])
            },
            ReplyView::Error { not_found, cause } => Verdict::Fails(
                seq!["inspect "@ + path, cause],
            ),
            _ => Verdict::Garbled,
        },
        RequestView::Exists { place } => if reply is Flag {
            Verdict::Fine
        } else {
            Verdict::Garbled
        },
        RequestView::CreateDirectories { path } => unless_done(reply, "create "@ + path),
        RequestView::OpenDirectory { path } => unless_done(
            reply,
            if path == home {
                "open home directory without following links: "@ + path
            } else {
                "open directory without following links: "@ + path
            },
        ),
        RequestView::OpenFile { path } => if conversation::is_missing(reply) {
            Verdict::Fine
        } else {
            unless_done(reply, "open file without following links: "@ + path)
        },
        RequestView::CreateFile { path } => unless_done(reply, "create "@ + path),
        RequestView::OpenEmptied { path } => unless_done(
            reply,
            "open file without following links: "@ + path,
        ),
        RequestView::OpenReadable { path } => unless_done(reply, "open "@ + path),
        RequestView::OpenKind => match reply {
            ReplyView::Kind(kind) => if open is OpenDirectory {
                if kind == FileKind::Directory {
                    Verdict::Fine
                } else if path == home {
                    Verdict::Fails(seq!["expected home directory does not exist: "@ + path])
                } else {
                    Verdict::Fails(seq![path + " is not a directory"@])
                }
            } else if kind == FileKind::Regular {
                Verdict::Fine
            } else {
                Verdict::Fails(seq![path + " is not a regular file"@])
            },
            ReplyView::Error { not_found, cause } => Verdict::Fails(seq![cause]),
            _ => Verdict::Garbled,
        },
        RequestView::SetMode { mode } => unless_done(
            reply,
            "chmod "@ + text::octal_text(mode as nat) + " "@ + path,
        ),
        RequestView::WriteContents { text } => unless_done(reply, "write "@ + path),
        RequestView::ReadLink { path } => match reply {
            ReplyView::Bytes(existing) => {
                let target = target_of(username, path);
                if path::same_way(existing, vstd::utf8::encode_utf8(target)) {
                    Verdict::Fine
                } else {
                    Verdict::Fails(
                        seq![
                            path + " points to "@ + encoding::lossy(existing) + ", expected "@
                                + target,
                        ],
                    )
                }
            },
            ReplyView::Error { not_found, cause } => if not_found {
                Verdict::Fine
            } else {
                Verdict::Fails(seq!["inspect "@ + path, cause])
            },
            _ => Verdict::Garbled,
        },
        RequestView::CreateLink { link, target } => unless_done(
            reply,
            "link "@ + link + " to "@ + target,
        ),
        RequestView::RemoveTree { path } => if conversation::is_missing(reply) {
            Verdict::Fine
        } else {
            unless_done(reply, "remove "@ + path)
        },
        RequestView::GetAttribute { name } => match reply {
            ReplyView::Bytes(value) => if purpose is Changing || vstd::utf8::valid_utf8(value) {
                Verdict::Fine
            } else {
                Verdict::Fails(
                    seq![
                        name + " for "@ + username + " is not valid UTF-8"@,
                        encoding::utf8_complaint(value),
                    ],
                )
            },
            ReplyView::Absent => if purpose is Showing && name == "trusted.signup"@ {
                Verdict::Fails(seq!["trusted.signup is not set for "@ + username])
            } else {
                Verdict::Fine
            },
            ReplyView::Error { not_found, cause } => Verdict::Fails(
                seq!["read "@ + name + " for "@ + username, cause],
            ),
            _ => Verdict::Garbled,
        },
        RequestView::SetAttribute { name, value } => unless_done(
            reply,
            "set "@ + name + " for "@ + username,
        ),
        RequestView::ReadByte => match reply {
            ReplyView::Byte(_) => Verdict::Fine,
            ReplyView::Error { not_found, cause } => Verdict::Fails(
                seq!["read random bytes"@, cause],
            ),
            _ => Verdict::Garbled,
        },
        RequestView::Start { program } => unless_done(reply, "start "@ + program),
        RequestView::HasInput => match reply {
            ReplyView::Flag(flag) => if flag {
                Verdict::Fine
            } else {
                Verdict::Fails(seq!["open chpasswd stdin"@])
            },
            _ => Verdict::Garbled,
        },
        RequestView::WriteInput { text } => unless_done(reply, "write password to chpasswd"@),
        RequestView::Wait => unless_success(
            reply,
            "chpasswd failed with "@,
            "wait for chpasswd"@,
        ),
        _ => if reply is Done {
            Verdict::Fine
        } else {
            Verdict::Garbled
        },
    }
}

/// Where a link of an account should lead.
pub open spec fn target_of(username: Seq<char>, link: Seq<char>) -> Seq<char> {
    if link == "/home/"@ + username + "/public_html"@ {
        "/srv/user_sites/"@ + username
    } else if link == "/home/"@ + username + "/.plan"@ {
        "/srv/user_profiles/"@ + username + "/.plan"@
    } else {
        "/srv/user_profiles/"@ + username + "/.project"@
    }
}

/// [`on_account`] for one purpose and one account.
pub open spec fn verdict_for(purpose: Purpose, username: Seq<char>) -> spec_fn(
    RequestView,
    RequestView,
    ReplyView,
) -> Verdict {
    |open: RequestView, request: RequestView, reply: ReplyView|
        on_account(purpose, username, open, request, reply)
}

proof fn set_owner_heeds(
    purpose: Purpose,
    username: Seq<char>,
    path: Seq<char>,
    owner: Seq<char>,
    group: Seq<char>,
)
    ensures
        heeds(
            provision::set_owner_script(path, owner, group),
            verdict_for(purpose, username),
        ),
{
    reveal(heeds);
    let script = provision::set_owner_script(path, owner, group);
    let verdict = verdict_for(purpose, username);
    assert forall|before: RequestView, replies: Seq<ReplyView>, reply: ReplyView| #[trigger]
        heeds_at(script, verdict, before, replies, reply) by {
        let more = replies.push(reply);
        if replies.len() == 0 {
            assert(more.drop_first() =~= seq![]);
            if let ReplyView::Error { not_found, cause } = reply {
                assert(seq!["set owner of "@ + path] + seq!["run "@ + "chown"@, cause] =~= seq![
                    "set owner of "@ + path,
                    "run "@ + "chown"@,
                    cause,
                ]);
            }
        }
    }
}

/// What is opened, found to be of a kind, and given its permission bits.
spec fn opened_script(
    open: RequestView,
    message: Seq<char>,
    kind: FileKind,
    wrong: Seq<char>,
    mode: u32,
) -> Script<()> {
    Script::perform(open, message).and(Script::expect_kind(kind, wrong)).and(
        Script::perform(
            RequestView::SetMode { mode },
            "chmod "@ + text::octal_text(mode as nat) + " "@ + path_of(open),
        ),
    )
}

proof fn opened_heeds(
    purpose: Purpose,
    username: Seq<char>,
    open: RequestView,
    message: Seq<char>,
    kind: FileKind,
    wrong: Seq<char>,
    mode: u32,
)
    requires
        open is OpenDirectory,
        kind == FileKind::Directory,
        forall|before: RequestView, reply: ReplyView|
            #![trigger on_account(purpose, username, before, open, reply)]
            on_account(purpose, username, before, open, reply) == unless_done(reply, message),
        forall|found: FileKind|
            found != kind ==> #[trigger] on_account(
                purpose,
                username,
                open,
                RequestView::OpenKind,
                ReplyView::Kind(found),
            ) == Verdict::Fails(seq![wrong]),
    ensures
        heeds(opened_script(open, message, kind, wrong, mode), verdict_for(purpose, username)),
{
    reveal(heeds);
    let script = opened_script(open, message, kind, wrong, mode);
    let verdict = verdict_for(purpose, username);
    assert forall|before: RequestView, replies: Seq<ReplyView>, reply: ReplyView| #[trigger]
        heeds_at(script, verdict, before, replies, reply) by {
        let more = replies.push(reply);
        if script.play(replies) is Waiting {
            reveal_with_fuel(standing, 4);
            let asked = asked_for(script, replies);
            if replies.len() == 0 {
                assert(more.drop_first() =~= seq![]);
                assert(asked =~= seq![]);
                assert(on_account(purpose, username, before, open, reply) == unless_done(
                    reply,
                    message,
                ));
            } else if replies.len() == 1 {
                assert(replies.take(0) =~= seq![]);
                assert(asked =~= seq![open]);
                assert(more.drop_first() =~= seq![reply]);
                assert(seq![reply].drop_first() =~= seq![]);
                assert(replies.drop_first() =~= seq![]);
                assert(standing(before, asked) == open);
                if let ReplyView::Kind(found) = reply {
                    assert(found != kind ==> on_account(
                        purpose,
                        username,
                        open,
                        RequestView::OpenKind,
                        ReplyView::Kind(found),
                    ) == Verdict::Fails(seq![wrong]));
                }
            } else {
                assert(replies.take(0) =~= seq![]);
                assert(replies.len() == 2);
                assert(replies.take(1).drop_first() =~= seq![]);
                assert(asked =~= seq![open, RequestView::OpenKind]);
                assert(asked.drop_last() =~= seq![open]);
                assert(standing(before, asked) == open);
                assert(more.drop_first() =~= seq![replies[1], reply]);
                assert(seq![replies[1], reply].drop_first() =~= seq![reply]);
                assert(seq![reply].drop_first() =~= seq![]);
                assert(replies.drop_first() =~= seq![replies[1]]);
                assert(seq![replies[1]].drop_first() =~= seq![]);
            }
        }
    }
}

/// Scripts that are always as far as each other heed the same verdicts.
proof fn alike_heed<T>(
    one: Script<T>,
    other: Script<T>,
    verdict: spec_fn(RequestView, RequestView, ReplyView) -> Verdict,
)
    requires
        heeds(one, verdict),
        forall|replies: Seq<ReplyView>| one.play(replies) == #[trigger] other.play(replies),
    ensures
        heeds(other, verdict),
{
    reveal(heeds);
    assert forall|before: RequestView, replies: Seq<ReplyView>, reply: ReplyView| #[trigger]
        heeds_at(other, verdict, before, replies, reply) by {
        assert(heeds_at(one, verdict, before, replies, reply));
        assert(one.play(replies.push(reply)) == other.play(replies.push(reply)));
        assert forall|i: int| 0 <= i < replies.len() implies asked_for(one, replies)[i]
            == asked_for(other, replies)[i] by {
            assert(one.play(replies.take(i)) == other.play(replies.take(i)));
        }
        assert(asked_for(one, replies) =~= asked_for(other, replies));
    }
}

proof fn directory_heeds(
    purpose: Purpose,
    username: Seq<char>,
    path: Seq<char>,
    mode: u32,
    owner: Seq<char>,
    group: Seq<char>,
)
    requires
        path != "/home/"@ + username,
    ensures
        heeds(
            provision::ensure_directory_script(path, mode, owner, group),
            verdict_for(purpose, username),
        ),
        starts_well(provision::ensure_directory_script(path, mode, owner, group)),
{
    broadcast use {group_heeds, causality::group_steps, causality::group_files};

    let verdict = verdict_for(purpose, username);
    let open = RequestView::OpenDirectory { path };
    let message = "open directory without following links: "@ + path;
    let wrong = path + " is not a directory"@;
    let make = |exists: bool|
        if exists {
            Script::give(())
        } else {
            Script::perform(RequestView::CreateDirectories { path }, "create "@ + path)
        };
    let there = Script::question(
        RequestView::Exists { place: WordView::Text(path) },
    ).and_then(make);
    let opened = opened_script(open, message, FileKind::Directory, wrong, mode);
    let chown = provision::set_owner_script(path, owner, group);
    opened_heeds(purpose, username, open, message, FileKind::Directory, wrong, mode);
    set_owner_heeds(purpose, username, path, owner, group);
    assert(heeds(there, verdict));
    assert(heeds(there.and(opened).and(chown), verdict));
    reveal(provision::ensure_directory_script);
    alike_heed(
        there.and(opened).and(chown),
        provision::ensure_directory_script(path, mode, owner, group),
        verdict,
    );
}

/// What is opened or created, found to be a regular file, and given its permission
/// bits.
spec fn opened_file_script(path: Seq<char>, mode: u32) -> Script<bool> {
    provision::open_or_create_script(path).and_then(
        |created: bool|
            Script::expect_kind(FileKind::Regular, path + " is not a regular file"@).and(
                Script::perform(
                    RequestView::SetMode { mode },
                    "chmod "@ + text::octal_text(mode as nat) + " "@ + path,
                ),
            ).and(Script::give(created)),
    )
}

proof fn opened_file_heeds(purpose: Purpose, username: Seq<char>, path: Seq<char>, mode: u32)
    ensures
        heeds(opened_file_script(path, mode), verdict_for(purpose, username)),
{
    reveal(heeds);
    let script = opened_file_script(path, mode);
    let verdict = verdict_for(purpose, username);
    let open = RequestView::OpenFile { path };
    let create = RequestView::CreateFile { path };
    let kind = RequestView::OpenKind;
    assert forall|before: RequestView, replies: Seq<ReplyView>, reply: ReplyView| #[trigger]
        heeds_at(script, verdict, before, replies, reply) by {
        let more = replies.push(reply);
        if script.play(replies) is Waiting {
            reveal_with_fuel(standing, 4);
            let asked = asked_for(script, replies);
            assert(replies.len() <= 3);
            assert(seq![reply].drop_first() =~= seq![]);
            if replies.len() == 0 {
                assert(more.drop_first() =~= seq![]);
                assert(asked =~= seq![]);
            } else if replies.len() == 1 {
                assert(replies.take(0) =~= seq![]);
                assert(asked =~= seq![open]);
                assert(standing(before, asked) == open);
                assert(more.drop_first() =~= seq![reply]);
                assert(replies.drop_first() =~= seq![]);
            } else {
                assert(replies.take(0) =~= seq![]);
                let second = seq![replies[1]];
                assert(replies.take(1).drop_first() =~= seq![]);
                assert(second.drop_first() =~= seq![]);
                assert(seq![replies[1], reply].drop_first() =~= seq![reply]);
                if replies.len() == 2 {
                    assert(replies.drop_first() =~= second);
                    assert(more.drop_first() =~= seq![replies[1], reply]);
                    if replies[0] is Done {
                        assert(asked =~= seq![open, kind]);
                        assert(asked.drop_last() =~= seq![open]);
                        assert(standing(before, asked) == open);
                    } else {
                        assert(asked =~= seq![open, create]);
                        assert(standing(before, asked) == create);
                    }
                } else {
                    assert(replies.drop_first() =~= seq![replies[1], replies[2]]);
                    assert(seq![replies[1], replies[2]].drop_first() =~= seq![replies[2]]);
                    assert(seq![replies[2]].drop_first() =~= seq![]);
                    assert(replies.take(2).drop_first() =~= second);
                    assert(more.drop_first() =~= seq![replies[1], replies[2], reply]);
                    assert(seq![replies[1], replies[2], reply].drop_first() =~= seq![
                        replies[2],
                        reply,
                    ]);
                    assert(seq![replies[2], reply].drop_first() =~= seq![reply]);
                    assert(asked =~= seq![open, create, kind]);
                    assert(asked.drop_last() =~= seq![open, create]);
                    assert(standing(before, asked) == create);
                }
            }
        }
    }
}

proof fn file_heeds(
    purpose: Purpose,
    username: Seq<char>,
    path: Seq<char>,
    mode: u32,
    owner: Seq<char>,
    group: Seq<char>,
)
    ensures
        heeds(
            provision::ensure_file_script(path, mode, owner, group),
            verdict_for(purpose, username),
        ),
        starts_well(provision::ensure_file_script(path, mode, owner, group)),
{
    broadcast use {group_heeds, causality::group_steps, causality::group_files};

    let verdict = verdict_for(purpose, username);
    let chown = provision::set_owner_script(path, owner, group);
    let hand_over = |created: bool| chown.and(Script::give(created));
    let opened = opened_file_script(path, mode);
    opened_file_heeds(purpose, username, path, mode);
    set_owner_heeds(purpose, username, path, owner, group);
    assert(provision::open_or_create_script(path).causal());
    assert(heeds(opened.and_then(hand_over), verdict));
    alike_heed(
        opened.and_then(hand_over),
        provision::ensure_file_script(path, mode, owner, group),
        verdict,
    );
}

proof fn writing_heeds(purpose: Purpose, username: Seq<char>, path: Seq<char>, text: Seq<char>)
    ensures
        heeds(provision::write_file_script(path, text), verdict_for(purpose, username)),
        starts_well(provision::write_file_script(path, text)),
{
    reveal(heeds);
    let script = provision::write_file_script(path, text);
    let verdict = verdict_for(purpose, username);
    let open = RequestView::OpenEmptied { path };
    assert forall|before: RequestView, replies: Seq<ReplyView>, reply: ReplyView| #[trigger]
        heeds_at(script, verdict, before, replies, reply) by {
        let more = replies.push(reply);
        let asked = asked_for(script, replies);
        if script.play(replies) is Waiting {
            reveal_with_fuel(standing, 3);
            assert(replies.len() <= 1);
            assert(seq![reply].drop_first() =~= seq![]);
            if replies.len() == 0 {
                assert(more.drop_first() =~= seq![]);
            } else {
                assert(replies.take(0) =~= seq![]);
                assert(asked =~= seq![open]);
                assert(more.drop_first() =~= seq![reply]);
                assert(replies.drop_first() =~= seq![]);
            }
        }
    }
}

proof fn link_heeds(
    purpose: Purpose,
    username: Seq<char>,
    link: Seq<char>,
    target: Seq<char>,
    owner: Seq<char>,
    group: Seq<char>,
)
    requires
        target == target_of(username, link),
    ensures
        heeds(
            provision::ensure_symlink_script(link, target, owner, group),
            verdict_for(purpose, username),
        ),
        starts_well(provision::ensure_symlink_script(link, target, owner, group)),
{
    broadcast use {group_heeds, causality::group_steps, causality::group_files};

    set_owner_heeds(purpose, username, link, owner, group);
}

proof fn run_heeds(
    purpose: Purpose,
    username: Seq<char>,
    program: Seq<char>,
    arguments: Seq<WordView>,
)
    requires
        program != "chown"@,
    ensures
        heeds(process::run_script(program, arguments), verdict_for(purpose, username)),
{
    broadcast use group_heeds;

}

proof fn not_chown()
    ensures
        "restorecon"@ != "chown"@,
        "useradd"@ != "chown"@,
        "userdel"@ != "chown"@,
{
    reveal_strlit("chown");
    reveal_strlit("restorecon");
    reveal_strlit("useradd");
    reveal_strlit("userdel");
    assert("chown"@.len() == 5 && "restorecon"@.len() == 10);
    assert("useradd"@.len() == 7 && "userdel"@.len() == 7);
}

proof fn paths_differ(username: Seq<char>)
    ensures
        ({
            let home = "/home/"@ + username;
            let site = "/srv/user_sites/"@ + username;
            let profiles = "/srv/user_profiles/"@ + username;
            &&& home + "/.ssh"@ != home
            &&& site != home
            &&& "/srv/user_profiles"@ != home
            &&& profiles != home
            &&& target_of(username, home + "/public_html"@) == site
            &&& target_of(username, home + "/.plan"@) == profiles + "/.plan"@
            &&& target_of(username, home + "/.project"@) == profiles + "/.project"@
        }),
{
    reveal_strlit("/home/");
    reveal_strlit("/srv/user_sites/");
    reveal_strlit("/srv/user_profiles");
    reveal_strlit("/srv/user_profiles/");
    reveal_strlit("/.ssh");
    reveal_strlit("/public_html");
    reveal_strlit("/.plan");
    reveal_strlit("/.project");
    let home = "/home/"@ + username;
    let site = "/srv/user_sites/"@ + username;
    let profiles = "/srv/user_profiles/"@ + username;
    assert((home + "/.ssh"@).len() == home.len() + 5);
    assert(home[1] == 'h' && site[1] == 's' && profiles[1] == 's');
    assert((home + "/public_html"@).len() == home.len() + 12);
    assert((home + "/.plan"@).len() == home.len() + 6);
    assert((home + "/.project"@).len() == home.len() + 9);
}

proof fn apply_heeds(purpose: Purpose, username: Seq<char>, ssh_key: Option<Seq<char>>)
    requires
        furnishing::one_entry(username),
    ensures
        heeds(provision::apply_script(username, ssh_key), verdict_for(purpose, username)),
        starts_well(provision::apply_script(username, ssh_key)),
{
    broadcast use {group_heeds, causality::group_steps, causality::group_files};

    let verdict = verdict_for(purpose, username);
    furnishing::places(username);
    paths_differ(username);
    let home = provision::home_of(username);
    let ssh = path::below(home, ".ssh"@);
    let keys = provision::keys_of(username);
    let site = provision::site_of(username);
    let page = path::below(site, "index.html"@);
    let html = path::below(home, "public_html"@);
    let profiles = provision::profiles_of(username);
    let group = provision::PROFILE_GROUP@;
    causality::inspect_home_is_causal(home);
    causality::keys_is_causal(username, ssh_key);
    causality::site_is_causal(username);
    causality::profile_is_causal(username, ".plan"@);
    causality::profile_is_causal(username, ".project"@);
    assert(heeds(provision::inspect_home_script(home), verdict) && starts_well(
        provision::inspect_home_script(home),
    )) by {
        reveal(provision::inspect_home_script);
    }
    assert(heeds(provision::keys_script(username, ssh_key), verdict) && starts_well(
        provision::keys_script(username, ssh_key),
    )) by {
        reveal(provision::keys_script);
        directory_heeds(purpose, username, ssh, 0o700, username, username);
        file_heeds(purpose, username, keys, 0o600, username, username);
        if let Some(key) = ssh_key {
            writing_heeds(purpose, username, keys, key + "\n"@);
        }
    }
    assert(heeds(provision::site_script(username), verdict) && starts_well(
        provision::site_script(username),
    )) by {
        reveal(provision::site_script);
        directory_heeds(purpose, username, site, 0o2755, username, username);
        file_heeds(purpose, username, page, 0o755, username, username);
        writing_heeds(purpose, username, page, "Hello, World!\n"@);
        link_heeds(purpose, username, html, site, username, username);
    }
    directory_heeds(purpose, username, provision::PROFILE_ROOT@, 0o711, "root"@, "root"@);
    directory_heeds(purpose, username, profiles, 0o2750, username, group);
    profile_heeds(purpose, username, ".plan"@);
    profile_heeds(purpose, username, ".project"@);
    not_chown();
    run_heeds(
        purpose,
        username,
        "restorecon"@,
        seq![WordView::Text("-RF"@), WordView::Text(profiles)],
    );
    reveal(provision::apply_script);
}

proof fn profile_heeds(purpose: Purpose, username: Seq<char>, profile: Seq<char>)
    requires
        path::below(provision::profiles_of(username), profile) == target_of(
            username,
            path::below(provision::home_of(username), profile),
        ),
    ensures
        heeds(provision::profile_script(username, profile), verdict_for(purpose, username)),
        starts_well(provision::profile_script(username, profile)),
{
    broadcast use {group_heeds, causality::group_steps, causality::group_files};

    let file = path::below(provision::profiles_of(username), profile);
    let link = path::below(provision::home_of(username), profile);
    reveal(provision::profile_script);
    file_heeds(purpose, username, file, 0o640, username, provision::PROFILE_GROUP@);
    link_heeds(purpose, username, link, file, username, username);
}

proof fn expect_account_heeds(purpose: Purpose, username: Seq<char>)
    requires
        !(purpose is Adding),
    ensures
        heeds(users::expect_account_script(username), verdict_for(purpose, username)),
        users::expect_account_script(username).causal(),
        starts_well(users::expect_account_script(username)),
{
    broadcast use causality::account_exists_is_causal;

    reveal(heeds);
    reveal(users::account_exists_script);
    let script = users::expect_account_script(username);
    let verdict = verdict_for(purpose, username);
    assert forall|before: RequestView, replies: Seq<ReplyView>, reply: ReplyView| #[trigger]
        heeds_at(script, verdict, before, replies, reply) by {
        if replies.len() == 0 {
            assert(replies.push(reply).drop_first() =~= seq![]);
        }
    }
}

/// A check that finds nothing wrong is passed over.
proof fn passed_heeds<T>(
    script: Script<T>,
    verdict: spec_fn(RequestView, RequestView, ReplyView) -> Verdict,
)
    requires
        heeds(script, verdict),
    ensures
        heeds(Script::check(None).and(script), verdict),
{
    alike_heed(script, Script::check(None).and(script), verdict);
}

proof fn open_home_heeds(purpose: Purpose, username: Seq<char>)
    requires
        furnishing::one_entry(username),
    ensures
        heeds(users::open_home_script(username), verdict_for(purpose, username)),
        starts_well(users::open_home_script(username)),
{
    furnishing::places(username);
    reveal(heeds);
    reveal(users::open_home_script);
    let script = users::open_home_script(username);
    let verdict = verdict_for(purpose, username);
    let open = RequestView::OpenDirectory { path: "/home/"@ + username };
    assert forall|before: RequestView, replies: Seq<ReplyView>, reply: ReplyView| #[trigger]
        heeds_at(script, verdict, before, replies, reply) by {
        let more = replies.push(reply);
        let asked = asked_for(script, replies);
        if script.play(replies) is Waiting {
            reveal_with_fuel(standing, 3);
            assert(replies.len() <= 1);
            assert(seq![reply].drop_first() =~= seq![]);
            if replies.len() == 0 {
                assert(more.drop_first() =~= seq![]);
            } else {
                assert(replies.take(0) =~= seq![]);
                assert(asked =~= seq![open]);
                assert(more.drop_first() =~= seq![reply]);
                assert(replies.drop_first() =~= seq![]);
            }
        }
    }
}

/// Repairing an account goes on after every reply that is as it should be, and
/// fails after every other, with what [`on_account`] tells of it.
pub proof fn repairs_heed_every_reply(
    username: Seq<char>,
    before: RequestView,
    replies: Seq<ReplyView>,
    reply: ReplyView,
)
    requires
        users::valid_username(username),
    ensures
        heeds_at(
            users::repair_script(username),
            verdict_for(Purpose::Tending, username),
            before,
            replies,
            reply,
        ),
{
    broadcast use {group_heeds, causality::group_steps, causality::apply_is_causal};

    furnishing::valid_is_one_entry(username);
    let verdict = verdict_for(Purpose::Tending, username);
    expect_account_heeds(Purpose::Tending, username);
    passed_heeds(users::expect_account_script(username), verdict);
    apply_heeds(Purpose::Tending, username, None);
    reveal(heeds);
    assert(heeds(users::repair_script(username), verdict));
}

/// Deleting an account goes on after every reply that is as it should be, and
/// fails after every other, with what [`on_account`] tells of it.
pub proof fn deletions_heed_every_reply(
    username: Seq<char>,
    before: RequestView,
    replies: Seq<ReplyView>,
    reply: ReplyView,
)
    requires
        users::valid_username(username),
    ensures
        heeds_at(
            users::delete_script(username, true),
            verdict_for(Purpose::Tending, username),
            before,
            replies,
            reply,
        ),
{
    broadcast use {group_heeds, causality::group_steps, causality::remove_tree_is_causal};

    let verdict = verdict_for(Purpose::Tending, username);
    let expect = users::expect_account_script(username);
    let confirm = Script::check(None);
    expect_account_heeds(Purpose::Tending, username);
    alike_heed(expect, Script::check(None).and(confirm).and(expect), verdict);
    not_chown();
    run_heeds(
        Purpose::Tending,
        username,
        "userdel"@,
        seq![WordView::Text("-r"@), WordView::Text(username)],
    );
    assert(heeds(provision::remove_managed_data_script(username), verdict));
    assert(heeds(users::delete_script(username, true), verdict));
    reveal(heeds);
}

proof fn read_heeds(purpose: Purpose, username: Seq<char>, name: Seq<char>)
    requires
        purpose is Showing && name == "trusted.recovery"@,
    ensures
        heeds(users::read_xattr_script(name, username), verdict_for(purpose, username)),
        starts_well(users::read_xattr_script(name, username)),
{
    broadcast use group_heeds;

    reveal(users::read_xattr_script);
    attributes_differ();
}

proof fn attributes_differ()
    ensures
        users::SIGNUP_EMAIL_XATTR@ == "trusted.signup"@,
        users::RECOVERY_EMAIL_XATTR@ == "trusted.recovery"@,
        "trusted.signup"@ != "trusted.recovery"@,
{
    reveal_strlit("trusted.signup");
    reveal_strlit("trusted.recovery");
    assert("trusted.signup"@.len() == 14 && "trusted.recovery"@.len() == 16);
}

/// Reads the signup address, which must be there.
spec fn signup_script(username: Seq<char>) -> Script<Seq<char>> {
    users::read_xattr_script("trusted.signup"@, username).and_then(
        |signup: Option<Seq<char>>|
            match signup {
                Some(signup) => Script::give(signup),
                None => Script::refuse("trusted.signup is not set for "@ + username),
            },
    )
}

proof fn signup_heeds(username: Seq<char>)
    ensures
        heeds(signup_script(username), verdict_for(Purpose::Showing, username)),
        signup_script(username).causal(),
        starts_well(signup_script(username)),
{
    broadcast use causality::read_xattr_is_causal;

    reveal(heeds);
    reveal(users::read_xattr_script);
    let script = signup_script(username);
    let verdict = verdict_for(Purpose::Showing, username);
    assert forall|before: RequestView, replies: Seq<ReplyView>, reply: ReplyView| #[trigger]
        heeds_at(script, verdict, before, replies, reply) by {
        if replies.len() == 0 {
            assert(replies.push(reply).drop_first() =~= seq![]);
        }
    }
}

/// Showing the addresses of an account goes on after every reply that is as it
/// should be, and fails after every other, with what [`on_account`] tells of it.
pub proof fn showings_heed_every_reply(
    username: Seq<char>,
    before: RequestView,
    replies: Seq<ReplyView>,
    reply: ReplyView,
)
    requires
        users::valid_username(username),
    ensures
        heeds_at(
            users::info_script(username),
            verdict_for(Purpose::Showing, username),
            before,
            replies,
            reply,
        ),
{
    broadcast use {
        group_heeds,
        causality::group_steps,
        causality::open_home_is_causal,
        causality::read_xattr_is_causal,
    };

    furnishing::valid_is_one_entry(username);
    attributes_differ();
    reveal_strlit("trusted.signup");
    reveal_strlit(" is not set for ");
    reveal_strlit("trusted.signup is not set for ");
    assert("trusted.signup"@ + " is not set for "@ =~= "trusted.signup is not set for "@);
    let purpose = Purpose::Showing;
    let verdict = verdict_for(purpose, username);
    let expect = users::expect_account_script(username);
    let home = users::open_home_script(username);
    let recovery = users::read_xattr_script("trusted.recovery"@, username);
    expect_account_heeds(purpose, username);
    passed_heeds(expect, verdict);
    open_home_heeds(purpose, username);
    signup_heeds(username);
    read_heeds(purpose, username, "trusted.recovery"@);
    let start = Script::check(None).and(expect).and(home);
    let show = |signup: Seq<char>|
        recovery.and_then(
            |recovery: Option<Seq<char>>| users::show_info_script(username, signup, recovery),
        );
    assert forall|signup: Seq<char>| heeds(#[trigger] show(signup), verdict) by {
        assert forall|recovery: Option<Seq<char>>| heeds(
            #[trigger] users::show_info_script(username, signup, recovery),
            verdict,
        ) by {}
    }
    let same = start.and(signup_script(username)).and_then(show);
    let info = users::info_script(username);
    let read = users::read_xattr_script("trusted.signup"@, username);
    assert(heeds(same, verdict));
    assert forall|replies: Seq<ReplyView>| same.play(replies) == #[trigger] info.play(replies) by {
        assert(users::require_account_script(username) == Script::check(None).and(expect));
        assert(start.and(read).play(replies) == users::require_account_script(username).and(
            home,
        ).and(read).play(replies));
        if let Progress::Ended(Ending::Value(_), rest) = start.play(replies) {
            match read.play(rest) {
                Progress::Ended(Ending::Value(Some(signup)), last) => {
                    assert(signup_script(username).play(rest) == Progress::Ended(
                        Ending::Value(signup),
                        last,
                    ));
                    assert(same.play(replies) == show(signup).play(last));
                    if let Progress::Ended(Ending::Value(address), end) = recovery.play(last) {
                        let shown = users::show_info_script(username, signup, address);
                        assert(show(signup).play(last) == shown.play(end));
                        assert(info.play(replies) == shown.play(end));
                    } else {
                        assert(info.play(replies) == show(signup).play(last));
                    }
                },
                Progress::Ended(Ending::Value(None), last) => {
                    assert(same.play(replies) == info.play(replies));
                },
                _ => {
                    assert(same.play(replies) == info.play(replies));
                },
            }
        }
    }
    alike_heed(same, info, verdict);
    reveal(heeds);
}

proof fn course_heeds(length: nat, password: Seq<char>, replies: Seq<ReplyView>, reply: ReplyView)
    requires
        users::password_course(length, password, replies) is Waiting,
    ensures
        users::password_course(length, password, replies) == Progress::<Seq<char>>::Waiting(
            RequestView::ReadByte,
        ),
        match reply {
            ReplyView::Byte(byte) => goes_well(
                users::password_course(length, password, replies.push(reply)),
            ),
            ReplyView::Error { not_found, cause } => users::password_course(
                length,
                password,
                replies.push(reply),
            ) == Progress::<Seq<char>>::Ended(
                Ending::Failed(seq!["read random bytes"@, cause]),
                seq![],
            ),
            _ => users::password_course(length, password, replies.push(reply)) == Progress::<
                Seq<char>,
            >::Ended(Ending::Garbled, seq![]),
        },
    decreases replies.len(),
{
    reveal_with_fuel(users::password_course, 2);
    let more = replies.push(reply);
    if replies.len() == 0 {
        assert(more.drop_first() =~= seq![]);
    } else {
        let rest = replies.drop_first();
        assert(more.drop_first() =~= rest.push(reply));
        if let ReplyView::Byte(byte) = replies[0] {
            let longer = if byte < users::cutoff() {
                password.push(users::letter_for(byte))
            } else {
                password
            };
            course_heeds(length, longer, rest, reply);
        }
    }
}

proof fn generate_heeds(username: Seq<char>)
    ensures
        heeds(users::generate_password_script(), verdict_for(Purpose::Adding, username)),
        starts_well(users::generate_password_script()),
{
    broadcast use {
        group_heeds,
        causality::group_steps,
        causality::password_from_reader_is_causal,
    };

    let verdict = verdict_for(Purpose::Adding, username);
    let length = users::PASSWORD_LEN as nat;
    let script = users::password_from_reader_script(length);
    assert(heeds(script, verdict)) by {
        reveal(heeds);
        assert forall|before: RequestView, replies: Seq<ReplyView>, reply: ReplyView| #[trigger]
            heeds_at(script, verdict, before, replies, reply) by {
            if script.play(replies) is Waiting {
                course_heeds(length, seq![], replies, reply);
            }
        }
    }
    reveal_strlit("open ");
    reveal_strlit("/dev/urandom");
    reveal_strlit("open /dev/urandom");
    assert("open "@ + "/dev/urandom"@ =~= "open /dev/urandom"@);
    reveal(users::generate_password_script);
}

proof fn set_password_heeds(username: Seq<char>, password: Seq<char>)
    ensures
        heeds(
            users::set_password_script(username, password),
            verdict_for(Purpose::Adding, username),
        ),
        users::set_password_script(username, password).causal(),
        starts_well(users::set_password_script(username, password)),
{
    broadcast use {group_heeds, causality::group_steps};

    let verdict = verdict_for(Purpose::Adding, username);
    reveal_strlit("start ");
    reveal_strlit("chpasswd");
    reveal_strlit("start chpasswd");
    assert("start "@ + "chpasswd"@ =~= "start chpasswd"@);
    let input = Script::question(RequestView::HasInput).and_then(
        |open: bool|
            if open {
                Script::give(())
            } else {
                Script::refuse("open chpasswd stdin"@)
            },
    );
    assert(heeds(input, verdict)) by {
        reveal(heeds);
        assert forall|before: RequestView, replies: Seq<ReplyView>, reply: ReplyView| #[trigger]
            heeds_at(input, verdict, before, replies, reply) by {
            if replies.len() == 0 {
                assert(replies.push(reply).drop_first() =~= seq![]);
            }
        }
    }
    let start = Script::perform(RequestView::Start { program: "chpasswd"@ }, "start chpasswd"@);
    let write = Script::perform(
        RequestView::WriteInput { text: username + ":"@ + password + "\n"@ },
        "write password to chpasswd"@,
    );
    let wait = Script::<()>::ask(
        RequestView::Wait,
        |reply: ReplyView|
            match reply {
                ReplyView::Exited { code, status } => if code == Some(0i32) {
                    Script::give(())
                } else {
                    Script::refuse("chpasswd failed with "@ + status)
                },
                ReplyView::Error { not_found, cause } => Script::fail(
                    "wait for chpasswd"@,
                    cause,
                ),
                _ => Script::garbled(),
            },
    );
    assert(heeds(start.and(input).and(write).and(wait), verdict));
    reveal(users::set_password_script);
    alike_heed(
        start.and(input).and(write).and(wait),
        users::set_password_script(username, password),
        verdict,
    );
}

proof fn furnish_heeds(
    username: Seq<char>,
    ssh_key: Seq<char>,
    signup_email: Seq<char>,
    recovery_email: Seq<char>,
)
    requires
        furnishing::one_entry(username),
    ensures
        heeds(
            users::furnish_script(username, ssh_key, signup_email, recovery_email),
            verdict_for(Purpose::Adding, username),
        ),
        starts_well(users::furnish_script(username, ssh_key, signup_email, recovery_email)),
{
    broadcast use {
        group_heeds,
        causality::group_steps,
        causality::apply_is_causal,
        causality::store_emails_is_causal,
        causality::open_home_is_causal,
    };

    let purpose = Purpose::Adding;
    let verdict = verdict_for(purpose, username);
    apply_heeds(purpose, username, Some(ssh_key));
    open_home_heeds(purpose, username);
    assert(heeds(users::store_emails_script(username, signup_email, recovery_email), verdict)
        && starts_well(users::store_emails_script(username, signup_email, recovery_email))) by {
        reveal(users::store_emails_script);
    }
    causality::generate_password_is_causal();
    generate_heeds(username);
    let next = |password: Seq<char>|
        users::set_password_script(username, password).and(
            Script::print("created account: "@ + username),
        ).and(Script::print("password: "@ + password));
    assert forall|password: Seq<char>|
        #![trigger next(password)]
        heeds(next(password), verdict) && next(password).causal() && starts_well(
            next(password),
        ) by {
        set_password_heeds(username, password);
    }
    reveal(users::furnish_script);
}

/// Changing the signup address of an account goes on after every reply that is as it
/// should be, and fails after every other, with what [`on_account`] tells of it.
pub proof fn changes_heed_every_reply(
    username: Seq<char>,
    signup: Seq<char>,
    before: RequestView,
    replies: Seq<ReplyView>,
    reply: ReplyView,
)
    requires
        users::valid_username(username),
        users::email_fault("signup"@, signup) is None,
    ensures
        heeds_at(
            users::set_emails_script(username, signup, None),
            verdict_for(Purpose::Changing, username),
            before,
            replies,
            reply,
        ),
{
    broadcast use {group_heeds, causality::group_steps, causality::open_home_is_causal};

    furnishing::valid_is_one_entry(username);
    attributes_differ();
    let purpose = Purpose::Changing;
    let verdict = verdict_for(purpose, username);
    let expect = users::expect_account_script(username);
    expect_account_heeds(purpose, username);
    open_home_heeds(purpose, username);
    let checks = Script::check(None).and(Script::check(None)).and(Script::give(()));
    alike_heed(expect, checks.and(expect), verdict);
    assert(users::previous_signup_script(username).causal());
    assert(heeds(users::previous_signup_script(username), verdict));
    let set = |previous: Option<Seq<u8>>|
        users::set_attribute_script("trusted.signup"@, signup, username).and(Script::give(()));
    let change = users::change_emails_script(username, signup, None);
    let same = users::open_home_script(username).and(
        users::previous_signup_script(username),
    ).and_then(set).and(Script::print("updated email addresses: "@ + username));
    assert(heeds(same, verdict));
    assert forall|replies: Seq<ReplyView>| same.play(replies) == #[trigger] change.play(
        replies,
    ) by {}
    alike_heed(same, change, verdict);
    assert(change.causal()) by {
        assert(users::previous_signup_script(username).causal());
    }
    assert(starts_well(change));
    assert(heeds(users::set_emails_script(username, signup, None), verdict));
    reveal(heeds);
}

/// Whether every reply so far was as it should be.
pub open spec fn all_fine<T>(
    script: Script<T>,
    verdict: spec_fn(RequestView, RequestView, ReplyView) -> Verdict,
    before: RequestView,
    replies: Seq<ReplyView>,
) -> bool {
    forall|i: int|
        #![trigger replies[i]]
        0 <= i < replies.len() ==> verdict(
            standing(before, asked_for(script, replies.take(i))),
            script.play(replies.take(i))->Waiting_0,
            replies[i],
        ) is Fine
}

/// What was in the way of removing the entry and the home directory of an account.
pub open spec fn entry_trouble(reply: ReplyView) -> Seq<Seq<char>> {
    match reply {
        ReplyView::Exited { code, status } => if code == Some(0i32) {
            seq![]
        } else {
            seq!["userdel: userdel failed with "@ + status]
        },
        ReplyView::Error { not_found, cause } => seq!["userdel: run userdel: "@ + cause],
        _ => seq![],
    }
}

/// What was in the way of removing the site of an account.
pub open spec fn site_trouble(username: Seq<char>, reply: ReplyView) -> Seq<Seq<char>> {
    match reply {
        ReplyView::Error { not_found, cause } => if not_found {
            seq![]
        } else {
            seq!["/srv/user_sites: remove /srv/user_sites/"@ + username + ": "@ + cause]
        },
        _ => seq![],
    }
}

/// What was in the way of removing the profiles of an account.
pub open spec fn profiles_trouble(username: Seq<char>, reply: ReplyView) -> Seq<Seq<char>> {
    match reply {
        ReplyView::Error { not_found, cause } => if not_found {
            seq![]
        } else {
            seq!["/srv/user_profiles: remove /srv/user_profiles/"@ + username + ": "@ + cause]
        },
        _ => seq![],
    }
}

/// What was in the way of taking back an account, in order.
pub open spec fn in_the_way(username: Seq<char>, undo: Seq<ReplyView>) -> Seq<Seq<char>> {
    entry_trouble(undo[0]) + site_trouble(username, undo[1]) + profiles_trouble(username, undo[2])
}

/// What takes back an account: the removal of its entry and its home directory, of
/// its site and of its profiles.
pub open spec fn takes_back(username: Seq<char>) -> Seq<RequestView> {
    seq![
        RequestView::Run {
            program: "userdel"@,
            arguments: seq![WordView::Text("-r"@), WordView::Text(username)],
        },
        RequestView::RemoveTree { path: "/srv/user_sites/"@ + username },
        RequestView::RemoveTree { path: "/srv/user_profiles/"@ + username },
    ]
}

/// Whether replies answer what takes back an account.
pub open spec fn answers_taking_back(undo: Seq<ReplyView>) -> bool {
    &&& undo.len() == 3
    &&& undo[0] is Exited || undo[0] is Error
    &&& undo[1] is Done || undo[1] is Error
    &&& undo[2] is Done || undo[2] is Error
}

proof fn pair_in_one(label: Seq<char>, one: Seq<char>, other: Seq<char>)
    ensures
        label + ": "@ + text::joined(seq![one, other], ": "@) == label + ": "@ + one + ": "@
            + other,
        label + ": "@ + text::joined(seq![one], ": "@) == label + ": "@ + one,
{
    reveal_with_fuel(text::joined_rest, 3);
    assert(seq![one, other].drop_first() =~= seq![other]);
    assert(seq![other].drop_first() =~= seq![]);
    assert(seq![one].drop_first() =~= seq![]);
    assert(text::joined(seq![one, other], ": "@) =~= one + ": "@ + other);
    assert(text::joined(seq![one], ": "@) =~= one);
    assert(label + ": "@ + (one + ": "@ + other) =~= label + ": "@ + one + ": "@ + other);
}

/// All of an account is taken back, or at least tried, whatever the replies, and what
/// was in the way is told.
pub proof fn accounts_are_taken_back(username: Seq<char>, undo: Seq<ReplyView>)
    requires
        furnishing::one_entry(username),
        answers_taking_back(undo),
    ensures
        ({
            let script = users::rollback_new_user_script(username);
            let troubles = in_the_way(username, undo);
            &&& script.play(seq![]) == Progress::<()>::Waiting(takes_back(username)[0])
            &&& script.play(undo.take(1)) == Progress::<()>::Waiting(takes_back(username)[1])
            &&& script.play(undo.take(2)) == Progress::<()>::Waiting(takes_back(username)[2])
            &&& script.play(undo) == Progress::<()>::Ended(
                if troubles.len() == 0 {
                    Ending::Value(())
                } else {
                    Ending::Failed(seq![text::joined(troubles, "; "@)])
                },
                seq![],
            )
        }),
{
    let (a, b, c) = (undo[0], undo[1], undo[2]);
    let none = Seq::<Seq<char>>::empty();
    let f1 = none + entry_trouble(a);
    let f2 = f1 + site_trouble(username, b);
    let f3 = f2 + profiles_trouble(username, c);
    furnishing::places(username);
    assert(undo.take(1).drop_first() =~= seq![]);
    assert(undo.take(2).drop_first() =~= seq![b]);
    assert(undo.drop_first() =~= seq![b, c]);
    assert(seq![b].drop_first() =~= seq![]);
    assert(seq![b, c].drop_first() =~= seq![c]);
    assert(seq![c].drop_first() =~= seq![]);
    assert(f3 =~= in_the_way(username, undo));
    let entry = provision::attempt_script(users::userdel_script(username), "userdel"@, seq![]);
    let both = provision::remove_managed_data_for_rollback_script(username, f1);
    entry_attempted(username, none, undo);
    entry_attempted(username, none, undo.take(1));
    entry_attempted(username, none, undo.take(2));
    site_attempted(username, f1, seq![b, c]);
    site_attempted(username, f1, seq![b]);
    profiles_attempted(username, f2, seq![c]);
    assert(both.play(seq![b, c]) == Progress::<Seq<Seq<char>>>::Ended(Ending::Value(f3), seq![]));
}

proof fn entry_attempted(username: Seq<char>, failures: Seq<Seq<char>>, replies: Seq<ReplyView>)
    requires
        replies.len() > 0,
        replies[0] is Exited || replies[0] is Error,
    ensures
        provision::attempt_script(users::userdel_script(username), "userdel"@, failures).play(
            replies,
        ) == Progress::<Seq<Seq<char>>>::Ended(
            Ending::Value(failures + entry_trouble(replies[0])),
            replies.drop_first(),
        ),
{
    reveal_strlit(": ");
    reveal_strlit("userdel");
    reveal_strlit("run ");
    reveal_strlit(" failed with ");
    reveal_strlit("userdel: userdel failed with ");
    reveal_strlit("userdel: run userdel: ");
    assert(failures + seq![] =~= failures);
    match replies[0] {
        ReplyView::Exited { code, status } => {
            pair_in_one("userdel"@, "userdel"@ + " failed with "@ + status, seq![]);
            assert("userdel"@ + ": "@ + ("userdel"@ + " failed with "@ + status)
                =~= "userdel: userdel failed with "@ + status);
            assert(failures + seq!["userdel: userdel failed with "@ + status] =~= failures.push(
                "userdel: userdel failed with "@ + status,
            ));
        },
        ReplyView::Error { not_found, cause } => {
            pair_in_one("userdel"@, "run "@ + "userdel"@, cause);
            assert("userdel"@ + ": "@ + ("run "@ + "userdel"@) + ": "@ + cause
                =~= "userdel: run userdel: "@ + cause);
            assert(failures + seq!["userdel: run userdel: "@ + cause] =~= failures.push(
                "userdel: run userdel: "@ + cause,
            ));
        },
        _ => {},
    }
}

proof fn site_attempted(username: Seq<char>, failures: Seq<Seq<char>>, replies: Seq<ReplyView>)
    requires
        furnishing::one_entry(username),
        replies.len() > 0,
        replies[0] is Done || replies[0] is Error,
    ensures
        provision::attempt_script(
            provision::remove_tree_script(provision::site_of(username)),
            provision::SITE_ROOT@,
            failures,
        ).play(replies) == Progress::<Seq<Seq<char>>>::Ended(
            Ending::Value(failures + site_trouble(username, replies[0])),
            replies.drop_first(),
        ),
{
    furnishing::places(username);
    let site = "/srv/user_sites/"@ + username;
    assert(failures + seq![] =~= failures);
    if let ReplyView::Error { not_found, cause } = replies[0] {
        reveal_strlit("/srv/user_sites");
        reveal_strlit("/srv/user_sites/");
        reveal_strlit(": ");
        reveal_strlit("remove ");
        reveal_strlit("/srv/user_sites: remove /srv/user_sites/");
        let line = "/srv/user_sites: remove /srv/user_sites/"@ + username + ": "@ + cause;
        pair_in_one("/srv/user_sites"@, "remove "@ + site, cause);
        assert("/srv/user_sites"@ + ": "@ + ("remove "@ + site) + ": "@ + cause =~= line);
        assert(failures + seq![line] =~= failures.push(line));
    }
}

proof fn profiles_attempted(username: Seq<char>, failures: Seq<Seq<char>>, replies: Seq<ReplyView>)
    requires
        furnishing::one_entry(username),
        replies.len() > 0,
        replies[0] is Done || replies[0] is Error,
    ensures
        provision::attempt_script(
            provision::remove_tree_script(provision::profiles_of(username)),
            provision::PROFILE_ROOT@,
            failures,
        ).play(replies) == Progress::<Seq<Seq<char>>>::Ended(
            Ending::Value(failures + profiles_trouble(username, replies[0])),
            replies.drop_first(),
        ),
{
    furnishing::places(username);
    let profiles = "/srv/user_profiles/"@ + username;
    assert(failures + seq![] =~= failures);
    if let ReplyView::Error { not_found, cause } = replies[0] {
        reveal_strlit("/srv/user_profiles");
        reveal_strlit("/srv/user_profiles/");
        reveal_strlit(": ");
        reveal_strlit("remove ");
        reveal_strlit("/srv/user_profiles: remove /srv/user_profiles/");
        let line = "/srv/user_profiles: remove /srv/user_profiles/"@ + username + ": "@ + cause;
        pair_in_one("/srv/user_profiles"@, "remove "@ + profiles, cause);
        assert("/srv/user_profiles"@ + ": "@ + ("remove "@ + profiles) + ": "@ + cause =~= line);
        assert(failures + seq![line] =~= failures.push(line));
    }
}

/// What an addition asks for while nothing went wrong is what it asks for an account
/// that is to be furnished.
proof fn furnishing_goes_well(
    username: Seq<char>,
    ssh_key: Seq<char>,
    signup_email: Seq<char>,
    recovery_email: Seq<char>,
    before: RequestView,
    replies: Seq<ReplyView>,
    count: int,
)
    requires
        users::add_fault(username, ssh_key, signup_email, recovery_email) is None,
        all_fine(
            users::add_script(username, ssh_key, signup_email, recovery_email),
            verdict_for(Purpose::Adding, username),
            before,
            replies,
        ),
        2 <= count <= replies.len(),
    ensures
        accounts::unknown_account(replies[0]),
        accounts::succeeded(replies[1]),
        ({
            let add = users::add_script(username, ssh_key, signup_email, recovery_email);
            let furnish = users::furnish_script(username, ssh_key, signup_email, recovery_email);
            let now = replies.take(count);
            let during = replies.skip(2).take(count - 2);
            &&& now.skip(2) == during
            &&& goes_well(furnish.play(during))
            &&& add.play(now) == furnish.play(during)
            &&& furnish.play(during) is Waiting ==> standing(before, asked_for(add, now))
                == standing(before, asked_for(furnish, during))
        }),
    decreases count,
{
    let add = users::add_script(username, ssh_key, signup_email, recovery_email);
    let furnish = users::furnish_script(username, ssh_key, signup_email, recovery_email);
    let verdict = verdict_for(Purpose::Adding, username);
    let now = replies.take(count);
    let during = replies.skip(2).take(count - 2);
    assert(now.skip(2) =~= during);
    assert(accounts::unknown_account(replies[0]) && accounts::succeeded(replies[1])) by {
        reveal(users::account_exists_script);
        not_chown();
        assert(replies.take(0) =~= seq![]);
        assert(replies.take(1).drop_first() =~= seq![]);
        assert(add.play(replies.take(0)) == Progress::<()>::Waiting(
            furnishing::looks_up(username),
        ));
        assert(verdict(
            standing(before, asked_for(add, replies.take(0))),
            add.play(replies.take(0))->Waiting_0,
            replies[0],
        ) is Fine);
        assert(accounts::unknown_account(replies[0]));
        assert(add.play(replies.take(1)) == Progress::<()>::Waiting(
            furnishing::adds_account(username),
        ));
        assert(verdict(
            standing(before, asked_for(add, replies.take(1))),
            add.play(replies.take(1))->Waiting_0,
            replies[1],
        ) is Fine);
    }
    accounts::after_the_opening(username, ssh_key, signup_email, recovery_email, now);
    furnishing::valid_is_one_entry(username);
    furnish_heeds(username, ssh_key, signup_email, recovery_email);
    causality::furnish_is_causal(username, ssh_key, signup_email, recovery_email);
    if count == 2 {
        assert(during =~= seq![]);
    } else {
        furnishing_goes_well(
            username,
            ssh_key,
            signup_email,
            recovery_email,
            before,
            replies,
            count - 1,
        );
        let fewer = replies.skip(2).take(count - 3);
        let reply = replies[count - 1];
        assert(during =~= fewer.push(reply));
        reveal(Script::causal);
        assert(furnish.play(fewer).grows_to(reply, furnish.play(during)));
        if furnish.play(fewer) is Waiting {
            reveal(heeds);
            assert(heeds_at(furnish, verdict, before, fewer, reply));
            assert(verdict(
                standing(before, asked_for(add, replies.take(count - 1))),
                add.play(replies.take(count - 1))->Waiting_0,
                replies[count - 1],
            ) is Fine);
        }
    }
    if furnish.play(during) is Waiting {
        let first = seq![furnishing::looks_up(username), furnishing::adds_account(username)];
        assert(asked_for(add, now) =~= first + asked_for(furnish, during)) by {
            assert forall|i: int| 0 <= i < count implies asked_for(add, now)[i] == (first
                + asked_for(furnish, during))[i] by {
                assert(now.take(i) =~= replies.take(i));
                if i < 2 {
                    reveal(users::account_exists_script);
                    assert(replies.take(0) =~= seq![]);
                    assert(replies.take(1).drop_first() =~= seq![]);
                } else {
                    accounts::after_the_opening(
                        username,
                        ssh_key,
                        signup_email,
                        recovery_email,
                        replies.take(i),
                    );
                    assert(replies.take(i).skip(2) =~= during.take(i - 2));
                    script::lemma_waited_before(furnish, during, i - 2);
                }
            }
        }
        standing_in_a_row(before, first, asked_for(furnish, during));
        reveal_with_fuel(standing, 3);
        assert(first.drop_last() =~= seq![furnishing::looks_up(username)]);
        assert(first.drop_last().drop_last() =~= seq![]);
        assert(standing(before, first) == before);
    }
}

/// An addition goes on after every reply that is as it should be. After every other
/// it fails with what [`on_account`] tells of it: at once as long as there is no
/// account yet, and else once the account is taken back, with a message in front that
/// says whether all of it was.
pub proof fn additions_heed_every_reply(
    username: Seq<char>,
    ssh_key: Seq<char>,
    signup_email: Seq<char>,
    recovery_email: Seq<char>,
    before: RequestView,
    replies: Seq<ReplyView>,
    reply: ReplyView,
    undo: Seq<ReplyView>,
)
    requires
        users::add_fault(username, ssh_key, signup_email, recovery_email) is None,
        users::add_script(username, ssh_key, signup_email, recovery_email).play(replies) is Waiting,
        all_fine(
            users::add_script(username, ssh_key, signup_email, recovery_email),
            verdict_for(Purpose::Adding, username),
            before,
            replies,
        ),
        answers_taking_back(undo),
    ensures
        ({
            let script = users::add_script(username, ssh_key, signup_email, recovery_email);
            let more = replies.push(reply);
            let troubles = in_the_way(username, undo);
            match on_account(
                Purpose::Adding,
                username,
                standing(before, asked_for(script, replies)),
                script.play(replies)->Waiting_0,
                reply,
            ) {
                Verdict::Fine => goes_well(script.play(more)),
                Verdict::Garbled => script.play(more) == Progress::<()>::Ended(
                    Ending::Garbled,
                    seq![],
                ),
                Verdict::Fails(trail) => if replies.len() < 2 {
                    script.play(more) == Progress::<()>::Ended(Ending::Failed(trail), seq![])
                } else {
                    &&& script.play(more) == Progress::<()>::Waiting(takes_back(username)[0])
                    &&& script.play(more + undo.take(1)) == Progress::<()>::Waiting(
                        takes_back(username)[1],
                    )
                    &&& script.play(more + undo.take(2)) == Progress::<()>::Waiting(
                        takes_back(username)[2],
                    )
                    &&& script.play(more + undo) == Progress::<()>::Ended(
                        Ending::Failed(
                            seq![
                                if troubles.len() == 0 {
                                    "provisioning failed; the new account was rolled back"@
                                } else {
                                    "provisioning failed and rollback also failed: "@
                                        + text::joined(troubles, "; "@)
                                },
                            ] + trail,
                        ),
                        seq![],
                    )
                },
            }
        }),
{
    let add = users::add_script(username, ssh_key, signup_email, recovery_email);
    let furnish = users::furnish_script(username, ssh_key, signup_email, recovery_email);
    let verdict = verdict_for(Purpose::Adding, username);
    let more = replies.push(reply);
    furnishing::valid_is_one_entry(username);
    furnish_heeds(username, ssh_key, signup_email, recovery_email);
    causality::furnish_is_causal(username, ssh_key, signup_email, recovery_email);
    if replies.len() < 2 {
        not_chown();
        opening_heeds(username, ssh_key, signup_email, recovery_email, before, replies, reply);
    } else {
        let count = replies.len() as int;
        let during = replies.skip(2);
        furnishing_goes_well(
            username,
            ssh_key,
            signup_email,
            recovery_email,
            before,
            replies,
            count,
        );
        assert(replies.take(count) =~= replies);
        assert(during.take(count - 2) =~= during);
        assert(furnish.play(during) is Waiting);
        reveal(heeds);
        assert(heeds_at(furnish, verdict, before, during, reply));
        assert(more.skip(2) =~= during.push(reply));
        accounts::after_the_opening(username, ssh_key, signup_email, recovery_email, more);
        if let Progress::Ended(Ending::Failed(trail), rest) = furnish.play(during.push(reply)) {
            assert(rest =~= seq![]);
            accounts_are_taken_back(username, undo);
            accounts::taken_back_after(
                username,
                ssh_key,
                signup_email,
                recovery_email,
                more,
                trail,
                seq![],
            );
            accounts::taken_back_after(
                username,
                ssh_key,
                signup_email,
                recovery_email,
                more,
                trail,
                undo.take(1),
            );
            accounts::taken_back_after(
                username,
                ssh_key,
                signup_email,
                recovery_email,
                more,
                trail,
                undo.take(2),
            );
            accounts::taken_back_after(
                username,
                ssh_key,
                signup_email,
                recovery_email,
                more,
                trail,
                undo,
            );
            assert(more + seq![] =~= more);
            let troubles = in_the_way(username, undo);
            let told = text::joined(troubles, "; "@);
            reveal_with_fuel(text::joined_rest, 2);
            assert(seq![told].drop_first() =~= seq![]);
            assert(text::joined(seq![told], ": "@) =~= told);
        }
    }
}

proof fn opening_heeds(
    username: Seq<char>,
    ssh_key: Seq<char>,
    signup_email: Seq<char>,
    recovery_email: Seq<char>,
    before: RequestView,
    replies: Seq<ReplyView>,
    reply: ReplyView,
)
    requires
        users::add_fault(username, ssh_key, signup_email, recovery_email) is None,
        users::add_script(username, ssh_key, signup_email, recovery_email).play(replies) is Waiting,
        all_fine(
            users::add_script(username, ssh_key, signup_email, recovery_email),
            verdict_for(Purpose::Adding, username),
            before,
            replies,
        ),
        replies.len() < 2,
    ensures
        heeds_at(
            users::add_script(username, ssh_key, signup_email, recovery_email),
            verdict_for(Purpose::Adding, username),
            before,
            replies,
            reply,
        ),
{
    let add = users::add_script(username, ssh_key, signup_email, recovery_email);
    let furnish = users::furnish_script(username, ssh_key, signup_email, recovery_email);
    let later = users::furnish_or_give_up_script(username, ssh_key, signup_email, recovery_email);
    let more = replies.push(reply);
    not_chown();
    furnishing::valid_is_one_entry(username);
    furnish_heeds(username, ssh_key, signup_email, recovery_email);
    reveal(users::account_exists_script);
    assert(goes_well(later.play(seq![])));
    if replies.len() == 0 {
        assert(more.drop_first() =~= seq![]);
    } else {
        assert(replies.take(0) =~= seq![]);
        assert(replies.drop_first() =~= seq![]);
        assert(more.drop_first() =~= seq![reply]);
        assert(seq![reply].drop_first() =~= seq![]);
        assert(accounts::unknown_account(replies[0]));
    }
}

} // verus!
