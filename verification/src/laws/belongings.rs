//! What holds of the files, directories and links of an account.
use vstd::prelude::*;

use crate::encoding;
use crate::laws::conversation;
use crate::laws::furnishing;
use crate::laws::scope;
use crate::path;
use crate::provision;
use crate::request::{FileKind, ReplyView, RequestView, WordView};
use crate::script::{Ending, Progress, Script};

verus! {

/// A directory is created only where there is nothing, and handed over only once
/// it was opened, was found to be a directory and was given its permission bits.
pub proof fn directories_are_seen_to(
    path: Seq<char>,
    mode: u32,
    owner: Seq<char>,
    group: Seq<char>,
    exists: bool,
)
    ensures
        ({
            let script = provision::ensure_directory_script(path, mode, owner, group);
            let done = ReplyView::Done;
            let there = if exists {
                seq![ReplyView::Flag(true)]
            } else {
                seq![ReplyView::Flag(false), done]
            };
            let opened = there + seq![done];
            let found = opened + seq![ReplyView::Kind(FileKind::Directory)];
            &&& script.play(seq![]) == Progress::<()>::Waiting(
                RequestView::Exists { place: WordView::Text(path) },
            )
            &&& script.play(seq![ReplyView::Flag(exists)]) == Progress::<()>::Waiting(
                if exists {
                    RequestView::OpenDirectory { path }
                } else {
                    RequestView::CreateDirectories { path }
                },
            )
            &&& script.play(there) == Progress::<()>::Waiting(RequestView::OpenDirectory { path })
            &&& script.play(opened) == Progress::<()>::Waiting(RequestView::OpenKind)
            &&& script.play(found) == Progress::<()>::Waiting(RequestView::SetMode { mode })
            &&& script.play(found + seq![done]) == Progress::<()>::Waiting(
                scope::chown(path, owner, group),
            )
        }),
{
    reveal(provision::ensure_directory_script);
    let done = ReplyView::Done;
    let flag = ReplyView::Flag(exists);
    let kind = ReplyView::Kind(FileKind::Directory);
    assert(seq![flag].drop_first() =~= seq![]);
    let there = if exists {
        seq![flag]
    } else {
        seq![flag, done]
    };
    let opened = there + seq![done];
    let found = opened + seq![kind];
    let more = found + seq![done];
    assert(seq![flag, done].drop_first().drop_first() =~= seq![]);
    if exists {
        assert(opened.drop_first().drop_first() =~= seq![]);
        assert(found.drop_first().drop_first().drop_first() =~= seq![]);
        assert(more.drop_first().drop_first().drop_first().drop_first() =~= seq![]);
    } else {
        assert(opened.drop_first().drop_first().drop_first() =~= seq![]);
        assert(found.drop_first().drop_first().drop_first().drop_first() =~= seq![]);
        assert(more.drop_first().drop_first().drop_first().drop_first().drop_first() =~= seq![]);
    }
}

/// A file counts as created exactly where none could be found and it was created.
pub proof fn files_are_created_where_missing(
    path: Seq<char>,
    mode: u32,
    owner: Seq<char>,
    group: Seq<char>,
    replies: Seq<ReplyView>,
)
    ensures
        provision::ensure_file_script(path, mode, owner, group).play(
            replies,
        ) matches Progress::Ended(Ending::Value(created), _) ==> {
            &&& replies.len() > 1
            &&& !created ==> replies[0] is Done
            &&& created ==> replies[1] is Done && (replies[0] matches ReplyView::Error {
                not_found,
                cause,
            } && not_found)
        },
{
    if replies.len() > 0 {
        let rest = replies.drop_first();
        if rest.len() > 0 {
            assert(rest[0] == replies[1]);
        }
    }
}

/// A page that is there already is left as it is.
pub proof fn pages_are_kept(username: Seq<char>, replies: Seq<ReplyView>, rest: Seq<ReplyView>)
    requires
        provision::ensure_directory_script(
            provision::site_of(username),
            0o2755,
            username,
            username,
        ).play(replies) == Progress::<()>::Ended(Ending::Value(()), rest),
        rest.len() > 0,
        rest[0] is Done,
    ensures
        provision::site_script(username).play(replies) matches Progress::Waiting(request) ==> !(
        request is OpenEmptied) && !(request is WriteContents),
{
    reveal(provision::site_script);
    let site = provision::site_of(username);
    let index = path::below(site, "index.html"@);
    let link = path::below(provision::home_of(username), "public_html"@);
    let allowed = |request: RequestView| !(request is OpenEmptied) && !(request is WriteContents);
    scope::ensure_file_asks(index, 0o755, username, username, allowed);
    scope::ensure_symlink_asks(link, site, username, username, allowed);
    let file = provision::ensure_file_script(index, 0o755, username, username);
    let linked = provision::ensure_symlink_script(link, site, username, username);
    reveal(Script::only_asks);
    assert(file.play(rest).asks_only(allowed));
    files_are_created_where_missing(index, 0o755, username, username, rest);
    if let Progress::Ended(Ending::Value(_), last) = file.play(rest) {
        assert(linked.play(last).asks_only(allowed));
    }
}

/// A link that goes the same way as the target, as one does that was created for
/// it, is handed over; a link that goes elsewhere is left alone.
pub proof fn links_are_accepted_or_left_alone(
    link: Seq<char>,
    target: Seq<char>,
    owner: Seq<char>,
    group: Seq<char>,
    existing: Seq<u8>,
    cause: Seq<char>,
)
    ensures
        ({
            let script = provision::ensure_symlink_script(link, target, owner, group);
            let missing = ReplyView::Error { not_found: true, cause };
            let handed_over = Progress::<()>::Waiting(scope::chown(link, owner, group));
            &&& script.play(seq![]) == Progress::<()>::Waiting(RequestView::ReadLink { path: link })
            &&& script.play(seq![missing]) == Progress::<()>::Waiting(
                RequestView::CreateLink { link, target },
            )
            &&& script.play(seq![missing, ReplyView::Done]) == handed_over
            &&& script.play(seq![ReplyView::Bytes(vstd::utf8::encode_utf8(target))]) == handed_over
            &&& script.play(seq![ReplyView::Bytes(existing)]) == if path::same_way(
                existing,
                vstd::utf8::encode_utf8(target),
            ) {
                handed_over
            } else {
                Progress::<()>::Ended(
                    Ending::Failed(
                        seq![
                            link + " points to "@ + encoding::lossy(existing) + ", expected "@
                                + target,
                        ],
                    ),
                    seq![],
                )
            }
        }),
{
    let missing = ReplyView::Error { not_found: true, cause };
    assert(seq![missing].drop_first() =~= seq![]);
    assert(seq![missing, ReplyView::Done].drop_first() =~= seq![ReplyView::Done]);
    assert(seq![ReplyView::Done].drop_first() =~= seq![]);
    assert(seq![ReplyView::Bytes(existing)].drop_first() =~= seq![]);
    assert(seq![ReplyView::Bytes(vstd::utf8::encode_utf8(target))].drop_first() =~= seq![]);
}

/// Removing what is not there goes well.
pub proof fn missing_trees_are_no_obstacle(path: Seq<char>, not_found: bool, cause: Seq<char>)
    ensures
        provision::remove_tree_script(path).play(seq![ReplyView::Error { not_found, cause }])
            == Progress::<()>::Ended(
            if not_found {
                Ending::Value(())
            } else {
                Ending::Failed(seq!["remove "@ + path, cause])
            },
            seq![],
        ),
{
    assert(seq![ReplyView::Error { not_found, cause }].drop_first() =~= seq![]);
}

/// Seeing to a directory goes well only where all of it is done, whatever the path,
/// the permission bits and the owner.
pub proof fn directories_are_complete(
    path: Seq<char>,
    mode: u32,
    owner: Seq<char>,
    group: Seq<char>,
    replies: Seq<ReplyView>,
    rest: Seq<ReplyView>,
)
    requires
        provision::ensure_directory_script(path, mode, owner, group).play(replies)
            == Progress::<()>::Ended(Ending::Value(()), rest),
    ensures
        conversation::directory_seen_to(
            provision::ensure_directory_script(path, mode, owner, group),
            replies,
            0,
            replies.len() - rest.len(),
            path,
            mode,
            owner + ":"@ + group,
        ),
{
    let script = provision::ensure_directory_script(path, mode, owner, group);
    conversation::goes_on_as_itself(script, replies);
    furnishing::directory_done(script, replies, 0, path, mode, owner, group, replies, rest);
}

/// Seeing to a file goes well only where all of it is done, whatever the path, the
/// permission bits and the owner, and tells whether the file had to be created.
pub proof fn files_are_complete(
    path: Seq<char>,
    mode: u32,
    owner: Seq<char>,
    group: Seq<char>,
    replies: Seq<ReplyView>,
    created: bool,
    rest: Seq<ReplyView>,
)
    requires
        provision::ensure_file_script(path, mode, owner, group).play(replies)
            == Progress::<bool>::Ended(Ending::Value(created), rest),
    ensures
        conversation::file_seen_to(
            provision::ensure_file_script(path, mode, owner, group),
            replies,
            0,
            replies.len() - rest.len(),
            path,
            mode,
            owner + ":"@ + group,
            created,
        ),
{
    let script = provision::ensure_file_script(path, mode, owner, group);
    conversation::goes_on_as_itself(script, replies);
    furnishing::file_done(script, replies, 0, path, mode, owner, group, replies, created, rest);
}

/// Writing a file goes well only where it was emptied and the text was written.
pub proof fn writings_are_complete(
    path: Seq<char>,
    text: Seq<char>,
    replies: Seq<ReplyView>,
    rest: Seq<ReplyView>,
)
    requires
        provision::write_file_script(path, text).play(replies) == Progress::<()>::Ended(
            Ending::Value(()),
            rest,
        ),
    ensures
        conversation::file_written(
            provision::write_file_script(path, text),
            replies,
            0,
            path,
            text,
        ),
        replies.len() - rest.len() == 2,
{
    let script = provision::write_file_script(path, text);
    conversation::goes_on_as_itself(script, replies);
    furnishing::writing_done(script, replies, 0, path, text, replies, rest);
}

/// Seeing to a link goes well only where all of it is done, whatever the link, the
/// target and the owner.
pub proof fn links_are_complete(
    link: Seq<char>,
    target: Seq<char>,
    owner: Seq<char>,
    group: Seq<char>,
    replies: Seq<ReplyView>,
    rest: Seq<ReplyView>,
)
    requires
        provision::ensure_symlink_script(link, target, owner, group).play(replies)
            == Progress::<()>::Ended(Ending::Value(()), rest),
    ensures
        conversation::link_seen_to(
            provision::ensure_symlink_script(link, target, owner, group),
            replies,
            0,
            replies.len() - rest.len(),
            link,
            target,
            owner + ":"@ + group,
        ),
{
    let script = provision::ensure_symlink_script(link, target, owner, group);
    conversation::goes_on_as_itself(script, replies);
    furnishing::link_done(script, replies, 0, link, target, owner, group, replies, rest);
}

} // verus!
