//! What holds of the steps that the operations are made of, each taken on its own and
//! with any arguments.
use vstd::prelude::*;

use crate::encoding;
use crate::path;
use crate::provision;
use crate::request::{FileKind, ReplyView, RequestView, WordView};
use crate::script::{Ending, Progress};
use crate::text;
use crate::users;

verus! {

/// A step that is over and has used every reply.
pub open spec fn over<T>(ending: Ending<T>) -> Progress<T> {
    Progress::Ended(ending, seq![])
}

/// A step that waits for the reply to a request.
pub open spec fn asking<T>(request: RequestView) -> Progress<T> {
    Progress::Waiting(request)
}

/// How a program that must succeed ends.
pub open spec fn exit_of(program: Seq<char>, code: Option<i32>, status: Seq<char>) -> Ending<()> {
    if code == Some(0i32) {
        Ending::Value(())
    } else {
        Ending::Failed(seq![program + " failed with "@ + status])
    }
}

/// How giving something away ends.
pub open spec fn chown_exit(path: Seq<char>, code: Option<i32>, status: Seq<char>) -> Ending<()> {
    if code == Some(0i32) {
        Ending::Value(())
    } else {
        Ending::Failed(seq!["set owner of "@ + path, "chown failed with "@ + status])
    }
}

/// Whether there is an account is looked up once: the codes nought and two are
/// answers, and everything else is a failure.
pub proof fn accounts_are_looked_up(
    username: Seq<char>,
    code: Option<i32>,
    status: Seq<char>,
    not_found: bool,
    cause: Seq<char>,
)
    ensures
        ({
            let script = users::account_exists_script(username);
            &&& script.play(seq![]) == asking::<bool>(
                RequestView::RunQuietly {
                    program: "getent"@,
                    arguments: seq![WordView::Text("passwd"@), WordView::Text(username)],
                },
            )
            &&& script.play(seq![ReplyView::Exited { code, status }]) == over(
                if code == Some(0i32) {
                    Ending::Value(true)
                } else if code == Some(2i32) {
                    Ending::Value(false)
                } else {
                    Ending::Failed(seq!["getent passwd failed with "@ + status])
                },
            )
            &&& script.play(seq![ReplyView::Error { not_found, cause }]) == over(
                Ending::<bool>::Failed(seq!["run getent"@, cause]),
            )
        }),
{
    reveal(users::account_exists_script);
    assert(seq![ReplyView::Exited { code, status }].drop_first() =~= seq![]);
    assert(seq![ReplyView::Error { not_found, cause }].drop_first() =~= seq![]);
}

/// A home directory is opened below `/home`, and must be a directory.
pub proof fn homes_are_directories(
    username: Seq<char>,
    kind: FileKind,
    not_found: bool,
    cause: Seq<char>,
)
    ensures
        ({
            let script = users::open_home_script(username);
            let home = path::below("/home"@, username);
            let done = ReplyView::Done;
            let error = ReplyView::Error { not_found, cause };
            &&& script.play(seq![]) == asking::<()>(RequestView::OpenDirectory { path: home })
            &&& script.play(seq![error]) == over(
                Ending::<()>::Failed(
                    seq!["open home directory without following links: "@ + home, cause],
                ),
            )
            &&& script.play(seq![done]) == asking::<()>(RequestView::OpenKind)
            &&& script.play(seq![done, error]) == over(Ending::<()>::Failed(seq![cause]))
            &&& script.play(seq![done, ReplyView::Kind(kind)]) == over(
                if kind == FileKind::Directory {
                    Ending::Value(())
                } else {
                    Ending::Failed(seq!["expected home directory does not exist: "@ + home])
                },
            )
        }),
{
    reveal(users::open_home_script);
    let done = ReplyView::Done;
    let error = ReplyView::Error { not_found, cause };
    let found = ReplyView::Kind(kind);
    assert(seq![error].drop_first() =~= seq![]);
    assert(seq![done].drop_first() =~= seq![]);
    assert(seq![done, error].drop_first() =~= seq![error]);
    assert(seq![done, found].drop_first() =~= seq![found]);
    assert(seq![found].drop_first() =~= seq![]);
}

/// The addresses are recorded in the home directory, the signup address first, and a
/// failure says which of them could not be recorded.
pub proof fn addresses_are_recorded(
    username: Seq<char>,
    signup: Seq<char>,
    recovery: Seq<char>,
    not_found: bool,
    cause: Seq<char>,
)
    ensures
        ({
            let script = users::store_emails_script(username, signup, recovery);
            let done = ReplyView::Done;
            let home = ReplyView::Kind(FileKind::Directory);
            let error = ReplyView::Error { not_found, cause };
            &&& script.play(seq![]) == asking::<()>(
                RequestView::OpenDirectory { path: path::below("/home"@, username) },
            )
            &&& script.play(seq![done, home]) == asking::<()>(
                RequestView::SetAttribute {
                    name: "trusted.signup"@,
                    value: vstd::utf8::encode_utf8(signup),
                },
            )
            &&& script.play(seq![done, home, error]) == over(
                Ending::<()>::Failed(seq!["set trusted.signup for "@ + username, cause]),
            )
            &&& script.play(seq![done, home, done]) == asking::<()>(
                RequestView::SetAttribute {
                    name: "trusted.recovery"@,
                    value: vstd::utf8::encode_utf8(recovery),
                },
            )
            &&& script.play(seq![done, home, done, error]) == over(
                Ending::<()>::Failed(seq!["set trusted.recovery for "@ + username, cause]),
            )
            &&& script.play(seq![done, home, done, done]) == over(Ending::Value(()))
        }),
{
    reveal(users::store_emails_script);
    reveal(users::open_home_script);
    let done = ReplyView::Done;
    let home = ReplyView::Kind(FileKind::Directory);
    let error = ReplyView::Error { not_found, cause };
    assert(seq![done, home].drop_first().drop_first() =~= seq![]);
    assert(seq![done, home, error].drop_first().drop_first() =~= seq![error]);
    assert(seq![done, home, done].drop_first().drop_first() =~= seq![done]);
    assert(seq![done, home, done, error].drop_first().drop_first() =~= seq![done, error]);
    assert(seq![done, home, done, done].drop_first().drop_first() =~= seq![done, done]);
    assert(seq![error].drop_first() =~= seq![]);
    assert(seq![done].drop_first() =~= seq![]);
    assert(seq![done, error].drop_first() =~= seq![error]);
    assert(seq![done, done].drop_first() =~= seq![done]);
    reveal_strlit("set ");
    reveal_strlit(" for ");
    reveal_strlit("trusted.signup");
    reveal_strlit("trusted.recovery");
    reveal_strlit("set trusted.signup for ");
    reveal_strlit("set trusted.recovery for ");
    assert("set "@ + "trusted.signup"@ + " for "@ =~= "set trusted.signup for "@);
    assert("set "@ + "trusted.recovery"@ + " for "@ =~= "set trusted.recovery for "@);
}

/// An attribute that is read is told as it stands, or not at all where it is not set;
/// what is no text is a failure.
pub proof fn attributes_are_texts(
    name: Seq<char>,
    username: Seq<char>,
    value: Seq<u8>,
    not_found: bool,
    cause: Seq<char>,
)
    ensures
        ({
            let script = users::read_xattr_script(name, username);
            &&& script.play(seq![]) == asking::<Option<Seq<char>>>(
                RequestView::GetAttribute { name },
            )
            &&& script.play(seq![ReplyView::Absent]) == over(
                Ending::Value(None::<Seq<char>>),
            )
            &&& script.play(seq![ReplyView::Bytes(value)]) == over(
                if vstd::utf8::valid_utf8(value) {
                    Ending::Value(Some(vstd::utf8::decode_utf8(value)))
                } else {
                    Ending::Failed(
                        seq![
                            name + " for "@ + username + " is not valid UTF-8"@,
                            encoding::utf8_complaint(value),
                        ],
                    )
                },
            )
            &&& script.play(seq![ReplyView::Error { not_found, cause }]) == over(
                Ending::<Option<Seq<char>>>::Failed(
                    seq!["read "@ + name + " for "@ + username, cause],
                ),
            )
        }),
{
    reveal(users::read_xattr_script);
    assert(seq![ReplyView::Absent].drop_first() =~= seq![]);
    assert(seq![ReplyView::Bytes(value)].drop_first() =~= seq![]);
    assert(seq![ReplyView::Error { not_found, cause }].drop_first() =~= seq![]);
}

/// An attribute is restored to the very bytes that it held, or removed where it was not
/// set; the reason why it could not be is told.
pub proof fn attributes_are_restored(
    name: Seq<char>,
    previous: Option<Seq<u8>>,
    not_found: bool,
    cause: Seq<char>,
)
    ensures
        ({
            let script = users::restore_xattr_script(name, previous);
            &&& previous matches Some(value) ==> script.play(seq![]) == asking::<
                Option<Seq<char>>,
            >(RequestView::SetAttribute { name, value })
            &&& previous is None ==> script.play(seq![]) == asking::<Option<Seq<char>>>(
                RequestView::RemoveAttribute { name },
            )
            &&& script.play(seq![ReplyView::Done]) == over(Ending::Value(None::<Seq<char>>))
            &&& script.play(seq![ReplyView::Error { not_found, cause }]) == over(
                Ending::Value(Some(cause)),
            )
        }),
{
    assert(seq![ReplyView::Done].drop_first() =~= seq![]);
    assert(seq![ReplyView::Error { not_found, cause }].drop_first() =~= seq![]);
}

/// A generated password is made of what is read from `/dev/urandom`, and has
/// twenty-four letters.
pub proof fn passwords_come_from_the_system(
    replies: Seq<ReplyView>,
    not_found: bool,
    cause: Seq<char>,
)
    ensures
        ({
            let script = users::generate_password_script();
            &&& script.play(seq![]) == asking::<Seq<char>>(
                RequestView::OpenReadable { path: "/dev/urandom"@ },
            )
            &&& script.play(seq![ReplyView::Error { not_found, cause }]) == over(
                Ending::<Seq<char>>::Failed(seq!["open /dev/urandom"@, cause]),
            )
            &&& script.play(seq![ReplyView::Done] + replies)
                == users::password_from_reader_script(24).play(replies)
        }),
{
    reveal(users::generate_password_script);
    assert(seq![ReplyView::Error { not_found, cause }].drop_first() =~= seq![]);
    assert((seq![ReplyView::Done] + replies).drop_first() =~= replies);
}

/// A password is set by `chpasswd`, which reads the name and the password from its input
/// and must succeed.
pub proof fn passwords_are_handed_to_chpasswd(
    username: Seq<char>,
    password: Seq<char>,
    code: Option<i32>,
    status: Seq<char>,
    not_found: bool,
    cause: Seq<char>,
)
    ensures
        ({
            let script = users::set_password_script(username, password);
            let done = ReplyView::Done;
            let open = ReplyView::Flag(true);
            let error = ReplyView::Error { not_found, cause };
            &&& script.play(seq![]) == asking::<()>(RequestView::Start { program: "chpasswd"@ })
            &&& script.play(seq![error]) == over(
                Ending::<()>::Failed(seq!["start chpasswd"@, cause]),
            )
            &&& script.play(seq![done]) == asking::<()>(RequestView::HasInput)
            &&& script.play(seq![done, ReplyView::Flag(false)]) == over(
                Ending::<()>::Failed(seq!["open chpasswd stdin"@]),
            )
            &&& script.play(seq![done, open]) == asking::<()>(
                RequestView::WriteInput { text: username + ":"@ + password + "\n"@ },
            )
            &&& script.play(seq![done, open, error]) == over(
                Ending::<()>::Failed(seq!["write password to chpasswd"@, cause]),
            )
            &&& script.play(seq![done, open, done]) == asking::<()>(RequestView::Wait)
            &&& script.play(seq![done, open, done, error]) == over(
                Ending::<()>::Failed(seq!["wait for chpasswd"@, cause]),
            )
            &&& script.play(seq![done, open, done, ReplyView::Exited { code, status }]) == over(
                exit_of("chpasswd"@, code, status),
            )
        }),
{
    reveal(users::set_password_script);
    let done = ReplyView::Done;
    let open = ReplyView::Flag(true);
    let shut = ReplyView::Flag(false);
    let error = ReplyView::Error { not_found, cause };
    let exited = ReplyView::Exited { code, status };
    assert(seq![error].drop_first() =~= seq![]);
    assert(seq![done].drop_first() =~= seq![]);
    assert(seq![done, shut].drop_first().drop_first() =~= seq![]);
    assert(seq![done, open].drop_first().drop_first() =~= seq![]);
    assert(seq![done, open, error].drop_first().drop_first() =~= seq![error]);
    assert(seq![done, open, done].drop_first().drop_first() =~= seq![done]);
    assert(seq![done, open, done, error].drop_first().drop_first().drop_first() =~= seq![error]);
    assert(seq![done, open, done, exited].drop_first().drop_first().drop_first() =~= seq![exited]);
    assert(seq![exited].drop_first() =~= seq![]);
    reveal_strlit("chpasswd");
    reveal_strlit(" failed with ");
    reveal_strlit("chpasswd failed with ");
    assert("chpasswd"@ + " failed with "@ =~= "chpasswd failed with "@);
}

/// Something is given away by `chown`, which does not follow links and must succeed.
pub proof fn owners_are_set(
    path: Seq<char>,
    owner: Seq<char>,
    group: Seq<char>,
    code: Option<i32>,
    status: Seq<char>,
    not_found: bool,
    cause: Seq<char>,
)
    ensures
        ({
            let script = provision::set_owner_script(path, owner, group);
            &&& script.play(seq![]) == asking::<()>(
                RequestView::Run {
                    program: "chown"@,
                    arguments: seq![
                        WordView::Text("-h"@),
                        WordView::Text(owner + ":"@ + group),
                        WordView::Text(path),
                    ],
                },
            )
            &&& script.play(seq![ReplyView::Error { not_found, cause }]) == over(
                Ending::<()>::Failed(seq!["set owner of "@ + path, "run chown"@, cause]),
            )
            &&& script.play(seq![ReplyView::Exited { code, status }]) == over(
                chown_exit(path, code, status),
            )
        }),
{
    let doing = "set owner of "@ + path;
    assert(seq![ReplyView::Exited { code, status }].drop_first() =~= seq![]);
    assert(seq![ReplyView::Error { not_found, cause }].drop_first() =~= seq![]);
    reveal_strlit("run ");
    reveal_strlit("chown");
    reveal_strlit("run chown");
    reveal_strlit(" failed with ");
    reveal_strlit("chown failed with ");
    assert("run "@ + "chown"@ =~= "run chown"@);
    assert("chown"@ + " failed with "@ =~= "chown failed with "@);
    assert(seq![doing] + seq!["run chown"@, cause] =~= seq![doing, "run chown"@, cause]);
    assert(seq![doing] + seq!["chown failed with "@ + status] =~= seq![
        doing,
        "chown failed with "@ + status,
    ]);
}

/// A directory that cannot be seen to is a failure, which says what could not be done;
/// one that was seen to and given away is none.
pub proof fn directories_may_fail(
    path: Seq<char>,
    mode: u32,
    owner: Seq<char>,
    group: Seq<char>,
    kind: FileKind,
    code: Option<i32>,
    status: Seq<char>,
    not_found: bool,
    cause: Seq<char>,
)
    ensures
        ({
            let script = provision::ensure_directory_script(path, mode, owner, group);
            let done = ReplyView::Done;
            let there = ReplyView::Flag(true);
            let found = ReplyView::Kind(FileKind::Directory);
            let error = ReplyView::Error { not_found, cause };
            &&& script.play(seq![ReplyView::Flag(false), error]) == over(
                Ending::<()>::Failed(seq!["create "@ + path, cause]),
            )
            &&& script.play(seq![there, error]) == over(
                Ending::<()>::Failed(
                    seq!["open directory without following links: "@ + path, cause],
                ),
            )
            &&& script.play(seq![there, done, error]) == over(Ending::<()>::Failed(seq![cause]))
            &&& kind != FileKind::Directory ==> script.play(
                seq![there, done, ReplyView::Kind(kind)],
            ) == over(Ending::<()>::Failed(seq![path + " is not a directory"@]))
            &&& script.play(seq![there, done, found, error]) == over(
                Ending::<()>::Failed(
                    seq!["chmod "@ + text::octal_text(mode as nat) + " "@ + path, cause],
                ),
            )
            &&& script.play(
                seq![there, done, found, done, ReplyView::Exited { code, status }],
            ) == over(chown_exit(path, code, status))
        }),
{
    reveal(provision::ensure_directory_script);
    owners_are_set(path, owner, group, code, status, not_found, cause);
    let done = ReplyView::Done;
    let there = ReplyView::Flag(true);
    let missing = ReplyView::Flag(false);
    let found = ReplyView::Kind(FileKind::Directory);
    let other = ReplyView::Kind(kind);
    let error = ReplyView::Error { not_found, cause };
    let exited = ReplyView::Exited { code, status };
    assert(seq![missing, error].drop_first() =~= seq![error]);
    assert(seq![there, error].drop_first() =~= seq![error]);
    assert(seq![error].drop_first() =~= seq![]);
    assert(seq![there, done, error].drop_first().drop_first() =~= seq![error]);
    assert(seq![there, done, other].drop_first().drop_first() =~= seq![other]);
    assert(seq![other].drop_first() =~= seq![]);
    assert(seq![there, done, found, error].drop_first().drop_first() =~= seq![found, error]);
    assert(seq![found, error].drop_first() =~= seq![error]);
    assert(seq![there, done, found, done, exited].drop_first().drop_first() =~= seq![
        found,
        done,
        exited,
    ]);
    assert(seq![found, done, exited].drop_first() =~= seq![done, exited]);
    assert(seq![done, exited].drop_first() =~= seq![exited]);
}

/// A file that cannot be seen to is a failure, which says what could not be done; one
/// that was seen to and given away is none.
pub proof fn files_may_fail(
    path: Seq<char>,
    mode: u32,
    owner: Seq<char>,
    group: Seq<char>,
    kind: FileKind,
    code: Option<i32>,
    status: Seq<char>,
    not_found: bool,
    cause: Seq<char>,
    reason: Seq<char>,
)
    ensures
        ({
            let script = provision::ensure_file_script(path, mode, owner, group);
            let done = ReplyView::Done;
            let found = ReplyView::Kind(FileKind::Regular);
            let missing = ReplyView::Error { not_found: true, cause: reason };
            let error = ReplyView::Error { not_found, cause };
            &&& script.play(seq![]) == asking::<bool>(RequestView::OpenFile { path })
            &&& !not_found ==> script.play(seq![error]) == over(
                Ending::<bool>::Failed(seq!["open file without following links: "@ + path, cause]),
            )
            &&& script.play(seq![missing]) == asking::<bool>(RequestView::CreateFile { path })
            &&& script.play(seq![missing, error]) == over(
                Ending::<bool>::Failed(seq!["create "@ + path, cause]),
            )
            &&& script.play(seq![done]) == asking::<bool>(RequestView::OpenKind)
            &&& script.play(seq![missing, done]) == asking::<bool>(RequestView::OpenKind)
            &&& script.play(seq![done, error]) == over(Ending::<bool>::Failed(seq![cause]))
            &&& kind != FileKind::Regular ==> script.play(seq![done, ReplyView::Kind(kind)])
                == over(Ending::<bool>::Failed(seq![path + " is not a regular file"@]))
            &&& script.play(seq![done, found, error]) == over(
                Ending::<bool>::Failed(
                    seq!["chmod "@ + text::octal_text(mode as nat) + " "@ + path, cause],
                ),
            )
            &&& script.play(seq![done, found, done, ReplyView::Exited { code, status }]) == over(
                match chown_exit(path, code, status) {
                    Ending::Value(_) => Ending::Value(false),
                    Ending::Failed(trail) => Ending::Failed(trail),
                    Ending::Garbled => Ending::Garbled,
                },
            )
        }),
{
    owners_are_set(path, owner, group, code, status, not_found, cause);
    let done = ReplyView::Done;
    let found = ReplyView::Kind(FileKind::Regular);
    let other = ReplyView::Kind(kind);
    let missing = ReplyView::Error { not_found: true, cause: reason };
    let error = ReplyView::Error { not_found, cause };
    let exited = ReplyView::Exited { code, status };
    assert(seq![error].drop_first() =~= seq![]);
    assert(seq![missing].drop_first() =~= seq![]);
    assert(seq![done].drop_first() =~= seq![]);
    assert(seq![missing, error].drop_first() =~= seq![error]);
    assert(seq![missing, done].drop_first() =~= seq![done]);
    assert(seq![done, error].drop_first() =~= seq![error]);
    assert(seq![done, other].drop_first() =~= seq![other]);
    assert(seq![other].drop_first() =~= seq![]);
    assert(seq![done, found, error].drop_first() =~= seq![found, error]);
    assert(seq![found, error].drop_first() =~= seq![error]);
    assert(seq![done, found, done, exited].drop_first() =~= seq![found, done, exited]);
    assert(seq![found, done, exited].drop_first() =~= seq![done, exited]);
    assert(seq![done, exited].drop_first() =~= seq![exited]);
}

/// A file that cannot be emptied or written is a failure, which says so.
pub proof fn writings_may_fail(
    path: Seq<char>,
    contents: Seq<char>,
    not_found: bool,
    cause: Seq<char>,
)
    ensures
        ({
            let script = provision::write_file_script(path, contents);
            let done = ReplyView::Done;
            let error = ReplyView::Error { not_found, cause };
            &&& script.play(seq![]) == asking::<()>(RequestView::OpenEmptied { path })
            &&& script.play(seq![error]) == over(
                Ending::<()>::Failed(seq!["open file without following links: "@ + path, cause]),
            )
            &&& script.play(seq![done]) == asking::<()>(
                RequestView::WriteContents { text: contents },
            )
            &&& script.play(seq![done, error]) == over(
                Ending::<()>::Failed(seq!["write "@ + path, cause]),
            )
            &&& script.play(seq![done, done]) == over(Ending::Value(()))
        }),
{
    let done = ReplyView::Done;
    let error = ReplyView::Error { not_found, cause };
    assert(seq![error].drop_first() =~= seq![]);
    assert(seq![done].drop_first() =~= seq![]);
    assert(seq![done, error].drop_first() =~= seq![error]);
    assert(seq![done, done].drop_first() =~= seq![done]);
}

/// A link that cannot be looked at or created is a failure, which says so; one that was
/// created, or was there, and was given away is none.
pub proof fn links_may_fail(
    link: Seq<char>,
    target: Seq<char>,
    owner: Seq<char>,
    group: Seq<char>,
    code: Option<i32>,
    status: Seq<char>,
    not_found: bool,
    cause: Seq<char>,
    reason: Seq<char>,
)
    ensures
        ({
            let script = provision::ensure_symlink_script(link, target, owner, group);
            let missing = ReplyView::Error { not_found: true, cause: reason };
            let there = ReplyView::Bytes(vstd::utf8::encode_utf8(target));
            let error = ReplyView::Error { not_found, cause };
            let exited = ReplyView::Exited { code, status };
            &&& !not_found ==> script.play(seq![error]) == over(
                Ending::<()>::Failed(seq!["inspect "@ + link, cause]),
            )
            &&& script.play(seq![missing, error]) == over(
                Ending::<()>::Failed(seq!["link "@ + link + " to "@ + target, cause]),
            )
            &&& script.play(seq![missing, ReplyView::Done, exited]) == over(
                chown_exit(link, code, status),
            )
            &&& script.play(seq![there, exited]) == over(chown_exit(link, code, status))
        }),
{
    owners_are_set(link, owner, group, code, status, not_found, cause);
    let done = ReplyView::Done;
    let missing = ReplyView::Error { not_found: true, cause: reason };
    let there = ReplyView::Bytes(vstd::utf8::encode_utf8(target));
    let error = ReplyView::Error { not_found, cause };
    let exited = ReplyView::Exited { code, status };
    assert(seq![error].drop_first() =~= seq![]);
    assert(seq![missing, error].drop_first() =~= seq![error]);
    assert(seq![missing, done, exited].drop_first() =~= seq![done, exited]);
    assert(seq![done, exited].drop_first() =~= seq![exited]);
    assert(seq![there, exited].drop_first() =~= seq![exited]);
}

/// The site of an account is removed before its profiles, and the profiles only once the
/// site is gone.
pub proof fn managed_data_is_removed(
    username: Seq<char>,
    not_found: bool,
    cause: Seq<char>,
)
    ensures
        ({
            let script = provision::remove_managed_data_script(username);
            let site = path::below("/srv/user_sites"@, username);
            let profiles = path::below("/srv/user_profiles"@, username);
            let done = ReplyView::Done;
            let error = ReplyView::Error { not_found, cause };
            &&& script.play(seq![]) == asking::<()>(RequestView::RemoveTree { path: site })
            &&& script.play(seq![done]) == asking::<()>(RequestView::RemoveTree { path: profiles })
            &&& script.play(seq![done, done]) == over(Ending::Value(()))
            &&& script.play(seq![error]) == if not_found {
                asking::<()>(RequestView::RemoveTree { path: profiles })
            } else {
                over(Ending::Failed(seq!["remove "@ + site, cause]))
            }
            &&& script.play(seq![done, error]) == over(
                if not_found {
                    Ending::Value(())
                } else {
                    Ending::Failed(seq!["remove "@ + profiles, cause])
                },
            )
        }),
{
    let done = ReplyView::Done;
    let error = ReplyView::Error { not_found, cause };
    assert(seq![error].drop_first() =~= seq![]);
    assert(seq![done].drop_first() =~= seq![]);
    assert(seq![done, error].drop_first() =~= seq![error]);
    assert(seq![done, done].drop_first() =~= seq![done]);
}

/// A step that asks one thing is given up on a reply that does not answer it, and so are
/// the others at their first request.
pub proof fn steps_need_answers(
    username: Seq<char>,
    name: Seq<char>,
    previous: Option<Seq<u8>>,
    path: Seq<char>,
    target: Seq<char>,
    owner: Seq<char>,
    group: Seq<char>,
    mode: u32,
    reply: ReplyView,
)
    requires
        !(reply is Error),
    ensures
        ({
            let replies = seq![reply];
            &&& !(reply is Exited) ==> {
                &&& users::account_exists_script(username).play(replies) == over(
                    Ending::<bool>::Garbled,
                )
                &&& provision::set_owner_script(path, owner, group).play(replies) == over(
                    Ending::<()>::Garbled,
                )
                &&& users::rollback_new_user_script(username).play(replies) == over(
                    Ending::<()>::Garbled,
                )
            }
            &&& !(reply is Bytes) && !(reply is Absent) ==> users::read_xattr_script(
                name,
                username,
            ).play(replies) == over(Ending::<Option<Seq<char>>>::Garbled)
            &&& !(reply is Bytes) ==> provision::ensure_symlink_script(
                path,
                target,
                owner,
                group,
            ).play(replies) == over(Ending::<()>::Garbled)
            &&& !(reply is Flag) ==> provision::ensure_directory_script(
                path,
                mode,
                owner,
                group,
            ).play(replies) == over(Ending::<()>::Garbled)
            &&& !(reply is Done) ==> {
                &&& users::restore_xattr_script(name, previous).play(replies) == over(
                    Ending::<Option<Seq<char>>>::Garbled,
                )
                &&& provision::remove_tree_script(path).play(replies) == over(
                    Ending::<()>::Garbled,
                )
                &&& provision::ensure_file_script(path, mode, owner, group).play(replies) == over(
                    Ending::<bool>::Garbled,
                )
                &&& provision::write_file_script(path, target).play(replies) == over(
                    Ending::<()>::Garbled,
                )
            }
        }),
{
    reveal(users::account_exists_script);
    reveal(users::read_xattr_script);
    reveal(provision::ensure_directory_script);
    assert(seq![reply].drop_first() =~= seq![]);
}

} // verus!
