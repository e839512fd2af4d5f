//! What an account consists of besides its entry in the password file: the
//! files, directories and links that are set up for it, and their removal.
use vstd::prelude::*;

use crate::dialogue::{Dialogue, Stop};
use crate::encoding;
use crate::path;
use crate::process;
use crate::request::{FileKind, Reply, ReplyView, Request, RequestView, Word, WordView};
use crate::script::{Ending, Script};
use crate::text;

verus! {

/// The group that every account is a member of.
pub const USER_GROUP: &'static str = "salyut-bbs";

/// The group that may read profiles.
pub const PROFILE_GROUP: &'static str = USER_GROUP;

/// The directory of the sites.
pub const SITE_ROOT: &'static str = "/srv/user_sites";

/// The directory of the profiles.
pub const PROFILE_ROOT: &'static str = "/srv/user_profiles";

/// What [`set_owner`] does.
pub open spec fn set_owner_script(path: Seq<char>, owner: Seq<char>, group: Seq<char>) -> Script<
    (),
> {
    process::run_script(
        "chown"@,
        seq![
            WordView::Text("-h"@),
            WordView::Text(owner + ":"@ + group),
            WordView::Text(path),
        ],
    ).context("set owner of "@ + path)
}

/// Gives what stands at a path, a link itself included, to an owner and a group.
pub fn set_owner(dialogue: &mut Dialogue, path: &str, owner: &str, group: &str) -> (result: Result<
    (),
    Stop,
>)
    ensures
        final(dialogue).tells(result) == set_owner_script(path@, owner@, group@).play(
            old(dialogue).pending(),
        ),
{
    let arguments = vec![
        Word::Text("-h".to_owned()),
        Word::Text(owner.to_owned().concat(":").concat(group)),
        Word::Text(path.to_owned()),
    ];
    assert(arguments.deep_view() =~= seq![
        WordView::Text("-h"@),
        WordView::Text(owner@ + ":"@ + group@),
        WordView::Text(path@),
    ]);
    match process::run(dialogue, "chown", arguments) {
        Err(Stop::Failed(failure)) => {
            Err(Stop::Failed(failure.context("set owner of ".to_owned().concat(path))))
        },
        result => result,
    }
}

/// What [`ensure_directory`] does.
#[verifier::opaque]
pub open spec fn ensure_directory_script(
    path: Seq<char>,
    mode: u32,
    owner: Seq<char>,
    group: Seq<char>,
) -> Script<()> {
    Script::question(RequestView::Exists { place: WordView::Text(path) }).and_then(
        |exists: bool|
            if exists {
                Script::give(())
            } else {
                Script::perform(RequestView::CreateDirectories { path }, "create "@ + path)
            },
    ).and(
        Script::perform(
            RequestView::OpenDirectory { path },
            "open directory without following links: "@ + path,
        ),
    ).and(Script::expect_kind(FileKind::Directory, path + " is not a directory"@)).and(
        Script::perform(
            RequestView::SetMode { mode },
            "chmod "@ + text::octal_text(mode as nat) + " "@ + path,
        ),
    ).and(set_owner_script(path, owner, group))
}

/// Sees to it that a directory is there, with its permission bits and its owner.
pub fn ensure_directory(
    dialogue: &mut Dialogue,
    path: &str,
    mode: u32,
    owner: &str,
    group: &str,
) -> (result: Result<(), Stop>)
    ensures
        final(dialogue).tells(result) == ensure_directory_script(
            path@,
            mode,
            owner@,
            group@,
        ).play(old(dialogue).pending()),
{
    reveal(ensure_directory_script);
    if !dialogue.question(Request::Exists { place: Word::Text(path.to_owned()) })? {
        dialogue.perform(
            Request::CreateDirectories { path: path.to_owned() },
            "create ".to_owned().concat(path),
        )?;
    }
    dialogue.perform(
        Request::OpenDirectory { path: path.to_owned() },
        "open directory without following links: ".to_owned().concat(path),
    )?;
    dialogue.expect_kind(FileKind::Directory, path.to_owned().concat(" is not a directory"))?;
    dialogue.perform(Request::SetMode { mode }, chmod_message(mode, path))?;
    set_owner(dialogue, path, owner, group)
}

fn chmod_message(mode: u32, path: &str) -> (message: String)
    ensures
        message@ == "chmod "@ + text::octal_text(mode as nat) + " "@ + path@,
{
    "chmod ".to_owned().concat(text::octal(mode).as_str()).concat(" ").concat(path)
}

/// Opens a file, or creates it where there is none, and ends with whether it was
/// created.
pub open spec fn open_or_create_script(path: Seq<char>) -> Script<bool> {
    Script::ask(
        RequestView::OpenFile { path },
        |reply: ReplyView|
            match reply {
                ReplyView::Done => Script::give(false),
                ReplyView::Error { not_found, cause } => if not_found {
                    Script::perform(RequestView::CreateFile { path }, "create "@ + path).and(
                        Script::give(true),
                    )
                } else {
                    Script::fail("open file without following links: "@ + path, cause)
                },
                _ => Script::garbled(),
            },
    )
}

/// What [`ensure_file`] does.
pub open spec fn ensure_file_script(
    path: Seq<char>,
    mode: u32,
    owner: Seq<char>,
    group: Seq<char>,
) -> Script<bool> {
    open_or_create_script(path).and_then(
        |created: bool|
            Script::expect_kind(FileKind::Regular, path + " is not a regular file"@).and(
                Script::perform(
                    RequestView::SetMode { mode },
                    "chmod "@ + text::octal_text(mode as nat) + " "@ + path,
                ),
            ).and(set_owner_script(path, owner, group)).and(Script::give(created)),
    )
}

/// Sees to it that a regular file is there, with its permission bits and its
/// owner, and returns whether it had to be created.
pub fn ensure_file(
    dialogue: &mut Dialogue,
    path: &str,
    mode: u32,
    owner: &str,
    group: &str,
) -> (result: Result<bool, Stop>)
    ensures
        final(dialogue).tells(result) == ensure_file_script(path@, mode, owner@, group@).play(
            old(dialogue).pending(),
        ),
{
    let created = match dialogue.ask(Request::OpenFile { path: path.to_owned() })? {
        Reply::Done => false,
        Reply::Error { not_found, cause } => {
            if *not_found {
                dialogue.perform(
                    Request::CreateFile { path: path.to_owned() },
                    "create ".to_owned().concat(path),
                )?;
                true
            } else {
                return Err(
                    Stop::fail(
                        "open file without following links: ".to_owned().concat(path),
                        cause,
                    ),
                );
            }
        },
        _ => return Err(Stop::Garbled),
    };
    dialogue.expect_kind(FileKind::Regular, path.to_owned().concat(" is not a regular file"))?;
    dialogue.perform(Request::SetMode { mode }, chmod_message(mode, path))?;
    set_owner(dialogue, path, owner, group)?;
    Ok(created)
}

/// What [`write_file`] does.
pub open spec fn write_file_script(path: Seq<char>, contents: Seq<char>) -> Script<()> {
    Script::perform(
        RequestView::OpenEmptied { path },
        "open file without following links: "@ + path,
    ).and(Script::perform(RequestView::WriteContents { text: contents }, "write "@ + path))
}

/// Replaces what is in a file.
pub fn write_file(dialogue: &mut Dialogue, path: &str, contents: String) -> (result: Result<
    (),
    Stop,
>)
    ensures
        final(dialogue).tells(result) == write_file_script(path@, contents@).play(
            old(dialogue).pending(),
        ),
{
    dialogue.perform(
        Request::OpenEmptied { path: path.to_owned() },
        "open file without following links: ".to_owned().concat(path),
    )?;
    dialogue.perform(
        Request::WriteContents { text: contents },
        "write ".to_owned().concat(path),
    )
}

/// What [`ensure_symlink`] does.
pub open spec fn ensure_symlink_script(
    link: Seq<char>,
    target: Seq<char>,
    owner: Seq<char>,
    group: Seq<char>,
) -> Script<()> {
    Script::<()>::ask(
        RequestView::ReadLink { path: link },
        |reply: ReplyView|
            match reply {
                ReplyView::Bytes(existing) => if path::same_way(
                    existing,
                    vstd::utf8::encode_utf8(target),
                ) {
                    Script::give(())
                } else {
                    Script::refuse(
                        link + " points to "@ + encoding::lossy(existing) + ", expected "@ + target,
                    )
                },
                ReplyView::Error { not_found, cause } => if not_found {
                    Script::perform(
                        RequestView::CreateLink { link, target },
                        "link "@ + link + " to "@ + target,
                    )
                } else {
                    Script::fail("inspect "@ + link, cause)
                },
                _ => Script::garbled(),
            },
    ).and(set_owner_script(link, owner, group))
}

/// Sees to it that a link to `target` is there, with its owner. A link to
/// somewhere else is left alone.
pub fn ensure_symlink(
    dialogue: &mut Dialogue,
    link: &str,
    target: &str,
    owner: &str,
    group: &str,
) -> (result: Result<(), Stop>)
    ensures
        final(dialogue).tells(result) == ensure_symlink_script(
            link@,
            target@,
            owner@,
            group@,
        ).play(old(dialogue).pending()),
{
    match dialogue.ask(Request::ReadLink { path: link.to_owned() })? {
        Reply::Bytes(existing) => {
            if !path::same_path(existing.as_slice(), target.as_bytes()) {
                return Err(
                    Stop::refuse(
                        link.to_owned().concat(" points to ").concat(
                            encoding::decode_lossy(existing).as_str(),
                        ).concat(", expected ").concat(target),
                    ),
                );
            }
        },
        Reply::Error { not_found, cause } => {
            if *not_found {
                dialogue.perform(
                    Request::CreateLink { link: link.to_owned(), target: target.to_owned() },
                    "link ".to_owned().concat(link).concat(" to ").concat(target),
                )?;
            } else {
                return Err(Stop::fail("inspect ".to_owned().concat(link), cause));
            }
        },
        _ => return Err(Stop::Garbled),
    }
    set_owner(dialogue, link, owner, group)
}

/// Fails unless the home directory is a directory itself.
#[verifier::opaque]
pub open spec fn inspect_home_script(home: Seq<char>) -> Script<()> {
    Script::ask(
        RequestView::LinkKind { path: home },
        |reply: ReplyView|
            match reply {
                ReplyView::Kind(kind) => if kind == FileKind::Directory {
                    Script::give(())
                } else {
                    Script::refuse("expected home directory does not exist: "@ + home)
                },
                ReplyView::Error { not_found, cause } => Script::fail("inspect "@ + home, cause),
                _ => Script::garbled(),
            },
    )
}

fn inspect_home(dialogue: &mut Dialogue, home: &str) -> (result: Result<(), Stop>)
    ensures
        final(dialogue).tells(result) == inspect_home_script(home@).play(old(dialogue).pending()),
{
    reveal(inspect_home_script);
    match dialogue.ask(Request::LinkKind { path: home.to_owned() })? {
        Reply::Kind(kind) => {
            if *kind == FileKind::Directory {
                Ok(())
            } else {
                Err(
                    Stop::refuse(
                        "expected home directory does not exist: ".to_owned().concat(home),
                    ),
                )
            }
        },
        Reply::Error { not_found, cause } => {
            Err(Stop::fail("inspect ".to_owned().concat(home), cause))
        },
        _ => Err(Stop::Garbled),
    }
}

/// The home directory of an account.
pub open spec fn home_of(username: Seq<char>) -> Seq<char> {
    path::below("/home"@, username)
}

/// The site directory of an account.
pub open spec fn site_of(username: Seq<char>) -> Seq<char> {
    path::below(SITE_ROOT@, username)
}

/// The profile directory of an account.
pub open spec fn profiles_of(username: Seq<char>) -> Seq<char> {
    path::below(PROFILE_ROOT@, username)
}

/// The file of the keys that let an account in.
pub open spec fn keys_of(username: Seq<char>) -> Seq<char> {
    path::below(path::below(home_of(username), ".ssh"@), "authorized_keys"@)
}

/// Sees to the directory and the file of the keys, and puts the key there if
/// there is one.
#[verifier::opaque]
pub open spec fn keys_script(username: Seq<char>, ssh_key: Option<Seq<char>>) -> Script<()> {
    ensure_directory_script(
        path::below(home_of(username), ".ssh"@),
        0o700,
        username,
        username,
    ).and(ensure_file_script(keys_of(username), 0o600, username, username)).and(
        match ssh_key {
            Some(key) => write_file_script(keys_of(username), key + "\n"@),
            None => Script::give(()),
        },
    )
}

/// Sees to the site, with a greeting where there is no page yet, and to the link
/// to it.
#[verifier::opaque]
pub open spec fn site_script(username: Seq<char>) -> Script<()> {
    let site = site_of(username);
    let index = path::below(site, "index.html"@);
    ensure_directory_script(site, 0o2755, username, username).and(
        ensure_file_script(index, 0o755, username, username),
    ).and_then(
        |created: bool|
            if created {
                write_file_script(index, "Hello, World!\n"@)
            } else {
                Script::give(())
            },
    ).and(
        ensure_symlink_script(
            path::below(home_of(username), "public_html"@),
            site,
            username,
            username,
        ),
    )
}

/// Sees to one profile file and the link to it.
#[verifier::opaque]
pub open spec fn profile_script(username: Seq<char>, profile: Seq<char>) -> Script<()> {
    let file = path::below(profiles_of(username), profile);
    ensure_file_script(file, 0o640, username, PROFILE_GROUP@).and(
        ensure_symlink_script(
            path::below(home_of(username), profile),
            file,
            username,
            username,
        ),
    )
}

/// What [`apply`] does.
#[verifier::opaque]
pub open spec fn apply_script(username: Seq<char>, ssh_key: Option<Seq<char>>) -> Script<()> {
    inspect_home_script(home_of(username)).and(keys_script(username, ssh_key)).and(
        site_script(username),
    ).and(ensure_directory_script(PROFILE_ROOT@, 0o711, "root"@, "root"@)).and(
        ensure_directory_script(profiles_of(username), 0o2750, username, PROFILE_GROUP@),
    ).and(profile_script(username, ".plan"@)).and(profile_script(username, ".project"@)).and(
        process::run_script(
            "restorecon"@,
            seq![WordView::Text("-RF"@), WordView::Text(profiles_of(username))],
        ),
    )
}

fn apply_keys(
    dialogue: &mut Dialogue,
    home: &str,
    username: &str,
    ssh_key: Option<&str>,
) -> (result: Result<(), Stop>)
    requires
        home@ == home_of(username@),
    ensures
        final(dialogue).tells(result) == keys_script(username@, ssh_key.deep_view()).play(
            old(dialogue).pending(),
        ),
{
    reveal(keys_script);
    let ssh_dir = path::join(home, ".ssh");
    ensure_directory(dialogue, ssh_dir.as_str(), 0o700, username, username)?;
    let authorized_keys = path::join(ssh_dir.as_str(), "authorized_keys");
    ensure_file(dialogue, authorized_keys.as_str(), 0o600, username, username)?;
    if let Some(key) = ssh_key {
        write_file(dialogue, authorized_keys.as_str(), key.to_owned().concat("\n"))?;
    }
    Ok(())
}

fn apply_site(dialogue: &mut Dialogue, home: &str, username: &str) -> (result: Result<(), Stop>)
    requires
        home@ == home_of(username@),
    ensures
        final(dialogue).tells(result) == site_script(username@).play(old(dialogue).pending()),
{
    reveal(site_script);
    let site = path::join(SITE_ROOT, username);
    ensure_directory(dialogue, site.as_str(), 0o2755, username, username)?;
    let index = path::join(site.as_str(), "index.html");
    if ensure_file(dialogue, index.as_str(), 0o755, username, username)? {
        write_file(dialogue, index.as_str(), "Hello, World!\n".to_owned())?;
    }
    ensure_symlink(
        dialogue,
        path::join(home, "public_html").as_str(),
        site.as_str(),
        username,
        username,
    )
}

fn apply_profile(
    dialogue: &mut Dialogue,
    home: &str,
    user_profiles: &str,
    username: &str,
    profile: &str,
) -> (result: Result<(), Stop>)
    requires
        home@ == home_of(username@),
        user_profiles@ == profiles_of(username@),
    ensures
        final(dialogue).tells(result) == profile_script(username@, profile@).play(
            old(dialogue).pending(),
        ),
{
    reveal(profile_script);
    let profile_path = path::join(user_profiles, profile);
    ensure_file(dialogue, profile_path.as_str(), 0o640, username, PROFILE_GROUP)?;
    ensure_symlink(
        dialogue,
        path::join(home, profile).as_str(),
        profile_path.as_str(),
        username,
        username,
    )
}

/// Sets up, or sets right, everything that belongs to an account. A key, if one
/// is given, becomes the only one that lets the account in.
pub fn apply(dialogue: &mut Dialogue, username: &str, ssh_key: Option<&str>) -> (result: Result<
    (),
    Stop,
>)
    ensures
        final(dialogue).tells(result) == apply_script(username@, ssh_key.deep_view()).play(
            old(dialogue).pending(),
        ),
{
    reveal(apply_script);
    let home = path::join("/home", username);
    inspect_home(dialogue, home.as_str())?;
    apply_keys(dialogue, home.as_str(), username, ssh_key)?;
    apply_site(dialogue, home.as_str(), username)?;
    ensure_directory(dialogue, PROFILE_ROOT, 0o711, "root", "root")?;
    let user_profiles = path::join(PROFILE_ROOT, username);
    ensure_directory(dialogue, user_profiles.as_str(), 0o2750, username, PROFILE_GROUP)?;
    apply_profile(dialogue, home.as_str(), user_profiles.as_str(), username, ".plan")?;
    apply_profile(dialogue, home.as_str(), user_profiles.as_str(), username, ".project")?;
    let arguments = vec![Word::Text("-RF".to_owned()), Word::Text(user_profiles)];
    assert(arguments.deep_view() =~= seq![
        WordView::Text("-RF"@),
        WordView::Text(profiles_of(username@)),
    ]);
    process::run(dialogue, "restorecon", arguments)
}

/// What [`remove_tree`] does.
pub open spec fn remove_tree_script(path: Seq<char>) -> Script<()> {
    Script::ask(
        RequestView::RemoveTree { path },
        |reply: ReplyView|
            match reply {
                ReplyView::Done => Script::give(()),
                ReplyView::Error { not_found, cause } => if not_found {
                    Script::give(())
                } else {
                    Script::fail("remove "@ + path, cause)
                },
                _ => Script::garbled(),
            },
    )
}

/// Removes a directory and all below it, if it is there.
pub fn remove_tree(dialogue: &mut Dialogue, path: &str) -> (result: Result<(), Stop>)
    ensures
        final(dialogue).tells(result) == remove_tree_script(path@).play(old(dialogue).pending()),
{
    match dialogue.ask(Request::RemoveTree { path: path.to_owned() })? {
        Reply::Done => Ok(()),
        Reply::Error { not_found, cause } => {
            if *not_found {
                Ok(())
            } else {
                Err(Stop::fail("remove ".to_owned().concat(path), cause))
            }
        },
        _ => Err(Stop::Garbled),
    }
}

/// What [`remove_managed_data`] does.
pub open spec fn remove_managed_data_script(username: Seq<char>) -> Script<()> {
    remove_tree_script(site_of(username)).and(remove_tree_script(profiles_of(username)))
}

/// Removes the site and the profiles of an account.
pub fn remove_managed_data(dialogue: &mut Dialogue, username: &str) -> (result: Result<(), Stop>)
    ensures
        final(dialogue).tells(result) == remove_managed_data_script(username@).play(
            old(dialogue).pending(),
        ),
{
    remove_tree(dialogue, path::join(SITE_ROOT, username).as_str())?;
    remove_tree(dialogue, path::join(PROFILE_ROOT, username).as_str())
}

/// Plays `script` and, whether it fails or not, ends with `failures`, to which
/// its own failure is added under `label`.
pub open spec fn attempt_script(
    script: Script<()>,
    label: Seq<char>,
    failures: Seq<Seq<char>>,
) -> Script<Seq<Seq<char>>> {
    script.after(
        |ending: Ending<()>|
            match ending {
                Ending::Value(_) => Script::give(failures),
                Ending::Failed(trail) => Script::give(
                    failures.push(label + ": "@ + text::joined(trail, ": "@)),
                ),
                Ending::Garbled => Script::garbled(),
            },
    )
}

/// What [`remove_managed_data_for_rollback`] does, `failures` being those before.
pub open spec fn remove_managed_data_for_rollback_script(
    username: Seq<char>,
    failures: Seq<Seq<char>>,
) -> Script<Seq<Seq<char>>> {
    attempt_script(remove_tree_script(site_of(username)), SITE_ROOT@, failures).and_then(
        |failures: Seq<Seq<char>>|
            attempt_script(
                remove_tree_script(profiles_of(username)),
                PROFILE_ROOT@,
                failures,
            ),
    )
}

/// Adds the failure of an attempt, if it failed, to those before.
pub fn note_failure(result: Result<(), Stop>, label: &str, failures: &mut Vec<String>) -> (noted:
    Result<(), Stop>)
    ensures
        match result {
            Ok(()) => noted is Ok && final(failures).deep_view() == old(failures).deep_view(),
            Err(Stop::Failed(failure)) => noted is Ok && final(failures).deep_view() == old(
                failures,
            ).deep_view().push(label@ + ": "@ + text::joined(failure@, ": "@)),
            Err(stop) => noted == Err::<(), Stop>(stop) && final(failures).deep_view() == old(
                failures,
            ).deep_view(),
        },
{
    match result {
        Ok(()) => Ok(()),
        Err(Stop::Failed(failure)) => {
            let ghost before = failures.deep_view();
            let line = label.to_owned().concat(": ").concat(failure.one_line().as_str());
            failures.push(line);
            assert(failures.deep_view() =~= before.push(line@));
            Ok(())
        },
        Err(stop) => Err(stop),
    }
}

/// Removes the site and the profiles of an account, both of them even if one
/// cannot be removed, and adds what went wrong to `failures`.
pub fn remove_managed_data_for_rollback(
    dialogue: &mut Dialogue,
    username: &str,
    failures: &mut Vec<String>,
) -> (result: Result<(), Stop>)
    ensures
        remove_managed_data_for_rollback_script(username@, old(failures).deep_view()).play(
            old(dialogue).pending(),
        ) == match result {
            Ok(()) => final(dialogue).tells(Ok::<Vec<String>, Stop>(*final(failures))),
            Err(stop) => final(dialogue).tells(Err::<Vec<String>, Stop>(stop)),
        },
{
    let site = remove_tree(dialogue, path::join(SITE_ROOT, username).as_str());
    note_failure(site, SITE_ROOT, failures)?;
    let profiles = remove_tree(dialogue, path::join(PROFILE_ROOT, username).as_str());
    note_failure(profiles, PROFILE_ROOT, failures)
}

} // verus!
