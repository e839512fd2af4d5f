//! The accounts: they are added, inspected, changed, repaired and deleted here.
use vstd::prelude::*;

use crate::dialogue::{Dialogue, Stop};
use crate::encoding;
use crate::failure::Failure;
use crate::path;
use crate::process;
use crate::provision;
use crate::request::{FileKind, Reply, ReplyView, Request, RequestView, Word, WordView};
use crate::script::{Ending, Progress, Script, Trail};
use crate::text;

verus! {

broadcast use crate::request::bytes_are_their_items;

/// How long a generated password is.
pub const PASSWORD_LEN: usize = 24;

/// The letters of a generated password.
pub const PASSWORD_ALPHABET: &'static str =
    "ABCDEFGHJKLMNPQRSTUVWXYZabcdefghijkmnopqrstuvwxyz23456789";

/// The attribute of a home directory that holds the recovery email address.
pub const RECOVERY_EMAIL_XATTR: &'static str = "trusted.recovery";

/// The attribute of a home directory that holds the signup email address.
pub const SIGNUP_EMAIL_XATTR: &'static str = "trusted.signup";

/// Whether a user name may begin with a letter.
pub open spec fn begins_username(letter: char) -> bool {
    'a' <= letter <= 'z' || letter == '_'
}

/// Whether a user name may go on with a letter.
pub open spec fn continues_username(letter: char) -> bool {
    'a' <= letter <= 'z' || '0' <= letter <= '9' || letter == '_' || letter == '-'
}

/// Whether an account may have this name.
pub open spec fn valid_username(username: Seq<char>) -> bool {
    &&& 1 <= username.len() <= 32
    &&& begins_username(username[0])
    &&& forall|i: int| 1 <= i < username.len() ==> continues_username(#[trigger] username[i])
}

/// What [`validate_username`] finds wrong, if anything.
pub open spec fn username_fault(username: Seq<char>) -> Option<Seq<char>> {
    if username.len() == 0 {
        Some("username is empty"@)
    } else if valid_username(username) {
        None
    } else {
        Some("invalid username: "@ + username)
    }
}

/// Checks the name of an account.
pub fn validate_username(username: &str) -> (check: Result<(), Failure>)
    ensures
        match check {
            Ok(()) => username_fault(username@) is None,
            Err(failure) => username_fault(username@) matches Some(fault) && failure@
                == seq![fault],
        },
{
    let chars = text::chars_of(username);
    if chars.len() == 0 {
        return Err(Failure::new("username is empty".to_owned()));
    }
    let first = chars[0];
    let mut valid = chars.len() <= 32 && (('a' <= first && first <= 'z') || first == '_');
    let mut i: usize = 1;
    while valid && i < chars.len()
        invariant
            1 <= i <= chars.len(),
            chars@ == username@,
            valid ==> chars.len() <= 32 && begins_username(username@[0]),
            valid ==> forall|k: int| 1 <= k < i ==> continues_username(#[trigger] username@[k]),
            !valid ==> !valid_username(username@),
        decreases chars.len() - i,
    {
        let letter = chars[i];
        assert(letter == username@[i as int]);
        valid = ('a' <= letter && letter <= 'z') || ('0' <= letter && letter <= '9') || letter
            == '_' || letter == '-';
        i = i + 1;
    }
    if valid {
        Ok(())
    } else {
        Err(Failure::new("invalid username: ".to_owned().concat(username)))
    }
}

/// What [`validate_ssh_key`] finds wrong, if anything.
pub open spec fn ssh_key_fault(key: Seq<char>) -> Option<Seq<char>> {
    if text::blank(key) {
        Some("SSH public key is empty"@)
    } else if text::one_line(key) {
        None
    } else {
        Some("SSH public key must be one line"@)
    }
}

/// Checks a public key.
pub fn validate_ssh_key(key: &str) -> (check: Result<(), Failure>)
    ensures
        match check {
            Ok(()) => ssh_key_fault(key@) is None,
            Err(failure) => ssh_key_fault(key@) matches Some(fault) && failure@ == seq![fault],
        },
{
    if text::is_blank(key) {
        Err(Failure::new("SSH public key is empty".to_owned()))
    } else if text::is_one_line(key) {
        Ok(())
    } else {
        Err(Failure::new("SSH public key must be one line".to_owned()))
    }
}

/// What [`validate_email`] finds wrong, if anything.
pub open spec fn email_fault(label: Seq<char>, email: Seq<char>) -> Option<Seq<char>> {
    if email.len() == 0 {
        Some(label + " email address is empty"@)
    } else if text::one_line(email) {
        None
    } else {
        Some(label + " email address must be one line"@)
    }
}

/// Checks an email address, which is called `label`.
pub fn validate_email(label: &str, email: &str) -> (check: Result<(), Failure>)
    ensures
        match check {
            Ok(()) => email_fault(label@, email@) is None,
            Err(failure) => email_fault(label@, email@) matches Some(fault) && failure@
                == seq![fault],
        },
{
    if email.is_empty() {
        Err(Failure::new(label.to_owned().concat(" email address is empty")))
    } else if text::is_one_line(email) {
        Ok(())
    } else {
        Err(Failure::new(label.to_owned().concat(" email address must be one line")))
    }
}

/// What [`account_exists`] does.
#[verifier::opaque]
pub open spec fn account_exists_script(username: Seq<char>) -> Script<bool> {
    Script::ask(
        RequestView::RunQuietly {
            program: "getent"@,
            arguments: seq![WordView::Text("passwd"@), WordView::Text(username)],
        },
        |reply: ReplyView|
            match reply {
                ReplyView::Exited { code, status } => if code == Some(0i32) {
                    Script::give(true)
                } else if code == Some(2i32) {
                    Script::give(false)
                } else {
                    Script::refuse("getent passwd failed with "@ + status)
                },
                ReplyView::Error { not_found, cause } => Script::fail("run getent"@, cause),
                _ => Script::garbled(),
            },
    )
}

/// Whether there is an account of this name.
pub fn account_exists(dialogue: &mut Dialogue, username: &str) -> (result: Result<bool, Stop>)
    ensures
        final(dialogue).tells(result) == account_exists_script(username@).play(
            old(dialogue).pending(),
        ),
{
    reveal(account_exists_script);
    let arguments = vec![Word::Text("passwd".to_owned()), Word::Text(username.to_owned())];
    assert(arguments.deep_view() =~= seq![
        WordView::Text("passwd"@),
        WordView::Text(username@),
    ]);
    match dialogue.ask(Request::RunQuietly { program: "getent".to_owned(), arguments })? {
        Reply::Exited { code, status } => {
            if process::exited_with(code, 0) {
                Ok(true)
            } else if process::exited_with(code, 2) {
                Ok(false)
            } else {
                Err(
                    Stop::refuse(
                        "getent passwd failed with ".to_owned().concat(status.as_str()),
                    ),
                )
            }
        },
        Reply::Error { not_found, cause } => Err(Stop::fail("run getent".to_owned(), cause)),
        _ => Err(Stop::Garbled),
    }
}

/// Fails unless there is an account of this name.
pub open spec fn expect_account_script(username: Seq<char>) -> Script<()> {
    account_exists_script(username).and_then(
        |exists: bool|
            if exists {
                Script::give(())
            } else {
                Script::refuse("account does not exist: "@ + username)
            },
    )
}

fn expect_account(dialogue: &mut Dialogue, username: &str) -> (result: Result<(), Stop>)
    ensures
        final(dialogue).tells(result) == expect_account_script(username@).play(
            old(dialogue).pending(),
        ),
{
    if account_exists(dialogue, username)? {
        Ok(())
    } else {
        Err(Stop::refuse("account does not exist: ".to_owned().concat(username)))
    }
}

/// What [`require_account`] does.
pub open spec fn require_account_script(username: Seq<char>) -> Script<()> {
    Script::check(username_fault(username)).and(expect_account_script(username))
}

/// Fails unless this is the name of an account, and a valid one.
pub fn require_account(dialogue: &mut Dialogue, username: &str) -> (result: Result<(), Stop>)
    ensures
        final(dialogue).tells(result) == require_account_script(username@).play(
            old(dialogue).pending(),
        ),
{
    Stop::unless(validate_username(username))?;
    expect_account(dialogue, username)
}

/// What [`open_home`] does.
#[verifier::opaque]
pub open spec fn open_home_script(username: Seq<char>) -> Script<()> {
    let home = provision::home_of(username);
    Script::perform(
        RequestView::OpenDirectory { path: home },
        "open home directory without following links: "@ + home,
    ).and(
        Script::expect_kind(
            FileKind::Directory,
            "expected home directory does not exist: "@ + home,
        ),
    )
}

/// Opens the home directory of an account.
pub fn open_home(dialogue: &mut Dialogue, username: &str) -> (result: Result<(), Stop>)
    ensures
        final(dialogue).tells(result) == open_home_script(username@).play(
            old(dialogue).pending(),
        ),
{
    reveal(open_home_script);
    let home = path::join("/home", username);
    dialogue.perform(
        Request::OpenDirectory { path: home.clone() },
        "open home directory without following links: ".to_owned().concat(home.as_str()),
    )?;
    dialogue.expect_kind(
        FileKind::Directory,
        "expected home directory does not exist: ".to_owned().concat(home.as_str()),
    )
}

/// Sets an attribute of the open home directory to a text.
pub open spec fn set_attribute_script(
    name: Seq<char>,
    value: Seq<char>,
    username: Seq<char>,
) -> Script<()> {
    Script::perform(
        RequestView::SetAttribute { name, value: vstd::utf8::encode_utf8(value) },
        "set "@ + name + " for "@ + username,
    )
}

fn set_attribute(dialogue: &mut Dialogue, name: &str, value: &str, username: &str) -> (result:
    Result<(), Stop>)
    ensures
        final(dialogue).tells(result) == set_attribute_script(name@, value@, username@).play(
            old(dialogue).pending(),
        ),
{
    dialogue.perform(
        Request::SetAttribute {
            name: name.to_owned(),
            value: path::copy_bytes(value.as_bytes()),
        },
        "set ".to_owned().concat(name).concat(" for ").concat(username),
    )
}

/// What [`store_emails`] does.
#[verifier::opaque]
pub open spec fn store_emails_script(
    username: Seq<char>,
    signup: Seq<char>,
    recovery: Seq<char>,
) -> Script<()> {
    open_home_script(username).and(
        set_attribute_script(SIGNUP_EMAIL_XATTR@, signup, username),
    ).and(set_attribute_script(RECOVERY_EMAIL_XATTR@, recovery, username))
}

/// Records the email addresses of an account.
pub fn store_emails(
    dialogue: &mut Dialogue,
    username: &str,
    signup: &str,
    recovery: &str,
) -> (result: Result<(), Stop>)
    ensures
        final(dialogue).tells(result) == store_emails_script(
            username@,
            signup@,
            recovery@,
        ).play(old(dialogue).pending()),
{
    reveal(store_emails_script);
    open_home(dialogue, username)?;
    set_attribute(dialogue, SIGNUP_EMAIL_XATTR, signup, username)?;
    set_attribute(dialogue, RECOVERY_EMAIL_XATTR, recovery, username)
}

/// What [`read_xattr`] does.
#[verifier::opaque]
pub open spec fn read_xattr_script(name: Seq<char>, username: Seq<char>) -> Script<
    Option<Seq<char>>,
> {
    Script::ask(
        RequestView::GetAttribute { name },
        |reply: ReplyView|
            match reply {
                ReplyView::Bytes(value) => if vstd::utf8::valid_utf8(value) {
                    Script::give(Some(vstd::utf8::decode_utf8(value)))
                } else {
                    Script::fail(
                        name + " for "@ + username + " is not valid UTF-8"@,
                        encoding::utf8_complaint(value),
                    )
                },
                ReplyView::Absent => Script::give(None),
                ReplyView::Error { not_found, cause } => Script::fail(
                    "read "@ + name + " for "@ + username,
                    cause,
                ),
                _ => Script::garbled(),
            },
    )
}

/// Reads an attribute of the open home directory, if it is set.
pub fn read_xattr(dialogue: &mut Dialogue, name: &str, username: &str) -> (result: Result<
    Option<String>,
    Stop,
>)
    ensures
        final(dialogue).tells(result) == read_xattr_script(name@, username@).play(
            old(dialogue).pending(),
        ),
{
    reveal(read_xattr_script);
    match dialogue.ask(Request::GetAttribute { name: name.to_owned() })? {
        Reply::Bytes(value) => match encoding::decode(value) {
            Ok(value) => Ok(Some(value)),
            Err(complaint) => Err(
                Stop::fail(
                    name.to_owned().concat(" for ").concat(username).concat(
                        " is not valid UTF-8",
                    ),
                    &complaint,
                ),
            ),
        },
        Reply::Absent => Ok(None),
        Reply::Error { not_found, cause } => Err(
            Stop::fail("read ".to_owned().concat(name).concat(" for ").concat(username), cause),
        ),
        _ => Err(Stop::Garbled),
    }
}

/// What [`info`] shows.
pub open spec fn show_info_script(
    username: Seq<char>,
    signup: Seq<char>,
    recovery: Option<Seq<char>>,
) -> Script<()> {
    Script::print("username: "@ + username).and(Script::print("signup email: "@ + signup)).and(
        Script::print(
            "recovery email: "@ + match recovery {
                Some(recovery) => recovery,
                None => "(not set)"@,
            },
        ),
    )
}

/// What [`info`] does.
pub open spec fn info_script(username: Seq<char>) -> Script<()> {
    require_account_script(username).and(open_home_script(username)).and(
        read_xattr_script(SIGNUP_EMAIL_XATTR@, username),
    ).and_then(
        |signup: Option<Seq<char>>|
            match signup {
                Some(signup) => read_xattr_script(RECOVERY_EMAIL_XATTR@, username).and_then(
                    |recovery: Option<Seq<char>>| show_info_script(username, signup, recovery),
                ),
                None => Script::refuse(SIGNUP_EMAIL_XATTR@ + " is not set for "@ + username),
            },
    )
}

fn show_info(
    dialogue: &mut Dialogue,
    username: &str,
    signup: &str,
    recovery: &Option<String>,
) -> (result: Result<(), Stop>)
    ensures
        final(dialogue).tells(result) == show_info_script(
            username@,
            signup@,
            recovery.deep_view(),
        ).play(old(dialogue).pending()),
{
    dialogue.print("username: ".to_owned().concat(username))?;
    dialogue.print("signup email: ".to_owned().concat(signup))?;
    let shown = match recovery {
        Some(recovery) => recovery.as_str(),
        None => "(not set)",
    };
    dialogue.print("recovery email: ".to_owned().concat(shown))
}

/// Shows the email addresses of an account.
pub fn info(dialogue: &mut Dialogue, username: &str) -> (result: Result<(), Stop>)
    ensures
        final(dialogue).tells(result) == info_script(username@).play(old(dialogue).pending()),
{
    require_account(dialogue, username)?;
    open_home(dialogue, username)?;
    match read_xattr(dialogue, SIGNUP_EMAIL_XATTR, username)? {
        Some(signup) => {
            let recovery = read_xattr(dialogue, RECOVERY_EMAIL_XATTR, username)?;
            show_info(dialogue, username, signup.as_str(), &recovery)
        },
        None => Err(
            Stop::refuse(
                SIGNUP_EMAIL_XATTR.to_owned().concat(" is not set for ").concat(username),
            ),
        ),
    }
}

/// What [`restore_xattr`] asks.
pub open spec fn restore_request(name: Seq<char>, previous: Option<Seq<u8>>) -> RequestView {
    match previous {
        Some(value) => RequestView::SetAttribute { name, value },
        None => RequestView::RemoveAttribute { name },
    }
}

/// What [`restore_xattr`] does: ends with the reason why it could not be done,
/// if there is one.
pub open spec fn restore_xattr_script(name: Seq<char>, previous: Option<Seq<u8>>) -> Script<
    Option<Seq<char>>,
> {
    Script::ask(
        restore_request(name, previous),
        |reply: ReplyView|
            match reply {
                ReplyView::Done => Script::give(None),
                ReplyView::Error { not_found, cause } => Script::give(Some(cause)),
                _ => Script::garbled(),
            },
    )
}

/// Gives an attribute of the open home directory back the value it had, or
/// removes it if it had none.
pub fn restore_xattr(dialogue: &mut Dialogue, name: &str, previous: Option<&Vec<u8>>) -> (result:
    Result<Option<String>, Stop>)
    ensures
        final(dialogue).tells(result) == restore_xattr_script(name@, previous.deep_view()).play(
            old(dialogue).pending(),
        ),
{
    let request = match previous {
        Some(value) => Request::SetAttribute {
            name: name.to_owned(),
            value: path::copy_bytes(value.as_slice()),
        },
        None => Request::RemoveAttribute { name: name.to_owned() },
    };
    match dialogue.ask(request)? {
        Reply::Done => Ok(None),
        Reply::Error { not_found, cause } => Ok(Some(cause.clone())),
        _ => Err(Stop::Garbled),
    }
}

/// Ends with the signup address as it stands.
pub open spec fn previous_signup_script(username: Seq<char>) -> Script<Option<Seq<u8>>> {
    Script::ask(
        RequestView::GetAttribute { name: SIGNUP_EMAIL_XATTR@ },
        |reply: ReplyView|
            match reply {
                ReplyView::Bytes(value) => Script::give(Some(value)),
                ReplyView::Absent => Script::give(None),
                ReplyView::Error { not_found, cause } => Script::fail(
                    "read "@ + SIGNUP_EMAIL_XATTR@ + " for "@ + username,
                    cause,
                ),
                _ => Script::garbled(),
            },
    )
}

/// Sets the recovery address or, if that fails, gives the signup address back
/// the value it had and fails too.
pub open spec fn set_recovery_script(
    username: Seq<char>,
    recovery: Seq<char>,
    previous_signup: Option<Seq<u8>>,
) -> Script<()> {
    let doing = "set "@ + RECOVERY_EMAIL_XATTR@ + " for "@ + username;
    Script::ask(
        RequestView::SetAttribute {
            name: RECOVERY_EMAIL_XATTR@,
            value: vstd::utf8::encode_utf8(recovery),
        },
        |reply: ReplyView|
            match reply {
                ReplyView::Done => Script::give(()),
                ReplyView::Error { not_found, cause } => restore_xattr_script(
                    SIGNUP_EMAIL_XATTR@,
                    previous_signup,
                ).and_then(
                    |obstacle: Option<Seq<char>>|
                        match obstacle {
                            None => Script::fail(
                                doing + "; restored previous signup email"@,
                                cause,
                            ),
                            Some(obstacle) => Script::fail(
                                doing + "; failed to restore previous signup email: "@ + obstacle,
                                cause,
                            ),
                        },
                ),
                _ => Script::garbled(),
            },
    )
}

/// What [`set_emails`] does once the account is known to be there.
pub open spec fn change_emails_script(
    username: Seq<char>,
    signup: Seq<char>,
    recovery: Option<Seq<char>>,
) -> Script<()> {
    open_home_script(username).and(previous_signup_script(username)).and_then(
        |previous: Option<Seq<u8>>|
            set_attribute_script(SIGNUP_EMAIL_XATTR@, signup, username).and(
                match recovery {
                    Some(recovery) => set_recovery_script(username, recovery, previous),
                    None => Script::give(()),
                },
            ),
    ).and(Script::print("updated email addresses: "@ + username))
}

/// What [`set_emails`] does.
pub open spec fn set_emails_script(
    username: Seq<char>,
    signup: Seq<char>,
    recovery: Option<Seq<char>>,
) -> Script<()> {
    Script::check(username_fault(username)).and(
        Script::check(email_fault("signup"@, signup)),
    ).and(
        match recovery {
            Some(recovery) => Script::check(email_fault("recovery"@, recovery)),
            None => Script::give(()),
        },
    ).and(expect_account_script(username)).and(change_emails_script(username, signup, recovery))
}

fn set_recovery(
    dialogue: &mut Dialogue,
    username: &str,
    recovery: &str,
    previous_signup: Option<&Vec<u8>>,
) -> (result: Result<(), Stop>)
    ensures
        final(dialogue).tells(result) == set_recovery_script(
            username@,
            recovery@,
            previous_signup.deep_view(),
        ).play(old(dialogue).pending()),
{
    let doing = "set ".to_owned().concat(RECOVERY_EMAIL_XATTR).concat(" for ").concat(username);
    let request = Request::SetAttribute {
        name: RECOVERY_EMAIL_XATTR.to_owned(),
        value: path::copy_bytes(recovery.as_bytes()),
    };
    match dialogue.ask(request)? {
        Reply::Done => Ok(()),
        Reply::Error { not_found, cause } => match restore_xattr(
            dialogue,
            SIGNUP_EMAIL_XATTR,
            previous_signup,
        )? {
            None => Err(Stop::fail(doing.concat("; restored previous signup email"), cause)),
            Some(obstacle) => Err(
                Stop::fail(
                    doing.concat("; failed to restore previous signup email: ").concat(
                        obstacle.as_str(),
                    ),
                    cause,
                ),
            ),
        },
        _ => Err(Stop::Garbled),
    }
}

fn change_emails(
    dialogue: &mut Dialogue,
    username: &str,
    signup: &str,
    recovery: Option<&str>,
) -> (result: Result<(), Stop>)
    ensures
        final(dialogue).tells(result) == change_emails_script(
            username@,
            signup@,
            recovery.deep_view(),
        ).play(old(dialogue).pending()),
{
    open_home(dialogue, username)?;
    let previous = match dialogue.ask(
        Request::GetAttribute { name: SIGNUP_EMAIL_XATTR.to_owned() },
    )? {
        Reply::Bytes(value) => Some(value),
        Reply::Absent => None,
        Reply::Error { not_found, cause } => return Err(
            Stop::fail(
                "read ".to_owned().concat(SIGNUP_EMAIL_XATTR).concat(" for ").concat(username),
                cause,
            ),
        ),
        _ => return Err(Stop::Garbled),
    };
    set_attribute(dialogue, SIGNUP_EMAIL_XATTR, signup, username)?;
    if let Some(recovery) = recovery {
        set_recovery(dialogue, username, recovery, previous)?;
    }
    dialogue.print("updated email addresses: ".to_owned().concat(username))
}

/// Changes the email addresses of an account. If the recovery address cannot be
/// set, the signup address is given back the value it had.
pub fn set_emails(
    dialogue: &mut Dialogue,
    username: &str,
    signup: &str,
    recovery: Option<&str>,
) -> (result: Result<(), Stop>)
    ensures
        final(dialogue).tells(result) == set_emails_script(
            username@,
            signup@,
            recovery.deep_view(),
        ).play(old(dialogue).pending()),
{
    Stop::unless(validate_username(username))?;
    Stop::unless(validate_email("signup", signup))?;
    if let Some(recovery) = recovery {
        Stop::unless(validate_email("recovery", recovery))?;
    }
    expect_account(dialogue, username)?;
    change_emails(dialogue, username, signup, recovery)
}

/// What [`repair`] does.
pub open spec fn repair_script(username: Seq<char>) -> Script<()> {
    require_account_script(username).and(provision::apply_script(username, None)).and(
        Script::print("repaired account: "@ + username),
    )
}

/// Sets right everything that belongs to an account.
pub fn repair(dialogue: &mut Dialogue, username: &str) -> (result: Result<(), Stop>)
    ensures
        final(dialogue).tells(result) == repair_script(username@).play(old(dialogue).pending()),
{
    require_account(dialogue, username)?;
    provision::apply(dialogue, username, None)?;
    dialogue.print("repaired account: ".to_owned().concat(username))
}

/// Removes the entry of an account and its home directory.
pub open spec fn userdel_script(username: Seq<char>) -> Script<()> {
    process::run_script("userdel"@, seq![WordView::Text("-r"@), WordView::Text(username)])
}

fn userdel(dialogue: &mut Dialogue, username: &str) -> (result: Result<(), Stop>)
    ensures
        final(dialogue).tells(result) == userdel_script(username@).play(old(dialogue).pending()),
{
    let arguments = vec![Word::Text("-r".to_owned()), Word::Text(username.to_owned())];
    assert(arguments.deep_view() =~= seq![WordView::Text("-r"@), WordView::Text(username@)]);
    process::run(dialogue, "userdel", arguments)
}

/// What [`delete`] does.
pub open spec fn delete_script(username: Seq<char>, confirmed: bool) -> Script<()> {
    Script::check(username_fault(username)).and(
        Script::check(
            if confirmed {
                None
            } else {
                Some("refusing to delete "@ + username + "; repeat with --yes to confirm"@)
            },
        ),
    ).and(expect_account_script(username)).and(userdel_script(username)).and(
        provision::remove_managed_data_script(username),
    ).and(Script::print("deleted account and managed data: "@ + username))
}

/// Deletes an account with its home directory, site and profiles.
pub fn delete(dialogue: &mut Dialogue, username: &str, confirmed: bool) -> (result: Result<
    (),
    Stop,
>)
    ensures
        final(dialogue).tells(result) == delete_script(username@, confirmed).play(
            old(dialogue).pending(),
        ),
{
    Stop::unless(validate_username(username))?;
    if !confirmed {
        return Err(
            Stop::refuse(
                "refusing to delete ".to_owned().concat(username).concat(
                    "; repeat with --yes to confirm",
                ),
            ),
        );
    }
    expect_account(dialogue, username)?;
    userdel(dialogue, username)?;
    provision::remove_managed_data(dialogue, username)?;
    dialogue.print("deleted account and managed data: ".to_owned().concat(username))
}

/// What [`rollback_new_user`] does.
pub open spec fn rollback_new_user_script(username: Seq<char>) -> Script<()> {
    provision::attempt_script(userdel_script(username), "userdel"@, seq![]).and_then(
        |failures: Seq<Seq<char>>|
            provision::remove_managed_data_for_rollback_script(username, failures),
    ).and_then(
        |failures: Seq<Seq<char>>|
            if failures.len() == 0 {
                Script::give(())
            } else {
                Script::refuse(text::joined(failures, "; "@))
            },
    )
}

/// Takes back an account that was just added: all of it that can be.
pub fn rollback_new_user(dialogue: &mut Dialogue, username: &str) -> (result: Result<(), Stop>)
    ensures
        final(dialogue).tells(result) == rollback_new_user_script(username@).play(
            old(dialogue).pending(),
        ),
{
    let mut failures: Vec<String> = Vec::new();
    assert(failures.deep_view() =~= seq![]);
    let removed = userdel(dialogue, username);
    provision::note_failure(removed, "userdel", &mut failures)?;
    provision::remove_managed_data_for_rollback(dialogue, username, &mut failures)?;
    assert(failures.deep_view().len() == failures.len());
    if failures.len() == 0 {
        Ok(())
    } else {
        Err(Stop::refuse(text::join(&failures, "; ")))
    }
}

/// The first byte that stands for no letter of a password: the largest multiple
/// of the number of letters that a byte can be.
pub open spec fn cutoff() -> int {
    255 - 255int % (PASSWORD_ALPHABET@.len() as int)
}

/// The letter that a random byte stands for.
pub open spec fn letter_for(byte: u8) -> char {
    PASSWORD_ALPHABET@[byte as int % PASSWORD_ALPHABET@.len() as int]
}

/// How far some replies take a password that is to have `length` letters and
/// has some already.
pub open spec fn password_course(
    length: nat,
    password: Seq<char>,
    replies: Seq<ReplyView>,
) -> Progress<Seq<char>>
    decreases replies.len(),
{
    if password.len() >= length {
        Progress::Ended(Ending::Value(password), replies)
    } else if replies.len() == 0 {
        Progress::Waiting(RequestView::ReadByte)
    } else {
        let rest = replies.drop_first();
        match replies[0] {
            ReplyView::Byte(byte) => if byte < cutoff() {
                password_course(length, password.push(letter_for(byte)), rest)
            } else {
                password_course(length, password, rest)
            },
            ReplyView::Error { not_found, cause } => Progress::Ended(
                Ending::Failed(seq!["read random bytes"@, cause]),
                rest,
            ),
            _ => Progress::Ended(Ending::Garbled, rest),
        }
    }
}

/// What [`password_from_reader`] does.
pub open spec fn password_from_reader_script(length: nat) -> Script<Seq<char>> {
    if length == 0 {
        Script::refuse("password length must be positive"@)
    } else {
        Script { course: |replies: Seq<ReplyView>| password_course(length, seq![], replies) }
    }
}

/// Makes a password of random bytes from the open file. Bytes from the cutoff on
/// are passed over, so that every letter is as likely as every other.
pub fn password_from_reader(dialogue: &mut Dialogue, length: usize) -> (result: Result<
    String,
    Stop,
>)
    ensures
        final(dialogue).tells(result) == password_from_reader_script(length as nat).play(
            old(dialogue).pending(),
        ),
{
    if length == 0 {
        return Err(Stop::refuse("password length must be positive".to_owned()));
    }
    let letters: usize = PASSWORD_ALPHABET.unicode_len();
    proof {
        lemma_alphabet_size();
    }
    let limit: u8 = 255 - 255 % (letters as u8);
    let mut password = String::new();
    let mut count: usize = 0;
    while count < length
        invariant
            length > 0,
            letters == 57,
            letters == PASSWORD_ALPHABET@.len(),
            limit as int == cutoff(),
            count == password@.len(),
            password_course(length as nat, seq![], old(dialogue).pending()) == password_course(
                length as nat,
                password@,
                dialogue.pending(),
            ),
        decreases dialogue.pending().len(),
    {
        match dialogue.ask(Request::ReadByte)? {
            Reply::Byte(byte) => {
                if *byte < limit {
                    let place: usize = (*byte as usize) % letters;
                    let letter = PASSWORD_ALPHABET.substring_char(place, place + 1);
                    let ghost before = password@;
                    password.append(letter);
                    assert(password@ =~= before.push(letter_for(*byte)));
                    count = count + 1;
                }
            },
            Reply::Error { not_found, cause } => {
                return Err(Stop::fail("read random bytes".to_owned(), cause));
            },
            _ => return Err(Stop::Garbled),
        }
    }
    Ok(password)
}

/// There are fifty-seven letters.
pub proof fn lemma_alphabet_size()
    ensures
        PASSWORD_ALPHABET@.len() == 57,
        cutoff() == 228,
{
    reveal_strlit("ABCDEFGHJKLMNPQRSTUVWXYZabcdefghijkmnopqrstuvwxyz23456789");
}

/// What [`generate_password`] does.
#[verifier::opaque]
pub open spec fn generate_password_script() -> Script<Seq<char>> {
    Script::perform(
        RequestView::OpenReadable { path: "/dev/urandom"@ },
        "open /dev/urandom"@,
    ).and(password_from_reader_script(PASSWORD_LEN as nat))
}

/// Makes a password.
pub fn generate_password(dialogue: &mut Dialogue) -> (result: Result<String, Stop>)
    ensures
        final(dialogue).tells(result) == generate_password_script().play(
            old(dialogue).pending(),
        ),
{
    reveal(generate_password_script);
    dialogue.perform(
        Request::OpenReadable { path: "/dev/urandom".to_owned() },
        "open /dev/urandom".to_owned(),
    )?;
    password_from_reader(dialogue, PASSWORD_LEN)
}

/// What [`set_password`] does.
#[verifier::opaque]
pub open spec fn set_password_script(username: Seq<char>, password: Seq<char>) -> Script<()> {
    Script::perform(
        RequestView::Start { program: "chpasswd"@ },
        "start chpasswd"@,
    ).and(Script::question(RequestView::HasInput)).and_then(
        |open: bool|
            if open {
                Script::give(())
            } else {
                Script::refuse("open chpasswd stdin"@)
            },
    ).and(
        Script::perform(
            RequestView::WriteInput { text: username + ":"@ + password + "\n"@ },
            "write password to chpasswd"@,
        ),
    ).and(
        Script::<()>::ask(
            RequestView::Wait,
            |reply: ReplyView|
                match reply {
                    ReplyView::Exited { code, status } => if code == Some(0i32) {
                        Script::give(())
                    } else {
                        Script::refuse("chpasswd failed with "@ + status)
                    },
                    ReplyView::Error { not_found, cause } => Script::fail(
                        "wait for chpasswd"@,
                        cause,
                    ),
                    _ => Script::garbled(),
                },
        ),
    )
}

/// Sets the password of an account.
pub fn set_password(dialogue: &mut Dialogue, username: &str, password: &str) -> (result: Result<
    (),
    Stop,
>)
    ensures
        final(dialogue).tells(result) == set_password_script(username@, password@).play(
            old(dialogue).pending(),
        ),
{
    reveal(set_password_script);
    dialogue.perform(
        Request::Start { program: "chpasswd".to_owned() },
        "start chpasswd".to_owned(),
    )?;
    if !dialogue.question(Request::HasInput)? {
        return Err(Stop::refuse("open chpasswd stdin".to_owned()));
    }
    dialogue.perform(
        Request::WriteInput {
            text: username.to_owned().concat(":").concat(password).concat("\n"),
        },
        "write password to chpasswd".to_owned(),
    )?;
    match dialogue.ask(Request::Wait)? {
        Reply::Exited { code, status } => {
            if process::exited_with(code, 0) {
                Ok(())
            } else {
                Err(Stop::refuse("chpasswd failed with ".to_owned().concat(status.as_str())))
            }
        },
        Reply::Error { not_found, cause } => {
            Err(Stop::fail("wait for chpasswd".to_owned(), cause))
        },
        _ => Err(Stop::Garbled),
    }
}

/// What is done for an account that was just added.
#[verifier::opaque]
pub open spec fn furnish_script(
    username: Seq<char>,
    ssh_key: Seq<char>,
    signup_email: Seq<char>,
    recovery_email: Seq<char>,
) -> Script<()> {
    provision::apply_script(username, Some(ssh_key)).and(
        store_emails_script(username, signup_email, recovery_email),
    ).and(generate_password_script()).and_then(
        |password: Seq<char>|
            set_password_script(username, password).and(
                Script::print("created account: "@ + username),
            ).and(Script::print("password: "@ + password)),
    )
}

fn furnish(
    dialogue: &mut Dialogue,
    username: &str,
    ssh_key: &str,
    signup_email: &str,
    recovery_email: &str,
) -> (result: Result<(), Stop>)
    ensures
        final(dialogue).tells(result) == furnish_script(
            username@,
            ssh_key@,
            signup_email@,
            recovery_email@,
        ).play(old(dialogue).pending()),
{
    reveal(furnish_script);
    provision::apply(dialogue, username, Some(ssh_key))?;
    store_emails(dialogue, username, signup_email, recovery_email)?;
    let password = generate_password(dialogue)?;
    set_password(dialogue, username, password.as_str())?;
    dialogue.print("created account: ".to_owned().concat(username))?;
    dialogue.print("password: ".to_owned().concat(password.as_str()))
}

/// What is done where a new account could not be furnished: it is taken back,
/// and the failure says whether that went well.
pub open spec fn give_up_script(username: Seq<char>, trail: Trail) -> Script<()> {
    rollback_new_user_script(username).after(
        |ending: Ending<()>|
            match ending {
                Ending::Value(_) => Script::end(
                    Ending::Failed(
                        seq!["provisioning failed; the new account was rolled back"@] + trail,
                    ),
                ),
                Ending::Failed(obstacle) => Script::end(
                    Ending::Failed(
                        seq![
                            "provisioning failed and rollback also failed: "@ + text::joined(
                                obstacle,
                                ": "@,
                            ),
                        ] + trail,
                    ),
                ),
                Ending::Garbled => Script::garbled(),
            },
    )
}

fn give_up(dialogue: &mut Dialogue, username: &str, failure: Failure) -> (result: Result<(), Stop>)
    ensures
        final(dialogue).tells(result) == give_up_script(username@, failure@).play(
            old(dialogue).pending(),
        ),
{
    match rollback_new_user(dialogue, username) {
        Ok(()) => Err(
            Stop::Failed(
                failure.context(
                    "provisioning failed; the new account was rolled back".to_owned(),
                ),
            ),
        ),
        Err(Stop::Failed(obstacle)) => Err(
            Stop::Failed(
                failure.context(
                    "provisioning failed and rollback also failed: ".to_owned().concat(
                        obstacle.one_line().as_str(),
                    ),
                ),
            ),
        ),
        Err(stop) => Err(stop),
    }
}

/// What [`add`] checks before anything is done.
pub open spec fn add_fault(
    username: Seq<char>,
    ssh_key: Seq<char>,
    signup_email: Seq<char>,
    recovery_email: Seq<char>,
) -> Option<Seq<char>> {
    if username_fault(username) is Some {
        username_fault(username)
    } else if ssh_key_fault(ssh_key) is Some {
        ssh_key_fault(ssh_key)
    } else if email_fault("signup"@, signup_email) is Some {
        email_fault("signup"@, signup_email)
    } else {
        email_fault("recovery"@, recovery_email)
    }
}

/// Furnishes an account that was just added, and takes it back if that fails.
pub open spec fn furnish_or_give_up_script(
    username: Seq<char>,
    ssh_key: Seq<char>,
    signup_email: Seq<char>,
    recovery_email: Seq<char>,
) -> Script<()> {
    furnish_script(username, ssh_key, signup_email, recovery_email).after(
        |ending: Ending<()>|
            match ending {
                Ending::Failed(trail) => give_up_script(username, trail),
                _ => Script::end(ending),
            },
    )
}

/// What [`add`] does.
pub open spec fn add_script(
    username: Seq<char>,
    ssh_key: Seq<char>,
    signup_email: Seq<char>,
    recovery_email: Seq<char>,
) -> Script<()> {
    Script::check(add_fault(username, ssh_key, signup_email, recovery_email)).and(
        account_exists_script(username),
    ).and_then(
        |exists: bool|
            Script::check(
                if exists {
                    Some("account already exists: "@ + username)
                } else {
                    None
                },
            ),
    ).and(
        process::run_script(
            "useradd"@,
            seq![
                WordView::Text("-m"@),
                WordView::Text("-G"@),
                WordView::Text(provision::USER_GROUP@),
                WordView::Text(username),
            ],
        ),
    ).and(furnish_or_give_up_script(username, ssh_key, signup_email, recovery_email))
}

/// Adds an account with its key and email addresses, sets a password for it and
/// shows that. If anything fails once the account is there, it is taken back.
pub fn add(
    dialogue: &mut Dialogue,
    username: &str,
    ssh_key: &str,
    signup_email: &str,
    recovery_email: &str,
) -> (result: Result<(), Stop>)
    ensures
        final(dialogue).tells(result) == add_script(
            username@,
            ssh_key@,
            signup_email@,
            recovery_email@,
        ).play(old(dialogue).pending()),
{
    Stop::unless(validate_username(username))?;
    Stop::unless(validate_ssh_key(ssh_key))?;
    Stop::unless(validate_email("signup", signup_email))?;
    Stop::unless(validate_email("recovery", recovery_email))?;
    if account_exists(dialogue, username)? {
        return Err(Stop::refuse("account already exists: ".to_owned().concat(username)));
    }
    let arguments = vec![
        Word::Text("-m".to_owned()),
        Word::Text("-G".to_owned()),
        Word::Text(provision::USER_GROUP.to_owned()),
        Word::Text(username.to_owned()),
    ];
    assert(arguments.deep_view() =~= seq![
        WordView::Text("-m"@),
        WordView::Text("-G"@),
        WordView::Text(provision::USER_GROUP@),
        WordView::Text(username@),
    ]);
    process::run(dialogue, "useradd", arguments)?;
    match furnish(dialogue, username, ssh_key, signup_email, recovery_email) {
        Err(Stop::Failed(failure)) => give_up(dialogue, username, failure),
        result => result,
    }
}

} // verus!
