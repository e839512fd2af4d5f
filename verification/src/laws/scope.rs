//! What the operations keep their hands off: of everything that they could ask
//! of the host, they ask no more than this.
use vstd::prelude::*;

use crate::laws::passwords;
use crate::path;
use crate::process;
use crate::provision;
use crate::repositories;
use crate::request::{FileKind, ReplyView, RequestView, WordView};
use crate::script;
use crate::script::{Ending, Progress, Script, Trail};
use crate::services;
use crate::services::ServiceView;
use crate::users;

verus! {

broadcast use crate::script::group_only_asks;

broadcast proof fn perform_asks(
    request: RequestView,
    message: Seq<char>,
    allowed: spec_fn(RequestView) -> bool,
)
    requires
        allowed(request),
    ensures
        #[trigger] Script::perform(request, message).only_asks(allowed),
{
}

broadcast proof fn check_asks(fault: Option<Seq<char>>, allowed: spec_fn(RequestView) -> bool)
    ensures
        #[trigger] Script::check(fault).only_asks(allowed),
{
}

broadcast proof fn print_asks(line: Seq<char>, allowed: spec_fn(RequestView) -> bool)
    requires
        allowed(RequestView::Print { line }),
    ensures
        #[trigger] Script::print(line).only_asks(allowed),
{
}

broadcast proof fn print_error_asks(line: Seq<char>, allowed: spec_fn(RequestView) -> bool)
    requires
        allowed(RequestView::PrintError { line }),
    ensures
        #[trigger] Script::print_error(line).only_asks(allowed),
{
}

broadcast proof fn expect_kind_asks(
    kind: FileKind,
    message: Seq<char>,
    allowed: spec_fn(RequestView) -> bool,
)
    requires
        allowed(RequestView::OpenKind),
    ensures
        #[trigger] Script::expect_kind(kind, message).only_asks(allowed),
{
}

broadcast proof fn question_asks(request: RequestView, allowed: spec_fn(RequestView) -> bool)
    requires
        allowed(request),
    ensures
        #[trigger] Script::question(request).only_asks(allowed),
{
}

broadcast proof fn run_asks(
    program: Seq<char>,
    arguments: Seq<WordView>,
    allowed: spec_fn(RequestView) -> bool,
)
    requires
        allowed(RequestView::Run { program, arguments }),
    ensures
        #[trigger] process::run_script(program, arguments).only_asks(allowed),
{
}

broadcast group group_steps {
    perform_asks,
    check_asks,
    print_asks,
    print_error_asks,
    expect_kind_asks,
    question_asks,
    run_asks,
}

/// What gives a path to an owner and a group.
pub open spec fn chown(path: Seq<char>, owner: Seq<char>, group: Seq<char>) -> RequestView {
    RequestView::Run {
        program: "chown"@,
        arguments: seq![
            WordView::Text("-h"@),
            WordView::Text(owner + ":"@ + group),
            WordView::Text(path),
        ],
    }
}

proof fn ensure_directory_asks(
    path: Seq<char>,
    mode: u32,
    owner: Seq<char>,
    group: Seq<char>,
    allowed: spec_fn(RequestView) -> bool,
)
    requires
        allowed(RequestView::Exists { place: WordView::Text(path) }),
        allowed(RequestView::CreateDirectories { path }),
        allowed(RequestView::OpenDirectory { path }),
        allowed(RequestView::OpenKind),
        allowed(RequestView::SetMode { mode }),
        allowed(chown(path, owner, group)),
    ensures
        provision::ensure_directory_script(path, mode, owner, group).only_asks(allowed),
{
    broadcast use group_steps;

    reveal(provision::ensure_directory_script);
    assert(provision::set_owner_script(path, owner, group).only_asks(allowed));
}

pub(crate) proof fn ensure_file_asks(
    path: Seq<char>,
    mode: u32,
    owner: Seq<char>,
    group: Seq<char>,
    allowed: spec_fn(RequestView) -> bool,
)
    requires
        allowed(RequestView::OpenFile { path }),
        allowed(RequestView::CreateFile { path }),
        allowed(RequestView::OpenKind),
        allowed(RequestView::SetMode { mode }),
        allowed(chown(path, owner, group)),
    ensures
        provision::ensure_file_script(path, mode, owner, group).only_asks(allowed),
{
    broadcast use group_steps;

    assert(provision::set_owner_script(path, owner, group).only_asks(allowed));
    assert(provision::open_or_create_script(path).only_asks(allowed));
}

proof fn write_file_asks(
    path: Seq<char>,
    contents: Seq<char>,
    allowed: spec_fn(RequestView) -> bool,
)
    requires
        allowed(RequestView::OpenEmptied { path }),
        allowed(RequestView::WriteContents { text: contents }),
    ensures
        provision::write_file_script(path, contents).only_asks(allowed),
{
    broadcast use group_steps;

}

pub(crate) proof fn ensure_symlink_asks(
    link: Seq<char>,
    target: Seq<char>,
    owner: Seq<char>,
    group: Seq<char>,
    allowed: spec_fn(RequestView) -> bool,
)
    requires
        allowed(RequestView::ReadLink { path: link }),
        allowed(RequestView::CreateLink { link, target }),
        allowed(chown(link, owner, group)),
    ensures
        provision::ensure_symlink_script(link, target, owner, group).only_asks(allowed),
{
    broadcast use group_steps;

    assert(provision::set_owner_script(link, owner, group).only_asks(allowed));
}

/// The page that greets the visitors of a site.
pub open spec fn index_of(username: Seq<char>) -> Seq<char> {
    path::below(provision::site_of(username), "index.html"@)
}

/// Whether a path is one of those that make up an account.
pub open spec fn belongs(path: Seq<char>, username: Seq<char>) -> bool {
    let home = provision::home_of(username);
    let profiles = provision::profiles_of(username);
    ||| path == home
    ||| path == path::below(home, ".ssh"@)
    ||| path == provision::keys_of(username)
    ||| path == provision::site_of(username)
    ||| path == index_of(username)
    ||| path == path::below(home, "public_html"@)
    ||| path == profiles
    ||| path == path::below(profiles, ".plan"@)
    ||| path == path::below(home, ".plan"@)
    ||| path == path::below(profiles, ".project"@)
    ||| path == path::below(home, ".project"@)
}

/// Whether a request gives one of the paths of an account to the account, or the
/// directory of all profiles to the superuser.
pub open spec fn hands_over(request: RequestView, username: Seq<char>) -> bool {
    ||| request == chown(provision::PROFILE_ROOT@, "root"@, "root"@)
    ||| exists|path: Seq<char>, group: Seq<char>| #[trigger]
        chown(path, username, group) == request && belongs(path, username) && (group == username
            || group == provision::PROFILE_GROUP@)
}

/// Whether setting up an account, with or without a key, may ask a request: it
/// looks at, creates and hands over nothing but what belongs to the account and
/// the directory of all profiles, and writes nothing but the greeting, and the
/// key where there is one.
pub open spec fn provisions(
    username: Seq<char>,
    ssh_key: Option<Seq<char>>,
    request: RequestView,
) -> bool {
    let root = provision::PROFILE_ROOT@;
    match request {
        RequestView::LinkKind { path } => belongs(path, username),
        RequestView::Exists { place } => place matches WordView::Text(path) && (belongs(
            path,
            username,
        ) || path == root),
        RequestView::CreateDirectories { path } => belongs(path, username) || path == root,
        RequestView::OpenDirectory { path } => belongs(path, username) || path == root,
        RequestView::OpenFile { path } => belongs(path, username),
        RequestView::CreateFile { path } => belongs(path, username),
        RequestView::OpenKind => true,
        RequestView::SetMode { mode } => true,
        RequestView::OpenEmptied { path } => path == index_of(username) || (ssh_key is Some && path
            == provision::keys_of(username)),
        RequestView::WriteContents { text } => text == "Hello, World!\n"@ || (ssh_key matches Some(
            key,
        ) && text == key + "\n"@),
        RequestView::ReadLink { path } => belongs(path, username),
        RequestView::CreateLink { link, target } => belongs(link, username) && belongs(
            target,
            username,
        ),
        RequestView::Run { program, arguments } => hands_over(request, username) || request
            == (RequestView::Run {
            program: "restorecon"@,
            arguments: seq![
                WordView::Text("-RF"@),
                WordView::Text(provision::profiles_of(username)),
            ],
        }),
        _ => false,
    }
}

/// Setting up an account touches nothing but that account: see [`provisions`].
/// Where no key is given, the keys that let the account in are left as they are,
/// and the only thing ever written is the greeting.
pub proof fn provisioning_keeps_to_the_account(username: Seq<char>, ssh_key: Option<Seq<char>>)
    ensures
        provision::apply_script(username, ssh_key).only_asks(
            |request: RequestView| provisions(username, ssh_key, request),
        ),
{
    broadcast use group_steps;

    let allowed = |request: RequestView| provisions(username, ssh_key, request);
    let home = provision::home_of(username);
    let ssh = path::below(home, ".ssh"@);
    let keys = provision::keys_of(username);
    let site = provision::site_of(username);
    let index = index_of(username);
    let html = path::below(home, "public_html"@);
    let root = provision::PROFILE_ROOT@;
    let profiles = provision::profiles_of(username);
    let group = provision::PROFILE_GROUP@;
    assert(provision::keys_script(username, ssh_key).only_asks(allowed)) by {
        reveal(provision::keys_script);
        ensure_directory_asks(ssh, 0o700, username, username, allowed);
        ensure_file_asks(keys, 0o600, username, username, allowed);
        if let Some(key) = ssh_key {
            write_file_asks(keys, key + "\n"@, allowed);
        }
    }
    assert(provision::site_script(username).only_asks(allowed)) by {
        reveal(provision::site_script);
        ensure_directory_asks(site, 0o2755, username, username, allowed);
        ensure_file_asks(index, 0o755, username, username, allowed);
        write_file_asks(index, "Hello, World!\n"@, allowed);
        ensure_symlink_asks(html, site, username, username, allowed);
    }
    ensure_directory_asks(root, 0o711, "root"@, "root"@, allowed);
    ensure_directory_asks(profiles, 0o2750, username, group, allowed);
    assert(provision::profile_script(username, ".plan"@).only_asks(allowed)) by {
        reveal(provision::profile_script);
        ensure_file_asks(path::below(profiles, ".plan"@), 0o640, username, group, allowed);
        ensure_symlink_asks(
            path::below(home, ".plan"@),
            path::below(profiles, ".plan"@),
            username,
            username,
            allowed,
        );
    }
    assert(provision::profile_script(username, ".project"@).only_asks(allowed)) by {
        reveal(provision::profile_script);
        ensure_file_asks(path::below(profiles, ".project"@), 0o640, username, group, allowed);
        ensure_symlink_asks(
            path::below(home, ".project"@),
            path::below(profiles, ".project"@),
            username,
            username,
            allowed,
        );
    }
    assert(provision::inspect_home_script(home).only_asks(allowed)) by {
        reveal(provision::inspect_home_script);
    }
    reveal(provision::apply_script);
}

proof fn account_exists_asks(username: Seq<char>, allowed: spec_fn(RequestView) -> bool)
    requires
        allowed(getent(username)),
    ensures
        users::account_exists_script(username).only_asks(allowed),
{
    reveal(users::account_exists_script);
}

proof fn open_home_asks(username: Seq<char>, allowed: spec_fn(RequestView) -> bool)
    requires
        allowed(RequestView::OpenDirectory { path: provision::home_of(username) }),
        allowed(RequestView::OpenKind),
    ensures
        users::open_home_script(username).only_asks(allowed),
{
    broadcast use group_steps;

    reveal(users::open_home_script);
}

proof fn read_xattr_asks(
    name: Seq<char>,
    username: Seq<char>,
    allowed: spec_fn(RequestView) -> bool,
)
    requires
        allowed(RequestView::GetAttribute { name }),
    ensures
        users::read_xattr_script(name, username).only_asks(allowed),
{
    reveal(users::read_xattr_script);
}

/// What finds out whether there is an account of a name.
pub open spec fn getent(username: Seq<char>) -> RequestView {
    RequestView::RunQuietly {
        program: "getent"@,
        arguments: seq![WordView::Text("passwd"@), WordView::Text(username)],
    }
}

/// What removes the entry of an account and its home directory.
pub open spec fn userdel(username: Seq<char>) -> RequestView {
    RequestView::Run {
        program: "userdel"@,
        arguments: seq![WordView::Text("-r"@), WordView::Text(username)],
    }
}

/// Repairing an account touches nothing but that account. The keys that let it
/// in are left as they are, and so is a page that is there already.
pub proof fn repair_keeps_to_the_account(username: Seq<char>)
    ensures
        users::repair_script(username).only_asks(
            |request: RequestView|
                request == getent(username) || provisions(username, None, request) || request
                    is Print,
        ),
{
    broadcast use group_steps;

    let allowed = |request: RequestView|
        request == getent(username) || provisions(username, None, request) || request is Print;
    account_exists_asks(username, allowed);
    provisioning_keeps_to_the_account(username, None);
    widen(
        provision::apply_script(username, None),
        |request: RequestView| provisions(username, None, request),
        allowed,
    );
}

/// What asks no more than some requests asks no more than those and others.
proof fn widen<T>(
    script: Script<T>,
    some: spec_fn(RequestView) -> bool,
    more: spec_fn(RequestView) -> bool,
)
    requires
        script.only_asks(some),
        forall|request: RequestView| #[trigger] some(request) ==> more(request),
    ensures
        script.only_asks(more),
{
    reveal(Script::only_asks);
    assert forall|replies: Seq<ReplyView>| (#[trigger] script.play(replies)).asks_only(more) by {
        assert(script.play(replies).asks_only(some));
    }
}

/// Deleting an account removes that account, its home directory, its site and
/// its profiles, and touches nothing else.
pub proof fn deletion_keeps_to_the_account(username: Seq<char>, confirmed: bool)
    ensures
        users::delete_script(username, confirmed).only_asks(
            |request: RequestView|
                {
                    ||| request == getent(username)
                    ||| request == userdel(username)
                    ||| request == (RequestView::RemoveTree { path: provision::site_of(username) })
                    ||| request == (RequestView::RemoveTree {
                        path: provision::profiles_of(username),
                    })
                    ||| request is Print
                },
        ),
{
    broadcast use group_steps;

    let allowed = |request: RequestView|
        {
            ||| request == getent(username)
            ||| request == userdel(username)
            ||| request == (RequestView::RemoveTree { path: provision::site_of(username) })
            ||| request == (RequestView::RemoveTree { path: provision::profiles_of(username) })
            ||| request is Print
        };
    account_exists_asks(username, allowed);
    assert(provision::remove_managed_data_script(username).only_asks(allowed));
}

/// Changing the email addresses of an account touches nothing but the attributes
/// that hold them, and the recovery address only where a new one is given.
pub proof fn new_addresses_touch_only_addresses(
    username: Seq<char>,
    signup: Seq<char>,
    recovery: Option<Seq<char>>,
)
    ensures
        users::set_emails_script(username, signup, recovery).only_asks(
            |request: RequestView|
                match request {
                    RequestView::OpenDirectory { path } => path == provision::home_of(username),
                    RequestView::GetAttribute { name } => name == users::SIGNUP_EMAIL_XATTR@,
                    RequestView::SetAttribute { name, value } => name == users::SIGNUP_EMAIL_XATTR@
                        || (recovery is Some && name == users::RECOVERY_EMAIL_XATTR@),
                    RequestView::RemoveAttribute { name } => recovery is Some && name
                        == users::SIGNUP_EMAIL_XATTR@,
                    RequestView::OpenKind => true,
                    RequestView::Print { line } => true,
                    _ => request == getent(username),
                },
        ),
{
    broadcast use group_steps;

    let allowed = |request: RequestView|
        match request {
            RequestView::OpenDirectory { path } => path == provision::home_of(username),
            RequestView::GetAttribute { name } => name == users::SIGNUP_EMAIL_XATTR@,
            RequestView::SetAttribute { name, value } => name == users::SIGNUP_EMAIL_XATTR@ || (
            recovery is Some && name == users::RECOVERY_EMAIL_XATTR@),
            RequestView::RemoveAttribute { name } => recovery is Some && name
                == users::SIGNUP_EMAIL_XATTR@,
            RequestView::OpenKind => true,
            RequestView::Print { line } => true,
            _ => request == getent(username),
        };
    account_exists_asks(username, allowed);
    open_home_asks(username, allowed);
    assert(users::previous_signup_script(username).only_asks(allowed));
    if let Some(recovery) = recovery {
        assert forall|previous: Option<Seq<u8>>| #[trigger]
            users::set_recovery_script(username, recovery, previous).only_asks(allowed) by {
            assert(users::restore_xattr_script(users::SIGNUP_EMAIL_XATTR@, previous).only_asks(
                allowed,
            ));
        }
    }
    assert(users::change_emails_script(username, signup, recovery).only_asks(allowed));
}

/// Whether a request leaves accounts, files, services and repositories as they
/// are.
pub open spec fn only_looks(request: RequestView) -> bool {
    match request {
        RequestView::Run { program, arguments } => program == "systemctl"@ && arguments.len() > 0
            && (arguments[0] == WordView::Text("show"@) || arguments[0] == WordView::Text(
            "is-active"@,
        )),
        RequestView::RunQuietly { program, arguments } => program == "getent"@,
        RequestView::LinkKind { path } => true,
        RequestView::Exists { place } => true,
        RequestView::IsDirectory { place } => true,
        RequestView::IsFile { place } => true,
        RequestView::OpenDirectory { path } => true,
        RequestView::OpenReadable { path } => true,
        RequestView::OpenKind => true,
        RequestView::ReadByte => true,
        RequestView::ReadLink { path } => true,
        RequestView::GetAttribute { name } => true,
        RequestView::ListDirectory { directory } => true,
        RequestView::Print { line } => true,
        RequestView::PrintError { line } => true,
        RequestView::ParseAddress { address } => true,
        RequestView::Connect { seconds } => true,
        RequestView::SetReadTimeout { seconds } => true,
        RequestView::SetWriteTimeout { seconds } => true,
        RequestView::Send { text } => true,
        RequestView::Receive { limit } => true,
        _ => false,
    }
}

/// Showing the email addresses of an account changes nothing.
pub proof fn info_only_looks(username: Seq<char>)
    ensures
        users::info_script(username).only_asks(|request: RequestView| only_looks(request)),
{
    broadcast use group_steps;

    let allowed = |request: RequestView| only_looks(request);
    account_exists_asks(username, allowed);
    open_home_asks(username, allowed);
    read_xattr_asks(users::SIGNUP_EMAIL_XATTR@, username, allowed);
    read_xattr_asks(users::RECOVERY_EMAIL_XATTR@, username, allowed);
}

/// Showing the state of services changes nothing.
pub proof fn status_only_looks(services: Seq<ServiceView>)
    ensures
        services::status_script(services).only_asks(|request: RequestView| only_looks(request)),
{
    broadcast use group_steps;

}

proof fn check_only_looks(service: ServiceView)
    ensures
        services::check_script(service).only_asks(|request: RequestView| only_looks(request)),
{
    broadcast use group_steps;

    let allowed = |request: RequestView| only_looks(request);
    reveal(services::check_script);
    if let Some((address, path)) = service.http_health {
        reveal(services::http_health_script);
        assert(services::http_health_script(address, path).only_asks(allowed));
    }
    assert(services::active_script(service).only_asks(allowed));
}

proof fn health_after_only_looks(services: Seq<ServiceView>, failures: Seq<Seq<char>>)
    ensures
        services::health_script_after(services, failures).only_asks(
            |request: RequestView| only_looks(request),
        ),
    decreases services.len(),
{
    if services.len() > 0 {
        check_only_looks(services[0]);
        health_after_only_looks(services.drop_first(), failures);
        health_after_only_looks(services.drop_first(), failures.push(services[0].name));
    }
}

/// Checking the health of services changes nothing.
pub proof fn health_only_looks(services: Seq<ServiceView>)
    ensures
        services::health_script(services).only_asks(|request: RequestView| only_looks(request)),
{
    health_after_only_looks(services, seq![]);
}

proof fn eligible_only_looks(repository: Seq<u8>)
    ensures
        repositories::eligible_script(repository).only_asks(
            |request: RequestView| only_looks(request),
        ),
{
    broadcast use group_steps;

    reveal(repositories::eligible_script);
}

proof fn keep_eligible_only_looks(paths: Seq<Seq<u8>>, kept: Seq<Seq<u8>>)
    ensures
        repositories::keep_eligible_script(paths, kept).only_asks(
            |request: RequestView| only_looks(request),
        ),
    decreases paths.len(),
{
    if paths.len() > 0 {
        eligible_only_looks(paths[0]);
        keep_eligible_only_looks(paths.drop_first(), kept);
        keep_eligible_only_looks(paths.drop_first(), kept.push(paths[0]));
    }
}

proof fn find_ineligible_only_looks(root: Seq<u8>, names: Seq<Seq<char>>, found: Seq<Seq<char>>)
    ensures
        repositories::find_ineligible_script(root, names, found).only_asks(
            |request: RequestView| only_looks(request),
        ),
    decreases names.len(),
{
    if names.len() > 0 {
        eligible_only_looks(path::below_raw(root, vstd::utf8::encode_utf8(names[0])));
        find_ineligible_only_looks(root, names.drop_first(), found);
        find_ineligible_only_looks(root, names.drop_first(), found.push(names[0]));
    }
}

/// Selecting repositories changes nothing.
pub proof fn selection_only_looks(root: Seq<u8>, names: Seq<Seq<char>>)
    ensures
        repositories::select_script(root, names).only_asks(
            |request: RequestView| only_looks(request),
        ),
{
    broadcast use group_steps;

    let allowed = |request: RequestView| only_looks(request);
    reveal(repositories::select_script);
    assert(repositories::candidates_script(root, names).only_asks(allowed));
    assert forall|paths: Seq<Seq<u8>>| #[trigger]
        repositories::keep_eligible_script(paths, seq![]).only_asks(allowed) by {
        keep_eligible_only_looks(paths, seq![]);
    }
    find_ineligible_only_looks(root, names, seq![]);
}

/// What adds an account.
pub open spec fn useradd(username: Seq<char>) -> RequestView {
    RequestView::Run {
        program: "useradd"@,
        arguments: seq![
            WordView::Text("-m"@),
            WordView::Text("-G"@),
            WordView::Text(provision::USER_GROUP@),
            WordView::Text(username),
        ],
    }
}

/// Whether adding an account may ask a request: it adds and, if need be, removes
/// that account and what belongs to it, and nothing else. The password goes to
/// `chpasswd` and to standard output, and nowhere else.
pub open spec fn adds(
    username: Seq<char>,
    ssh_key: Seq<char>,
    signup_email: Seq<char>,
    recovery_email: Seq<char>,
    request: RequestView,
) -> bool {
    match request {
        RequestView::RunQuietly { program, arguments } => request == getent(username),
        RequestView::Run { program, arguments } => request == useradd(username) || request
            == userdel(username) || provisions(username, Some(ssh_key), request),
        RequestView::SetAttribute { name, value } => {
            ||| name == users::SIGNUP_EMAIL_XATTR@ && value == vstd::utf8::encode_utf8(signup_email)
            ||| name == users::RECOVERY_EMAIL_XATTR@ && value == vstd::utf8::encode_utf8(
                recovery_email,
            )
        },
        RequestView::OpenReadable { path } => path == "/dev/urandom"@,
        RequestView::ReadByte => true,
        RequestView::Start { program } => program == "chpasswd"@,
        RequestView::HasInput => true,
        RequestView::WriteInput { text } => exists|password: Seq<char>| #[trigger]
            passwords::is_password(24, password) && text == username + ":"@
                + password + "\n"@,
        RequestView::Wait => true,
        RequestView::RemoveTree { path } => path == provision::site_of(username) || path
            == provision::profiles_of(username),
        RequestView::Print { line } => {
            ||| line == "created account: "@ + username
            ||| exists|password: Seq<char>| #[trigger]
                passwords::is_password(24, password) && line
                    == "password: "@ + password
        },
        _ => provisions(username, Some(ssh_key), request),
    }
}

proof fn reading_asks(length: nat, allowed: spec_fn(RequestView) -> bool)
    requires
        allowed(RequestView::ReadByte),
    ensures
        users::password_from_reader_script(length).only_asks(allowed),
{
    reveal(Script::only_asks);
    let script = users::password_from_reader_script(length);
    assert forall|replies: Seq<ReplyView>| (#[trigger] script.play(replies)).asks_only(allowed) by {
        if length > 0 {
            course_asks(length, seq![], replies);
        }
    }
}

proof fn course_asks(length: nat, password: Seq<char>, replies: Seq<ReplyView>)
    ensures
        users::password_course(length, password, replies) matches Progress::Waiting(request)
            ==> request == RequestView::ReadByte,
    decreases replies.len(),
{
    if password.len() < length && replies.len() > 0 {
        if let ReplyView::Byte(byte) = replies[0] {
            course_asks(length, password, replies.drop_first());
            course_asks(length, password.push(users::letter_for(byte)), replies.drop_first());
        }
    }
}

proof fn set_password_asks(
    username: Seq<char>,
    password: Seq<char>,
    allowed: spec_fn(RequestView) -> bool,
)
    requires
        allowed(RequestView::Start { program: "chpasswd"@ }),
        allowed(RequestView::HasInput),
        allowed(RequestView::WriteInput { text: username + ":"@ + password + "\n"@ }),
        allowed(RequestView::Wait),
    ensures
        users::set_password_script(username, password).only_asks(allowed),
{
    broadcast use group_steps;

    reveal(users::set_password_script);
}

/// Whatever a password is generated from, it is one.
proof fn generated_is_password(replies: Seq<ReplyView>)
    ensures
        users::generate_password_script().play(replies) matches Progress::Ended(
            Ending::Value(password),
            _,
        ) ==> passwords::is_password(24, password),
{
    reveal(users::generate_password_script);
    if replies.len() > 0 {
        passwords::passwords_are_well_formed(24, replies.drop_first());
    }
}

/// What is played before there is a password.
pub(crate) open spec fn up_to_the_password(
    username: Seq<char>,
    ssh_key: Seq<char>,
    signup_email: Seq<char>,
    recovery_email: Seq<char>,
) -> Script<Seq<char>> {
    provision::apply_script(username, Some(ssh_key)).and(
        users::store_emails_script(username, signup_email, recovery_email),
    ).and(users::generate_password_script())
}

pub(crate) proof fn password_is_password(
    username: Seq<char>,
    ssh_key: Seq<char>,
    signup_email: Seq<char>,
    recovery_email: Seq<char>,
    replies: Seq<ReplyView>,
)
    ensures
        up_to_the_password(username, ssh_key, signup_email, recovery_email).play(
            replies,
        ) matches Progress::Ended(Ending::Value(password), _) ==> passwords::is_password(
            24,
            password,
        ),
{
    let start = provision::apply_script(username, Some(ssh_key)).and(
        users::store_emails_script(username, signup_email, recovery_email),
    );
    if let Progress::Ended(Ending::Value(_), rest) = start.play(replies) {
        generated_is_password(rest);
    }
}

/// What is asked before there is a password, and what is asked of it.
pub(crate) proof fn furnishing_asks(
    username: Seq<char>,
    ssh_key: Seq<char>,
    signup_email: Seq<char>,
    recovery_email: Seq<char>,
    password: Seq<char>,
)
    ensures
        up_to_the_password(username, ssh_key, signup_email, recovery_email).only_asks(
            |request: RequestView|
                adds(username, ssh_key, signup_email, recovery_email, request) && !(request
                    is Print),
        ),
        passwords::is_password(24, password)
            ==> users::set_password_script(username, password).only_asks(
            |request: RequestView|
                adds(username, ssh_key, signup_email, recovery_email, request) && !(request
                    is Print),
        ),
{
    broadcast use group_steps;

    let quietly = |request: RequestView|
        adds(username, ssh_key, signup_email, recovery_email, request) && !(request is Print);
    provisioning_keeps_to_the_account(username, Some(ssh_key));
    widen(
        provision::apply_script(username, Some(ssh_key)),
        |request: RequestView| provisions(username, Some(ssh_key), request),
        quietly,
    );
    open_home_asks(username, quietly);
    assert(users::store_emails_script(username, signup_email, recovery_email).only_asks(quietly))
        by {
        reveal(users::store_emails_script);
    }
    reading_asks(24, quietly);
    assert(users::generate_password_script().only_asks(quietly)) by {
        reveal(users::generate_password_script);
    }
    if passwords::is_password(24, password) {
        set_password_asks(username, password, quietly);
    }
}

/// Taking back an account prints nothing.
pub(crate) proof fn taking_back_is_quiet(username: Seq<char>)
    ensures
        users::rollback_new_user_script(username).only_asks(
            |request: RequestView| !(request is Print),
        ),
{
    broadcast use group_steps;

}

/// Adding an account touches nothing but that account: see [`adds`].
pub proof fn addition_keeps_to_the_account(
    username: Seq<char>,
    ssh_key: Seq<char>,
    signup_email: Seq<char>,
    recovery_email: Seq<char>,
)
    ensures
        users::add_script(username, ssh_key, signup_email, recovery_email).only_asks(
            |request: RequestView|
                adds(username, ssh_key, signup_email, recovery_email, request),
        ),
{
    broadcast use group_steps;

    let allowed = |request: RequestView|
        adds(username, ssh_key, signup_email, recovery_email, request);
    let quietly = |request: RequestView|
        adds(username, ssh_key, signup_email, recovery_email, request) && !(request is Print);
    let start = up_to_the_password(username, ssh_key, signup_email, recovery_email);
    let given = |password: Seq<char>|
        passwords::is_password(24, password);
    let next = |password: Seq<char>|
        users::set_password_script(username, password).and(
            Script::print("created account: "@ + username),
        ).and(Script::print("password: "@ + password));
    furnishing_asks(username, ssh_key, signup_email, recovery_email, seq![]);
    widen(start, quietly, allowed);
    assert forall|replies: Seq<ReplyView>|
        #[trigger] start.play(replies) matches Progress::Ended(Ending::Value(password), _)
            ==> given(password) by {
        password_is_password(username, ssh_key, signup_email, recovery_email, replies);
    }
    assert forall|password: Seq<char>| given(password) implies (#[trigger] next(
        password,
    )).only_asks(allowed) by {
        furnishing_asks(username, ssh_key, signup_email, recovery_email, password);
        widen(users::set_password_script(username, password), quietly, allowed);
    }
    script::lemma_values_only_ask(start, next, given, allowed);
    assert(users::furnish_script(username, ssh_key, signup_email, recovery_email).only_asks(
        allowed,
    )) by {
        reveal(users::furnish_script);
    }
    assert(users::rollback_new_user_script(username).only_asks(allowed));
    assert forall|trail: Trail| #[trigger]
        users::give_up_script(username, trail).only_asks(allowed) by {}
    account_exists_asks(username, allowed);
}

} // verus!
