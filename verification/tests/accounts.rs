//! Accounts on a machine that exists in memory only.
use std::collections::BTreeMap;

use salyut_admin::cli::{execute, Cli, TopCommand, UserCommand, UserInfoCommand};
use salyut_admin::dialogue::{Dialogue, Stop};
use salyut_admin::provision::{
    apply, ensure_directory, ensure_file, ensure_symlink, remove_managed_data, remove_tree,
    set_owner, write_file,
};
use salyut_admin::request::{FileKind, Reply, Request, Word};
use salyut_admin::users::{
    account_exists, add, delete, generate_password, info, open_home, password_from_reader,
    read_xattr, repair, require_account, restore_xattr, rollback_new_user, set_emails,
    set_password, store_emails,
};

const KEY: &str = "ssh-ed25519 AAAA rose@example";
const SIGNUP: &str = "rose@example.com";
const RECOVERY: &str = "rose-recovery@example.net";
const PASSWORD: &str = "ABCDEFGHJKLMNPQRSTUVWXYZ";

/// What stands at a path.
#[derive(Clone, Debug, PartialEq)]
enum Node {
    Directory,
    File(String),
    Link(String),
}

/// A machine, and whether it refuses a request.
struct Machine {
    accounts: Vec<String>,
    nodes: BTreeMap<String, Node>,
    modes: BTreeMap<String, u32>,
    owners: BTreeMap<String, String>,
    attributes: BTreeMap<String, Vec<u8>>,
    open: String,
    input: String,
    random: u8,
    shown: Vec<String>,
    asked: usize,
    refuses: Box<dyn Fn(usize, &Request) -> bool>,
}

fn text(word: &Word) -> String {
    match word {
        Word::Text(text) => text.clone(),
        Word::Raw(bytes) => String::from_utf8(bytes.clone()).unwrap(),
    }
}

fn failure(not_found: bool, cause: &str) -> Reply {
    Reply::Error { not_found, cause: cause.to_owned() }
}

fn exited(code: i32) -> Reply {
    Reply::Exited { code: Some(code), status: format!("exit status: {code}") }
}

fn trail(result: Result<(), Stop>) -> Vec<String> {
    match result {
        Err(Stop::Failed(failure)) => failure.trail,
        other => panic!("{other:?}"),
    }
}

impl Machine {
    fn new() -> Machine {
        let mut nodes = BTreeMap::new();
        nodes.insert("/home".to_owned(), Node::Directory);
        nodes.insert("/srv".to_owned(), Node::Directory);
        Machine {
            accounts: Vec::new(),
            nodes,
            modes: BTreeMap::new(),
            owners: BTreeMap::new(),
            attributes: BTreeMap::new(),
            open: String::new(),
            input: String::new(),
            random: 0,
            shown: Vec::new(),
            asked: 0,
            refuses: Box::new(|_, _| false),
        }
    }

    fn with_rose() -> Machine {
        let mut machine = Machine::new();
        machine.play(|dialogue| add(dialogue, "rose", KEY, SIGNUP, RECOVERY)).0.unwrap();
        machine.shown.clear();
        machine.asked = 0;
        machine
    }

    fn remove_below(&mut self, path: &str) {
        let below = format!("{path}/");
        self.nodes.retain(|known, _| known != path && !known.starts_with(&below));
    }

    fn open_at(&mut self, path: &str) -> Reply {
        match self.nodes.get(path) {
            None => failure(true, "No such file or directory"),
            Some(Node::Link(_)) => failure(false, "Too many levels of symbolic links"),
            Some(_) => {
                self.open = path.to_owned();
                Reply::Done
            }
        }
    }

    fn run(&mut self, program: &str, arguments: &[Word]) -> Reply {
        let arguments: Vec<String> = arguments.iter().map(text).collect();
        let last = arguments.last().unwrap().clone();
        match program {
            "getent" => exited(if self.accounts.contains(&last) { 0 } else { 2 }),
            "useradd" => {
                assert_eq!(arguments, ["-m", "-G", "salyut-bbs", &last]);
                self.nodes.insert(format!("/home/{last}"), Node::Directory);
                self.accounts.push(last);
                exited(0)
            }
            "userdel" => {
                assert_eq!(arguments[0], "-r");
                self.accounts.retain(|account| *account != last);
                self.remove_below(&format!("/home/{last}"));
                exited(0)
            }
            "chown" => {
                assert_eq!(arguments[0], "-h");
                assert!(self.nodes.contains_key(&last), "{last}");
                self.owners.insert(last, arguments[1].clone());
                exited(0)
            }
            "restorecon" => {
                assert_eq!(arguments[0], "-RF");
                exited(0)
            }
            _ => panic!("{program} {arguments:?}"),
        }
    }

    fn answer(&mut self, request: &Request) -> Reply {
        let turn = self.asked;
        self.asked = turn + 1;
        if (self.refuses)(turn, request) {
            return failure(false, "refused");
        }
        match request {
            Request::Run { program, arguments } => self.run(program, arguments),
            Request::RunQuietly { program, arguments } => self.run(program, arguments),
            Request::Start { program } => {
                assert_eq!(program, "chpasswd");
                Reply::Done
            }
            Request::HasInput => Reply::Flag(true),
            Request::WriteInput { text } => {
                self.input.push_str(text);
                Reply::Done
            }
            Request::Wait => exited(0),
            Request::LinkKind { path } => match self.nodes.get(path) {
                None => failure(true, "No such file or directory"),
                Some(Node::Directory) => Reply::Kind(FileKind::Directory),
                Some(Node::File(_)) => Reply::Kind(FileKind::Regular),
                Some(Node::Link(_)) => Reply::Kind(FileKind::Other),
            },
            Request::Exists { place } => Reply::Flag(self.nodes.contains_key(&text(place))),
            Request::CreateDirectories { path } => {
                self.nodes.insert(path.clone(), Node::Directory);
                Reply::Done
            }
            Request::OpenDirectory { path } | Request::OpenFile { path } => self.open_at(path),
            Request::OpenReadable { path } => {
                assert_eq!(path, "/dev/urandom");
                Reply::Done
            }
            Request::CreateFile { path } => {
                assert!(!self.nodes.contains_key(path));
                self.nodes.insert(path.clone(), Node::File(String::new()));
                self.open_at(path)
            }
            Request::OpenEmptied { path } => {
                self.nodes.insert(path.clone(), Node::File(String::new()));
                self.open_at(path)
            }
            Request::OpenKind => match self.nodes.get(&self.open) {
                Some(Node::Directory) => Reply::Kind(FileKind::Directory),
                Some(Node::File(_)) => Reply::Kind(FileKind::Regular),
                _ => Reply::Kind(FileKind::Other),
            },
            Request::SetMode { mode } => {
                self.modes.insert(self.open.clone(), *mode);
                Reply::Done
            }
            Request::WriteContents { text } => {
                self.nodes.insert(self.open.clone(), Node::File(text.clone()));
                Reply::Done
            }
            Request::ReadByte => {
                self.random = self.random.wrapping_add(1);
                Reply::Byte(self.random.wrapping_sub(1))
            }
            Request::ReadLink { path } => match self.nodes.get(path) {
                None => failure(true, "No such file or directory"),
                Some(Node::Link(target)) => Reply::Bytes(target.clone().into_bytes()),
                Some(_) => failure(false, "Invalid argument"),
            },
            Request::CreateLink { link, target } => {
                self.nodes.insert(link.clone(), Node::Link(target.clone()));
                Reply::Done
            }
            Request::RemoveTree { path } => {
                if self.nodes.contains_key(path) {
                    self.remove_below(path);
                    Reply::Done
                } else {
                    failure(true, "No such file or directory")
                }
            }
            Request::GetAttribute { name } => match self.attributes.get(name) {
                Some(value) => Reply::Bytes(value.clone()),
                None => Reply::Absent,
            },
            Request::SetAttribute { name, value } => {
                self.attributes.insert(name.clone(), value.clone());
                Reply::Done
            }
            Request::RemoveAttribute { name } => {
                self.attributes.remove(name);
                Reply::Done
            }
            Request::Print { line } => {
                self.shown.push(line.clone());
                Reply::Done
            }
            other => panic!("{other:?}"),
        }
    }

    /// Carries an operation through, answering whatever it asks.
    fn play<T>(
        &mut self,
        operation: impl Fn(&mut Dialogue) -> Result<T, Stop>,
    ) -> (Result<T, Stop>, Vec<Request>) {
        let mut replies = Vec::new();
        let mut asked = Vec::new();
        loop {
            match operation(&mut Dialogue::new(&replies)) {
                Err(Stop::Waiting(request)) => {
                    replies.push(self.answer(&request));
                    asked.push(request);
                }
                result => return (result, asked),
            }
        }
    }

    fn owner(&self, path: &str) -> &str {
        &self.owners[path]
    }
}

#[test]
fn an_addition_sets_up_the_whole_account() {
    let mut machine = Machine::new();
    machine.play(|dialogue| add(dialogue, "rose", KEY, SIGNUP, RECOVERY)).0.unwrap();
    assert_eq!(machine.accounts, ["rose"]);
    assert_eq!(machine.shown, ["created account: rose", &format!("password: {PASSWORD}")]);
    assert_eq!(machine.input, format!("rose:{PASSWORD}\n"));
    assert_eq!(machine.attributes["trusted.signup"], SIGNUP.as_bytes());
    assert_eq!(machine.attributes["trusted.recovery"], RECOVERY.as_bytes());
    for (path, node, mode, owner) in [
        ("/home/rose/.ssh", Node::Directory, Some(0o700), "rose:rose"),
        (
            "/home/rose/.ssh/authorized_keys",
            Node::File(format!("{KEY}\n")),
            Some(0o600),
            "rose:rose",
        ),
        ("/srv/user_sites/rose", Node::Directory, Some(0o2755), "rose:rose"),
        (
            "/srv/user_sites/rose/index.html",
            Node::File("Hello, World!\n".to_owned()),
            Some(0o755),
            "rose:rose",
        ),
        (
            "/home/rose/public_html",
            Node::Link("/srv/user_sites/rose".to_owned()),
            None,
            "rose:rose",
        ),
        ("/srv/user_profiles", Node::Directory, Some(0o711), "root:root"),
        ("/srv/user_profiles/rose", Node::Directory, Some(0o2750), "rose:salyut-bbs"),
        (
            "/srv/user_profiles/rose/.plan",
            Node::File(String::new()),
            Some(0o640),
            "rose:salyut-bbs",
        ),
        (
            "/home/rose/.plan",
            Node::Link("/srv/user_profiles/rose/.plan".to_owned()),
            None,
            "rose:rose",
        ),
        (
            "/srv/user_profiles/rose/.project",
            Node::File(String::new()),
            Some(0o640),
            "rose:salyut-bbs",
        ),
        (
            "/home/rose/.project",
            Node::Link("/srv/user_profiles/rose/.project".to_owned()),
            None,
            "rose:rose",
        ),
    ] {
        assert_eq!(machine.nodes[path], node, "{path}");
        assert_eq!(machine.modes.get(path).copied(), mode, "{path}");
        assert_eq!(machine.owner(path), owner, "{path}");
    }
}

#[test]
fn the_password_that_is_shown_is_the_one_that_was_set() {
    let mut machine = Machine::new();
    machine.random = 200;
    let (result, asked) = machine.play(|dialogue| add(dialogue, "rose", KEY, SIGNUP, RECOVERY));
    result.unwrap();
    let shown = machine.shown[1].strip_prefix("password: ").unwrap().to_owned();
    assert_eq!(shown.len(), 24);
    assert_eq!(machine.input, format!("rose:{shown}\n"));
    assert_eq!(
        asked.last(),
        Some(&Request::Print { line: format!("password: {shown}") })
    );
    let told = asked
        .iter()
        .filter(|request| format!("{request:?}").contains(&shown))
        .count();
    assert_eq!(told, 2);
}

#[test]
fn faulty_additions_ask_for_nothing() {
    for (username, key, signup, recovery, fault) in [
        ("", KEY, SIGNUP, RECOVERY, "username is empty"),
        ("Rose", KEY, SIGNUP, RECOVERY, "invalid username: Rose"),
        ("rose", " \t\u{2003}", SIGNUP, RECOVERY, "SSH public key is empty"),
        ("rose", "ssh\nrsa", SIGNUP, RECOVERY, "SSH public key must be one line"),
        ("rose", KEY, "", RECOVERY, "signup email address is empty"),
        ("rose", KEY, "a\rb", RECOVERY, "signup email address must be one line"),
        ("rose", KEY, SIGNUP, "", "recovery email address is empty"),
        ("rose", KEY, SIGNUP, "a\0b", "recovery email address must be one line"),
        ("Rose", "", "", "", "invalid username: Rose"),
    ] {
        let mut machine = Machine::new();
        let (result, asked) =
            machine.play(|dialogue| add(dialogue, username, key, signup, recovery));
        assert_eq!(trail(result), [fault]);
        assert_eq!(asked, []);
    }
}

#[test]
fn existing_accounts_are_not_added_again() {
    let mut machine = Machine::with_rose();
    let nodes = machine.nodes.clone();
    let (result, asked) = machine.play(|dialogue| add(dialogue, "rose", KEY, SIGNUP, RECOVERY));
    assert_eq!(trail(result), ["account already exists: rose"]);
    assert_eq!(asked.len(), 1);
    assert_eq!(machine.nodes, nodes);
}

#[test]
fn an_addition_that_fails_anywhere_is_taken_back() {
    let mut whole = Machine::new();
    let (_, asked) = whole.play(|dialogue| add(dialogue, "rose", KEY, SIGNUP, RECOVERY));
    let mut tried = 0;
    for turn in 2..asked.len() {
        let may_fail = !matches!(
            asked[turn],
            Request::Exists { .. } | Request::HasInput | Request::Print { .. }
        );
        if !may_fail {
            continue;
        }
        tried += 1;
        let mut machine = Machine::new();
        machine.refuses = Box::new(move |now, _| now == turn);
        let before = machine.nodes.clone();
        let result = machine.play(|dialogue| add(dialogue, "rose", KEY, SIGNUP, RECOVERY)).0;
        let trail = trail(result);
        assert_eq!(trail[0], "provisioning failed; the new account was rolled back");
        assert_eq!(trail.last().unwrap(), "refused");
        assert_eq!(machine.accounts, Vec::<String>::new());
        machine.nodes.remove("/srv/user_profiles");
        assert_eq!(machine.nodes, before, "{:?}", asked[turn]);
        assert!(!machine.shown.iter().any(|line| line.starts_with("password")));
    }
    assert!(tried > 60, "{tried}");
}

#[test]
fn a_rollback_that_fails_says_so() {
    let mut machine = Machine::new();
    machine.refuses = Box::new(|_, request| {
        matches!(request, Request::OpenReadable { .. } | Request::RemoveTree { .. })
            || matches!(request, Request::Run { program, .. } if program == "userdel")
    });
    let (result, asked) = machine.play(|dialogue| add(dialogue, "rose", KEY, SIGNUP, RECOVERY));
    assert_eq!(
        trail(result),
        [
            "provisioning failed and rollback also failed: userdel: run userdel: refused; \
             /srv/user_sites: remove /srv/user_sites/rose: refused; \
             /srv/user_profiles: remove /srv/user_profiles/rose: refused",
            "open /dev/urandom",
            "refused",
        ]
    );
    let last: Vec<Request> = asked.into_iter().rev().take(2).collect();
    assert_eq!(
        last,
        [
            Request::RemoveTree { path: "/srv/user_profiles/rose".to_owned() },
            Request::RemoveTree { path: "/srv/user_sites/rose".to_owned() },
        ]
    );
}

#[test]
fn rollback_takes_back_what_there_is() {
    let mut machine = Machine::with_rose();
    machine.play(|dialogue| rollback_new_user(dialogue, "rose")).0.unwrap();
    assert_eq!(machine.accounts, Vec::<String>::new());
    // Once more, with nothing left to take back.
    machine.play(|dialogue| rollback_new_user(dialogue, "rose")).0.unwrap();
}

#[test]
fn a_useradd_that_fails_is_not_rolled_back() {
    let replies = vec![exited(2), exited(9)];
    let result = add(&mut Dialogue::new(&replies), "rose", KEY, SIGNUP, RECOVERY);
    assert_eq!(trail(result), ["useradd failed with exit status: 9"]);
}

#[test]
fn shown_addresses_are_the_recorded_ones() {
    let mut machine = Machine::with_rose();
    machine.play(|dialogue| info(dialogue, "rose")).0.unwrap();
    assert_eq!(
        machine.shown,
        [
            "username: rose",
            "signup email: rose@example.com",
            "recovery email: rose-recovery@example.net",
        ]
    );
    machine.shown.clear();
    machine.attributes.remove("trusted.recovery");
    machine.play(|dialogue| info(dialogue, "rose")).0.unwrap();
    assert_eq!(machine.shown[2], "recovery email: (not set)");
    machine.attributes.remove("trusted.signup");
    let result = machine.play(|dialogue| info(dialogue, "rose")).0;
    assert_eq!(trail(result), ["trusted.signup is not set for rose"]);
}

#[test]
fn addresses_that_are_not_text_are_refused() {
    let mut machine = Machine::with_rose();
    machine.attributes.insert("trusted.signup".to_owned(), vec![b'a', 0xff]);
    let result = machine.play(|dialogue| info(dialogue, "rose")).0;
    assert_eq!(
        trail(result),
        [
            "trusted.signup for rose is not valid UTF-8",
            "invalid utf-8 sequence of 1 bytes from index 1",
        ]
    );
    let replies = vec![Reply::Bytes("r\u{f3}sa".as_bytes().to_vec())];
    assert_eq!(
        read_xattr(&mut Dialogue::new(&replies), "trusted.signup", "rose"),
        Ok(Some("r\u{f3}sa".to_owned()))
    );
    let replies = vec![failure(false, "denied")];
    match read_xattr(&mut Dialogue::new(&replies), "trusted.signup", "rose") {
        Err(Stop::Failed(failure)) => {
            assert_eq!(failure.trail, ["read trusted.signup for rose", "denied"])
        }
        other => panic!("{other:?}"),
    }
}

#[test]
fn addresses_can_be_changed() {
    let mut machine = Machine::with_rose();
    machine.play(|dialogue| set_emails(dialogue, "rose", "new@example.com", None)).0.unwrap();
    assert_eq!(machine.attributes["trusted.signup"], b"new@example.com");
    assert_eq!(machine.attributes["trusted.recovery"], RECOVERY.as_bytes());
    assert_eq!(machine.shown, ["updated email addresses: rose"]);
    machine
        .play(|dialogue| set_emails(dialogue, "rose", "a@b", Some("c@d")))
        .0
        .unwrap();
    assert_eq!(machine.attributes["trusted.signup"], b"a@b");
    assert_eq!(machine.attributes["trusted.recovery"], b"c@d");
    for (username, signup, recovery, fault) in [
        ("-", "a", None, "invalid username: -"),
        ("rose", "", None, "signup email address is empty"),
        ("rose", "a", Some(""), "recovery email address is empty"),
        ("rose", "a", Some("\n"), "recovery email address must be one line"),
    ] {
        let (result, asked) =
            machine.play(|dialogue| set_emails(dialogue, username, signup, recovery));
        assert_eq!(trail(result), [fault]);
        assert_eq!(asked, []);
    }
}

#[test]
fn a_failed_change_of_addresses_is_taken_back() {
    let recovery_fails = |_: usize, request: &Request| {
        matches!(request, Request::SetAttribute { name, .. } if name == "trusted.recovery")
    };
    let mut machine = Machine::with_rose();
    machine.refuses = Box::new(recovery_fails);
    let result =
        machine.play(|dialogue| set_emails(dialogue, "rose", "a@b", Some("c@d"))).0;
    assert_eq!(
        trail(result),
        ["set trusted.recovery for rose; restored previous signup email", "refused"]
    );
    assert_eq!(machine.attributes["trusted.signup"], SIGNUP.as_bytes());
    // An address that was not set is not set again.
    machine.attributes.clear();
    machine.play(|dialogue| set_emails(dialogue, "rose", "a@b", Some("c@d"))).0.unwrap_err();
    assert_eq!(machine.attributes.len(), 0);
    // The value that was there need not be text.
    machine.attributes.insert("trusted.signup".to_owned(), vec![0xff]);
    machine.play(|dialogue| set_emails(dialogue, "rose", "a@b", Some("c@d"))).0.unwrap_err();
    assert_eq!(machine.attributes["trusted.signup"], [0xff]);
    machine.refuses = Box::new(|_, request| {
        matches!(request, Request::SetAttribute { name, value }
            if name == "trusted.recovery" || value == &[0xff])
    });
    let result =
        machine.play(|dialogue| set_emails(dialogue, "rose", "a@b", Some("c@d"))).0;
    assert_eq!(
        trail(result),
        [
            "set trusted.recovery for rose; failed to restore previous signup email: refused",
            "refused",
        ]
    );
}

#[test]
fn restoring_an_attribute_sets_or_removes_it() {
    let none: Vec<Reply> = Vec::new();
    let value = vec![1, 2];
    assert_eq!(
        restore_xattr(&mut Dialogue::new(&none), "n", Some(&value)),
        Err(Stop::Waiting(Request::SetAttribute { name: "n".to_owned(), value: vec![1, 2] }))
    );
    assert_eq!(
        restore_xattr(&mut Dialogue::new(&none), "n", None),
        Err(Stop::Waiting(Request::RemoveAttribute { name: "n".to_owned() }))
    );
    let failed = vec![failure(true, "gone")];
    assert_eq!(
        restore_xattr(&mut Dialogue::new(&failed), "n", None),
        Ok(Some("gone".to_owned()))
    );
}

#[test]
fn a_deletion_removes_everything_of_the_account() {
    let mut machine = Machine::with_rose();
    machine.play(|dialogue| add(dialogue, "rosemary", KEY, SIGNUP, RECOVERY)).0.unwrap();
    let (result, asked) = machine.play(|dialogue| delete(dialogue, "rose", true));
    result.unwrap();
    assert_eq!(asked.len(), 5);
    assert_eq!(machine.accounts, ["rosemary"]);
    assert!(machine.nodes.keys().all(|path| !path.contains("/rose/") && !path.ends_with("/rose")));
    assert!(machine.nodes.contains_key("/srv/user_sites/rosemary/index.html"));
    assert_eq!(machine.shown.last().unwrap(), "deleted account and managed data: rose");
}

#[test]
fn deletions_must_be_confirmed_and_valid() {
    let mut machine = Machine::with_rose();
    let (result, asked) = machine.play(|dialogue| delete(dialogue, "rose", false));
    assert_eq!(trail(result), ["refusing to delete rose; repeat with --yes to confirm"]);
    assert_eq!(asked, []);
    let (result, asked) = machine.play(|dialogue| delete(dialogue, "../rose", true));
    assert_eq!(trail(result), ["invalid username: ../rose"]);
    assert_eq!(asked, []);
    assert_eq!(machine.accounts, ["rose"]);
}

#[test]
fn missing_accounts_are_left_alone() {
    let mut machine = Machine::new();
    for operation in [
        |dialogue: &mut Dialogue| delete(dialogue, "rose", true),
        |dialogue: &mut Dialogue| repair(dialogue, "rose"),
        |dialogue: &mut Dialogue| info(dialogue, "rose"),
        |dialogue: &mut Dialogue| set_emails(dialogue, "rose", "a@b", None),
        |dialogue: &mut Dialogue| require_account(dialogue, "rose"),
    ] {
        let (result, asked) = machine.play(operation);
        assert_eq!(trail(result), ["account does not exist: rose"]);
        assert_eq!(asked.len(), 1);
    }
}

#[test]
fn getent_decides_whether_there_is_an_account() {
    let exists = |reply: Reply| account_exists(&mut Dialogue::new(&vec![reply]), "rose");
    assert_eq!(exists(exited(0)), Ok(true));
    assert_eq!(exists(exited(2)), Ok(false));
    match exists(exited(1)) {
        Err(Stop::Failed(failure)) => {
            assert_eq!(failure.trail, ["getent passwd failed with exit status: 1"])
        }
        other => panic!("{other:?}"),
    }
    match exists(failure(true, "none")) {
        Err(Stop::Failed(failure)) => assert_eq!(failure.trail, ["run getent", "none"]),
        other => panic!("{other:?}"),
    }
    assert_eq!(exists(Reply::Done), Err(Stop::Garbled));
}

#[test]
fn a_repair_restores_what_is_missing_and_keeps_what_is_there() {
    let mut machine = Machine::with_rose();
    let sound = machine.nodes.clone();
    let keys = "/home/rose/.ssh/authorized_keys";
    machine.nodes.insert(keys.to_owned(), Node::File("another key\n".to_owned()));
    let page = "/srv/user_sites/rose/index.html";
    machine.nodes.insert(page.to_owned(), Node::File("my page".to_owned()));
    machine.nodes.remove("/home/rose/.plan");
    machine.nodes.remove("/srv/user_profiles/rose/.project");
    machine.modes.clear();
    machine.owners.clear();
    machine.play(|dialogue| repair(dialogue, "rose")).0.unwrap();
    assert_eq!(machine.shown, ["repaired account: rose"]);
    assert_eq!(machine.nodes[keys], Node::File("another key\n".to_owned()));
    assert_eq!(machine.nodes[page], Node::File("my page".to_owned()));
    assert_eq!(machine.modes[keys], 0o600);
    assert_eq!(machine.owner("/home/rose/.plan"), "rose:rose");
    machine.nodes.insert(keys.to_owned(), sound[keys].clone());
    machine.nodes.insert(page.to_owned(), sound[page].clone());
    assert_eq!(machine.nodes, sound);
    // A page that is missing is greeted with again.
    machine.nodes.remove(page);
    machine.play(|dialogue| repair(dialogue, "rose")).0.unwrap();
    assert_eq!(machine.nodes, sound);
}

#[test]
fn links_that_go_elsewhere_are_left_alone() {
    let mut machine = Machine::with_rose();
    let link = "/home/rose/public_html";
    machine.nodes.insert(link.to_owned(), Node::Link("/srv/user_sites//rose/./".to_owned()));
    machine.play(|dialogue| repair(dialogue, "rose")).0.unwrap();
    machine.nodes.insert(link.to_owned(), Node::Link("/etc".to_owned()));
    let result = machine.play(|dialogue| repair(dialogue, "rose")).0;
    assert_eq!(
        trail(result),
        ["/home/rose/public_html points to /etc, expected /srv/user_sites/rose"]
    );
    assert_eq!(machine.nodes[link], Node::Link("/etc".to_owned()));
    // What is not text is shown with a stand-in.
    let replies = vec![Reply::Bytes(vec![b'/', 0xff])];
    let result = ensure_symlink(&mut Dialogue::new(&replies), "/l", "/t", "rose", "rose");
    assert_eq!(trail(result), ["/l points to /\u{fffd}, expected /t"]);
    let replies = vec![failure(false, "denied")];
    let result = ensure_symlink(&mut Dialogue::new(&replies), "/l", "/t", "rose", "rose");
    assert_eq!(trail(result), ["inspect /l", "denied"]);
}

#[test]
fn homes_that_are_no_directories_are_refused() {
    let mut machine = Machine::with_rose();
    machine.nodes.insert("/home/rose".to_owned(), Node::Link("/".to_owned()));
    let result = machine.play(|dialogue| apply(dialogue, "rose", None)).0;
    assert_eq!(trail(result), ["expected home directory does not exist: /home/rose"]);
    let result = machine.play(|dialogue| open_home(dialogue, "rose")).0;
    assert_eq!(
        trail(result),
        [
            "open home directory without following links: /home/rose",
            "Too many levels of symbolic links",
        ]
    );
    let replies = vec![Reply::Done, Reply::Kind(FileKind::Other)];
    let result = open_home(&mut Dialogue::new(&replies), "rose");
    assert_eq!(trail(result), ["expected home directory does not exist: /home/rose"]);
    machine.nodes.remove("/home/rose");
    let result = machine.play(|dialogue| apply(dialogue, "rose", None)).0;
    assert_eq!(trail(result), ["inspect /home/rose", "No such file or directory"]);
}

#[test]
fn every_step_of_a_directory_can_fail() {
    let wanted = [
        (vec![Reply::Flag(false), failure(false, "x")], vec!["create /d", "x"]),
        (
            vec![Reply::Flag(true), failure(false, "x")],
            vec!["open directory without following links: /d", "x"],
        ),
        (
            vec![Reply::Flag(true), Reply::Done, Reply::Kind(FileKind::Regular)],
            vec!["/d is not a directory"],
        ),
        (vec![Reply::Flag(true), Reply::Done, failure(false, "x")], vec!["x"]),
        (
            vec![
                Reply::Flag(true),
                Reply::Done,
                Reply::Kind(FileKind::Directory),
                failure(false, "x"),
            ],
            vec!["chmod 0711 /d", "x"],
        ),
        (
            vec![
                Reply::Flag(true),
                Reply::Done,
                Reply::Kind(FileKind::Directory),
                Reply::Done,
                exited(1),
            ],
            vec!["set owner of /d", "chown failed with exit status: 1"],
        ),
    ];
    for (replies, expected) in wanted {
        let result = ensure_directory(&mut Dialogue::new(&replies), "/d", 0o711, "u", "g");
        assert_eq!(trail(result), expected);
    }
}

#[test]
fn every_step_of_a_file_can_fail() {
    let missing = || failure(true, "none");
    let kind = || Reply::Kind(FileKind::Regular);
    let wanted = [
        (vec![missing(), failure(false, "x")], vec!["create /f", "x"]),
        (vec![failure(false, "x")], vec!["open file without following links: /f", "x"]),
        (vec![Reply::Done, Reply::Kind(FileKind::Other)], vec!["/f is not a regular file"]),
        (vec![Reply::Done, kind(), failure(false, "x")], vec!["chmod 2755 /f", "x"]),
        (
            vec![Reply::Done, kind(), Reply::Done, failure(false, "x")],
            vec!["set owner of /f", "run chown", "x"],
        ),
    ];
    for (replies, expected) in wanted {
        let result = ensure_file(&mut Dialogue::new(&replies), "/f", 0o2755, "u", "g");
        match result {
            Err(Stop::Failed(failure)) => assert_eq!(failure.trail, expected),
            other => panic!("{other:?}"),
        }
    }
    let found = vec![Reply::Done, kind(), Reply::Done, exited(0)];
    assert_eq!(ensure_file(&mut Dialogue::new(&found), "/f", 0o600, "u", "g"), Ok(false));
    let created = vec![missing(), Reply::Done, kind(), Reply::Done, exited(0)];
    assert_eq!(ensure_file(&mut Dialogue::new(&created), "/f", 0o600, "u", "g"), Ok(true));
    let replies = vec![failure(false, "x")];
    let result = write_file(&mut Dialogue::new(&replies), "/f", "text".to_owned());
    assert_eq!(trail(result), ["open file without following links: /f", "x"]);
    let replies = vec![Reply::Done, failure(false, "x")];
    let result = write_file(&mut Dialogue::new(&replies), "/f", "text".to_owned());
    assert_eq!(trail(result), ["write /f", "x"]);
}

#[test]
fn owners_are_set_without_following_links() {
    let none: Vec<Reply> = Vec::new();
    let result = set_owner(&mut Dialogue::new(&none), "/p", "rose", "salyut-bbs");
    assert_eq!(
        result,
        Err(Stop::Waiting(Request::Run {
            program: "chown".to_owned(),
            arguments: vec![
                Word::Text("-h".to_owned()),
                Word::Text("rose:salyut-bbs".to_owned()),
                Word::Text("/p".to_owned()),
            ],
        }))
    );
}

#[test]
fn trees_that_are_missing_count_as_removed() {
    let remove = |reply: Reply| remove_tree(&mut Dialogue::new(&vec![reply]), "/t");
    assert_eq!(remove(Reply::Done), Ok(()));
    assert_eq!(remove(failure(true, "none")), Ok(()));
    assert_eq!(trail(remove(failure(false, "busy"))), ["remove /t", "busy"]);
    let replies = vec![failure(false, "busy")];
    let result = remove_managed_data(&mut Dialogue::new(&replies), "rose");
    assert_eq!(trail(result), ["remove /srv/user_sites/rose", "busy"]);
}

#[test]
fn addresses_are_stored_one_after_the_other() {
    let kind = || Reply::Kind(FileKind::Directory);
    let replies = vec![Reply::Done, kind(), failure(false, "x")];
    let result = store_emails(&mut Dialogue::new(&replies), "rose", SIGNUP, RECOVERY);
    assert_eq!(trail(result), ["set trusted.signup for rose", "x"]);
    let replies = vec![Reply::Done, kind(), Reply::Done, failure(false, "x")];
    let result = store_emails(&mut Dialogue::new(&replies), "rose", SIGNUP, RECOVERY);
    assert_eq!(trail(result), ["set trusted.recovery for rose", "x"]);
}

#[test]
fn passwords_pass_over_bytes_that_stand_for_no_letter() {
    let mut replies = Vec::new();
    for byte in [228, 56, 57, 227, 255] {
        replies.push(Reply::Byte(byte));
    }
    assert_eq!(password_from_reader(&mut Dialogue::new(&replies), 3), Ok("9A9".to_owned()));
    assert_eq!(
        password_from_reader(&mut Dialogue::new(&replies), 4),
        Err(Stop::Waiting(Request::ReadByte))
    );
    match password_from_reader(&mut Dialogue::new(&replies), 0) {
        Err(Stop::Failed(failure)) => {
            assert_eq!(failure.trail, ["password length must be positive"])
        }
        other => panic!("{other:?}"),
    }
    let replies = vec![Reply::Byte(0), failure(false, "failed to fill whole buffer")];
    match password_from_reader(&mut Dialogue::new(&replies), 2) {
        Err(Stop::Failed(failure)) => {
            assert_eq!(failure.trail, ["read random bytes", "failed to fill whole buffer"])
        }
        other => panic!("{other:?}"),
    }
}

#[test]
fn every_letter_comes_from_four_bytes() {
    let mut counts: BTreeMap<String, usize> = BTreeMap::new();
    for byte in 0..=255 {
        let replies = vec![Reply::Byte(byte)];
        if let Ok(letter) = password_from_reader(&mut Dialogue::new(&replies), 1) {
            *counts.entry(letter).or_default() += 1;
        }
    }
    assert_eq!(counts.len(), 57);
    assert!(counts.values().all(|count| *count == 4));
    for letter in ["I", "O", "l", "0", "1"] {
        assert!(!counts.contains_key(letter));
    }
}

#[test]
fn a_generated_password_has_twenty_four_letters() {
    let mut machine = Machine::new();
    let password = machine.play(generate_password).0.unwrap();
    assert_eq!(password, PASSWORD);
    machine.refuses = Box::new(|_, _| true);
    match machine.play(generate_password).0 {
        Err(Stop::Failed(failure)) => assert_eq!(failure.trail, ["open /dev/urandom", "refused"]),
        other => panic!("{other:?}"),
    }
}

#[test]
fn every_step_of_setting_a_password_can_fail() {
    let wanted = [
        (vec![failure(true, "x")], vec!["start chpasswd", "x"]),
        (vec![Reply::Done, Reply::Flag(false)], vec!["open chpasswd stdin"]),
        (
            vec![Reply::Done, Reply::Flag(true), failure(false, "x")],
            vec!["write password to chpasswd", "x"],
        ),
        (
            vec![Reply::Done, Reply::Flag(true), Reply::Done, failure(false, "x")],
            vec!["wait for chpasswd", "x"],
        ),
        (
            vec![
                Reply::Done,
                Reply::Flag(true),
                Reply::Done,
                Reply::Exited { code: None, status: "signal: 9 (SIGKILL)".to_owned() },
            ],
            vec!["chpasswd failed with signal: 9 (SIGKILL)"],
        ),
    ];
    for (replies, expected) in wanted {
        let result = set_password(&mut Dialogue::new(&replies), "rose", "secret");
        assert_eq!(trail(result), expected);
    }
}

#[test]
fn replies_that_answer_nothing_are_noticed() {
    let replies = vec![Reply::Absent];
    let result = add(&mut Dialogue::new(&replies), "rose", KEY, SIGNUP, RECOVERY);
    assert_eq!(result, Err(Stop::Garbled));
    let result = remove_tree(&mut Dialogue::new(&replies), "/t");
    assert_eq!(result, Err(Stop::Garbled));
}

#[test]
fn what_was_asked_does_not_change_with_more_replies() {
    let mut machine = Machine::new();
    let operation =
        |dialogue: &mut Dialogue| add(dialogue, "rose", KEY, SIGNUP, RECOVERY);
    let (result, asked) = machine.play(operation);
    result.unwrap();
    let mut again = Machine::new();
    let mut replies = Vec::new();
    for request in &asked {
        match operation(&mut Dialogue::new(&replies)) {
            Err(Stop::Waiting(now)) => assert_eq!(now, *request),
            other => panic!("{other:?}"),
        }
        replies.push(again.answer(request));
    }
    assert_eq!(operation(&mut Dialogue::new(&replies)), Ok(()));
    // One reply too many changes nothing.
    replies.push(Reply::Absent);
    assert_eq!(operation(&mut Dialogue::new(&replies)), Ok(()));
}

#[test]
fn showing_an_account_changes_nothing() {
    let mut machine = Machine::with_rose();
    let before = (machine.nodes.clone(), machine.modes.clone(), machine.attributes.clone());
    let (_, asked) = machine.play(|dialogue| info(dialogue, "rose"));
    assert_eq!((machine.nodes, machine.modes, machine.attributes), before);
    assert!(asked.iter().all(|request| matches!(
        request,
        Request::RunQuietly { .. }
            | Request::OpenDirectory { .. }
            | Request::OpenKind
            | Request::GetAttribute { .. }
            | Request::Print { .. }
    )));
}

#[test]
fn accounts_keep_out_of_each_other() {
    let mut machine = Machine::with_rose();
    let belongings = |machine: &Machine| -> Vec<(String, Node)> {
        machine
            .nodes
            .iter()
            .filter(|(path, _)| path.contains("/rose/") || path.ends_with("/rose"))
            .map(|(path, node)| (path.clone(), node.clone()))
            .collect()
    };
    let before = belongings(&machine);
    assert_eq!(before.len(), 11);
    machine.play(|dialogue| add(dialogue, "rose-2", "other key", "a@b", "c@d")).0.unwrap();
    machine.play(|dialogue| repair(dialogue, "rose-2")).0.unwrap();
    machine.play(|dialogue| delete(dialogue, "rose-2", true)).0.unwrap();
    assert_eq!(belongings(&machine), before);
    assert_eq!(machine.owner("/home/rose/.ssh"), "rose:rose");
}

#[test]
fn chpasswd_is_given_one_record() {
    let mut machine = Machine::new();
    machine.play(|dialogue| add(dialogue, "_x-9", KEY, SIGNUP, RECOVERY)).0.unwrap();
    let (name, password) = machine.input.split_once(':').unwrap();
    assert_eq!(name, "_x-9");
    assert_eq!(password, format!("{PASSWORD}\n"));
}

#[test]
fn commands_about_accounts_reach_their_operations() {
    let mut machine = Machine::new();
    let mut execute_user = |command: UserCommand| {
        let cli = Cli { command: TopCommand::User { command } };
        machine.play(|dialogue| execute(dialogue, &cli)).0
    };
    let rose = || "rose".to_owned();
    let addition = UserCommand::Add {
        username: rose(),
        ssh_public_key: KEY.to_owned(),
        signup_email: SIGNUP.to_owned(),
        recovery_email: RECOVERY.to_owned(),
    };
    execute_user(addition).unwrap();
    execute_user(UserCommand::Repair { username: rose() }).unwrap();
    execute_user(UserCommand::Info { command: None, username: Some(rose()) }).unwrap();
    let change = || UserInfoCommand::SetEmails {
        signup: "a@b".to_owned(),
        recovery: None,
        username: rose(),
    };
    execute_user(UserCommand::Info { command: Some(change()), username: None }).unwrap();
    assert_eq!(
        trail(execute_user(UserCommand::Info { command: None, username: None })),
        ["username is required"]
    );
    assert_eq!(
        trail(execute_user(UserCommand::Info { command: Some(change()), username: Some(rose()) })),
        ["username must follow the info subcommand"]
    );
    execute_user(UserCommand::Delete { username: rose(), yes: true }).unwrap();
    assert_eq!(
        machine.shown,
        [
            "created account: rose",
            "password: ABCDEFGHJKLMNPQRSTUVWXYZ",
            "repaired account: rose",
            "username: rose",
            "signup email: rose@example.com",
            "recovery email: rose-recovery@example.net",
            "updated email addresses: rose",
            "deleted account and managed data: rose",
        ]
    );
}
