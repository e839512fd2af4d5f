//! Repositories in a source root that exists in memory only.
use salyut_admin::cli::{execute, Cli, TopCommand};
use salyut_admin::dialogue::{Dialogue, Stop};
use salyut_admin::repositories::{eligible, is_plain_name, select, update, UpdateArgs};
use salyut_admin::request::{Reply, Request, Word};

fn owned(names: &[&str]) -> Vec<String> {
    names.iter().map(|name| (*name).to_owned()).collect()
}

fn raw(word: &Word) -> Vec<u8> {
    match word {
        Word::Raw(bytes) => bytes.clone(),
        Word::Text(text) => panic!("{text}"),
    }
}

fn trail<T: std::fmt::Debug>(result: Result<T, Stop>) -> Vec<String> {
    match result {
        Err(Stop::Failed(failure)) => failure.trail,
        other => panic!("{other:?}"),
    }
}

/// The directories and the regular files below a source root.
struct Root {
    entries: Vec<Vec<u8>>,
    directories: Vec<Vec<u8>>,
    files: Vec<Vec<u8>>,
    failing: String,
}

impl Root {
    fn new() -> Root {
        Root {
            entries: Vec::new(),
            directories: vec![b"/src".to_vec()],
            files: Vec::new(),
            failing: String::new(),
        }
    }

    fn holding(names: &[&[u8]]) -> Root {
        let mut root = Root::new();
        for name in names {
            root.entry(name, true, true);
        }
        root
    }

    fn entry(&mut self, name: &[u8], git: bool, makefile: bool) {
        let mut path = b"/src/".to_vec();
        path.extend_from_slice(name);
        self.entries.push(name.to_vec());
        if git {
            let mut inside = path.clone();
            inside.extend_from_slice(b"/.git");
            self.directories.push(inside);
        }
        if makefile {
            let mut inside = path.clone();
            inside.extend_from_slice(b"/Makefile");
            self.files.push(inside);
        }
        self.directories.push(path);
    }

    fn answer(&self, request: &Request) -> Reply {
        match request {
            Request::IsDirectory { place } => Reply::Flag(self.directories.contains(&raw(place))),
            Request::Exists { place } => Reply::Flag(
                self.directories.contains(&raw(place)) || self.files.contains(&raw(place)),
            ),
            Request::IsFile { place } => Reply::Flag(self.files.contains(&raw(place))),
            Request::ListDirectory { directory } => {
                assert_eq!(directory, b"/src");
                Reply::Names(self.entries.clone())
            }
            Request::Run { .. } if command_line(request) == self.failing => {
                Reply::Exited { code: Some(2), status: "exit status: 2".to_owned() }
            }
            Request::Run { .. } => {
                Reply::Exited { code: Some(0), status: "exit status: 0".to_owned() }
            }
            Request::Receive { .. } => Reply::Bytes(b"HTTP/1.1 200 OK\r\n".to_vec()),
            _ => Reply::Done,
        }
    }

    fn play<T>(
        &self,
        operation: impl Fn(&mut Dialogue) -> Result<T, Stop>,
    ) -> (Result<T, Stop>, Vec<Request>) {
        let mut replies = Vec::new();
        let mut asked = Vec::new();
        loop {
            match operation(&mut Dialogue::new(&replies)) {
                Err(Stop::Waiting(request)) => {
                    replies.push(self.answer(&request));
                    asked.push(request);
                }
                result => return (result, asked),
            }
        }
    }

    fn select(&self, names: &[&str]) -> Result<Vec<Vec<u8>>, Stop> {
        let root = b"/src".to_vec();
        let names = owned(names);
        self.play(|dialogue| select(dialogue, &root, &names)).0
    }

    fn update(&self, names: &[&str]) -> (Result<(), Stop>, Vec<Request>) {
        let arguments = UpdateArgs { repos: owned(names), source_root: b"/src".to_vec() };
        self.play(|dialogue| update(dialogue, &arguments))
    }
}

fn command_line(request: &Request) -> String {
    match request {
        Request::Run { program, arguments } => {
            let mut line = program.clone();
            for argument in arguments {
                line.push(' ');
                match argument {
                    Word::Text(text) => line.push_str(text),
                    Word::Raw(bytes) => line.push_str(&String::from_utf8_lossy(bytes)),
                }
            }
            line
        }
        Request::Print { line } => format!("> {line}"),
        other => format!("{other:?}"),
    }
}

#[test]
fn selection_is_sorted_and_requires_git_and_make() {
    let mut root = Root::new();
    root.entry(b"site", true, true);
    root.entry(b"ignored", true, false);
    root.entry(b"bbs", true, true);

    assert_eq!(root.select(&[]).unwrap(), vec![b"/src/bbs".to_vec(), b"/src/site".to_vec()]);
    assert!(root.select(&["../site"]).is_err());
}

#[test]
fn only_directories_with_git_and_makefile_are_eligible() {
    let mut root = Root::new();
    root.entry(b"both", true, true);
    root.entry(b"git", true, false);
    root.entry(b"makefile", false, true);
    root.entry(b"neither", false, false);
    for (name, fit, questions) in [
        ("/src/both", true, 3),
        ("/src/git", false, 3),
        ("/src/makefile", false, 2),
        ("/src/neither", false, 2),
        ("/src/missing", false, 1),
    ] {
        let path = name.as_bytes().to_vec();
        let (result, asked) = root.play(|dialogue| eligible(dialogue, &path));
        assert_eq!(result, Ok(fit), "{name}");
        assert_eq!(asked.len(), questions, "{name}");
    }
}

#[test]
fn named_repositories_are_selected_in_order() {
    let root = Root::holding(&[b"site", b"bbs", b"finger"]);
    assert_eq!(
        root.select(&["site", "bbs", "site"]).unwrap(),
        [b"/src/bbs".to_vec(), b"/src/site".to_vec(), b"/src/site".to_vec()]
    );
}

#[test]
fn repositories_come_in_the_order_of_their_bytes() {
    let root = Root::holding(&[b"b", b"ab", b"a", b"B", b"a.b", b"a-b", b"\xc3\xa9", b"\xff"]);
    let expected: Vec<Vec<u8>> = [
        b"/src/B".as_slice(),
        b"/src/a",
        b"/src/a-b",
        b"/src/a.b",
        b"/src/ab",
        b"/src/b",
        b"/src/\xc3\xa9",
        b"/src/\xff",
    ]
    .iter()
    .map(|path| path.to_vec())
    .collect();
    assert_eq!(root.select(&[]).unwrap(), expected);
    let mut paths: Vec<&std::path::Path> = Vec::new();
    for path in &expected[..7] {
        paths.push(std::path::Path::new(std::str::from_utf8(path).unwrap()));
    }
    assert!(paths.windows(2).all(|pair| pair[0] < pair[1]));
}

#[test]
fn names_that_leave_the_root_are_refused() {
    let root = Root::holding(&[b"site"]);
    for name in ["", ".", "..", "a/b", "/etc", "a\0"] {
        assert!(!is_plain_name(name), "{name:?}");
        assert_eq!(
            trail(root.select(&["site", name, ".."])),
            [format!("invalid repository name: {name}")]
        );
    }
    for name in ["a", "...", ".git", "-x", "\u{2215}"] {
        assert!(is_plain_name(name), "{name:?}");
    }
}

#[test]
fn repositories_that_are_not_eligible_are_named() {
    let mut root = Root::holding(&[b"site"]);
    root.entry(b"plain", false, false);
    assert_eq!(
        trail(root.select(&["plain", "site", "missing"])),
        ["not Git repositories with Makefiles under /src: plain, missing"]
    );
}

#[test]
fn the_root_must_be_a_directory_that_can_be_read() {
    let root = Root::new();
    let elsewhere = b"/else\xff".to_vec();
    let (result, asked) = root.play(|dialogue| select(dialogue, &elsewhere, &[]));
    assert_eq!(trail(result), ["source root is not a directory: /else\u{fffd}"]);
    assert_eq!(asked.len(), 1);
    let replies = vec![
        Reply::Flag(true),
        Reply::Error { not_found: false, cause: "denied".to_owned() },
    ];
    let result = select(&mut Dialogue::new(&replies), &b"/src".to_vec(), &[]);
    assert_eq!(trail(result), ["read /src", "denied"]);
}

#[test]
fn an_update_without_repositories_fails() {
    let (result, asked) = Root::new().update(&[]);
    assert_eq!(trail(result), ["no eligible repositories found"]);
    assert_eq!(asked.len(), 2);
}

#[test]
fn an_update_goes_step_by_step() {
    let root = Root::holding(&[b"site", b"bbs"]);
    let (result, asked) = root.update(&[]);
    result.unwrap();
    let lines: Vec<String> = asked
        .iter()
        .filter(|request| matches!(request, Request::Run { .. } | Request::Print { .. }))
        .map(command_line)
        .collect();
    assert_eq!(
        lines[..16],
        [
            "> pulling /src/bbs",
            "git -C /src/bbs pull --ff-only",
            "> pulling /src/site",
            "git -C /src/site pull --ff-only",
            "> building /src/bbs",
            "make -C /src/bbs",
            "> building /src/site",
            "make -C /src/site",
            "> installing /src/bbs",
            "make -C /src/bbs install",
            "> installing /src/site",
            "make -C /src/site install",
            "systemctl daemon-reload",
            "systemctl restart salyut-site.service salyut-bbsd.service postfix.service \
             dovecot.service caddy.service",
            "systemctl is-active --quiet salyut-site.service",
            "> ok   salyut-site: active, HTTP healthy",
        ]
    );
    assert_eq!(lines.last().unwrap(), "> ok   caddy: active");
}

#[test]
fn the_first_step_that_fails_ends_the_update() {
    for (failing, message) in [
        ("git -C /src/bbs pull --ff-only", "git failed with exit status: 2"),
        ("make -C /src/site", "make failed with exit status: 2"),
        ("make -C /src/bbs install", "make failed with exit status: 2"),
        ("systemctl daemon-reload", "systemctl failed with exit status: 2"),
    ] {
        let mut root = Root::holding(&[b"site", b"bbs"]);
        root.failing = failing.to_owned();
        let (result, asked) = root.update(&["site", "bbs"]);
        assert_eq!(trail(result), [message]);
        assert_eq!(command_line(asked.last().unwrap()), failing);
    }
}

#[test]
fn the_update_command_reaches_its_operation() {
    let root = Root::holding(&[b"site"]);
    let cli = Cli {
        command: TopCommand::Update(UpdateArgs {
            repos: owned(&["site"]),
            source_root: b"/src/".to_vec(),
        }),
    };
    let mut replies = Vec::new();
    let mut last = String::new();
    loop {
        match execute(&mut Dialogue::new(&replies), &cli) {
            Err(Stop::Waiting(request)) => {
                replies.push(match &request {
                    Request::IsDirectory { .. } => Reply::Flag(true),
                    other => root.answer(other),
                });
                last = command_line(&request);
            }
            result => {
                result.unwrap();
                break;
            }
        }
    }
    assert_eq!(last, "> ok   caddy: active");
}
