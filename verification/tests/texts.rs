//! Texts, paths, failures and the dialogue itself.
use salyut_admin::dialogue::{Dialogue, Stop};
use salyut_admin::failure::Failure;
use salyut_admin::path::{copy_bytes, join, join_raw, same_path, sort};
use salyut_admin::process::{exited_with, run};
use salyut_admin::request::{FileKind, Reply, Request, Word};
use salyut_admin::text::{
    chars_of, first_line, is_blank, is_one_line, is_white_space, octal, same_text, starts_with,
};

#[test]
fn white_space_is_what_unicode_says() {
    for code in 0..=0x10ffff {
        if let Some(letter) = char::from_u32(code) {
            assert_eq!(is_white_space(letter), letter.is_whitespace(), "{code:x}");
        }
    }
}

#[test]
fn blank_texts_have_nothing_but_white_space() {
    for text in ["", " ", "\t\n\r", "\u{3000}\u{85}"] {
        assert!(is_blank(text), "{text:?}");
        assert!(text.trim().is_empty());
    }
    for text in ["a", " a ", "\0", "\u{200b}"] {
        assert!(!is_blank(text), "{text:?}");
        assert!(!text.trim().is_empty());
    }
}

#[test]
fn lines_end_with_line_feeds_and_carriage_returns() {
    for text in ["a\n", "\r", "\0", "a\0b"] {
        assert!(!is_one_line(text), "{text:?}");
    }
    for text in ["", "a b", "\u{2028}", "\u{b}"] {
        assert!(is_one_line(text), "{text:?}");
    }
}

#[test]
fn first_lines_are_those_of_the_standard_library() {
    for text in [
        "", "\n", "a", "a\n", "a\nb", "a\r\n", "a\r\nb", "a\r", "a\rb\n", "\r\n", "\r\r\nx", "\n\n",
        "\u{e9}\r\n\u{e8}",
    ] {
        assert_eq!(first_line(text), text.lines().next().unwrap_or_default(), "{text:?}");
    }
}

#[test]
fn octal_numbers_have_at_least_four_digits() {
    for number in [0, 7, 8, 0o600, 0o700, 0o2755, 0o7777, 0o12345, u32::MAX] {
        assert_eq!(octal(number), format!("{number:04o}"));
    }
    assert_eq!(octal(0o2755), "2755");
    assert_eq!(octal(0o64), "0064");
}

#[test]
fn texts_are_compared_letter_by_letter() {
    assert!(same_text("caddy", "caddy"));
    assert!(!same_text("caddy", "Caddy"));
    assert!(starts_with("HTTP/1.1 200 OK", "HTTP/1.1 200 "));
    assert!(starts_with("a", ""));
    assert!(!starts_with("HTTP", "HTTP/1.1"));
    assert_eq!(chars_of("a\u{e9}\u{1f600}"), ['a', '\u{e9}', '\u{1f600}']);
}

#[test]
fn paths_are_joined_as_the_standard_library_joins_them() {
    for base in ["", "/", "/home", "/home/", "a/b"] {
        for name in ["", "rose", "/etc", ".ssh", "a/b", "r\u{f3}sa"] {
            let expected = std::path::Path::new(base).join(name);
            let expected = expected.to_str().unwrap();
            assert_eq!(join(base, name), expected);
            assert_eq!(
                join_raw(&base.as_bytes().to_vec(), name.as_bytes()),
                expected.as_bytes()
            );
        }
    }
    assert_eq!(join("/home", "rose"), "/home/rose");
}

#[test]
fn paths_are_the_same_where_the_standard_library_says_so() {
    let paths = [
        "", ".", "..", "/", "//", "/.", "a", "./a", "a/", "a/.", "a//b", "a/b", "a/./b", "a/../b",
        "/a", "/a/b", "//a", "/./a", ".a", "./", "././a", "a/b/", "b",
    ];
    for left in paths {
        for right in paths {
            assert_eq!(
                same_path(left.as_bytes(), right.as_bytes()),
                std::path::Path::new(left) == std::path::Path::new(right),
                "{left:?} {right:?}"
            );
        }
    }
    assert!(same_path(b"/\xff/a", b"//\xff/./a/"));
    assert!(!same_path(b"/\xff", b"/\xfe"));
}

#[test]
fn paths_are_sorted_by_their_bytes() {
    let paths: Vec<Vec<u8>> = vec![
        b"b".to_vec(),
        b"".to_vec(),
        b"ab".to_vec(),
        b"a".to_vec(),
        b"b".to_vec(),
        b"\xff".to_vec(),
        b"a\x00".to_vec(),
    ];
    let mut expected = paths.clone();
    expected.sort();
    assert_eq!(sort(paths), expected);
    assert_eq!(sort(Vec::new()), Vec::<Vec<u8>>::new());
    assert_eq!(copy_bytes(b"\x00\xff"), vec![0, 0xff]);
}

#[test]
fn failures_lead_from_the_message_to_the_root_cause() {
    let failure = Failure::because("open home".to_owned(), "denied".to_owned())
        .context("repair".to_owned());
    assert_eq!(failure.trail, ["repair", "open home", "denied"]);
    assert_eq!(failure.one_line(), "repair: open home: denied");
    assert_eq!(Failure::new("alone".to_owned()).one_line(), "alone");
}

#[test]
fn programs_must_succeed() {
    let arguments = || vec![Word::Text("-x".to_owned())];
    let none = Vec::new();
    assert_eq!(
        run(&mut Dialogue::new(&none), "tool", arguments()),
        Err(Stop::Waiting(Request::Run { program: "tool".to_owned(), arguments: arguments() }))
    );
    let outcome = |reply: Reply| match run(&mut Dialogue::new(&vec![reply]), "tool", Vec::new()) {
        Err(Stop::Failed(failure)) => failure.one_line(),
        other => format!("{other:?}"),
    };
    let exited =
        |code: Option<i32>, status: &str| Reply::Exited { code, status: status.to_owned() };
    assert_eq!(outcome(exited(Some(0), "exit status: 0")), "Ok(())");
    assert_eq!(outcome(exited(Some(1), "exit status: 1")), "tool failed with exit status: 1");
    assert_eq!(
        outcome(exited(None, "signal: 15 (SIGTERM)")),
        "tool failed with signal: 15 (SIGTERM)"
    );
    let missing = Reply::Error { not_found: true, cause: "No such file".to_owned() };
    assert_eq!(outcome(missing), "run tool: No such file");
    assert_eq!(outcome(Reply::Done), "Err(Garbled)");
    assert!(exited_with(&Some(2), 2) && !exited_with(&Some(2), 0) && !exited_with(&None, 0));
}

#[test]
fn a_dialogue_hands_out_its_replies_in_order() {
    let replies = vec![Reply::Flag(true), Reply::Done];
    let mut dialogue = Dialogue::new(&replies);
    assert_eq!(dialogue.question(Request::HasInput), Ok(true));
    assert_eq!(dialogue.print("line".to_owned()), Ok(()));
    assert_eq!(
        dialogue.print_error("more".to_owned()),
        Err(Stop::Waiting(Request::PrintError { line: "more".to_owned() }))
    );
    assert_eq!(dialogue.ask(Request::Wait), Err(Stop::Waiting(Request::Wait)));
    let replies = vec![Reply::Kind(FileKind::Other)];
    let mut dialogue = Dialogue::new(&replies);
    assert_eq!(
        dialogue.expect_kind(FileKind::Regular, "no file".to_owned()),
        Err(Stop::refuse("no file".to_owned()))
    );
    let replies = vec![Reply::Error { not_found: false, cause: "denied".to_owned() }];
    let mut dialogue = Dialogue::new(&replies);
    assert_eq!(
        dialogue.perform(Request::Wait, "wait".to_owned()),
        Err(Stop::fail("wait".to_owned(), &"denied".to_owned()))
    );
}
