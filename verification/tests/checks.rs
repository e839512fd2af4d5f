//! Checks and choices that need no host.
use salyut_admin::cli::require_root;
use salyut_admin::dialogue::Dialogue;
use salyut_admin::request::Reply;
use salyut_admin::services::{all, select};
use salyut_admin::users::{
    password_from_reader, validate_email, validate_ssh_key, validate_username, PASSWORD_ALPHABET,
};

#[test]
fn accepts_script_compatible_usernames() {
    for username in ["a", "_service", "rose-2", "user_name"] {
        validate_username(username).unwrap();
    }
}

#[test]
fn rejects_unsafe_usernames() {
    for username in ["", "Root", "2user", "../root", "a.b", &"a".repeat(33)] {
        assert!(validate_username(username).is_err(), "{username:?}");
    }
}

#[test]
fn validates_email_values_for_xattrs() {
    for email in ["rose@example.com", "rose+recovery@example.net"] {
        validate_email("test", email).unwrap();
    }
    for email in [
        "",
        "rose@example.com\nsecond@example.com",
        "rose\0@example.com",
    ] {
        assert!(validate_email("test", email).is_err(), "{email:?}");
    }
}

#[test]
fn deterministic_password_generation_rejects_out_of_range_bytes() {
    let mut replies: Vec<Reply> = Vec::new();
    for byte in [255, 254, 0, 1, 2, 3] {
        replies.push(Reply::Byte(byte));
    }
    let password = password_from_reader(&mut Dialogue::new(&replies), 4).unwrap();
    assert_eq!(password.len(), 4);
    assert_eq!(password, PASSWORD_ALPHABET[..4].to_owned());
}

#[test]
fn selection_defaults_to_all_and_rejects_unknown_names() {
    assert_eq!(select(&[]).unwrap().len(), all().len());
    assert_eq!(select(&["caddy".to_owned()]).unwrap()[0].name, "caddy");
    assert!(select(&["sshd".to_owned()]).is_err());
}

#[test]
fn only_the_superuser_may_give_commands() {
    assert_eq!(require_root(0), Ok(()));
    match require_root(1000) {
        Err(failure) => assert_eq!(failure.trail, ["salyut-admin must run as root"]),
        Ok(()) => panic!(),
    }
}

#[test]
fn refused_names_are_told() {
    assert_eq!(validate_username("").unwrap_err().trail, ["username is empty"]);
    for username in ["a b", "\u{e9}a", "a\u{e9}", "-a", "a:b", "1", "aB", "a\n"] {
        assert_eq!(
            validate_username(username).unwrap_err().trail,
            [format!("invalid username: {username}")]
        );
    }
    validate_username(&"a".repeat(32)).unwrap();
}

#[test]
fn keys_are_one_line_with_something_on_it() {
    validate_ssh_key(" ssh-ed25519 AAAA rose@example ").unwrap();
    for key in ["", "  ", "\n", "\u{a0}"] {
        assert_eq!(validate_ssh_key(key).unwrap_err().trail, ["SSH public key is empty"]);
    }
    for key in ["a\n", "a\rb", "\0"] {
        assert_eq!(validate_ssh_key(key).unwrap_err().trail, ["SSH public key must be one line"]);
    }
}

#[test]
fn refused_addresses_are_told_under_their_label() {
    assert_eq!(
        validate_email("signup", "").unwrap_err().trail,
        ["signup email address is empty"]
    );
    assert_eq!(
        validate_email("recovery", "a\rb").unwrap_err().trail,
        ["recovery email address must be one line"]
    );
    validate_email("signup", " ").unwrap();
}
