//! What the names of accounts and of repositories can and cannot do.
use vstd::prelude::*;

use crate::laws::passwords;
use crate::laws::scope;
use crate::path;
use crate::provision;
use crate::repositories;
use crate::text;
use crate::users;

verus! {

/// A valid user name is the name of one entry of a directory, which is where the
/// home directory, the site and the profiles stand. No program takes it for an
/// option, and it has no letter with a meaning of its own in a path, a line or
/// the input of `chpasswd`.
pub proof fn valid_usernames_are_plain(username: Seq<char>)
    requires
        users::valid_username(username),
    ensures
        repositories::plain_name(username),
        username[0] != '-',
        forall|i: int|
            0 <= i < username.len() ==> {
                let letter = #[trigger] username[i];
                letter != '/' && letter != ':' && letter != '.' && letter != ' ' && letter != '\n'
                    && letter != '\0'
            },
        provision::home_of(username) == "/home/"@ + username,
        provision::site_of(username) == "/srv/user_sites/"@ + username,
        provision::profiles_of(username) == "/srv/user_profiles/"@ + username,
{
    reveal_strlit(".");
    reveal_strlit("..");
    reveal_strlit("/home");
    reveal_strlit("/home/");
    reveal_strlit("/srv/user_sites");
    reveal_strlit("/srv/user_sites/");
    reveal_strlit("/srv/user_profiles");
    reveal_strlit("/srv/user_profiles/");
    assert forall|i: int| 0 <= i < username.len() implies {
        let letter = #[trigger] username[i];
        letter != '/' && letter != ':' && letter != '.' && letter != ' ' && letter != '\n' && letter
            != '\0'
    } by {
        if i > 0 {
            assert(users::continues_username(username[i]));
        }
    }
    assert(provision::home_of(username) =~= "/home/"@ + username);
    assert(provision::site_of(username) =~= "/srv/user_sites/"@ + username);
    assert(provision::profiles_of(username) =~= "/srv/user_profiles/"@ + username);
}

/// What `chpasswd` is told of a valid user name and a generated password is one
/// record: the first colon of the line ends the name, and the line ends with the
/// password.
pub proof fn passwords_are_handed_over_unambiguously(
    username: Seq<char>,
    password: Seq<char>,
    length: nat,
)
    requires
        users::valid_username(username),
        passwords::is_password(length, password),
    ensures
        ({
            let line = username + ":"@ + password + "\n"@;
            &&& forall|i: int|
                0 <= i < line.len() ==> (#[trigger] line[i] == ':' <==> i == username.len())
            &&& forall|i: int|
                0 <= i < line.len() ==> (#[trigger] line[i] == '\n' <==> i == line.len() - 1)
        }),
{
    reveal_strlit(":");
    reveal_strlit("\n");
    valid_usernames_are_plain(username);
    let line = username + ":"@ + password + "\n"@;
    assert forall|i: int| 0 <= i < line.len() implies (#[trigger] line[i] == ':' <==> i
        == username.len()) && (line[i] == '\n' <==> i == line.len() - 1) by {
        if i < username.len() {
            assert(line[i] == username[i]);
        } else if username.len() < i < line.len() - 1 {
            assert(line[i] == password[i - username.len() - 1]);
            assert(passwords::is_clear(password[i - username.len() - 1]));
        }
    }
}

/// Whether a path leads to an account below one of the directories of accounts:
/// to the account itself, or further down.
spec fn leads_to(path: Seq<char>, directory: Seq<char>, username: Seq<char>) -> bool {
    let start = directory + username;
    &&& start.is_prefix_of(path)
    &&& path.len() > start.len() ==> path[start.len() as int] == '/'
}

proof fn further_down(base: Seq<char>, name: Seq<char>, directory: Seq<char>, username: Seq<char>)
    requires
        leads_to(base, directory, username),
        name.len() > 0 && name[0] != '/',
        base.len() > 0 && base.last() != '/',
    ensures
        leads_to(path::below(base, name), directory, username),
        path::below(base, name).last() == name.last(),
{
    let start = directory + username;
    let path = path::below(base, name);
    assert(path =~= base.push('/') + name);
    assert(start =~= path.subrange(0, start.len() as int));
}

proof fn belongings_lead_to_the_account(path: Seq<char>, username: Seq<char>)
    requires
        users::valid_username(username),
        scope::belongs(path, username),
    ensures
        leads_to(path, "/home/"@, username) || leads_to(path, "/srv/user_sites/"@, username)
            || leads_to(path, "/srv/user_profiles/"@, username),
{
    reveal_strlit(".ssh");
    reveal_strlit("authorized_keys");
    reveal_strlit("index.html");
    reveal_strlit("public_html");
    reveal_strlit(".plan");
    reveal_strlit(".project");
    valid_usernames_are_plain(username);
    let home = provision::home_of(username);
    let site = provision::site_of(username);
    let profiles = provision::profiles_of(username);
    assert(home.last() == username.last() && site.last() == username.last() && profiles.last()
        == username.last());
    assert(leads_to(home, "/home/"@, username)) by {
        assert(home =~= home.subrange(0, home.len() as int));
    }
    assert(leads_to(site, "/srv/user_sites/"@, username)) by {
        assert(site =~= site.subrange(0, site.len() as int));
    }
    assert(leads_to(profiles, "/srv/user_profiles/"@, username)) by {
        assert(profiles =~= profiles.subrange(0, profiles.len() as int));
    }
    further_down(home, ".ssh"@, "/home/"@, username);
    further_down(path::below(home, ".ssh"@), "authorized_keys"@, "/home/"@, username);
    further_down(home, "public_html"@, "/home/"@, username);
    further_down(home, ".plan"@, "/home/"@, username);
    further_down(home, ".project"@, "/home/"@, username);
    further_down(site, "index.html"@, "/srv/user_sites/"@, username);
    further_down(profiles, ".plan"@, "/srv/user_profiles/"@, username);
    further_down(profiles, ".project"@, "/srv/user_profiles/"@, username);
}

proof fn one_directory_leads_to_one_account(
    path: Seq<char>,
    directory: Seq<char>,
    one: Seq<char>,
    other: Seq<char>,
)
    requires
        users::valid_username(one),
        users::valid_username(other),
        leads_to(path, directory, one),
        leads_to(path, directory, other),
    ensures
        one == other,
{
    valid_usernames_are_plain(one);
    valid_usernames_are_plain(other);
    let offset = directory.len() as int;
    assert forall|i: int| 0 <= i < one.len() implies path[offset + i] == #[trigger] one[i] by {
        assert((directory + one)[offset + i] == path.subrange(
            0,
            (directory + one).len() as int,
        )[offset + i]);
    }
    assert forall|i: int| 0 <= i < other.len() implies path[offset + i] == #[trigger] other[i] by {
        assert((directory + other)[offset + i] == path.subrange(
            0,
            (directory + other).len() as int,
        )[offset + i]);
    }
    if one.len() < other.len() {
        assert(other[one.len() as int] == path[offset + one.len()]);
    } else if other.len() < one.len() {
        assert(one[other.len() as int] == path[offset + other.len()]);
    }
    assert(one =~= other);
}

proof fn begins_with(path: Seq<char>, directory: Seq<char>, username: Seq<char>, i: int)
    requires
        leads_to(path, directory, username),
        0 <= i < directory.len(),
    ensures
        path[i] == directory[i],
{
    assert((directory + username)[i] == path.subrange(0, (directory + username).len() as int)[i]);
}

/// Nothing belongs to two accounts: what is done to the belongings of one
/// account is done to those of no other.
pub proof fn accounts_share_nothing(path: Seq<char>, one: Seq<char>, other: Seq<char>)
    requires
        users::valid_username(one),
        users::valid_username(other),
        one != other,
        scope::belongs(path, one),
    ensures
        !scope::belongs(path, other),
        path != provision::PROFILE_ROOT@,
{
    let home = "/home/"@;
    let sites = "/srv/user_sites/"@;
    let profiles = "/srv/user_profiles/"@;
    reveal_strlit("/home/");
    reveal_strlit("/srv/user_sites/");
    reveal_strlit("/srv/user_profiles/");
    reveal_strlit("/srv/user_profiles");
    belongings_lead_to_the_account(path, one);
    assert(path != provision::PROFILE_ROOT@) by {
        if leads_to(path, home, one) {
            begins_with(path, home, one, 1);
        } else if leads_to(path, sites, one) {
            begins_with(path, sites, one, 10);
        }
    }
    if scope::belongs(path, other) {
        belongings_lead_to_the_account(path, other);
        let first = if leads_to(path, home, one) {
            home
        } else if leads_to(path, sites, one) {
            sites
        } else {
            profiles
        };
        let second = if leads_to(path, home, other) {
            home
        } else if leads_to(path, sites, other) {
            sites
        } else {
            profiles
        };
        begins_with(path, first, one, 1);
        begins_with(path, second, other, 1);
        if first != home && second != home {
            begins_with(path, first, one, 10);
            begins_with(path, second, other, 10);
        }
        one_directory_leads_to_one_account(path, first, one, other);
    }
}

proof fn scalar_bytes(scalar: u32)
    requires
        vstd::utf8::is_scalar(scalar),
    ensures
        forall|i: int|
            0 <= i < vstd::utf8::encode_scalar(scalar).len() ==> {
                let byte = #[trigger] vstd::utf8::encode_scalar(scalar)[i];
                byte >= 0x80u8 || byte == scalar
            },
{
    assert(scalar <= 0x7f ==> (scalar & 0x7f) as u8 == scalar) by (bit_vector);
    assert(0xc0 | ((scalar >> 6) & 0x1f) as u8 >= 0x80u8) by (bit_vector);
    assert(0xe0 | ((scalar >> 12) & 0x0f) as u8 >= 0x80u8) by (bit_vector);
    assert(0xf0 | ((scalar >> 18) & 0x7) as u8 >= 0x80u8) by (bit_vector);
    assert(0x80 | (scalar & 0x3f) as u8 >= 0x80u8) by (bit_vector);
    assert(0x80 | ((scalar >> 6) & 0x3f) as u8 >= 0x80u8) by (bit_vector);
    assert(0x80 | ((scalar >> 12) & 0x3f) as u8 >= 0x80u8) by (bit_vector);
}

proof fn letter_is_its_code(letter: char)
    ensures
        letter as u32 == letter as int,
{
}

proof fn plain_bytes(name: Seq<char>)
    requires
        forall|i: int| 0 <= i < name.len() ==> name[i] != '/' && name[i] != '\0',
    ensures
        forall|i: int|
            0 <= i < vstd::utf8::encode_utf8(name).len() ==> #[trigger] vstd::utf8::encode_utf8(
                name,
            )[i] != 0x2fu8 && vstd::utf8::encode_utf8(name)[i] != 0u8,
    decreases name.len(),
{
    if name.len() > 0 {
        let rest = name.drop_first();
        let letter = name[0];
        vstd::utf8::char_is_scalar(letter);
        scalar_bytes(letter as u32);
        assert forall|i: int| 0 <= i < rest.len() implies rest[i] != '/' && rest[i] != '\0' by {
            assert(rest[i] == name[i + 1]);
        }
        plain_bytes(rest);
        let first = vstd::utf8::encode_scalar(letter as u32);
        let bytes = vstd::utf8::encode_utf8(name);
        letter_is_its_code(letter);
        assert forall|i: int| 0 <= i < bytes.len() implies #[trigger] bytes[i] != 0x2fu8 && bytes[i]
            != 0u8 by {
            if i < first.len() {
                assert(bytes[i] == first[i]);
            } else {
                assert(bytes[i] == vstd::utf8::encode_utf8(rest)[i - first.len()]);
            }
        }
    }
}

/// The path of a named repository is that of one entry of the source root, and
/// of nothing above or below: the name adds no separator, and it is neither the
/// root itself nor what the root stands in.
pub proof fn named_repositories_stand_in_the_root(root: Seq<u8>, name: Seq<char>)
    requires
        repositories::plain_name(name),
    ensures
        ({
            let entry = vstd::utf8::encode_utf8(name);
            &&& path::below_raw(root, entry) == if root.len() == 0 || root.last() == 0x2fu8 {
                root + entry
            } else {
                root.push(0x2fu8) + entry
            }
            &&& entry.len() > 0
            &&& entry != vstd::utf8::encode_utf8("."@)
            &&& entry != vstd::utf8::encode_utf8(".."@)
            &&& !entry.contains(0x2fu8)
            &&& !entry.contains(0u8)
        }),
{
    let entry = vstd::utf8::encode_utf8(name);
    plain_bytes(name);
    vstd::utf8::encode_utf8_decode_utf8(name);
    vstd::utf8::encode_utf8_decode_utf8("."@);
    vstd::utf8::encode_utf8_decode_utf8(".."@);
    vstd::utf8::encode_utf8_decode_utf8(seq![]);
    assert(vstd::utf8::encode_utf8(seq![]) =~= seq![]);
    if entry.len() == 0 {
        assert(entry =~= seq![]);
    }
}

/// Whether a letter is a small letter of the Latin alphabet.
pub open spec fn is_small(letter: char) -> bool {
    0x61 <= letter as int <= 0x7a
}

/// Whether a letter is a decimal digit.
pub open spec fn is_digit(letter: char) -> bool {
    0x30 <= letter as int <= 0x39
}

/// A user name is refused if and only if it is empty, is longer than thirty-two
/// letters, does not begin with a small letter or an underscore, or goes on with
/// anything but small letters, digits, underscores and hyphens; and it is told.
pub proof fn usernames_are_judged_letter_by_letter(username: Seq<char>)
    ensures
        users::username_fault(username) == if username.len() == 0 {
            Some("username is empty"@)
        } else if username.len() <= 32 && (is_small(username[0]) || username[0] == '_') && (forall|
            i: int,
        |
            1 <= i < username.len() ==> is_small(#[trigger] username[i]) || is_digit(username[i])
                || username[i] == '_' || username[i] == '-') {
            None
        } else {
            Some("invalid username: "@ + username)
        },
{
    if username.len() > 0 && users::valid_username(username) {
        assert forall|i: int| 1 <= i < username.len() implies is_small(#[trigger] username[i])
            || is_digit(username[i]) || username[i] == '_' || username[i] == '-' by {
            assert(users::continues_username(username[i]));
        }
    }
}

/// What remains of a user name is one, as long as its first letter remains.
pub proof fn shorter_usernames_are_usernames(username: Seq<char>, length: int)
    requires
        users::username_fault(username) is None,
        0 < length <= username.len(),
    ensures
        users::username_fault(username.take(length)) is None,
{
    let shorter = username.take(length);
    assert(users::valid_username(username));
    assert forall|i: int| 1 <= i < shorter.len() implies users::continues_username(
        #[trigger] shorter[i],
    ) by {
        assert(shorter[i] == username[i]);
    }
}

/// Whether a letter breaks a line or ends a text.
pub open spec fn breaks_line(letter: char) -> bool {
    letter as int == 0x0a || letter as int == 0x0d || letter as int == 0
}

/// Whether a letter is white space.
pub open spec fn is_space(letter: char) -> bool {
    let code = letter as int;
    ||| code == 0x09 || code == 0x0a || code == 0x0b || code == 0x0c || code == 0x0d
    ||| code == 0x20 || code == 0x85 || code == 0xa0 || code == 0x1680
    ||| 0x2000 <= code <= 0x200a
    ||| code == 0x2028 || code == 0x2029 || code == 0x202f || code == 0x205f || code == 0x3000
}

proof fn space_is_white(letter: char)
    ensures
        text::white_space(letter) <==> is_space(letter),
{
    letter_is_its_code(letter);
}

/// A public key is refused if and only if it is nothing but white space, or has a
/// letter that breaks a line; and which of the two it is is told.
pub proof fn keys_are_judged_letter_by_letter(key: Seq<char>)
    ensures
        users::ssh_key_fault(key) == if forall|i: int|
            0 <= i < key.len() ==> is_space(#[trigger] key[i]) {
            Some("SSH public key is empty"@)
        } else if exists|i: int| 0 <= i < key.len() && breaks_line(#[trigger] key[i]) {
            Some("SSH public key must be one line"@)
        } else {
            None
        },
{
    if text::blank(key) {
        assert forall|i: int| 0 <= i < key.len() implies is_space(#[trigger] key[i]) by {
            assert(text::white_space(key[i]));
            space_is_white(key[i]);
        }
    }
    if forall|i: int| 0 <= i < key.len() ==> is_space(#[trigger] key[i]) {
        assert forall|i: int| 0 <= i < key.len() implies text::white_space(#[trigger] key[i]) by {
            space_is_white(key[i]);
        }
    }
    lines_are_broken(key);
}

proof fn lines_are_broken(text: Seq<char>)
    ensures
        text::one_line(text) <==> !exists|i: int| 0 <= i < text.len() && breaks_line(
            #[trigger] text[i],
        ),
{
    assert forall|i: int| 0 <= i < text.len() implies (breaks_line(#[trigger] text[i]) <==> text[i]
        == '\n' || text[i] == '\r' || text[i] == '\0') by {}
    if text::one_line(text) {
        if exists|i: int| 0 <= i < text.len() && breaks_line(#[trigger] text[i]) {
            let i = choose|i: int| 0 <= i < text.len() && breaks_line(#[trigger] text[i]);
            assert(text[i] != '\n');
        }
    } else {
        let i = choose|i: int|
            0 <= i < text.len() && !(text[i] != '\n' && text[i] != '\r' && text[i] != '\0');
        assert(breaks_line(text[i]));
    }
}

/// An email address is refused if and only if it is empty, or has a letter that breaks
/// a line; and which of the two it is is told under its label.
pub proof fn addresses_are_judged_letter_by_letter(label: Seq<char>, email: Seq<char>)
    ensures
        users::email_fault(label, email) == if email.len() == 0 {
            Some(label + " email address is empty"@)
        } else if exists|i: int| 0 <= i < email.len() && breaks_line(#[trigger] email[i]) {
            Some(label + " email address must be one line"@)
        } else {
            None
        },
{
    lines_are_broken(email);
}

/// An addition is refused for the first fault: of its name, else of its key, else of
/// its signup address, else of its recovery address.
pub proof fn the_first_fault_is_told(
    username: Seq<char>,
    ssh_key: Seq<char>,
    signup_email: Seq<char>,
    recovery_email: Seq<char>,
)
    ensures
        ({
            let faults = seq![
                users::username_fault(username),
                users::ssh_key_fault(ssh_key),
                users::email_fault("signup"@, signup_email),
                users::email_fault("recovery"@, recovery_email),
            ];
            match users::add_fault(username, ssh_key, signup_email, recovery_email) {
                Some(fault) => exists|i: int|
                    0 <= i < 4 && #[trigger] faults[i] == Some(fault) && forall|j: int|
                        0 <= j < i ==> (#[trigger] faults[j]) is None,
                None => forall|i: int| 0 <= i < 4 ==> (#[trigger] faults[i]) is None,
            }
        }),
{
    let faults = seq![
        users::username_fault(username),
        users::ssh_key_fault(ssh_key),
        users::email_fault("signup"@, signup_email),
        users::email_fault("recovery"@, recovery_email),
    ];
    if let Some(fault) = users::add_fault(username, ssh_key, signup_email, recovery_email) {
        if faults[0] is Some {
            assert(faults[0] == Some(fault));
        } else if faults[1] is Some {
            assert(faults[1] == Some(fault));
        } else if faults[2] is Some {
            assert(faults[2] == Some(fault));
        } else {
            assert(faults[3] == Some(fault));
        }
    }
}

} // verus!
