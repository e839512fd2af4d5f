//! What a sound account consists of, and that setting one up or repairing it
//! leaves none of that out.
use vstd::prelude::*;

use crate::laws::accounts;
use crate::laws::causality;
use crate::laws::conversation;
use crate::laws::passwords;
use crate::path;
use crate::process;
use crate::provision;
use crate::request::{FileKind, ReplyView, RequestView, WordView};
use crate::script::{Ending, Progress, Script};
use crate::users;

verus! {

broadcast use {crate::script::group_causal, conversation::first_of_some};

pub(crate) proof fn directory_done<T>(
    whole: Script<T>,
    all: Seq<ReplyView>,
    offset: int,
    path: Seq<char>,
    mode: u32,
    owner: Seq<char>,
    group: Seq<char>,
    replies: Seq<ReplyView>,
    rest: Seq<ReplyView>,
)
    requires
        conversation::goes_on_as(
            whole,
            all,
            offset,
            provision::ensure_directory_script(path, mode, owner, group),
            replies,
        ),
        provision::ensure_directory_script(path, mode, owner, group).play(replies)
            == Progress::<()>::Ended(Ending::Value(()), rest),
    ensures
        conversation::directory_seen_to(
            whole,
            all,
            offset,
            offset + conversation::used(replies, rest),
            path,
            mode,
            owner + ":"@ + group,
        ),
{
    let script = provision::ensure_directory_script(path, mode, owner, group);
    let exists = RequestView::Exists { place: WordView::Text(path) };
    let create = RequestView::CreateDirectories { path };
    let open = RequestView::OpenDirectory { path };
    let kind = RequestView::OpenKind;
    let chmod = RequestView::SetMode { mode };
    let chown = conversation::gives(path, owner + ":"@ + group);
    let there = replies.len() > 0 && replies[0] == ReplyView::Flag(true);
    let at: int = if there {
        1
    } else {
        2
    };
    assert(conversation::directory_seen_to(
        script,
        replies,
        0,
        conversation::used(replies, rest),
        path,
        mode,
        owner + ":"@ + group,
    )) by {
        reveal(provision::ensure_directory_script);
    }
    conversation::asks_as_part(whole, all, offset, script, replies, 0, exists);
    if !there {
        conversation::asks_as_part(whole, all, offset, script, replies, 1, create);
    }
    conversation::asks_as_part(whole, all, offset, script, replies, at, open);
    conversation::asks_as_part(whole, all, offset, script, replies, at + 1, kind);
    conversation::asks_as_part(whole, all, offset, script, replies, at + 2, chmod);
    conversation::asks_as_part(whole, all, offset, script, replies, at + 3, chown);
}

pub(crate) proof fn file_done<T>(
    whole: Script<T>,
    all: Seq<ReplyView>,
    offset: int,
    path: Seq<char>,
    mode: u32,
    owner: Seq<char>,
    group: Seq<char>,
    replies: Seq<ReplyView>,
    created: bool,
    rest: Seq<ReplyView>,
)
    requires
        conversation::goes_on_as(
            whole,
            all,
            offset,
            provision::ensure_file_script(path, mode, owner, group),
            replies,
        ),
        provision::ensure_file_script(path, mode, owner, group).play(replies)
            == Progress::<bool>::Ended(Ending::Value(created), rest),
    ensures
        conversation::file_seen_to(
            whole,
            all,
            offset,
            offset + conversation::used(replies, rest),
            path,
            mode,
            owner + ":"@ + group,
            created,
        ),
{
    let script = provision::ensure_file_script(path, mode, owner, group);
    let open = RequestView::OpenFile { path };
    let create = RequestView::CreateFile { path };
    let kind = RequestView::OpenKind;
    let chmod = RequestView::SetMode { mode };
    let chown = conversation::gives(path, owner + ":"@ + group);
    let at: int = if created {
        2
    } else {
        1
    };
    assert(conversation::file_seen_to(
        script,
        replies,
        0,
        conversation::used(replies, rest),
        path,
        mode,
        owner + ":"@ + group,
        created,
    ));
    conversation::asks_as_part(whole, all, offset, script, replies, 0, open);
    if created {
        conversation::asks_as_part(whole, all, offset, script, replies, 1, create);
    }
    conversation::asks_as_part(whole, all, offset, script, replies, at, kind);
    conversation::asks_as_part(whole, all, offset, script, replies, at + 1, chmod);
    conversation::asks_as_part(whole, all, offset, script, replies, at + 2, chown);
}

pub(crate) proof fn writing_done<T>(
    whole: Script<T>,
    all: Seq<ReplyView>,
    offset: int,
    path: Seq<char>,
    text: Seq<char>,
    replies: Seq<ReplyView>,
    rest: Seq<ReplyView>,
)
    requires
        conversation::goes_on_as(
            whole,
            all,
            offset,
            provision::write_file_script(path, text),
            replies,
        ),
        provision::write_file_script(path, text).play(replies) == Progress::<()>::Ended(
            Ending::Value(()),
            rest,
        ),
    ensures
        conversation::file_written(whole, all, offset, path, text),
        conversation::used(replies, rest) == 2,
{
    let script = provision::write_file_script(path, text);
    let open = RequestView::OpenEmptied { path };
    let write = RequestView::WriteContents { text };
    assert(conversation::file_written(script, replies, 0, path, text));
    conversation::asks_as_part(whole, all, offset, script, replies, 0, open);
    conversation::asks_as_part(whole, all, offset, script, replies, 1, write);
}

pub(crate) proof fn link_done<T>(
    whole: Script<T>,
    all: Seq<ReplyView>,
    offset: int,
    link: Seq<char>,
    target: Seq<char>,
    owner: Seq<char>,
    group: Seq<char>,
    replies: Seq<ReplyView>,
    rest: Seq<ReplyView>,
)
    requires
        conversation::goes_on_as(
            whole,
            all,
            offset,
            provision::ensure_symlink_script(link, target, owner, group),
            replies,
        ),
        provision::ensure_symlink_script(link, target, owner, group).play(replies)
            == Progress::<()>::Ended(Ending::Value(()), rest),
    ensures
        conversation::link_seen_to(
            whole,
            all,
            offset,
            offset + conversation::used(replies, rest),
            link,
            target,
            owner + ":"@ + group,
        ),
{
    let script = provision::ensure_symlink_script(link, target, owner, group);
    let read = RequestView::ReadLink { path: link };
    let create = RequestView::CreateLink { link, target };
    let chown = conversation::gives(link, owner + ":"@ + group);
    assert(conversation::link_seen_to(
        script,
        replies,
        0,
        conversation::used(replies, rest),
        link,
        target,
        owner + ":"@ + group,
    ));
    conversation::asks_as_part(whole, all, offset, script, replies, 0, read);
    if replies[0] is Bytes {
        conversation::asks_as_part(whole, all, offset, script, replies, 1, chown);
    } else {
        conversation::asks_as_part(whole, all, offset, script, replies, 1, create);
        conversation::asks_as_part(whole, all, offset, script, replies, 2, chown);
    }
}

/// Whether a name is that of one entry of a directory.
pub open spec fn one_entry(username: Seq<char>) -> bool {
    username.len() > 0 && forall|i: int| 0 <= i < username.len() ==> #[trigger] username[i] != '/'
}

pub(crate) proof fn valid_is_one_entry(username: Seq<char>)
    requires
        users::valid_username(username),
    ensures
        one_entry(username),
{
    assert forall|i: int| 0 <= i < username.len() implies #[trigger] username[i] != '/' by {
        if i > 0 {
            assert(users::continues_username(username[i]));
        }
    }
}

pub(crate) proof fn places(username: Seq<char>)
    requires
        one_entry(username),
    ensures
        provision::home_of(username) == "/home/"@ + username,
        path::below("/home/"@ + username, ".ssh"@) == "/home/"@ + username + "/.ssh"@,
        provision::keys_of(username) == "/home/"@ + username + "/.ssh/authorized_keys"@,
        path::below("/home/"@ + username, "public_html"@) == "/home/"@ + username
            + "/public_html"@,
        path::below("/home/"@ + username, ".plan"@) == "/home/"@ + username + "/.plan"@,
        path::below("/home/"@ + username, ".project"@) == "/home/"@ + username + "/.project"@,
        provision::site_of(username) == "/srv/user_sites/"@ + username,
        path::below("/srv/user_sites/"@ + username, "index.html"@) == "/srv/user_sites/"@ + username
            + "/index.html"@,
        provision::PROFILE_ROOT@ == "/srv/user_profiles"@,
        provision::profiles_of(username) == "/srv/user_profiles/"@ + username,
        path::below("/srv/user_profiles/"@ + username, ".plan"@) == "/srv/user_profiles/"@
            + username + "/.plan"@,
        path::below("/srv/user_profiles/"@ + username, ".project"@) == "/srv/user_profiles/"@
            + username + "/.project"@,
        username + ":"@ + provision::PROFILE_GROUP@ == username + ":salyut-bbs"@,
        "root"@ + ":"@ + "root"@ == "root:root"@,
{
    reveal_strlit("/home");
    reveal_strlit("/home/");
    reveal_strlit("/srv/user_sites");
    reveal_strlit("/srv/user_sites/");
    reveal_strlit("/srv/user_profiles");
    reveal_strlit("/srv/user_profiles/");
    reveal_strlit(".ssh");
    reveal_strlit("/.ssh");
    reveal_strlit("authorized_keys");
    reveal_strlit("/.ssh/authorized_keys");
    reveal_strlit("public_html");
    reveal_strlit("/public_html");
    reveal_strlit("index.html");
    reveal_strlit("/index.html");
    reveal_strlit(".plan");
    reveal_strlit("/.plan");
    reveal_strlit(".project");
    reveal_strlit("/.project");
    reveal_strlit(":");
    reveal_strlit("salyut-bbs");
    reveal_strlit(":salyut-bbs");
    reveal_strlit("root");
    reveal_strlit("root:root");
    let home = "/home/"@ + username;
    let site = "/srv/user_sites/"@ + username;
    let profiles = "/srv/user_profiles/"@ + username;
    assert(provision::home_of(username) =~= home);
    assert(provision::site_of(username) =~= site);
    assert(provision::profiles_of(username) =~= profiles);
    assert(home.last() == username.last());
    assert(site.last() == username.last());
    assert(profiles.last() == username.last());
    assert(path::below(home, ".ssh"@) =~= home + "/.ssh"@);
    assert((home + "/.ssh"@).last() == 'h');
    assert(path::below(home + "/.ssh"@, "authorized_keys"@) =~= home + "/.ssh/authorized_keys"@);
    assert(path::below(home, "public_html"@) =~= home + "/public_html"@);
    assert(path::below(home, ".plan"@) =~= home + "/.plan"@);
    assert(path::below(home, ".project"@) =~= home + "/.project"@);
    assert(path::below(site, "index.html"@) =~= site + "/index.html"@);
    assert(path::below(profiles, ".plan"@) =~= profiles + "/.plan"@);
    assert(path::below(profiles, ".project"@) =~= profiles + "/.project"@);
    assert(username + ":"@ + provision::PROFILE_GROUP@ =~= username + ":salyut-bbs"@);
    assert("root"@ + ":"@ + "root"@ =~= "root:root"@);
}

/// Whether a sound account is what there is between two points: its home directory
/// is one, and its keys, its site with a page, the directory of all profiles, its
/// own profiles and the links to them are all seen to, each with its own permission
/// bits and its own owner; a key that is given is written, the greeting is written
/// where there was no page, and nothing else is asked. `at` is where each part
/// begins.
pub open spec fn account_seen_to<T>(
    script: Script<T>,
    replies: Seq<ReplyView>,
    start: int,
    end: int,
    username: Seq<char>,
    ssh_key: Option<Seq<char>>,
    at: Seq<int>,
) -> bool {
    let home = "/home/"@ + username;
    let keys = home + "/.ssh/authorized_keys"@;
    let site = "/srv/user_sites/"@ + username;
    let page = site + "/index.html"@;
    let profiles = "/srv/user_profiles/"@ + username;
    let plan = profiles + "/.plan"@;
    let project = profiles + "/.project"@;
    let own = username + ":"@ + username;
    let shared = username + ":salyut-bbs"@;
    let new = |i: int| conversation::is_missing(replies[at[i]]);
    &&& at.len() == 14
    &&& conversation::asks_at(script, replies, start, RequestView::LinkKind { path: home })
    &&& replies[start] == ReplyView::Kind(FileKind::Directory)
    &&& at[0] == start + 1
    &&& conversation::directory_seen_to(
        script,
        replies,
        at[0],
        at[1],
        home + "/.ssh"@,
        0o700,
        own,
    )
    &&& conversation::file_seen_to(script, replies, at[1], at[2], keys, 0o600, own, new(1))
    &&& match ssh_key {
        Some(key) => at[3] == at[2] + 2 && conversation::file_written(
            script,
            replies,
            at[2],
            keys,
            key + "\n"@,
        ),
        None => at[3] == at[2],
    }
    &&& conversation::directory_seen_to(script, replies, at[3], at[4], site, 0o2755, own)
    &&& conversation::file_seen_to(script, replies, at[4], at[5], page, 0o755, own, new(4))
    &&& if new(4) {
        at[6] == at[5] + 2 && conversation::file_written(
            script,
            replies,
            at[5],
            page,
            "Hello, World!\n"@,
        )
    } else {
        at[6] == at[5]
    }
    &&& conversation::link_seen_to(
        script,
        replies,
        at[6],
        at[7],
        home + "/public_html"@,
        site,
        own,
    )
    &&& conversation::directory_seen_to(
        script,
        replies,
        at[7],
        at[8],
        "/srv/user_profiles"@,
        0o711,
        "root:root"@,
    )
    &&& conversation::directory_seen_to(script, replies, at[8], at[9], profiles, 0o2750, shared)
    &&& conversation::file_seen_to(script, replies, at[9], at[10], plan, 0o640, shared, new(9))
    &&& conversation::link_seen_to(script, replies, at[10], at[11], home + "/.plan"@, plan, own)
    &&& conversation::file_seen_to(script, replies, at[11], at[12], project, 0o640, shared, new(11))
    &&& conversation::link_seen_to(
        script,
        replies,
        at[12],
        at[13],
        home + "/.project"@,
        project,
        own,
    )
    &&& conversation::asks_at(
        script,
        replies,
        at[13],
        RequestView::Run {
            program: "restorecon"@,
            arguments: seq![WordView::Text("-RF"@), WordView::Text(profiles)],
        },
    )
    &&& conversation::is_success(replies[at[13]])
    &&& end == at[13] + 1
}

proof fn profile_done<T>(
    whole: Script<T>,
    all: Seq<ReplyView>,
    offset: int,
    username: Seq<char>,
    profile: Seq<char>,
    replies: Seq<ReplyView>,
    rest: Seq<ReplyView>,
) -> (at: int)
    requires
        conversation::goes_on_as(
            whole,
            all,
            offset,
            provision::profile_script(username, profile),
            replies,
        ),
        provision::profile_script(username, profile).play(replies) == Progress::<()>::Ended(
            Ending::Value(()),
            rest,
        ),
    ensures
        conversation::file_seen_to(
            whole,
            all,
            offset,
            at,
            path::below(provision::profiles_of(username), profile),
            0o640,
            username + ":"@ + provision::PROFILE_GROUP@,
            conversation::is_missing(all[offset]),
        ),
        conversation::link_seen_to(
            whole,
            all,
            at,
            offset + conversation::used(replies, rest),
            path::below(provision::home_of(username), profile),
            path::below(provision::profiles_of(username), profile),
            username + ":"@ + username,
        ),
{
    broadcast use {causality::group_steps, causality::group_files};

    reveal(provision::profile_script);
    let file = path::below(provision::profiles_of(username), profile);
    let link = path::below(provision::home_of(username), profile);
    let group = provision::PROFILE_GROUP@;
    let first = provision::ensure_file_script(file, 0o640, username, group);
    let second = provision::ensure_symlink_script(link, file, username, username);
    let (created, mid) = conversation::split_and(
        whole,
        all,
        offset,
        first,
        second,
        replies,
        (),
        rest,
    );
    let at = offset + conversation::used(replies, mid);
    file_done(whole, all, offset, file, 0o640, username, group, replies, created, mid);
    link_done(whole, all, at, link, file, username, username, mid, rest);
    at
}

/// What an account that is set up was asked for.
pub(crate) proof fn account_done<T>(
    whole: Script<T>,
    all: Seq<ReplyView>,
    offset: int,
    username: Seq<char>,
    ssh_key: Option<Seq<char>>,
    replies: Seq<ReplyView>,
    rest: Seq<ReplyView>,
) -> (at: Seq<int>)
    requires
        one_entry(username),
        conversation::goes_on_as(
            whole,
            all,
            offset,
            provision::apply_script(username, ssh_key),
            replies,
        ),
        provision::apply_script(username, ssh_key).play(replies) == Progress::<()>::Ended(
            Ending::Value(()),
            rest,
        ),
    ensures
        account_seen_to(
            whole,
            all,
            offset,
            offset + conversation::used(replies, rest),
            username,
            ssh_key,
            at,
        ),
{
    broadcast use {causality::group_steps, causality::group_files};

    places(username);
    let home = provision::home_of(username);
    let ssh = path::below(home, ".ssh"@);
    let keys = provision::keys_of(username);
    let site = provision::site_of(username);
    let page = path::below(site, "index.html"@);
    let html = path::below(home, "public_html"@);
    let root = provision::PROFILE_ROOT@;
    let profiles = provision::profiles_of(username);
    let group = provision::PROFILE_GROUP@;
    let s1 = provision::inspect_home_script(home);
    let s2 = provision::keys_script(username, ssh_key);
    let s3 = provision::site_script(username);
    let s4 = provision::ensure_directory_script(root, 0o711, "root"@, "root"@);
    let s5 = provision::ensure_directory_script(profiles, 0o2750, username, group);
    let s6 = provision::profile_script(username, ".plan"@);
    let s7 = provision::profile_script(username, ".project"@);
    let s8 = process::run_script(
        "restorecon"@,
        seq![WordView::Text("-RF"@), WordView::Text(profiles)],
    );
    assert(provision::apply_script(username, ssh_key) == s1.and(s2).and(s3).and(s4).and(s5).and(
        s6,
    ).and(s7).and(s8)) by {
        reveal(provision::apply_script);
    }
    causality::inspect_home_is_causal(home);
    causality::keys_is_causal(username, ssh_key);
    causality::site_is_causal(username);
    causality::profile_is_causal(username, ".plan"@);
    causality::profile_is_causal(username, ".project"@);
    let a1 = s1;
    let a2 = a1.and(s2);
    let a3 = a2.and(s3);
    let a4 = a3.and(s4);
    let a5 = a4.and(s5);
    let a6 = a5.and(s6);
    let a7 = a6.and(s7);
    let (_, m7) = conversation::split_and(whole, all, offset, a7, s8, replies, (), rest);
    let (_, m6) = conversation::split_and(whole, all, offset, a6, s7, replies, (), m7);
    let (_, m5) = conversation::split_and(whole, all, offset, a5, s6, replies, (), m6);
    let (_, m4) = conversation::split_and(whole, all, offset, a4, s5, replies, (), m5);
    let (_, m3) = conversation::split_and(whole, all, offset, a3, s4, replies, (), m4);
    let (_, m2) = conversation::split_and(whole, all, offset, a2, s3, replies, (), m3);
    let (_, m1) = conversation::split_and(whole, all, offset, a1, s2, replies, (), m2);
    let o1 = offset + conversation::used(replies, m1);
    let o2 = offset + conversation::used(replies, m2);
    let o3 = offset + conversation::used(replies, m3);
    let o4 = offset + conversation::used(replies, m4);
    let o5 = offset + conversation::used(replies, m5);
    let o6 = offset + conversation::used(replies, m6);
    let o7 = offset + conversation::used(replies, m7);
    assert(conversation::asks_at(s1, replies, 0, RequestView::LinkKind { path: home })
        && replies[0] == ReplyView::Kind(FileKind::Directory) && m1 == replies.drop_first()) by {
        reveal(provision::inspect_home_script);
    }
    conversation::asks_as_part(
        whole,
        all,
        offset,
        s1,
        replies,
        0,
        RequestView::LinkKind { path: home },
    );
    let (k1, k2) = keys_done(whole, all, o1, username, ssh_key, m1, m2);
    let (p1, p2, p3) = site_done(whole, all, o2, username, m2, m3);
    directory_done(whole, all, o3, root, 0o711, "root"@, "root"@, m3, m4);
    directory_done(whole, all, o4, profiles, 0o2750, username, group, m4, m5);
    let l1 = profile_done(whole, all, o5, username, ".plan"@, m5, m6);
    let l2 = profile_done(whole, all, o6, username, ".project"@, m6, m7);
    let restore = RequestView::Run {
        program: "restorecon"@,
        arguments: seq![WordView::Text("-RF"@), WordView::Text(profiles)],
    };
    assert(conversation::asks_at(s8, m7, 0, restore));
    conversation::asks_as_part(whole, all, o7, s8, m7, 0, restore);
    seq![o1, k1, k2, o2, p1, p2, p3, o3, o4, o5, l1, o6, l2, o7]
}

proof fn keys_done<T>(
    whole: Script<T>,
    all: Seq<ReplyView>,
    offset: int,
    username: Seq<char>,
    ssh_key: Option<Seq<char>>,
    replies: Seq<ReplyView>,
    rest: Seq<ReplyView>,
) -> (at: (int, int))
    requires
        conversation::goes_on_as(
            whole,
            all,
            offset,
            provision::keys_script(username, ssh_key),
            replies,
        ),
        provision::keys_script(username, ssh_key).play(replies) == Progress::<()>::Ended(
            Ending::Value(()),
            rest,
        ),
    ensures
        conversation::directory_seen_to(
            whole,
            all,
            offset,
            at.0,
            path::below(provision::home_of(username), ".ssh"@),
            0o700,
            username + ":"@ + username,
        ),
        conversation::file_seen_to(
            whole,
            all,
            at.0,
            at.1,
            provision::keys_of(username),
            0o600,
            username + ":"@ + username,
            conversation::is_missing(all[at.0]),
        ),
        match ssh_key {
            Some(key) => offset + conversation::used(replies, rest) == at.1 + 2
                && conversation::file_written(
                whole,
                all,
                at.1,
                provision::keys_of(username),
                key + "\n"@,
            ),
            None => offset + conversation::used(replies, rest) == at.1,
        },
{
    broadcast use {causality::group_steps, causality::group_files};

    reveal(provision::keys_script);
    let ssh = path::below(provision::home_of(username), ".ssh"@);
    let keys = provision::keys_of(username);
    let s1 = provision::ensure_directory_script(ssh, 0o700, username, username);
    let s2 = provision::ensure_file_script(keys, 0o600, username, username);
    let s3 = match ssh_key {
        Some(key) => provision::write_file_script(keys, key + "\n"@),
        None => Script::give(()),
    };
    let (created, m2) = conversation::split_and(
        whole,
        all,
        offset,
        s1.and(s2),
        s3,
        replies,
        (),
        rest,
    );
    let (_, m1) = conversation::split_and(whole, all, offset, s1, s2, replies, created, m2);
    let o1 = offset + conversation::used(replies, m1);
    let o2 = offset + conversation::used(replies, m2);
    directory_done(whole, all, offset, ssh, 0o700, username, username, replies, m1);
    file_done(whole, all, o1, keys, 0o600, username, username, m1, created, m2);
    if let Some(key) = ssh_key {
        writing_done(whole, all, o2, keys, key + "\n"@, m2, rest);
    }
    (o1, o2)
}

proof fn site_done<T>(
    whole: Script<T>,
    all: Seq<ReplyView>,
    offset: int,
    username: Seq<char>,
    replies: Seq<ReplyView>,
    rest: Seq<ReplyView>,
) -> (at: (int, int, int))
    requires
        conversation::goes_on_as(
            whole,
            all,
            offset,
            provision::site_script(username),
            replies,
        ),
        provision::site_script(username).play(replies) == Progress::<()>::Ended(
            Ending::Value(()),
            rest,
        ),
    ensures
        ({
            let site = provision::site_of(username);
            let page = path::below(site, "index.html"@);
            let own = username + ":"@ + username;
            let new = conversation::is_missing(all[at.0]);
            &&& conversation::directory_seen_to(whole, all, offset, at.0, site, 0o2755, own)
            &&& conversation::file_seen_to(whole, all, at.0, at.1, page, 0o755, own, new)
            &&& if new {
                at.2 == at.1 + 2 && conversation::file_written(
                    whole,
                    all,
                    at.1,
                    page,
                    "Hello, World!\n"@,
                )
            } else {
                at.2 == at.1
            }
            &&& conversation::link_seen_to(
                whole,
                all,
                at.2,
                offset + conversation::used(replies, rest),
                path::below(provision::home_of(username), "public_html"@),
                site,
                own,
            )
        }),
{
    broadcast use {causality::group_steps, causality::group_files};

    reveal(provision::site_script);
    let site = provision::site_of(username);
    let page = path::below(site, "index.html"@);
    let html = path::below(provision::home_of(username), "public_html"@);
    let s1 = provision::ensure_directory_script(site, 0o2755, username, username);
    let s2 = provision::ensure_file_script(page, 0o755, username, username);
    let greet = |created: bool|
        if created {
            provision::write_file_script(page, "Hello, World!\n"@)
        } else {
            Script::give(())
        };
    let s4 = provision::ensure_symlink_script(html, site, username, username);
    let (_, m3) = conversation::split_and(
        whole,
        all,
        offset,
        s1.and(s2).and_then(greet),
        s4,
        replies,
        (),
        rest,
    );
    let (created, m2) = conversation::split_after_value(
        whole,
        all,
        offset,
        s1.and(s2),
        greet,
        replies,
        (),
        m3,
    );
    let (_, m1) = conversation::split_and(whole, all, offset, s1, s2, replies, created, m2);
    let o1 = offset + conversation::used(replies, m1);
    let o2 = offset + conversation::used(replies, m2);
    let o3 = offset + conversation::used(replies, m3);
    directory_done(whole, all, offset, site, 0o2755, username, username, replies, m1);
    file_done(whole, all, o1, page, 0o755, username, username, m1, created, m2);
    if created {
        writing_done(whole, all, o2, page, "Hello, World!\n"@, m2, m3);
    }
    link_done(whole, all, o3, html, site, username, username, m3, rest);
    (o1, o2, o3)
}

/// Setting up an account that goes well leaves nothing of the account out: see
/// [`account_seen_to`].
pub proof fn accounts_are_set_up_completely(
    username: Seq<char>,
    ssh_key: Option<Seq<char>>,
    replies: Seq<ReplyView>,
    rest: Seq<ReplyView>,
) -> (at: Seq<int>)
    requires
        one_entry(username),
        provision::apply_script(username, ssh_key).play(replies) == Progress::<()>::Ended(
            Ending::Value(()),
            rest,
        ),
    ensures
        account_seen_to(
            provision::apply_script(username, ssh_key),
            replies,
            0,
            replies.len() - rest.len(),
            username,
            ssh_key,
            at,
        ),
{
    let script = provision::apply_script(username, ssh_key);
    conversation::goes_on_as_itself(script, replies);
    account_done(script, replies, 0, username, ssh_key, replies, rest)
}

/// What finds out whether there is an account of a name.
pub open spec fn looks_up(username: Seq<char>) -> RequestView {
    RequestView::RunQuietly {
        program: "getent"@,
        arguments: seq![WordView::Text("passwd"@), WordView::Text(username)],
    }
}

/// What adds an account to the password file, in the group of all accounts and with
/// a home directory.
pub open spec fn adds_account(username: Seq<char>) -> RequestView {
    RequestView::Run {
        program: "useradd"@,
        arguments: seq![
            WordView::Text("-m"@),
            WordView::Text("-G"@),
            WordView::Text("salyut-bbs"@),
            WordView::Text(username),
        ],
    }
}

/// A repair that goes well finds that there is an account of the name, sees to
/// everything that belongs to it, each part with its own permission bits and its
/// own owner, leaves its keys as they are, reports that, and asks nothing else.
pub proof fn repairs_are_complete(
    username: Seq<char>,
    replies: Seq<ReplyView>,
    rest: Seq<ReplyView>,
) -> (at: Seq<int>)
    requires
        users::repair_script(username).play(replies) == Progress::<()>::Ended(
            Ending::Value(()),
            rest,
        ),
    ensures
        ({
            let script = users::repair_script(username);
            let end = replies.len() - rest.len();
            &&& users::username_fault(username) is None
            &&& conversation::asks_at(script, replies, 0, looks_up(username))
            &&& conversation::is_success(replies[0])
            &&& account_seen_to(script, replies, 1, end - 1, username, None, at)
            &&& conversation::asks_at(
                script,
                replies,
                end - 1,
                RequestView::Print { line: "repaired account: "@ + username },
            )
        }),
{
    broadcast use {
        causality::group_steps,
        causality::apply_is_causal,
        causality::require_account_is_causal,
    };

    let script = users::repair_script(username);
    let require = users::require_account_script(username);
    let apply = provision::apply_script(username, None);
    let print = Script::print("repaired account: "@ + username);
    let line = RequestView::Print { line: "repaired account: "@ + username };
    conversation::goes_on_as_itself(script, replies);
    let (_, m2) = conversation::split_and(
        script,
        replies,
        0,
        require.and(apply),
        print,
        replies,
        (),
        rest,
    );
    let (_, m1) = conversation::split_and(script, replies, 0, require, apply, replies, (), m2);
    assert(users::valid_username(username) && conversation::asks_at(
        require,
        replies,
        0,
        looks_up(username),
    ) && conversation::is_success(replies[0]) && m1 == replies.drop_first()) by {
        reveal(users::account_exists_script);
    }
    valid_is_one_entry(username);
    conversation::asks_as_part(script, replies, 0, require, replies, 0, looks_up(username));
    let at = account_done(script, replies, 1, username, None, m1, m2);
    assert(conversation::asks_at(print, m2, 0, line));
    conversation::asks_as_part(script, replies, replies.len() - m2.len(), print, m2, 0, line);
    at
}

/// Whether what follows an account that was set up is all there between two points:
/// the addresses are recorded, a password is made of random bytes and handed to
/// `chpasswd`, and it is shown. The random bytes end at `made`.
pub open spec fn account_finished<T>(
    script: Script<T>,
    replies: Seq<ReplyView>,
    start: int,
    made: int,
    end: int,
    username: Seq<char>,
    signup_email: Seq<char>,
    recovery_email: Seq<char>,
) -> bool {
    let home = "/home/"@ + username;
    let password = passwords::letters_of(
        passwords::bytes_in(replies.subrange(start + 5, made)),
    );
    &&& 0 <= start && start + 5 <= made && made + 6 == end && end <= replies.len()
    &&& conversation::asks_in_turn(
        script,
        replies,
        start,
        seq![
            RequestView::OpenDirectory { path: home },
            RequestView::OpenKind,
            RequestView::SetAttribute {
                name: "trusted.signup"@,
                value: vstd::utf8::encode_utf8(signup_email),
            },
            RequestView::SetAttribute {
                name: "trusted.recovery"@,
                value: vstd::utf8::encode_utf8(recovery_email),
            },
            RequestView::OpenReadable { path: "/dev/urandom"@ },
        ],
    )
    &&& replies[start] is Done
    &&& replies[start + 1] == ReplyView::Kind(FileKind::Directory)
    &&& replies[start + 2] is Done
    &&& replies[start + 3] is Done
    &&& replies[start + 4] is Done
    &&& forall|i: int|
        #![trigger replies[i]]
        start + 5 <= i < made ==> replies[i] is Byte && conversation::asks_at(
            script,
            replies,
            i,
            RequestView::ReadByte,
        )
    &&& password.len() == 24
    &&& conversation::asks_in_turn(
        script,
        replies,
        made,
        seq![
            RequestView::Start { program: "chpasswd"@ },
            RequestView::HasInput,
            RequestView::WriteInput { text: username + ":"@ + password + "\n"@ },
            RequestView::Wait,
            RequestView::Print { line: "created account: "@ + username },
            RequestView::Print { line: "password: "@ + password },
        ],
    )
    &&& replies[made] is Done
    &&& replies[made + 1] == ReplyView::Flag(true)
    &&& replies[made + 2] is Done
    &&& conversation::is_success(replies[made + 3])
    &&& replies[made + 4] is Done
    &&& replies[made + 5] is Done
}

proof fn finished<T>(
    whole: Script<T>,
    all: Seq<ReplyView>,
    offset: int,
    username: Seq<char>,
    signup_email: Seq<char>,
    recovery_email: Seq<char>,
    m0: Seq<ReplyView>,
    m1: Seq<ReplyView>,
    m2: Seq<ReplyView>,
    rest: Seq<ReplyView>,
    password: Seq<char>,
)
    requires
        one_entry(username),
        offset + m0.len() == all.len(),
        conversation::goes_on_as(
            whole,
            all,
            offset,
            users::store_emails_script(username, signup_email, recovery_email),
            m0,
        ),
        users::store_emails_script(username, signup_email, recovery_email).play(m0)
            == Progress::<()>::Ended(Ending::Value(()), m1),
        conversation::goes_on_as(
            whole,
            all,
            all.len() - m1.len(),
            users::generate_password_script(),
            m1,
        ),
        users::generate_password_script().play(m1) == Progress::<Seq<char>>::Ended(
            Ending::Value(password),
            m2,
        ),
        conversation::goes_on_as(
            whole,
            all,
            all.len() - m2.len(),
            ending_script(username, password),
            m2,
        ),
        ending_script(username, password).play(m2) == Progress::<()>::Ended(
            Ending::Value(()),
            rest,
        ),
    ensures
        account_finished(
            whole,
            all,
            offset,
            all.len() - m2.len(),
            all.len() - rest.len(),
            username,
            signup_email,
            recovery_email,
        ),
{
    places(username);
    let home = "/home/"@ + username;
    let store = users::store_emails_script(username, signup_email, recovery_email);
    let generate = users::generate_password_script();
    let reader = users::password_from_reader_script(24);
    let ending = ending_script(username, password);
    let first = seq![
        RequestView::OpenDirectory { path: home },
        RequestView::OpenKind,
        RequestView::SetAttribute {
            name: "trusted.signup"@,
            value: vstd::utf8::encode_utf8(signup_email),
        },
        RequestView::SetAttribute {
            name: "trusted.recovery"@,
            value: vstd::utf8::encode_utf8(recovery_email),
        },
        RequestView::OpenReadable { path: "/dev/urandom"@ },
    ];
    assert(m1 =~= m0.skip(4) && m0.len() >= 4 && m0[0] is Done && m0[1] == ReplyView::Kind(
        FileKind::Directory,
    ) && m0[2] is Done && m0[3] is Done && forall|k: int|
        #![trigger first[k]]
        0 <= k < 4 ==> conversation::asks_at(store, m0, k, first[k])) by {
        reveal(users::store_emails_script);
        reveal(users::open_home_script);
        assert(m0.drop_first().drop_first().drop_first().drop_first() =~= m0.skip(4));
        assert(conversation::asks_at(store, m0, 0, first[0]));
        assert(conversation::asks_at(store, m0, 1, first[1]));
        assert(conversation::asks_at(store, m0, 2, first[2]));
        assert(conversation::asks_at(store, m0, 3, first[3]));
    }
    assert forall|k: int|
        #![trigger m0[k]]
        0 <= k < 4 implies conversation::asks_at(whole, all, offset + k, first[k]) && all[offset
        + k] == m0[k] by {
        conversation::asks_as_part(whole, all, offset, store, m0, k, first[k]);
    }
    let drawn = m1.drop_first();
    assert(m1.len() > 0 && m1[0] is Done && conversation::asks_at(generate, m1, 0, first[4])
        && users::password_course(24, seq![], drawn) == Progress::<Seq<char>>::Ended(
        Ending::Value(password),
        m2,
    )) by {
        reveal(users::generate_password_script);
    }
    conversation::asks_as_part(whole, all, offset + 4, generate, m1, 0, first[4]);
    passwords::course_done(24, seq![], drawn, password, m2);
    let made = all.len() - m2.len();
    let bytes = passwords::bytes_in(drawn.take(drawn.len() - m2.len()));
    assert(seq![] + passwords::letters_of(bytes) =~= passwords::letters_of(bytes));
    reveal(conversation::goes_on_as);
    assert(m1 =~= all.skip(offset + 4));
    assert(drawn =~= all.skip(offset + 5));
    assert(drawn.take(drawn.len() - m2.len()) =~= all.subrange(offset + 5, made));
    assert forall|i: int|
        #![trigger all[i]]
        offset + 5 <= i < made implies all[i] is Byte && conversation::asks_at(
        whole,
        all,
        i,
        RequestView::ReadByte,
    ) by {
        let k = i - offset - 5;
        assert(drawn[k] == all[i]);
        assert(conversation::asks_at(generate, m1, k + 1, RequestView::ReadByte)) by {
            reveal(users::generate_password_script);
            assert(m1.take(k + 1).drop_first() =~= drawn.take(k));
        }
        conversation::asks_as_part(
            whole,
            all,
            offset + 4,
            generate,
            m1,
            k + 1,
            RequestView::ReadByte,
        );
    }
    let last = seq![
        RequestView::Start { program: "chpasswd"@ },
        RequestView::HasInput,
        RequestView::WriteInput { text: username + ":"@ + password + "\n"@ },
        RequestView::Wait,
        RequestView::Print { line: "created account: "@ + username },
        RequestView::Print { line: "password: "@ + password },
    ];
    assert(m2.len() >= 6 && rest.len() == m2.len() - 6 && m2[0] is Done && m2[1]
        == ReplyView::Flag(true) && m2[2] is Done && conversation::is_success(m2[3])
        && m2[4] is Done && m2[5] is Done && forall|k: int|
        #![trigger last[k]]
        0 <= k < 6 ==> conversation::asks_at(ending, m2, k, last[k])) by {
        reveal(users::set_password_script);
        assert(conversation::asks_at(ending, m2, 0, last[0]));
        assert(conversation::asks_at(ending, m2, 1, last[1]));
        assert(conversation::asks_at(ending, m2, 2, last[2]));
        assert(conversation::asks_at(ending, m2, 3, last[3]));
        assert(conversation::asks_at(ending, m2, 4, last[4]));
        assert(conversation::asks_at(ending, m2, 5, last[5]));
    }
    assert forall|k: int|
        #![trigger m2[k]]
        0 <= k < 6 implies conversation::asks_at(whole, all, made + k, last[k]) && all[made + k]
        == m2[k] by {
        conversation::asks_as_part(whole, all, made, ending, m2, k, last[k]);
    }
    assert(all[offset] == m0[0] && all[offset + 1] == m0[1] && all[offset + 2] == m0[2]
        && all[offset + 3] == m0[3] && all[offset + 4] == m1[0]);
    assert(all[made] == m2[0] && all[made + 1] == m2[1] && all[made + 2] == m2[2]
        && all[made + 3] == m2[3] && all[made + 4] == m2[4] && all[made + 5] == m2[5]);
}

/// What follows once there is a password.
spec fn ending_script(username: Seq<char>, password: Seq<char>) -> Script<()> {
    users::set_password_script(username, password).and(
        Script::print("created account: "@ + username),
    ).and(Script::print("password: "@ + password))
}

/// An addition that goes well finds that there is no account of the name, adds it,
/// sets up everything that belongs to it, records the two addresses, makes a
/// password of random bytes, sets it and shows it, and asks nothing else. The parts
/// of the account begin at `at`, what follows them at `set_up`, and the random bytes
/// end at `made`.
pub proof fn additions_are_complete(
    username: Seq<char>,
    ssh_key: Seq<char>,
    signup_email: Seq<char>,
    recovery_email: Seq<char>,
    replies: Seq<ReplyView>,
    rest: Seq<ReplyView>,
) -> (found: (Seq<int>, int, int))
    requires
        users::add_script(username, ssh_key, signup_email, recovery_email).play(replies)
            == Progress::<()>::Ended(Ending::Value(()), rest),
    ensures
        ({
            let script = users::add_script(username, ssh_key, signup_email, recovery_email);
            let (at, set_up, made) = found;
            &&& users::add_fault(username, ssh_key, signup_email, recovery_email) is None
            &&& conversation::asks_at(script, replies, 0, looks_up(username))
            &&& replies[0] matches ReplyView::Exited { code, status }
            &&& code == Some(2i32)
            &&& conversation::asks_at(script, replies, 1, adds_account(username))
            &&& conversation::is_success(replies[1])
            &&& account_seen_to(script, replies, 2, set_up, username, Some(ssh_key), at)
            &&& account_finished(
                script,
                replies,
                set_up,
                made,
                replies.len() - rest.len(),
                username,
                signup_email,
                recovery_email,
            )
        }),
{
    let script = users::add_script(username, ssh_key, signup_email, recovery_email);
    let during = begun(username, ssh_key, signup_email, recovery_email, replies, rest);
    furnished(script, replies, username, ssh_key, signup_email, recovery_email, during, rest)
}

proof fn begun(
    username: Seq<char>,
    ssh_key: Seq<char>,
    signup_email: Seq<char>,
    recovery_email: Seq<char>,
    replies: Seq<ReplyView>,
    rest: Seq<ReplyView>,
) -> (during: Seq<ReplyView>)
    requires
        users::add_script(username, ssh_key, signup_email, recovery_email).play(replies)
            == Progress::<()>::Ended(Ending::Value(()), rest),
    ensures
        ({
            let script = users::add_script(username, ssh_key, signup_email, recovery_email);
            let furnish = users::furnish_script(username, ssh_key, signup_email, recovery_email);
            &&& one_entry(username)
            &&& users::add_fault(username, ssh_key, signup_email, recovery_email) is None
            &&& conversation::asks_at(script, replies, 0, looks_up(username))
            &&& accounts::unknown_account(replies[0])
            &&& conversation::asks_at(script, replies, 1, adds_account(username))
            &&& conversation::is_success(replies[1])
            &&& during.len() + 2 == replies.len()
            &&& conversation::goes_on_as(script, replies, 2, furnish, during)
            &&& furnish.play(during) == Progress::<()>::Ended(Ending::Value(()), rest)
        }),
{
    broadcast use causality::group_steps;

    let script = users::add_script(username, ssh_key, signup_email, recovery_email);
    let furnish = users::furnish_script(username, ssh_key, signup_email, recovery_email);
    let later = users::furnish_or_give_up_script(username, ssh_key, signup_email, recovery_email);
    let opening = accounts::opening(username, ssh_key, signup_email, recovery_email);
    let useradd = adds_account(username);
    conversation::goes_on_as_itself(script, replies);
    causality::account_exists_is_causal(username);
    let (_, during) = conversation::split_and(
        script,
        replies,
        0,
        opening,
        later,
        replies,
        (),
        rest,
    );
    assert(users::valid_username(username) && conversation::asks_at(
        opening,
        replies,
        0,
        looks_up(username),
    ) && accounts::unknown_account(replies[0]) && conversation::asks_at(
        opening,
        replies,
        1,
        useradd,
    ) && conversation::is_success(replies[1]) && during =~= replies.skip(2)) by {
        reveal(users::account_exists_script);
        assert(replies.drop_first().drop_first() =~= replies.skip(2));
    }
    valid_is_one_entry(username);
    conversation::asks_as_part(script, replies, 0, opening, replies, 0, looks_up(username));
    conversation::asks_as_part(script, replies, 0, opening, replies, 1, useradd);
    causality::furnish_is_causal(username, ssh_key, signup_email, recovery_email);
    let give_up = |ending: Ending<()>|
        match ending {
            Ending::Failed(trail) => users::give_up_script(username, trail),
            _ => Script::end(ending),
        };
    if let Progress::Ended(Ending::Failed(trail), left) = furnish.play(during) {
        assert(later.play(during) == users::give_up_script(username, trail).play(left));
    }
    assert(furnish.play(during) == Progress::<()>::Ended(Ending::Value(()), rest));
    assert(later == furnish.after(give_up));
    conversation::goes_on_after(
        script,
        replies,
        2,
        furnish,
        give_up,
        during,
        Ending::Value(()),
        rest,
    );
    during
}

proof fn furnished<T>(
    script: Script<T>,
    replies: Seq<ReplyView>,
    username: Seq<char>,
    ssh_key: Seq<char>,
    signup_email: Seq<char>,
    recovery_email: Seq<char>,
    during: Seq<ReplyView>,
    rest: Seq<ReplyView>,
) -> (found: (Seq<int>, int, int))
    requires
        one_entry(username),
        during.len() + 2 == replies.len(),
        conversation::goes_on_as(
            script,
            replies,
            2,
            users::furnish_script(username, ssh_key, signup_email, recovery_email),
            during,
        ),
        users::furnish_script(username, ssh_key, signup_email, recovery_email).play(during)
            == Progress::<()>::Ended(Ending::Value(()), rest),
    ensures
        account_seen_to(script, replies, 2, found.1, username, Some(ssh_key), found.0),
        account_finished(
            script,
            replies,
            found.1,
            found.2,
            replies.len() - rest.len(),
            username,
            signup_email,
            recovery_email,
        ),
{
    broadcast use {
        causality::group_steps,
        causality::apply_is_causal,
        causality::store_emails_is_causal,
    };

    let furnish = users::furnish_script(username, ssh_key, signup_email, recovery_email);
    let apply = provision::apply_script(username, Some(ssh_key));
    let store = users::store_emails_script(username, signup_email, recovery_email);
    let generate = users::generate_password_script();
    let next = |password: Seq<char>| ending_script(username, password);
    assert(furnish == apply.and(store).and(generate).and_then(next)) by {
        reveal(users::furnish_script);
        assert(next =~= |password: Seq<char>|
            users::set_password_script(username, password).and(
                Script::print("created account: "@ + username),
            ).and(Script::print("password: "@ + password)));
    }
    causality::generate_password_is_causal();
    let (password, m2) = conversation::split_after_value(
        script,
        replies,
        2,
        apply.and(store).and(generate),
        next,
        during,
        (),
        rest,
    );
    let (_, m1) = conversation::split_and(
        script,
        replies,
        2,
        apply.and(store),
        generate,
        during,
        password,
        m2,
    );
    let (_, m0) = conversation::split_and(script, replies, 2, apply, store, during, (), m1);
    let at = account_done(script, replies, 2, username, Some(ssh_key), during, m0);
    let set_up = replies.len() - m0.len();
    finished(
        script,
        replies,
        set_up,
        username,
        signup_email,
        recovery_email,
        m0,
        m1,
        m2,
        rest,
        password,
    );
    (at, set_up, replies.len() - m2.len())
}

} // verus!
