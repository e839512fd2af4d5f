//! Every operation uses its replies one by one, each for the request that was
//! asked for it.
use vstd::prelude::*;

use crate::cli;
use crate::cli::{Cli, TopCommand, UserCommand};
use crate::process;
use crate::provision;
use crate::repositories;
use crate::repositories::Stage;
use crate::request::{FileKind, ReplyView, RequestView, WordView};
use crate::script;
use crate::script::{Ending, Progress, Script, Trail};
use crate::services;
use crate::services::ServiceView;
use crate::users;

verus! {

broadcast use crate::script::group_causal;

pub broadcast proof fn perform_is_causal(request: RequestView, message: Seq<char>)
    ensures
        #[trigger] Script::perform(request, message).causal(),
{
}

pub broadcast proof fn check_is_causal(fault: Option<Seq<char>>)
    ensures
        #[trigger] Script::check(fault).causal(),
{
}

pub broadcast proof fn print_is_causal(line: Seq<char>)
    ensures
        #[trigger] Script::print(line).causal(),
{
}

pub broadcast proof fn print_error_is_causal(line: Seq<char>)
    ensures
        #[trigger] Script::print_error(line).causal(),
{
}

pub broadcast proof fn expect_kind_is_causal(kind: FileKind, message: Seq<char>)
    ensures
        #[trigger] Script::expect_kind(kind, message).causal(),
{
}

pub broadcast proof fn question_is_causal(request: RequestView)
    ensures
        #[trigger] Script::question(request).causal(),
{
}

pub broadcast proof fn run_is_causal(program: Seq<char>, arguments: Seq<WordView>)
    ensures
        #[trigger] process::run_script(program, arguments).causal(),
{
}

pub broadcast group group_steps {
    perform_is_causal,
    check_is_causal,
    print_is_causal,
    print_error_is_causal,
    expect_kind_is_causal,
    question_is_causal,
    run_is_causal,
}

pub proof fn each_is_causal<A>(items: Seq<A>, step: spec_fn(A) -> Script<()>)
    requires
        forall|item: A| (#[trigger] step(item)).causal(),
    ensures
        Script::each(items, step).causal(),
    decreases items.len(),
{
    if items.len() > 0 {
        each_is_causal(items.drop_first(), step);
        assert(step(items[0]).causal());
    }
}

pub broadcast proof fn set_owner_is_causal(path: Seq<char>, owner: Seq<char>, group: Seq<char>)
    ensures
        #[trigger] provision::set_owner_script(path, owner, group).causal(),
{
    broadcast use group_steps;

}

pub broadcast proof fn ensure_directory_is_causal(
    path: Seq<char>,
    mode: u32,
    owner: Seq<char>,
    group: Seq<char>,
)
    ensures
        #[trigger] provision::ensure_directory_script(path, mode, owner, group).causal(),
{
    broadcast use {group_steps, set_owner_is_causal};

    reveal(provision::ensure_directory_script);
}

pub broadcast proof fn ensure_file_is_causal(
    path: Seq<char>,
    mode: u32,
    owner: Seq<char>,
    group: Seq<char>,
)
    ensures
        #[trigger] provision::ensure_file_script(path, mode, owner, group).causal(),
{
    broadcast use {group_steps, set_owner_is_causal};

    assert(provision::open_or_create_script(path).causal());
}

pub broadcast proof fn write_file_is_causal(path: Seq<char>, contents: Seq<char>)
    ensures
        #[trigger] provision::write_file_script(path, contents).causal(),
{
    broadcast use group_steps;

}

pub broadcast proof fn ensure_symlink_is_causal(
    link: Seq<char>,
    target: Seq<char>,
    owner: Seq<char>,
    group: Seq<char>,
)
    ensures
        #[trigger] provision::ensure_symlink_script(link, target, owner, group).causal(),
{
    broadcast use {group_steps, set_owner_is_causal};

}

pub broadcast group group_files {
    set_owner_is_causal,
    ensure_directory_is_causal,
    ensure_file_is_causal,
    write_file_is_causal,
    ensure_symlink_is_causal,
}

pub proof fn inspect_home_is_causal(home: Seq<char>)
    ensures
        provision::inspect_home_script(home).causal(),
{
    reveal(provision::inspect_home_script);
}

pub proof fn keys_is_causal(username: Seq<char>, ssh_key: Option<Seq<char>>)
    ensures
        provision::keys_script(username, ssh_key).causal(),
{
    broadcast use {group_steps, group_files};

    reveal(provision::keys_script);
}

pub proof fn site_is_causal(username: Seq<char>)
    ensures
        provision::site_script(username).causal(),
{
    broadcast use {group_steps, group_files};

    reveal(provision::site_script);
}

pub proof fn profile_is_causal(username: Seq<char>, profile: Seq<char>)
    ensures
        provision::profile_script(username, profile).causal(),
{
    broadcast use {group_steps, group_files};

    reveal(provision::profile_script);
}

pub broadcast proof fn apply_is_causal(username: Seq<char>, ssh_key: Option<Seq<char>>)
    ensures
        #[trigger] provision::apply_script(username, ssh_key).causal(),
{
    broadcast use {group_steps, group_files};

    reveal(provision::apply_script);
    inspect_home_is_causal(provision::home_of(username));
    keys_is_causal(username, ssh_key);
    site_is_causal(username);
    profile_is_causal(username, ".plan"@);
    profile_is_causal(username, ".project"@);
}

pub broadcast proof fn remove_tree_is_causal(path: Seq<char>)
    ensures
        #[trigger] provision::remove_tree_script(path).causal(),
{
}

pub broadcast proof fn attempt_is_causal(
    script: Script<()>,
    label: Seq<char>,
    failures: Seq<Seq<char>>,
)
    requires
        script.causal(),
    ensures
        #[trigger] provision::attempt_script(script, label, failures).causal(),
{
}

pub broadcast proof fn account_exists_is_causal(username: Seq<char>)
    ensures
        #[trigger] users::account_exists_script(username).causal(),
{
    reveal(users::account_exists_script);
}

pub broadcast proof fn require_account_is_causal(username: Seq<char>)
    ensures
        #[trigger] users::require_account_script(username).causal(),
{
    broadcast use {group_steps, account_exists_is_causal};

}

pub broadcast proof fn open_home_is_causal(username: Seq<char>)
    ensures
        #[trigger] users::open_home_script(username).causal(),
{
    broadcast use group_steps;

    reveal(users::open_home_script);
}

pub broadcast proof fn read_xattr_is_causal(name: Seq<char>, username: Seq<char>)
    ensures
        #[trigger] users::read_xattr_script(name, username).causal(),
{
    reveal(users::read_xattr_script);
}

pub broadcast proof fn store_emails_is_causal(
    username: Seq<char>,
    signup: Seq<char>,
    recovery: Seq<char>,
)
    ensures
        #[trigger] users::store_emails_script(username, signup, recovery).causal(),
{
    broadcast use {group_steps, open_home_is_causal};

    reveal(users::store_emails_script);
}

pub proof fn info_is_causal(username: Seq<char>)
    ensures
        users::info_script(username).causal(),
{
    broadcast use {
        group_steps,
        require_account_is_causal,
        open_home_is_causal,
        read_xattr_is_causal,
    };

}

pub proof fn set_emails_is_causal(
    username: Seq<char>,
    signup: Seq<char>,
    recovery: Option<Seq<char>>,
)
    ensures
        users::set_emails_script(username, signup, recovery).causal(),
{
    broadcast use {group_steps, account_exists_is_causal, open_home_is_causal};

    assert(users::previous_signup_script(username).causal());
    assert forall|previous: Option<Seq<u8>>| #[trigger]
        users::restore_xattr_script(users::SIGNUP_EMAIL_XATTR@, previous).causal() by {}
    assert forall|recovery: Seq<char>, previous: Option<Seq<u8>>| #[trigger]
        users::set_recovery_script(username, recovery, previous).causal() by {}
    assert(users::change_emails_script(username, signup, recovery).causal());
}

pub proof fn repair_is_causal(username: Seq<char>)
    ensures
        users::repair_script(username).causal(),
{
    broadcast use {group_steps, require_account_is_causal, apply_is_causal};

}

pub proof fn delete_is_causal(username: Seq<char>, confirmed: bool)
    ensures
        users::delete_script(username, confirmed).causal(),
{
    broadcast use {group_steps, account_exists_is_causal, remove_tree_is_causal};

}

pub broadcast proof fn rollback_new_user_is_causal(username: Seq<char>)
    ensures
        #[trigger] users::rollback_new_user_script(username).causal(),
{
    broadcast use {group_steps, remove_tree_is_causal, attempt_is_causal};

}

pub proof fn password_course_is_causal(
    length: nat,
    password: Seq<char>,
    replies: Seq<ReplyView>,
    reply: ReplyView,
)
    ensures
        users::password_course(length, password, replies).leaves_last(replies),
        users::password_course(length, password, replies).grows_to(
            reply,
            users::password_course(length, password, replies.push(reply)),
        ),
    decreases replies.len(),
{
    reveal_with_fuel(users::password_course, 2);
    assert(replies.skip(0) =~= replies);
    let more = replies.push(reply);
    if password.len() < length {
        if replies.len() > 0 {
            let rest = replies.drop_first();
            assert(more.drop_first() =~= rest.push(reply));
            if let ReplyView::Byte(byte) = replies[0] {
                let longer = if byte < users::cutoff() {
                    password.push(users::letter_for(byte))
                } else {
                    password
                };
                password_course_is_causal(length, longer, rest, reply);
                if let Progress::Ended(_, last) = users::password_course(length, longer, rest) {
                    assert(rest.skip(rest.len() - last.len()) =~= replies.skip(
                        replies.len() - last.len(),
                    ));
                }
            } else {
                assert(rest =~= replies.skip(1));
            }
        } else {
            assert(more.drop_first() =~= seq![]);
        }
    }
}

pub broadcast proof fn password_from_reader_is_causal(length: nat)
    ensures
        #[trigger] users::password_from_reader_script(length).causal(),
{
    if length > 0 {
        reveal(Script::causal);
        let script = users::password_from_reader_script(length);
        assert forall|replies: Seq<ReplyView>| (#[trigger] script.play(replies)).leaves_last(
            replies,
        ) by {
            password_course_is_causal(length, seq![], replies, ReplyView::Done);
        }
        assert forall|replies: Seq<ReplyView>, reply: ReplyView|
            script.play(replies).grows_to(reply, #[trigger] script.play(replies.push(reply))) by {
            password_course_is_causal(length, seq![], replies, reply);
        }
    }
}

pub proof fn generate_password_is_causal()
    ensures
        users::generate_password_script().causal(),
{
    broadcast use {group_steps, password_from_reader_is_causal};

    reveal(users::generate_password_script);
}

pub broadcast proof fn furnish_is_causal(
    username: Seq<char>,
    ssh_key: Seq<char>,
    signup_email: Seq<char>,
    recovery_email: Seq<char>,
)
    ensures
        #[trigger] users::furnish_script(
            username,
            ssh_key,
            signup_email,
            recovery_email,
        ).causal(),
{
    broadcast use {group_steps, apply_is_causal, store_emails_is_causal};

    generate_password_is_causal();
    reveal(users::set_password_script);
    reveal(users::furnish_script);
    assert forall|password: Seq<char>| #[trigger]
        users::set_password_script(username, password).causal() by {}
}

pub proof fn add_is_causal(
    username: Seq<char>,
    ssh_key: Seq<char>,
    signup_email: Seq<char>,
    recovery_email: Seq<char>,
)
    ensures
        users::add_script(username, ssh_key, signup_email, recovery_email).causal(),
{
    broadcast use {
        group_steps,
        account_exists_is_causal,
        rollback_new_user_is_causal,
        furnish_is_causal,
    };

    assert forall|trail: Trail| #[trigger] users::give_up_script(username, trail).causal() by {}
}

pub broadcast proof fn check_service_is_causal(service: ServiceView)
    ensures
        #[trigger] services::check_script(service).causal(),
{
    broadcast use group_steps;

    reveal(services::check_script);
    reveal(services::http_health_script);
    assert forall|address: Seq<char>, path: Seq<char>| #[trigger]
        services::http_health_script(address, path).causal() by {}
    assert(services::active_script(service).causal());
}

pub broadcast proof fn health_after_is_causal(services: Seq<ServiceView>, failures: Seq<Seq<char>>)
    ensures
        #[trigger] services::health_script_after(services, failures).causal(),
    decreases services.len(),
{
    broadcast use check_service_is_causal;

    if services.len() > 0 {
        health_after_is_causal(services.drop_first(), failures);
        health_after_is_causal(services.drop_first(), failures.push(services[0].name));
    }
}

pub broadcast proof fn eligible_is_causal(repository: Seq<u8>)
    ensures
        #[trigger] repositories::eligible_script(repository).causal(),
{
    broadcast use group_steps;

    reveal(repositories::eligible_script);
}

pub broadcast proof fn keep_eligible_is_causal(paths: Seq<Seq<u8>>, kept: Seq<Seq<u8>>)
    ensures
        #[trigger] repositories::keep_eligible_script(paths, kept).causal(),
    decreases paths.len(),
{
    broadcast use eligible_is_causal;

    if paths.len() > 0 {
        keep_eligible_is_causal(paths.drop_first(), kept);
        keep_eligible_is_causal(paths.drop_first(), kept.push(paths[0]));
    }
}

pub broadcast proof fn find_ineligible_is_causal(
    root: Seq<u8>,
    names: Seq<Seq<char>>,
    found: Seq<Seq<char>>,
)
    ensures
        #[trigger] repositories::find_ineligible_script(root, names, found).causal(),
    decreases names.len(),
{
    broadcast use eligible_is_causal;

    if names.len() > 0 {
        find_ineligible_is_causal(root, names.drop_first(), found);
        find_ineligible_is_causal(root, names.drop_first(), found.push(names[0]));
    }
}

pub broadcast proof fn select_is_causal(root: Seq<u8>, names: Seq<Seq<char>>)
    ensures
        #[trigger] repositories::select_script(root, names).causal(),
{
    broadcast use {group_steps, keep_eligible_is_causal, find_ineligible_is_causal};

    reveal(repositories::select_script);
    assert(repositories::candidates_script(root, names).causal());
}

pub broadcast proof fn all_through_is_causal(stage: Stage, repositories: Seq<Seq<u8>>)
    ensures
        #[trigger] repositories::all_through_script(stage, repositories).causal(),
{
    broadcast use group_steps;

    reveal(repositories::stage_script);
    let step = |repository: Seq<u8>| repositories::stage_script(stage, repository);
    assert forall|repository: Seq<u8>| (#[trigger] step(repository)).causal() by {
        assert(repositories::stage_script(stage, repository).causal());
    }
    each_is_causal(repositories, step);
}

pub proof fn update_is_causal(root: Seq<u8>, names: Seq<Seq<char>>)
    ensures
        repositories::update_script(root, names).causal(),
{
    broadcast use {group_steps, select_is_causal, all_through_is_causal, health_after_is_causal};

    assert forall|selected: Seq<Seq<u8>>| #[trigger]
        repositories::update_selected_script(selected).causal() by {}
}

/// Every command uses its replies one by one: a reply answers the request that
/// was waited for when it was given, more replies never change what was asked
/// before, and none is used once the command is over.
pub proof fn commands_are_causal(cli: Cli)
    ensures
        cli::execute_script(cli).causal(),
{
    broadcast use {group_steps, health_after_is_causal};

    match cli.command {
        TopCommand::User { command } => match command {
            UserCommand::Add { username, ssh_public_key, signup_email, recovery_email } => {
                add_is_causal(username@, ssh_public_key@, signup_email@, recovery_email@);
            },
            UserCommand::Info { command, username } => {
                if let Some(username) = username {
                    info_is_causal(username@);
                }
                if let Some(command) = command {
                    let cli::UserInfoCommand::SetEmails { signup, recovery, username } = command;
                    set_emails_is_causal(username@, signup@, recovery.deep_view());
                }
            },
            UserCommand::Delete { username, yes } => {
                delete_is_causal(username@, yes);
            },
            UserCommand::Repair { username } => {
                repair_is_causal(username@);
            },
        },
        TopCommand::Services { command } => {
            assert(cli::service_script(command).causal());
        },
        TopCommand::Update(arguments) => {
            update_is_causal(arguments.source_root@, arguments.repos.deep_view());
        },
    }
}

/// A command that waits for a reply waited for each of the replies before it:
/// played again with one reply more, it asks the same requests in the same order
/// and then one more, or comes to its end.
pub proof fn commands_wait_for_every_reply(cli: Cli, replies: Seq<ReplyView>, count: int)
    requires
        cli::execute_script(cli).play(replies) is Waiting,
        0 <= count <= replies.len(),
    ensures
        cli::execute_script(cli).play(replies.take(count)) is Waiting,
{
    commands_are_causal(cli);
    script::lemma_waited_before(cli::execute_script(cli), replies, count);
}

/// A command that is over stays over: no further reply changes how it ended.
pub proof fn commands_end_once(
    cli: Cli,
    replies: Seq<ReplyView>,
    ending: Ending<()>,
    rest: Seq<ReplyView>,
    more: Seq<ReplyView>,
)
    requires
        cli::execute_script(cli).play(replies) == Progress::Ended(ending, rest),
    ensures
        cli::execute_script(cli).play(replies + more) == Progress::Ended(ending, rest + more),
{
    commands_are_causal(cli);
    script::lemma_over_is_over(cli::execute_script(cli), replies, ending, rest, more);
}

} // verus!
