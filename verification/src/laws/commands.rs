//! Which operation a command stands for.
use vstd::prelude::*;

use crate::cli;
use crate::cli::{Cli, ServiceCommand, TopCommand, UserCommand, UserInfoCommand};
use crate::repositories;
use crate::repositories::UpdateArgs;
use crate::request::ReplyView;
use crate::script::{Ending, Progress};
use crate::services;
use crate::users;

verus! {

/// Every command about an account is the operation of its name, with what was given;
/// a command that names no account, or names one twice, asks nothing and fails.
pub proof fn commands_about_accounts(command: UserCommand, replies: Seq<ReplyView>)
    ensures
        cli::execute_script(Cli { command: TopCommand::User { command } }).play(replies)
            == match command {
            UserCommand::Add { username, ssh_public_key, signup_email, recovery_email } => {
                users::add_script(
                    username@,
                    ssh_public_key@,
                    signup_email@,
                    recovery_email@,
                ).play(replies)
            },
            UserCommand::Info { command, username } => match (command, username) {
                (None, Some(username)) => users::info_script(username@).play(replies),
                (
                    Some(UserInfoCommand::SetEmails { signup, recovery, username }),
                    None,
                ) => users::set_emails_script(
                    username@,
                    signup@,
                    match recovery {
                        Some(recovery) => Some(recovery@),
                        None => None,
                    },
                ).play(replies),
                (None, None) => Progress::<()>::Ended(
                    Ending::Failed(seq!["username is required"@]),
                    replies,
                ),
                (Some(_), Some(_)) => Progress::<()>::Ended(
                    Ending::Failed(seq!["username must follow the info subcommand"@]),
                    replies,
                ),
            },
            UserCommand::Delete { username, yes } => users::delete_script(username@, yes).play(
                replies,
            ),
            UserCommand::Repair { username } => users::repair_script(username@).play(replies),
        },
{
}

/// Every command about services selects them first, asks nothing and fails where that
/// fails, and is the operation of its name on those that were selected; a restart is
/// followed by a check of the same services.
pub proof fn commands_about_services(command: ServiceCommand, replies: Seq<ReplyView>)
    ensures
        ({
            let progress = cli::execute_script(
                Cli { command: TopCommand::Services { command } },
            ).play(replies);
            let names = match command {
                ServiceCommand::Status { services } => services,
                ServiceCommand::Health { services } => services,
                ServiceCommand::Restart { services } => services,
            };
            match services::selection(
                Seq::new(names@.len(), |i: int| names@[i]@),
            ) {
                Err(trail) => progress == Progress::<()>::Ended(Ending::Failed(trail), replies),
                Ok(selected) => match command {
                    ServiceCommand::Status { services } => progress == services::status_script(
                        selected,
                    ).play(replies),
                    ServiceCommand::Health { services } => progress == services::health_script(
                        selected,
                    ).play(replies),
                    ServiceCommand::Restart {
                        services,
                    } => match services::restart_script(selected).play(replies) {
                        Progress::Ended(Ending::Value(_), rest) => progress
                            == services::health_script(selected).play(rest),
                        other => progress == other,
                    },
                },
            }
        }),
{
    let names = match command {
        ServiceCommand::Status { services } => services,
        ServiceCommand::Health { services } => services,
        ServiceCommand::Restart { services } => services,
    };
    assert(Seq::new(names@.len(), |i: int| names@[i]@) =~= names.deep_view());
}

/// The command to update is the update of what was named below the root that was
/// given.
pub proof fn commands_to_update(arguments: UpdateArgs, replies: Seq<ReplyView>)
    ensures
        cli::execute_script(Cli { command: TopCommand::Update(arguments) }).play(replies)
            == repositories::update_script(
            arguments.source_root@,
            Seq::new(arguments.repos@.len(), |i: int| arguments.repos@[i]@),
        ).play(replies),
{
    assert(Seq::new(arguments.repos@.len(), |i: int| arguments.repos@[i]@)
        =~= arguments.repos.deep_view());
}

} // verus!
