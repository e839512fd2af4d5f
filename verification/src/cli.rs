//! The commands, and the operation that each of them stands for.
use vstd::prelude::*;

use crate::dialogue::{Dialogue, Stop};
use crate::failure::Failure;
use crate::repositories;
use crate::repositories::UpdateArgs;
use crate::script::{Ending, Script};
use crate::services;
use crate::services::ServiceView;
use crate::users;

verus! {

/// One command.
pub struct Cli {
    pub command: TopCommand,
}

/// What a command is about.
#[allow(inconsistent_fields)]
pub enum TopCommand {
    /// Create, delete, or repair Salyut users.
    User { command: UserCommand },
    /// Inspect, health-check, or restart Salyut services.
    Services { command: ServiceCommand },
    /// Pull, build, and install source repositories, then restart services.
    Update(UpdateArgs),
}

/// A command about an account.
#[allow(inconsistent_fields)]
pub enum UserCommand {
    /// Provision an account and display its generated password once.
    Add {
        username: String,
        ssh_public_key: String,
        /// Email address used to sign up for the account.
        signup_email: String,
        /// Email address used for account recovery.
        recovery_email: String,
    },
    /// Display or set the signup and recovery email addresses for an account.
    Info {
        command: Option<UserInfoCommand>,
        /// Account to inspect when no info subcommand is given.
        username: Option<String>,
    },
    /// Remove an account and its Salyut-managed data.
    Delete {
        username: String,
        /// Confirm deletion of the account, home, site, and public profile.
        yes: bool,
    },
    /// Restore the expected Salyut ownership, modes, files, and links.
    Repair { username: String },
}

/// A command about the email addresses of an account.
pub enum UserInfoCommand {
    /// Set the signup and recovery email addresses for an existing account.
    SetEmails { signup: String, recovery: Option<String>, username: String },
}

/// A command about services; about all managed ones when none is named.
pub enum ServiceCommand {
    /// Show systemd state for the managed services.
    Status { services: Vec<String> },
    /// Verify systemd state and application health endpoints.
    Health { services: Vec<String> },
    /// Restart services and verify their health.
    Restart { services: Vec<String> },
}

/// Only the superuser may give commands.
pub fn require_root(effective_user: u32) -> (check: Result<(), Failure>)
    ensures
        match check {
            Ok(()) => effective_user == 0,
            Err(failure) => effective_user != 0 && failure@ == seq![
                "salyut-admin must run as root"@,
            ],
        },
{
    if effective_user == 0 {
        Ok(())
    } else {
        Err(Failure::new("salyut-admin must run as root".to_owned()))
    }
}

/// Ends with the services that some names select.
pub open spec fn selected_script(names: Seq<Seq<char>>) -> Script<Seq<ServiceView>> {
    match services::selection(names) {
        Ok(services) => Script::give(services),
        Err(trail) => Script::end(Ending::Failed(trail)),
    }
}

/// What a command about an account stands for.
pub open spec fn user_script(command: UserCommand) -> Script<()> {
    match command {
        UserCommand::Add { username, ssh_public_key, signup_email, recovery_email } => {
            users::add_script(username@, ssh_public_key@, signup_email@, recovery_email@)
        },
        UserCommand::Info { command: None, username: Some(username) } => users::info_script(
            username@,
        ),
        UserCommand::Info {
            command: Some(UserInfoCommand::SetEmails { signup, recovery, username }),
            username: None,
        } => users::set_emails_script(username@, signup@, recovery.deep_view()),
        UserCommand::Info { command: None, username: None } => Script::refuse(
            "username is required"@,
        ),
        UserCommand::Info { command: Some(_), username: Some(_) } => Script::refuse(
            "username must follow the info subcommand"@,
        ),
        UserCommand::Delete { username, yes } => users::delete_script(username@, yes),
        UserCommand::Repair { username } => users::repair_script(username@),
    }
}

/// What a command about services stands for.
pub open spec fn service_script(command: ServiceCommand) -> Script<()> {
    match command {
        ServiceCommand::Status { services: names } => selected_script(
            names.deep_view(),
        ).and_then(|selected: Seq<ServiceView>| services::status_script(selected)),
        ServiceCommand::Health { services: names } => selected_script(
            names.deep_view(),
        ).and_then(|selected: Seq<ServiceView>| services::health_script(selected)),
        ServiceCommand::Restart { services: names } => selected_script(
            names.deep_view(),
        ).and_then(
            |selected: Seq<ServiceView>|
                services::restart_script(selected).and(services::health_script(selected)),
        ),
    }
}

/// What [`execute`] does.
pub open spec fn execute_script(cli: Cli) -> Script<()> {
    match cli.command {
        TopCommand::User { command } => user_script(command),
        TopCommand::Services { command } => service_script(command),
        TopCommand::Update(arguments) => repositories::update_script(
            arguments.source_root@,
            arguments.repos.deep_view(),
        ),
    }
}

fn execute_user(dialogue: &mut Dialogue, command: &UserCommand) -> (result: Result<(), Stop>)
    ensures
        final(dialogue).tells(result) == user_script(*command).play(old(dialogue).pending()),
{
    match command {
        UserCommand::Add { username, ssh_public_key, signup_email, recovery_email } => {
            users::add(
                dialogue,
                username.as_str(),
                ssh_public_key.as_str(),
                signup_email.as_str(),
                recovery_email.as_str(),
            )
        },
        UserCommand::Info { command, username } => match (command, username) {
            (None, Some(username)) => users::info(dialogue, username.as_str()),
            (Some(UserInfoCommand::SetEmails { signup, recovery, username }), None) => {
                let recovery = match recovery {
                    Some(recovery) => Some(recovery.as_str()),
                    None => None,
                };
                users::set_emails(dialogue, username.as_str(), signup.as_str(), recovery)
            },
            (None, None) => Err(Stop::refuse("username is required".to_owned())),
            (Some(_), Some(_)) => {
                Err(Stop::refuse("username must follow the info subcommand".to_owned()))
            },
        },
        UserCommand::Delete { username, yes } => users::delete(dialogue, username.as_str(), *yes),
        UserCommand::Repair { username } => users::repair(dialogue, username.as_str()),
    }
}

fn execute_service(dialogue: &mut Dialogue, command: &ServiceCommand) -> (result: Result<(), Stop>)
    ensures
        final(dialogue).tells(result) == service_script(*command).play(old(dialogue).pending()),
{
    match command {
        ServiceCommand::Status { services: names } => match services::select(names.as_slice()) {
            Ok(selected) => services::status(dialogue, selected.as_slice()),
            Err(failure) => Err(Stop::Failed(failure)),
        },
        ServiceCommand::Health { services: names } => match services::select(names.as_slice()) {
            Ok(selected) => services::health(dialogue, selected.as_slice()),
            Err(failure) => Err(Stop::Failed(failure)),
        },
        ServiceCommand::Restart { services: names } => match services::select(names.as_slice()) {
            Ok(selected) => {
                services::restart(dialogue, selected.as_slice())?;
                services::health(dialogue, selected.as_slice())
            },
            Err(failure) => Err(Stop::Failed(failure)),
        },
    }
}

/// Carries out a command.
pub fn execute(dialogue: &mut Dialogue, cli: &Cli) -> (result: Result<(), Stop>)
    ensures
        final(dialogue).tells(result) == execute_script(*cli).play(old(dialogue).pending()),
{
    match &cli.command {
        TopCommand::User { command } => execute_user(dialogue, command),
        TopCommand::Services { command } => execute_service(dialogue, command),
        TopCommand::Update(arguments) => repositories::update(dialogue, arguments),
    }
}

} // verus!
