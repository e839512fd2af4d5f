//! Root administration of a shared machine: accounts are added, inspected,
//! changed, repaired and deleted, services are shown, checked and restarted, and
//! source repositories are updated.
//!
//! Nothing here touches the machine. An operation is a function that takes a
//! [`dialogue`](dialogue::Dialogue) and asks it for whatever only a host can do:
//! run a program, open a file, send a request over the network. Where the reply
//! is not there yet, the operation stops with the [request](request::Request);
//! the host answers it and calls the operation again with one reply more.
//!
//! What an operation does is stated as a [script](script::Script): a function
//! from the replies received so far to what is asked next, or to how it all
//! ended. Every operation is proved to follow its script, and what holds of the
//! scripts for all inputs and all replies is proved in [`laws`].
pub mod cli;
pub mod dialogue;
pub mod encoding;
pub mod failure;
pub mod laws;
pub mod path;
pub mod process;
pub mod provision;
pub mod repositories;
pub mod request;
pub mod script;
pub mod services;
pub mod text;
pub mod users;
