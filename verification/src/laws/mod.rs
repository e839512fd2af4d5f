//! What holds of the operations as a whole, for all inputs and all replies.
pub mod accounts;
pub mod belongings;
pub mod causality;
pub mod commands;
pub mod conversation;
pub mod emails;
pub mod faults;
pub mod fleet;
pub mod furnishing;
pub mod names;
pub mod passwords;
pub mod scope;
pub mod steps;
pub mod updates;
pub mod words;
