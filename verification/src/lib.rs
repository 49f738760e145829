//! The decisions of a changelog bot: what a pull request's text says, which
//! events lead to work, when the work starts and what each step of it does next.

pub mod body;
pub mod body_laws;
pub mod entry;
pub mod events;
pub mod logs;
pub mod manager;
pub mod pull_request;
pub mod push;
pub mod run;
pub mod text;
