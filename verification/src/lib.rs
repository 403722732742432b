//! Keeping bots out of chat groups.
//!
//! The crate decides what a doorkeeper bot does with each inbound chat event: whom
//! to challenge on joining, whether a pressed challenge button proves its presser
//! human, which records to persist and which messages to tidy away. It performs no
//! I/O itself. Every decision is returned as a list of [`Action`]s for the caller
//! to carry out against the chat service and the member table.
//!
//! [`dispatch`] is the entry point. It reads the member table through a
//! [`MemberStore`], which a caller fills with the records of the members that
//! [`members_to_look_up`] names for the event at hand.

pub mod action;
pub mod commands;
pub mod dispatcher;
pub mod event;
pub mod issuer;
pub mod resolver;
pub mod store;
pub mod token;

pub use crate::action::{Action, FailurePolicy, MessageHandle};
pub use crate::dispatcher::{dispatch, members_to_look_up};
pub use crate::event::Event;
pub use crate::store::{get_chatter_by_id, Chatter, MemberStore};
