//! Scheduling core of a chat-notification service.
//!
//! The service keeps any number of repeating broadcast jobs. Each job sends
//! its current text, with its buttons, to its destinations once per
//! interval; jobs are created, listed and cancelled while the service runs.
//!
//! - [`schedule`]: job specifications and the registry of running jobs,
//!   with the laws of the registry.
//! - [`job`]: the event loop of one job as a step function, with the laws of
//!   the loop.
//! - [`handler`] and [`buttons`]: the rules of the conversation with an
//!   admin that configures a job.
//! - [`runtime`] and [`config`]: who may use the bot.
//! - [`number`], [`text`], [`idlist`], [`readback`], [`keyboard`]: numbers
//!   in decimal notation, pieces of text, sorted lists, and button layouts.
//! - [`channel`] and [`matching`]: what the library takes on trust from
//!   `tokio`, `regex` and `url`.
//!
//! The library decides and computes; it does not wait, send or store. A
//! program around it waits for events, performs the actions that the
//! library asks for, and puts the registry behind a lock if it shares it.

pub mod buttons;
pub mod channel;
pub mod config;
pub mod handler;
pub mod idlist;
pub mod job;
pub mod keyboard;
pub mod matching;
pub mod number;
pub mod readback;
pub mod runtime;
pub mod schedule;
pub mod text;

pub use config::Config;
pub use runtime::{BotRuntime, Whitelist};
