//! The decisions of a chat bot, backend-neutral and for Slack, with no I/O of
//! their own.
//!
//! - [`config`]: the neutral config, with its defaults.
//! - [`access`]: who may make the bot take a turn, where, and the cap on bot
//!   loops.
//! - [`event`]: the neutral messages and reactions that a backend delivers.
//! - [`engine`]: whether to answer a message, what it asks for, and what a turn
//!   or a command replies; [`engine_laws`] holds what is true of these together.
//! - [`commands`]: the `!`-commands; [`command_laws`] holds what is true of them.
//! - [`memory`] and [`meta`]: conversation ids, the system prompt, the owner and
//!   the model of a conversation.
//! - [`tools`]: the skills on offer, and the sandbox a channel's tools run in;
//!   [`tool_laws`] holds what is true of how they are read and told.
//! - [`backend`] and [`bot`]: what a backend reports, and the bot to run.
//! - [`slack`]: the Slack backend: its protocol, its Web API calls, and Markdown
//!   rendered into Block Kit.
//! - [`text`] and [`json`]: the values all of this is stated over; [`text_laws`]
//!   holds what is true of the string primitives.
pub mod access;
pub mod backend;
pub mod bot;
pub mod command_laws;
pub mod commands;
pub mod config;
pub mod engine;
pub mod engine_laws;
pub mod event;
pub mod json;
pub mod memory;
pub mod meta;
pub mod slack;
pub mod text;
pub mod text_laws;
pub mod tool_laws;
pub mod tools;
