//! Event dispatch and command routing for a chat bot.
//!
//! The crate holds the decisions of the bot: how a message becomes a command
//! invocation, which handlers an event reaches, and who may run what. Talking
//! to the chat platform is left to the program that embeds it.

pub mod bot;
pub mod commands;
pub mod events;
pub mod framework;
pub mod models;
pub mod utils;
