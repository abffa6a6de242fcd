//! Data models and structures used throughout the library.

pub mod config;
pub mod message;
pub mod permissions;

pub use config::{BotConfig, CommandsConfig, LoggingConfig};
pub use message::InboundMessage;
pub use permissions::Permissions;
