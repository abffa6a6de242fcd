//! Utility functions and helpers used throughout the library.

pub mod constants;
pub mod helpers;
pub mod text;

// Re-export commonly used utilities
pub use constants::{
    BOT_NAME, DEFAULT_COLOR, DEFAULT_COMPONENT_TIMEOUT, DEFAULT_PREFIX, ERROR_COLOR,
    LOG_DATE_FORMAT, PAGINATION_MAX_ITEMS, SUCCESS_COLOR, WARNING_COLOR,
};
pub use helpers::{
    error_embed, format_duration, format_seconds, info_embed, is_owner, mask_token,
    success_embed, truncate, warning_embed, Embed,
};
