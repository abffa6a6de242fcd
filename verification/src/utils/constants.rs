//! Constants used throughout the library.

use vstd::prelude::*;

verus! {

/// The default command prefix.
pub const DEFAULT_PREFIX: &'static str = "!";

/// Bot name.
pub const BOT_NAME: &'static str = "Kurumi";

/// Default embed color (blurple).
pub const DEFAULT_COLOR: u32 = 0x5865F2;

/// Error embed color (red).
pub const ERROR_COLOR: u32 = 0xED4245;

/// Success embed color (green).
pub const SUCCESS_COLOR: u32 = 0x57F287;

/// Warning embed color (yellow).
pub const WARNING_COLOR: u32 = 0xFEE75C;

/// Log date format for file names.
pub const LOG_DATE_FORMAT: &'static str = "%Y-%m-%d";

/// Maximum items to show in a paginated list.
pub const PAGINATION_MAX_ITEMS: usize = 10;

/// Default timeout for interactive components (in seconds).
pub const DEFAULT_COMPONENT_TIMEOUT: u64 = 60;

} // verus!
