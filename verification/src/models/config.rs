//! Configuration models for the bot.

use vstd::prelude::*;

verus! {

/// Main configuration for the bot.
#[derive(Clone, Debug)]
pub struct BotConfig {
    /// Command-specific configuration.
    pub commands: CommandsConfig,
    /// Logging-specific configuration.
    pub logging: LoggingConfig,
    /// Default command prefix.
    pub prefix: String,
    /// Owner user IDs who have special permissions.
    pub owners: Vec<u64>,
    /// Whether to respond to mentions.
    pub respond_to_mentions: bool,
}

/// Configuration for command handling.
#[derive(Clone, Debug)]
pub struct CommandsConfig {
    /// Whether to enable case-insensitive commands.
    pub case_insensitive: bool,
    /// List of disabled commands.
    pub disabled: Vec<String>,
    /// Command cooldown in seconds.
    pub cooldown: u64,
}

/// Configuration for logging.
#[derive(Clone, Debug)]
pub struct LoggingConfig {
    /// Log level (trace, debug, info, warn, error).
    pub level: String,
    /// Whether to log to file.
    pub file_logging: bool,
    /// Log file path.
    pub file_path: String,
}

impl BotConfig {
    /// What every field holds when nothing was configured.
    pub open spec fn is_default(&self) -> bool {
        &&& self.commands.is_default()
        &&& self.logging.is_default()
        &&& self.prefix@ == "!"@
        &&& self.owners@ == Seq::<u64>::empty()
        &&& self.respond_to_mentions
    }

    /// Whether `user_id` is one of the configured owners.
    pub fn is_owner(&self, user_id: u64) -> (b: bool)
        ensures
            b == self.owners@.contains(user_id),
    {
        let mut i: usize = 0;
        while i < self.owners.len()
            invariant
                i <= self.owners.len(),
                forall|j: int| 0 <= j < i ==> self.owners@[j] != user_id,
            decreases self.owners.len() - i,
        {
            if self.owners[i] == user_id {
                return true;
            }
            i += 1;
        }
        false
    }

    /// The configuration that was loaded, or the default one where loading
    /// failed.
    pub fn or_default(loaded: Option<BotConfig>) -> (config: BotConfig)
        ensures
            match loaded {
                Some(c) => config == c,
                None => config.is_default(),
            },
    {
        match loaded {
            Some(c) => c,
            None => BotConfig::default(),
        }
    }
}

impl CommandsConfig {
    /// What every field holds when nothing was configured.
    pub open spec fn is_default(&self) -> bool {
        &&& self.case_insensitive
        &&& self.disabled@ == Seq::<String>::empty()
        &&& self.cooldown == 3
    }
}

impl LoggingConfig {
    /// What every field holds when nothing was configured.
    pub open spec fn is_default(&self) -> bool {
        &&& self.level@ == "info"@
        &&& !self.file_logging
        &&& self.file_path@ == "logs/bot.log"@
    }
}

impl Default for BotConfig {
    fn default() -> (config: Self)
        ensures
            config.is_default(),
    {
        Self {
            commands: CommandsConfig::default(),
            logging: LoggingConfig::default(),
            prefix: default_prefix(),
            owners: Vec::new(),
            respond_to_mentions: true,
        }
    }
}

impl Default for CommandsConfig {
    fn default() -> (config: Self)
        ensures
            config.is_default(),
    {
        Self { case_insensitive: true, disabled: Vec::new(), cooldown: default_cooldown() }
    }
}

impl Default for LoggingConfig {
    fn default() -> (config: Self)
        ensures
            config.is_default(),
    {
        Self { level: default_log_level(), file_logging: false, file_path: default_log_path() }
    }
}

/// The prefix used when none is configured.
pub fn default_prefix() -> (s: String)
    ensures
        s@ == "!"@,
{
    "!".to_string()
}

/// The value of the switches that are on unless configured otherwise.
pub fn default_true() -> (b: bool)
    ensures
        b,
{
    true
}

/// The cooldown, in seconds, used when none is configured.
pub fn default_cooldown() -> (n: u64)
    ensures
        n == 3,
{
    3
}

/// The log level used when none is configured.
pub fn default_log_level() -> (s: String)
    ensures
        s@ == "info"@,
{
    "info".to_string()
}

/// The log file path used when none is configured.
pub fn default_log_path() -> (s: String)
    ensures
        s@ == "logs/bot.log"@,
{
    "logs/bot.log".to_string()
}

} // verus!
