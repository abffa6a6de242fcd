use kurumi::models::config::{
    default_cooldown, default_log_level, default_log_path, default_prefix, default_true,
};
use kurumi::models::{BotConfig, CommandsConfig, LoggingConfig, Permissions};

#[test]
fn defaults_of_the_configuration() {
    let config = BotConfig::default();
    assert_eq!(config.prefix, "!");
    assert!(config.owners.is_empty());
    assert!(config.respond_to_mentions);
    assert!(config.commands.case_insensitive);
    assert!(config.commands.disabled.is_empty());
    assert_eq!(config.commands.cooldown, 3);
    assert_eq!(config.logging.level, "info");
    assert!(!config.logging.file_logging);
    assert_eq!(config.logging.file_path, "logs/bot.log");
}

#[test]
fn defaults_of_the_parts() {
    let commands = CommandsConfig::default();
    assert!(commands.case_insensitive);
    assert!(commands.disabled.is_empty());
    assert_eq!(commands.cooldown, 3);
    let logging = LoggingConfig::default();
    assert_eq!(logging.level, "info");
    assert!(!logging.file_logging);
    assert_eq!(logging.file_path, "logs/bot.log");
}

#[test]
fn default_values_one_by_one() {
    assert_eq!(default_prefix(), "!");
    assert!(default_true());
    assert_eq!(default_cooldown(), 3);
    assert_eq!(default_log_level(), "info");
    assert_eq!(default_log_path(), "logs/bot.log");
}

#[test]
fn owners_are_those_configured() {
    let mut config = BotConfig::default();
    assert!(!config.is_owner(42));
    config.owners = vec![7, 42, 7];
    assert!(config.is_owner(42));
    assert!(config.is_owner(7));
    assert!(!config.is_owner(0));
    assert!(!config.is_owner(43));
}

#[test]
fn loaded_configuration_wins_over_the_default() {
    let mut loaded = BotConfig::default();
    loaded.prefix = "?".to_string();
    loaded.owners = vec![1];
    let config = BotConfig::or_default(Some(loaded));
    assert_eq!(config.prefix, "?");
    assert_eq!(config.owners, vec![1]);
    let config = BotConfig::or_default(None);
    assert_eq!(config.prefix, "!");
    assert!(config.owners.is_empty());
}

#[test]
fn permission_sets_compare_by_flags() {
    let none = Permissions::empty();
    let admin = Permissions::new(1 << 3);
    let both = Permissions::new((1 << 3) | (1 << 1));
    assert!(none.is_empty());
    assert!(!admin.is_empty());
    assert_eq!(none.bits(), 0);
    assert_eq!(both.bits(), 0b1010);
    assert!(both.contains(admin));
    assert!(both.contains(both));
    assert!(both.contains(none));
    assert!(none.contains(none));
    assert!(!admin.contains(both));
    assert!(!none.contains(admin));
    assert!(Permissions::new(u64::MAX).contains(Permissions::new(1 << 63)));
    assert!(!Permissions::new(u64::MAX >> 1).contains(Permissions::new(1 << 63)));
    assert_eq!(Permissions::new(5), Permissions::new(5));
    assert_ne!(Permissions::new(5), Permissions::new(4));
}

#[test]
fn permission_names_come_from_the_platform_table() {
    assert_eq!(Permissions::empty().names(), "");
    assert_eq!(Permissions::new(1 << 3).names(), "Administrator");
    assert_eq!(Permissions::new((1 << 3) | (1 << 2)).names(), "Administrator and Ban Members");
    assert_eq!(
        Permissions::new((1 << 3) | (1 << 2) | (1 << 1)).names(),
        "Administrator, Ban Members and Kick Members"
    );
    assert_ne!(Permissions::new(8).names(), "8");
}
