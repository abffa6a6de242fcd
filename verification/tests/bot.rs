use kurumi::bot::{load_config, load_token, Bot};
use kurumi::commands::general::PingCommand;
use kurumi::events::Handler;
use kurumi::framework::command_handler::Routing;
use kurumi::framework::context::{bot_name, embed_content};
use kurumi::framework::Framework;
use kurumi::models::{BotConfig, InboundMessage};
use kurumi::utils::constants::{
    BOT_NAME, DEFAULT_COLOR, DEFAULT_COMPONENT_TIMEOUT, DEFAULT_PREFIX, ERROR_COLOR,
    LOG_DATE_FORMAT, PAGINATION_MAX_ITEMS, SUCCESS_COLOR, WARNING_COLOR,
};
use kurumi::utils::helpers::{
    embed, error_embed, info_embed, is_owner, success_embed, warning_embed,
};

fn message(content: &str) -> InboundMessage {
    InboundMessage {
        content: content.to_string(),
        channel_id: 3,
        author_id: 4,
        author_tag: "asker#0042".to_string(),
        author_is_bot: false,
        guild_id: None,
        member_permissions: None,
    }
}

#[test]
fn token_comes_from_the_environment_first() {
    assert_eq!(
        load_token(Some(" abc ".to_string()), Some("from file".to_string())),
        Ok(" abc ".to_string())
    );
    assert_eq!(load_token(Some("abc".to_string()), None), Ok("abc".to_string()));
}

#[test]
fn token_from_the_file_is_trimmed() {
    assert_eq!(load_token(None, Some("  abc.def\n".to_string())), Ok("abc.def".to_string()));
    assert_eq!(load_token(None, Some(String::new())), Ok(String::new()));
}

#[test]
fn missing_token_is_an_error() {
    assert_eq!(
        load_token(None, None),
        Err("Discord token not found. Set the DISCORD_TOKEN environment variable or create a .token file.".to_string())
    );
}

#[test]
fn load_config_never_fails() {
    let config = load_config(None).expect("the default is used");
    assert_eq!(config.prefix, "!");
    let mut loaded = BotConfig::default();
    loaded.prefix = "$".to_string();
    let config = load_config(Some(loaded)).expect("the loaded one is used");
    assert_eq!(config.prefix, "$");
}

#[test]
fn bot_routes_with_the_configured_prefix() {
    let mut config = BotConfig::default();
    config.prefix = "k!".to_string();
    let routing_config = config.clone();
    let bot = Bot::new("token".to_string(), config);
    assert!(bot.refused().is_empty());
    let bot = bot.register_command(PingCommand);
    assert!(bot.refused().is_empty());
    let bot = bot.register_command(PingCommand).register_command(PingCommand);
    assert_eq!(bot.refused(), &vec!["ping".to_string(), "ping".to_string()]);
    let assembly = bot.start();
    assert_eq!(assembly.token, "token");
    assert_eq!(assembly.config.prefix, "k!");
    assert_eq!(assembly.dispatcher.dispatch_ready().len(), 1);
    let handlers = assembly.dispatcher.dispatch_message();
    assert_eq!(handlers.len(), 1);
    let handler = match handlers[0] {
        Handler::Message(handler) => handler,
        Handler::Ready(_) => panic!("the message handler was expected"),
    };
    assert_eq!(handler.command_handler().command_names(), vec!["ping".to_string()]);
    let msg = message("k!ping");
    assert!(matches!(handler.on_message(&msg, &routing_config), Routing::Execute(_)));
    let msg = message("!ping");
    assert!(matches!(handler.on_message(&msg, &routing_config), Routing::Discard(_)));
}

#[test]
fn framework_registers_everything_that_ships() {
    let mut framework: Framework<PingCommand> = Framework::new();
    assert_eq!(framework.command_handler.len(), 0);
    assert!(framework.event_dispatcher.dispatch_message().is_empty());
    assert!(framework.register_all().is_ok());
    assert_eq!(framework.command_handler.len(), 0);
    assert_eq!(framework.command_handler.prefix(), "!");
    assert_eq!(framework.event_dispatcher.dispatch_ready().len(), 1);
    let handlers = framework.event_dispatcher.dispatch_message();
    assert_eq!(handlers.len(), 1);
    match handlers[0] {
        Handler::Message(handler) => {
            assert_eq!(handler.command_handler().command_names(), vec!["ping".to_string()]);
        }
        Handler::Ready(_) => panic!("the message handler was expected"),
    }
    let shared = framework.arc();
    assert_eq!(shared.event_dispatcher.dispatch_ready().len(), 1);
}

#[test]
fn is_owner_needs_a_configuration() {
    let mut config = BotConfig::default();
    config.owners = vec![42];
    assert!(is_owner(Some(&config), 42));
    assert!(!is_owner(Some(&config), 7));
    assert!(!is_owner(None, 42));
}

#[test]
fn embeds_carry_title_colour_and_footer() {
    let msg = message("!x");
    let e = info_embed(&msg, "Stats", "All good");
    assert_eq!(e.title, "Stats");
    assert_eq!(e.description, "All good");
    assert_eq!(e.color, 0x5865F2);
    assert_eq!(e.footer, "Requested by asker#0042");
    let e = success_embed(&msg, "Done");
    assert_eq!((e.title.as_str(), e.description.as_str(), e.color), ("Success", "Done", 0x57F287));
    assert_eq!(e.footer, "Requested by asker#0042");
    let e = error_embed(&msg, "Failed");
    assert_eq!((e.title.as_str(), e.description.as_str(), e.color), ("Error", "Failed", 0xED4245));
    let e = warning_embed(&msg, "Careful");
    assert_eq!(
        (e.title.as_str(), e.description.as_str(), e.color),
        ("Warning", "Careful", 0xFEE75C)
    );
    let e = embed(&msg, "T", "D", 7);
    assert_eq!((e.title.as_str(), e.description.as_str(), e.color), ("T", "D", 7));
}

#[test]
fn simple_embed_and_bot_name() {
    let e = embed_content("Title", "Text", Some(0x123456));
    assert_eq!(e.title, "Title");
    assert_eq!(e.description, "Text");
    assert_eq!(e.color, Some(0x123456));
    assert_eq!(embed_content("", "", None).color, None);
    assert_eq!(bot_name(Some("Kurumi".to_string())), "Kurumi");
    assert_eq!(bot_name(None), "Unknown Bot");
}

#[test]
fn constants_hold_their_values() {
    assert_eq!(DEFAULT_PREFIX, "!");
    assert_eq!(BOT_NAME, "Kurumi");
    assert_eq!(DEFAULT_COLOR, 0x5865F2);
    assert_eq!(ERROR_COLOR, 0xED4245);
    assert_eq!(SUCCESS_COLOR, 0x57F287);
    assert_eq!(WARNING_COLOR, 0xFEE75C);
    assert_eq!(LOG_DATE_FORMAT, "%Y-%m-%d");
    assert_eq!(PAGINATION_MAX_ITEMS, 10);
    assert_eq!(DEFAULT_COMPONENT_TIMEOUT, 60);
}
