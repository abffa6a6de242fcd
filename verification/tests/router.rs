use kurumi::commands::CommandError;
use kurumi::framework::command_handler::{
    Command, CommandDescriptor, CommandHandler, Discard, Routing,
};
use kurumi::models::{BotConfig, InboundMessage, Permissions};

struct TestCommand {
    name: String,
    aliases: Vec<String>,
    owner_only: bool,
    required: Permissions,
}

impl TestCommand {
    fn named(name: &str) -> Self {
        TestCommand {
            name: name.to_string(),
            aliases: Vec::new(),
            owner_only: false,
            required: Permissions::empty(),
        }
    }

    fn alias(mut self, alias: &str) -> Self {
        self.aliases.push(alias.to_string());
        self
    }

    fn owners_only(mut self) -> Self {
        self.owner_only = true;
        self
    }

    fn needing(mut self, bits: u64) -> Self {
        self.required = Permissions::new(bits);
        self
    }
}

impl Command for TestCommand {
    fn name(&self) -> &str {
        &self.name
    }

    fn aliases(&self) -> Vec<&str> {
        self.aliases.iter().map(|a| a.as_str()).collect()
    }

    fn required_permissions(&self) -> Permissions {
        self.required
    }

    fn owner_only(&self) -> bool {
        self.owner_only
    }
}

fn message(content: &str, author_id: u64) -> InboundMessage {
    InboundMessage {
        content: content.to_string(),
        channel_id: 1,
        author_id,
        author_tag: "someone#0001".to_string(),
        author_is_bot: false,
        guild_id: None,
        member_permissions: None,
    }
}

fn config_with_owners(owners: Vec<u64>) -> BotConfig {
    let mut config = BotConfig::default();
    config.owners = owners;
    config
}

fn a_b_x() -> CommandHandler<TestCommand> {
    let mut handler = CommandHandler::new();
    assert!(handler.register_command(TestCommand::named("a").alias("x")).is_ok());
    assert!(handler.register_command(TestCommand::named("b")).is_ok());
    handler
}

#[test]
fn alias_resolves_to_its_command_whatever_the_case() {
    let handler = a_b_x();
    assert_eq!(handler.get_command("X").map(|c| c.name.as_str()), Some("a"));
    assert_eq!(handler.get_command("x").map(|c| c.name.as_str()), Some("a"));
    assert_eq!(handler.get_command("A").map(|c| c.name.as_str()), Some("a"));
    assert_eq!(handler.get_command("b").map(|c| c.name.as_str()), Some("b"));
    assert_eq!(handler.get_command("B").map(|c| c.name.as_str()), Some("b"));
    assert!(matches!(handler.resolve("X"), Ok(0)));
    assert!(matches!(handler.resolve("b"), Ok(1)));
}

#[test]
fn names_are_stored_in_lowercase() {
    let mut handler = CommandHandler::new();
    assert!(handler.register_command(TestCommand::named("PiNg").alias("P")).is_ok());
    assert_eq!(handler.command_names(), vec!["ping".to_string()]);
    assert_eq!(handler.list()[0].aliases, vec!["p".to_string()]);
    assert_eq!(handler.descriptor(0).name, "ping");
    assert_eq!(handler.command(0).name, "PiNg");
    assert!(matches!(handler.lookup("ping"), Some(0)));
    assert!(matches!(handler.lookup("PiNg"), None));
    assert!(matches!(handler.resolve("PING"), Ok(0)));
    assert!(matches!(handler.resolve("p"), Ok(0)));
}

#[test]
fn unresolved_token_is_not_found_every_time() {
    let handler = a_b_x();
    let mut round = 0;
    while round < 5 {
        assert!(matches!(handler.resolve("nope"), Err(CommandError::NotFound)));
        assert!(handler.get_command("nope").is_none());
        assert_eq!(handler.len(), 2);
        assert_eq!(handler.command_names(), vec!["a".to_string(), "b".to_string()]);
        round += 1;
    }
}

#[test]
fn list_keeps_registration_order() {
    let mut handler = CommandHandler::new();
    for name in ["zeta", "alpha", "mid"] {
        assert!(handler.register_command(TestCommand::named(name)).is_ok());
    }
    assert_eq!(
        handler.command_names(),
        vec!["zeta".to_string(), "alpha".to_string(), "mid".to_string()]
    );
    let listed: Vec<&str> = handler.list().iter().map(|d| d.name.as_str()).collect();
    assert_eq!(listed, vec!["zeta", "alpha", "mid"]);
    assert_eq!(handler.len(), 3);
}

#[test]
fn a_name_in_use_is_refused_and_nothing_changes() {
    let mut handler = a_b_x();
    let err = handler.register_command(TestCommand::named("A").alias("fresh")).unwrap_err();
    assert_eq!(err.key, "a");
    assert_eq!(handler.len(), 2);
    assert!(handler.get_command("fresh").is_none());
    assert_eq!(handler.get_command("a").map(|c| c.aliases.len()), Some(1));
}

#[test]
fn a_name_that_is_an_alias_already_is_refused() {
    let mut handler = a_b_x();
    let err = handler.register_command(TestCommand::named("X")).unwrap_err();
    assert_eq!(err.key, "x");
    assert_eq!(handler.get_command("x").map(|c| c.name.as_str()), Some("a"));
}

#[test]
fn an_alias_in_use_is_refused_with_the_first_such_alias() {
    let mut handler = a_b_x();
    let err = handler
        .register_command(TestCommand::named("c").alias("fine").alias("B").alias("x"))
        .unwrap_err();
    assert_eq!(err.key, "b");
    assert_eq!(handler.len(), 2);
    assert!(handler.get_command("c").is_none());
    assert!(handler.get_command("fine").is_none());
}

#[test]
fn a_descriptor_that_repeats_itself_is_refused() {
    let mut handler: CommandHandler<TestCommand> = CommandHandler::new();
    let err = handler.register_command(TestCommand::named("c").alias("C")).unwrap_err();
    assert_eq!(err.key, "c");
    let err = handler
        .register_command(TestCommand::named("d").alias("e").alias("E"))
        .unwrap_err();
    assert_eq!(err.key, "e");
    assert_eq!(handler.len(), 0);
    assert!(handler.register_command(TestCommand::named("d").alias("e")).is_ok());
    assert_eq!(handler.len(), 1);
}

#[test]
fn register_takes_a_descriptor_and_any_payload() {
    let mut handler: CommandHandler<u32> = CommandHandler::new();
    let descriptor = CommandDescriptor {
        name: "Echo".to_string(),
        description: "Says it again".to_string(),
        usage: "echo <text>".to_string(),
        aliases: vec!["SAY".to_string()],
        required_permissions: Permissions::new(8),
        owner_only: true,
    };
    assert!(handler.register(descriptor, 77).is_ok());
    assert_eq!(handler.get_command("say"), Some(&77));
    let stored = handler.descriptor(0);
    assert_eq!(stored.name, "echo");
    assert_eq!(stored.description, "Says it again");
    assert_eq!(stored.usage, "echo <text>");
    assert_eq!(stored.aliases, vec!["say".to_string()]);
    assert_eq!(stored.required_permissions, Permissions::new(8));
    assert!(stored.owner_only);
}

#[test]
fn descriptor_reads_the_defaults_of_the_trait() {
    let d = CommandDescriptor::of(&TestCommand::named("Only").alias("O"));
    assert_eq!(d.name, "Only");
    assert_eq!(d.description, "");
    assert_eq!(d.usage, "");
    assert_eq!(d.aliases, vec!["O".to_string()]);
    assert!(d.required_permissions.is_empty());
    assert!(!d.owner_only);
    let n = d.normalize();
    assert_eq!(n.name, "only");
    assert_eq!(n.aliases, vec!["o".to_string()]);
}

#[test]
fn prefix_defaults_to_bang_and_can_be_set() {
    let handler: CommandHandler<TestCommand> = CommandHandler::new();
    assert_eq!(handler.prefix(), "!");
    let handler = handler.with_prefix("k?".to_string());
    assert_eq!(handler.prefix(), "k?");
}

#[test]
fn message_without_prefix_invokes_nothing() {
    let mut handler = CommandHandler::new();
    assert!(handler.register_command(TestCommand::named("ping")).is_ok());
    let config = BotConfig::default();
    for content in ["ping", " !ping", "hello !ping", "", "?ping", "p!ing"] {
        let msg = message(content, 1);
        assert!(
            matches!(handler.handle_message(&msg, &config), Routing::Discard(Discard::NoPrefix)),
            "content {:?}",
            content
        );
    }
}

#[test]
fn upper_case_command_with_spread_out_arguments() {
    let mut handler = CommandHandler::new();
    assert!(handler.register_command(TestCommand::named("ping")).is_ok());
    let config = BotConfig::default();
    let msg = message("!PING  extra   args", 1);
    match handler.handle_message(&msg, &config) {
        Routing::Execute(invocation) => {
            assert_eq!(invocation.command, 0);
            assert_eq!(invocation.name, "ping");
            assert_eq!(invocation.context.args, vec!["extra".to_string(), "args".to_string()]);
            assert_eq!(invocation.context.msg.content, "!PING  extra   args");
            assert_eq!(invocation.context.config.prefix, "!");
            assert_eq!(handler.command(invocation.command).name, "ping");
        }
        other => panic!("not executed: {:?}", other),
    }
}

#[test]
fn arguments_keep_their_case() {
    let mut handler = CommandHandler::new();
    assert!(handler.register_command(TestCommand::named("say").alias("S")).is_ok());
    let config = BotConfig::default();
    let msg = message("!s Hello WORLD\tÄb\n", 1);
    match handler.handle_message(&msg, &config) {
        Routing::Execute(invocation) => {
            assert_eq!(invocation.name, "say");
            assert_eq!(
                invocation.context.args,
                vec!["Hello".to_string(), "WORLD".to_string(), "Äb".to_string()]
            );
        }
        other => panic!("not executed: {:?}", other),
    }
}

#[test]
fn bot_authors_are_discarded_first() {
    let mut handler = CommandHandler::new();
    assert!(handler.register_command(TestCommand::named("ping")).is_ok());
    let config = BotConfig::default();
    let mut msg = message("!ping", 1);
    msg.author_is_bot = true;
    assert!(matches!(handler.handle_message(&msg, &config), Routing::Discard(Discard::BotAuthor)));
    let mut msg = message("no prefix", 1);
    msg.author_is_bot = true;
    assert!(matches!(handler.handle_message(&msg, &config), Routing::Discard(Discard::BotAuthor)));
}

#[test]
fn prefix_alone_is_an_empty_command() {
    let mut handler = CommandHandler::new();
    assert!(handler.register_command(TestCommand::named("ping")).is_ok());
    let config = BotConfig::default();
    for content in ["!", "!   ", "!\t\n", "!\u{a0}"] {
        let msg = message(content, 1);
        assert!(
            matches!(
                handler.handle_message(&msg, &config),
                Routing::Discard(Discard::EmptyCommand)
            ),
            "content {:?}",
            content
        );
    }
}

#[test]
fn unknown_command_is_discarded_as_not_found() {
    let mut handler = CommandHandler::new();
    assert!(handler.register_command(TestCommand::named("ping")).is_ok());
    let config = BotConfig::default();
    for content in ["!pong", "!pin g", "!pingg", "!?ping"] {
        let msg = message(content, 1);
        assert!(
            matches!(handler.handle_message(&msg, &config), Routing::Discard(Discard::NotFound)),
            "content {:?}",
            content
        );
    }
}

#[test]
fn repeated_prefix_is_part_of_the_command_word() {
    let mut handler = CommandHandler::new();
    assert!(handler.register_command(TestCommand::named("ping")).is_ok());
    let config = BotConfig::default();
    for content in ["!!ping", "!!!ping now", "!!", "!!! "] {
        let msg = message(content, 1);
        assert!(
            matches!(handler.handle_message(&msg, &config), Routing::Discard(Discard::NotFound)),
            "content {:?}",
            content
        );
    }
    assert!(handler.register_command(TestCommand::named("!ping")).is_ok());
    match handler.handle_message(&message("!!PING x", 1), &config) {
        Routing::Execute(invocation) => {
            assert_eq!(invocation.command, 1);
            assert_eq!(invocation.name, "!ping");
            assert_eq!(invocation.context.args, vec!["x".to_string()]);
        }
        other => panic!("not executed: {:?}", other),
    }
}

#[test]
fn space_after_the_prefix_still_routes() {
    let mut handler = CommandHandler::new();
    assert!(handler.register_command(TestCommand::named("ping")).is_ok());
    let config = BotConfig::default();
    for content in ["! ping", "!\u{3000}ping", "!\tPING  a"] {
        let msg = message(content, 1);
        assert!(
            matches!(handler.handle_message(&msg, &config), Routing::Execute(_)),
            "content {:?}",
            content
        );
    }
}

#[test]
fn longer_prefix_is_matched_whole() {
    let mut handler = CommandHandler::new().with_prefix("k!".to_string());
    assert!(handler.register_command(TestCommand::named("ping")).is_ok());
    let config = BotConfig::default();
    assert!(matches!(
        handler.handle_message(&message("k!ping", 1), &config),
        Routing::Execute(_)
    ));
    assert!(matches!(
        handler.handle_message(&message("k!k!ping", 1), &config),
        Routing::Discard(Discard::NotFound)
    ));
    assert!(matches!(
        handler.handle_message(&message("k!kping", 1), &config),
        Routing::Discard(Discard::NotFound)
    ));
    assert!(matches!(
        handler.handle_message(&message("kping", 1), &config),
        Routing::Discard(Discard::NoPrefix)
    ));
    assert!(matches!(
        handler.handle_message(&message("!ping", 1), &config),
        Routing::Discard(Discard::NoPrefix)
    ));
}

#[test]
fn empty_prefix_makes_every_message_a_candidate() {
    let mut handler = CommandHandler::new().with_prefix(String::new());
    assert!(handler.register_command(TestCommand::named("ping")).is_ok());
    let config = BotConfig::default();
    assert!(matches!(
        handler.handle_message(&message("ping 1 2", 1), &config),
        Routing::Execute(_)
    ));
    assert!(matches!(
        handler.handle_message(&message("", 1), &config),
        Routing::Discard(Discard::EmptyCommand)
    ));
    assert!(matches!(
        handler.handle_message(&message("other", 1), &config),
        Routing::Discard(Discard::NotFound)
    ));
}

#[test]
fn owner_only_command_runs_for_owner_and_rejects_others() {
    let mut handler = CommandHandler::new();
    assert!(handler.register_command(TestCommand::named("shutdown").owners_only()).is_ok());
    let config = config_with_owners(vec![42]);
    let by_owner = message("!shutdown", 42);
    assert!(matches!(handler.handle_message(&by_owner, &config), Routing::Execute(_)));
    let by_other = message("!shutdown now", 7);
    match handler.handle_message(&by_other, &config) {
        Routing::Reject { command, error } => {
            assert_eq!(command, 0);
            assert!(matches!(error, CommandError::MissingPermissions(p) if p.is_empty()));
        }
        other => panic!("not rejected: {:?}", other),
    }
    let nobody = config_with_owners(Vec::new());
    assert!(matches!(handler.handle_message(&by_owner, &nobody), Routing::Reject { .. }));
}

#[test]
fn required_permissions_are_checked_in_guilds_only() {
    let mut handler = CommandHandler::new();
    assert!(handler.register_command(TestCommand::named("ban").needing(0b100)).is_ok());
    let config = BotConfig::default();

    let direct = message("!ban", 5);
    assert!(matches!(handler.handle_message(&direct, &config), Routing::Execute(_)));

    let mut allowed = message("!ban someone", 5);
    allowed.guild_id = Some(9);
    allowed.member_permissions = Some(Permissions::new(0b1110));
    assert!(matches!(handler.handle_message(&allowed, &config), Routing::Execute(_)));

    let mut short = message("!ban someone", 5);
    short.guild_id = Some(9);
    short.member_permissions = Some(Permissions::new(0b1010));
    match handler.handle_message(&short, &config) {
        Routing::Reject { command, error } => {
            assert_eq!(command, 0);
            assert!(matches!(error, CommandError::MissingPermissions(p) if p.bits() == 0b100));
        }
        other => panic!("not rejected: {:?}", other),
    }
}

#[test]
fn unknown_permissions_are_fetched_and_the_answer_decides() {
    let mut handler = CommandHandler::new();
    assert!(handler.register_command(TestCommand::named("ban").needing(0b100)).is_ok());
    let config = BotConfig::default();
    let mut msg = message("!ban a b", 5);
    msg.guild_id = Some(9);

    let pending = |handler: &CommandHandler<TestCommand>| match handler.handle_message(&msg, &config)
    {
        Routing::Fetch { invocation, guild_id, user_id } => {
            assert_eq!(guild_id, 9);
            assert_eq!(user_id, 5);
            assert_eq!(invocation.command, 0);
            assert_eq!(invocation.context.args, vec!["a".to_string(), "b".to_string()]);
            invocation
        }
        other => panic!("not waiting: {:?}", other),
    };

    match handler.resume(pending(&handler), Ok(Some(Permissions::new(0b111)))) {
        Routing::Execute(invocation) => {
            assert_eq!(invocation.name, "ban");
            assert_eq!(invocation.context.args, vec!["a".to_string(), "b".to_string()]);
        }
        other => panic!("not executed: {:?}", other),
    }
    assert!(matches!(
        handler.resume(pending(&handler), Ok(Some(Permissions::new(0b011)))),
        Routing::Reject { command: 0, error: CommandError::MissingPermissions(p) } if p.bits() == 0b100
    ));
    assert!(matches!(handler.resume(pending(&handler), Ok(None)), Routing::Execute(_)));
    assert!(matches!(
        handler.resume(pending(&handler), Err("gateway closed".to_string())),
        Routing::Reject { command: 0, error: CommandError::SerenityError(reason) } if reason == "gateway closed"
    ));
}

#[test]
fn owner_check_comes_before_the_permission_fetch() {
    let mut handler = CommandHandler::new();
    assert!(handler
        .register_command(TestCommand::named("purge").owners_only().needing(0b1000))
        .is_ok());
    let config = config_with_owners(vec![42]);
    let mut msg = message("!purge", 7);
    msg.guild_id = Some(9);
    assert!(matches!(
        handler.handle_message(&msg, &config),
        Routing::Reject { error: CommandError::MissingPermissions(p), .. } if p.is_empty()
    ));
    let mut msg = message("!purge", 42);
    msg.guild_id = Some(9);
    assert!(matches!(handler.handle_message(&msg, &config), Routing::Fetch { .. }));
}

#[test]
fn a_failed_command_is_recorded_and_goes_no_further() {
    let mut handler = CommandHandler::new();
    assert!(handler.register_command(TestCommand::named("ping")).is_ok());
    let config = BotConfig::default();
    let msg = message("!ping", 1);
    let invocation = match handler.handle_message(&msg, &config) {
        Routing::Execute(invocation) => invocation,
        other => panic!("not executed: {:?}", other),
    };
    let done = invocation.finish(Ok(()));
    assert_eq!(done.command, "ping");
    assert_eq!(done.error, None);
    let failed = invocation.finish(Err(CommandError::ExecutionError("boom".to_string())));
    assert_eq!(failed.command, "ping");
    assert_eq!(failed.error, Some("Error executing command: boom".to_string()));
    assert!(matches!(handler.handle_message(&message("!ping", 2), &config), Routing::Execute(_)));
}
