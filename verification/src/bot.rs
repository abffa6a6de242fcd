//! The bot: a token, a configuration and the commands, put together before
//! the connection is made.

use vstd::prelude::*;
use crate::events::{register_events, Handler, ReadyHandler};
use crate::framework::command_handler::{
    added_if_fresh, registration, Command, CommandHandler, CommandHandlerView, DescriptorView,
};
use crate::framework::registry::{all_fresh, first_collision, reports, strings_view};
use crate::framework::event_handler::EventDispatcher;
use crate::models::config::BotConfig;
use crate::utils::text::{trim, trimmed};

verus! {

/// The main bot structure.
pub struct Bot<C> {
    /// The token used for authentication.
    token: String,
    /// The bot's configuration.
    config: BotConfig,
    /// The command handler for processing commands.
    command_handler: CommandHandler<C>,
    /// For every command that was refused at registration, in the order they
    /// were offered, the name or alias that was in use already.
    refused: Vec<String>,
}

/// What becomes of a bot's command handler and of its record of refused
/// registrations when a command that reports `d` of itself is offered.
///
/// Where the lowercase keys of `d` are all fresh, the command is appended
/// under the normalized descriptor and the record stays. Otherwise the command
/// handler stays as it was and the first key that was in use is appended to the
/// record.
pub open spec fn offered<C>(
    before: CommandHandlerView<C>,
    after: CommandHandlerView<C>,
    refused_before: Seq<Seq<char>>,
    refused_after: Seq<Seq<char>>,
    d: DescriptorView,
    command: C,
) -> bool {
    let keys = d.normalized().keys();
    &&& added_if_fresh(before, after, d, command)
    &&& all_fresh(before.descriptors, keys) <==> first_collision(before.descriptors, keys) is None
    &&& refused_after == match first_collision(before.descriptors, keys) {
        Some(j) => refused_before.push(keys[j]),
        None => refused_before,
    }
}

/// What a [`Bot`] is made of, ready for the connection: the token, the
/// configuration, and the dispatcher with the handlers that ship with the
/// library.
pub struct Assembly<C> {
    /// The token used for authentication.
    pub token: String,
    /// The bot's configuration.
    pub config: BotConfig,
    /// The dispatcher that the connection delivers events to.
    pub dispatcher: EventDispatcher<Handler<C>>,
}

impl<C> Bot<C> {
    /// The token used for authentication.
    pub closed spec fn token(&self) -> Seq<char> {
        self.token@
    }

    /// The bot's configuration.
    pub closed spec fn config(&self) -> BotConfig {
        self.config
    }

    /// The command handler for processing commands.
    pub closed spec fn command_handler(&self) -> CommandHandler<C> {
        self.command_handler
    }

    /// The record of refused registrations: for every command that was refused,
    /// in the order they were offered, the first of its lowercase keys that
    /// was in use already.
    pub closed spec fn refused_keys(&self) -> Seq<Seq<char>> {
        strings_view(self.refused@)
    }

    /// The command handler holds its invariant.
    pub open spec fn wf(&self) -> bool {
        self.command_handler().wf()
    }

    /// Create a new Bot instance: no command yet, and the prefix of the
    /// configuration as the command prefix.
    pub fn new(token: String, config: BotConfig) -> (bot: Self)
        ensures
            bot.wf(),
            bot.token() == token@,
            bot.config() == config,
            bot.command_handler()@.commands.len() == 0,
            bot.command_handler()@.descriptors.len() == 0,
            bot.command_handler()@.prefix == config.prefix@,
            bot.refused_keys().len() == 0,
    {
        let command_handler = CommandHandler::new().with_prefix(config.prefix.clone());
        Self { token, config, command_handler, refused: Vec::new() }
    }

    /// The record of refused registrations: see [`Bot::refused_keys`].
    pub fn refused(&self) -> (keys: &Vec<String>)
        ensures
            strings_view(keys@) == self.refused_keys(),
    {
        &self.refused
    }

    /// Register a command with the bot, under the metadata it reports of
    /// itself. The command is added to the command handler where its
    /// lowercase name and aliases are all fresh. A command with a name or
    /// alias that is in use already is left out: the command handler stays as
    /// it was, and the first key that was in use is put on record, see
    /// [`Bot::refused`] and [`offered`].
    pub fn register_command(self, command: C) -> (bot: Self) where C: Command
        requires
            self.wf(),
        ensures
            bot.wf(),
            bot.token() == self.token(),
            bot.config() == self.config(),
            exists|d: DescriptorView|
                reports(&command, d) && #[trigger] offered(
                    self.command_handler()@,
                    bot.command_handler()@,
                    self.refused_keys(),
                    bot.refused_keys(),
                    d,
                    command,
                ),
    {
        let mut bot = self;
        let ghost before = bot.command_handler@;
        let ghost refused_before = bot.refused_keys();
        let r = bot.command_handler.register_command(command);
        let ghost d = choose|d: DescriptorView|
            reports(&command, d) && #[trigger] registration(
                before,
                bot.command_handler@,
                d,
                command,
                r,
            );
        match r {
            Ok(()) => {},
            Err(e) => {
                bot.refused.push(e.key);
            },
        }
        proof {
            let keys = d.normalized().keys();
            assert(added_if_fresh(before, bot.command_handler@, d, command));
            match first_collision(before.descriptors, keys) {
                Some(j) => {
                    assert(bot.refused_keys() =~= refused_before.push(keys[j]));
                },
                None => {
                    assert(bot.refused_keys() =~= refused_before);
                },
            }
            assert(offered(
                before,
                bot.command_handler@,
                refused_before,
                bot.refused_keys(),
                d,
                command,
            ));
        }
        bot
    }

    /// The first step of starting the bot: the event dispatcher is made, and
    /// the ready handler and a message handler around the bot's command
    /// handler are registered with it.
    pub fn start(self) -> (assembly: Assembly<C>)
        requires
            self.wf(),
        ensures
            assembly.token@ == self.token(),
            assembly.config == self.config(),
            assembly.dispatcher.wf(),
            assembly.dispatcher.handlers("ready"@).len() == 1,
            assembly.dispatcher.handlers("ready"@)[0] == Handler::<C>::Ready(ReadyHandler),
            assembly.dispatcher.handlers("message"@).len() == 1,
            assembly.dispatcher.handlers("message"@)[0] matches Handler::Message(h) && h.router()
                == self.command_handler(),
            forall|t: Seq<char>|
                t != "ready"@ && t != "message"@ ==> (#[trigger] assembly.dispatcher.handlers(
                    t,
                )).len() == 0,
    {
        let Bot { token, config, command_handler, refused: _ } = self;
        let mut dispatcher = EventDispatcher::new();
        register_events(&mut dispatcher, command_handler);
        Assembly { token, config, dispatcher }
    }
}

/// The text of the error that reports a missing token.
pub open spec fn token_not_found() -> Seq<char> {
    "Discord token not found. Set the DISCORD_TOKEN environment variable or create a .token file."@
}

/// Chooses the bot token among what was read: the value of the environment
/// variable as it is, or else the content of the token file without the white
/// space around it. Fails where neither was there.
pub fn load_token(from_env: Option<String>, from_file: Option<String>) -> (r: Result<String, String>)
    ensures
        match (from_env, from_file) {
            (Some(token), _) => r matches Ok(t) && t@ == token@,
            (None, Some(content)) => r matches Ok(t) && t@ == trim(content@),
            (None, None) => r matches Err(e) && e@ == token_not_found(),
        },
{
    match from_env {
        Some(token) => Ok(token),
        None => match from_file {
            Some(content) => Ok(trimmed(content.as_str())),
            None => Err(
                "Discord token not found. Set the DISCORD_TOKEN environment variable or create a .token file.".to_string(),
            ),
        },
    }
}

/// The configuration to run with: the one that was loaded from the file, or
/// the default one where loading failed. Never fails.
pub fn load_config(loaded: Option<BotConfig>) -> (r: Result<BotConfig, String>)
    ensures
        r matches Ok(config) && match loaded {
            Some(c) => config == c,
            None => config.is_default(),
        },
{
    Ok(BotConfig::or_default(loaded))
}

} // verus!
