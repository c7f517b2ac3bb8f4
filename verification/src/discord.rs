//! Discord slash commands.
use vstd::prelude::*;
use crate::text::{owned, str_eq};

verus! {

#[derive(Debug, Clone, Copy, PartialEq, Eq, Structural)]
pub enum DiscordSlashCommand {
    Start,
    Help,
    Clear,
    Pair,
    Users,
}

/// The name under which a command is registered.
pub open spec fn command_name(c: DiscordSlashCommand) -> Seq<char> {
    match c {
        DiscordSlashCommand::Start => "start"@,
        DiscordSlashCommand::Help => "help"@,
        DiscordSlashCommand::Clear => "clear"@,
        DiscordSlashCommand::Pair => "pair"@,
        DiscordSlashCommand::Users => "users"@,
    }
}

/// The command registered under `name`, if any.
pub open spec fn command_named(name: Seq<char>) -> Option<DiscordSlashCommand> {
    if name == "start"@ {
        Some(DiscordSlashCommand::Start)
    } else if name == "help"@ {
        Some(DiscordSlashCommand::Help)
    } else if name == "clear"@ {
        Some(DiscordSlashCommand::Clear)
    } else if name == "pair"@ {
        Some(DiscordSlashCommand::Pair)
    } else if name == "users"@ {
        Some(DiscordSlashCommand::Users)
    } else {
        None
    }
}

proof fn reveal_command_names()
    ensures
        "start"@ == seq!['s', 't', 'a', 'r', 't'],
        "help"@ == seq!['h', 'e', 'l', 'p'],
        "clear"@ == seq!['c', 'l', 'e', 'a', 'r'],
        "pair"@ == seq!['p', 'a', 'i', 'r'],
        "users"@ == seq!['u', 's', 'e', 'r', 's'],
{
    reveal_strlit("start");
    reveal_strlit("help");
    reveal_strlit("clear");
    reveal_strlit("pair");
    reveal_strlit("users");
}

impl DiscordSlashCommand {
    /// The name under which this command is registered.
    pub fn as_str(self) -> (r: &'static str)
        ensures
            r@ == command_name(self),
    {
        match self {
            DiscordSlashCommand::Start => "start",
            DiscordSlashCommand::Help => "help",
            DiscordSlashCommand::Clear => "clear",
            DiscordSlashCommand::Pair => "pair",
            DiscordSlashCommand::Users => "users",
        }
    }

    /// The command registered under `name`, if any.
    pub fn from_name(name: &str) -> (r: Option<Self>)
        ensures
            r == command_named(name@),
    {
        if str_eq(name, "start") {
            Some(DiscordSlashCommand::Start)
        } else if str_eq(name, "help") {
            Some(DiscordSlashCommand::Help)
        } else if str_eq(name, "clear") {
            Some(DiscordSlashCommand::Clear)
        } else if str_eq(name, "pair") {
            Some(DiscordSlashCommand::Pair)
        } else if str_eq(name, "users") {
            Some(DiscordSlashCommand::Users)
        } else {
            None
        }
    }
}

/// Every command is found again under its own name.
pub proof fn lemma_command_name_round_trip(c: DiscordSlashCommand)
    ensures
        command_named(command_name(c)) == Some(c),
{
    reveal_command_names();
}

/// A slash command as registered with Discord: its name and description.
#[derive(Debug, Clone, PartialEq, Eq)]
pub struct SlashCommandSpec {
    pub name: String,
    pub description: String,
}

/// The descriptions shown for the commands.
pub open spec fn command_description(c: DiscordSlashCommand) -> Seq<char> {
    match c {
        DiscordSlashCommand::Start => "Initialize the bot and access flow"@,
        DiscordSlashCommand::Help => "Show available OpenCrust commands"@,
        DiscordSlashCommand::Clear => "Clear conversation history for this thread/DM"@,
        DiscordSlashCommand::Pair => "Generate a pairing code (owner only)"@,
        DiscordSlashCommand::Users => "List allowed users (owner only)"@,
    }
}

/// The commands in registration order.
pub open spec fn command_order() -> Seq<DiscordSlashCommand> {
    seq![
        DiscordSlashCommand::Start,
        DiscordSlashCommand::Help,
        DiscordSlashCommand::Clear,
        DiscordSlashCommand::Pair,
        DiscordSlashCommand::Users,
    ]
}

fn command_spec(c: DiscordSlashCommand, description: &str) -> (r: SlashCommandSpec)
    ensures
        r.name@ == command_name(c),
        r.description@ == description@,
{
    SlashCommandSpec { name: owned(c.as_str()), description: owned(description) }
}

/// The slash commands to register: start, help, clear, pair, users.
pub fn all_commands() -> (r: Vec<SlashCommandSpec>)
    ensures
        r@.len() == 5,
        forall|i: int| 0 <= i < 5 ==> {
            &&& (#[trigger] r@[i]).name@ == command_name(command_order()[i])
            &&& r@[i].description@ == command_description(command_order()[i])
        },
{
    let mut r = Vec::new();
    r.push(command_spec(DiscordSlashCommand::Start, "Initialize the bot and access flow"));
    r.push(command_spec(DiscordSlashCommand::Help, "Show available OpenCrust commands"));
    r.push(command_spec(DiscordSlashCommand::Clear, "Clear conversation history for this thread/DM"));
    r.push(command_spec(DiscordSlashCommand::Pair, "Generate a pairing code (owner only)"));
    r.push(command_spec(DiscordSlashCommand::Users, "List allowed users (owner only)"));
    r
}

/// Where slash commands are registered.
#[derive(Debug, Clone, Copy, PartialEq, Eq, Structural)]
pub enum RegistrationTarget {
    Global,
    Guild(u64),
}

/// The registrations to make for `guild_ids`: globally when the list is empty,
/// otherwise once per guild, in order.
pub fn registration_targets(guild_ids: &Vec<u64>) -> (r: Vec<RegistrationTarget>)
    ensures
        guild_ids@.len() == 0 ==> r@ == seq![RegistrationTarget::Global],
        guild_ids@.len() > 0 ==> r@ == guild_ids@.map_values(|g: u64| RegistrationTarget::Guild(g)),
{
    let mut r = Vec::new();
    if guild_ids.len() == 0 {
        r.push(RegistrationTarget::Global);
        assert(r@ =~= seq![RegistrationTarget::Global]);
        return r;
    }
    let mut i: usize = 0;
    while i < guild_ids.len()
        invariant
            i <= guild_ids@.len(),
            r@ == guild_ids@.take(i as int).map_values(|g: u64| RegistrationTarget::Guild(g)),
        decreases guild_ids@.len() - i,
    {
        r.push(RegistrationTarget::Guild(guild_ids[i]));
        i += 1;
        assert(r@ =~= guild_ids@.take(i as int).map_values(|g: u64| RegistrationTarget::Guild(g)));
    }
    assert(guild_ids@.take(i as int) =~= guild_ids@);
    r
}

} // verus!
