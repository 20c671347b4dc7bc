//! Chat commands: parsing, permission checks and responses.

use vstd::prelude::*;

use crate::gbx::structs::{ModeScript, PauseStatus, PlayerInfo, WarmupStatus};
use crate::text::{spec_trim, split_ws, str_eq, trim_ws};

pub mod from_admin;
pub mod from_player;
pub mod from_super_admin;
pub mod output;
pub mod reference;
pub mod response;
pub mod texts;

use from_admin::{AdminCommand, spec_check_admin, spec_parse_admin};
use from_player::{PlayerCommand, spec_parse_player};
use from_super_admin::{SuperAdminCommand, spec_parse_super_admin};

verus! {

/// A parsed and validated command that should be executed.
#[derive(Debug, Copy, Clone)]
pub enum Command<'a> {
    Help,
    Player(PlayerCommand),
    Admin(AdminCommand<'a>),
    SuperAdmin(SuperAdminCommand<'a>),
}

/// Reasons why a command should not/cannot be considered for execution.
#[derive(Debug)]
pub enum CommandDeniedError {
    /// There is no such command.
    NoSuchCommand,
    /// The command cannot be executed in this context.
    NotAvailable(BadCommandContext),
}

/// An attempt of a player to execute a command, with all that decides
/// whether it is executed: the player, the mode, the warmup and the pause.
#[derive(Debug, Copy, Clone)]
pub struct CommandContext<'a> {
    pub cmd: &'a str,
    pub player: &'a PlayerInfo,
    pub player_role: PlayerRole,
    pub mode: &'a ModeScript,
    pub warmup: &'a WarmupStatus,
    pub pause: &'a PauseStatus,
}

/// Player permission level.
#[derive(Debug, PartialEq, Eq, Copy, Clone, Structural)]
pub enum PlayerRole {
    Player,
    Admin,
    SuperAdmin,
}

/// The order of permission levels.
pub open spec fn role_rank(r: PlayerRole) -> int {
    match r {
        PlayerRole::Player => 0,
        PlayerRole::Admin => 1,
        PlayerRole::SuperAdmin => 2,
    }
}

impl PlayerRole {
    /// The place of this level in the order of levels.
    pub fn rank(&self) -> (res: u8)
        ensures
            res == role_rank(*self),
    {
        match self {
            PlayerRole::Player => 0,
            PlayerRole::Admin => 1,
            PlayerRole::SuperAdmin => 2,
        }
    }
}

/// Details why a command cannot be executed in this context.
#[derive(Debug, Clone)]
pub enum BadCommandContext {
    /// Player can only execute this command during a warmup.
    DuringWarmup,
    /// Player can only execute this command in a specific game mode.
    InMode(ModeScript),
    /// Player can only execute this command in another game mode.
    InOtherModes,
    /// Player does not have the rights to execute this command.
    NoPermission,
}

/// A command's example usage and explanation.
#[derive(Debug, Copy, Clone)]
pub struct CommandReference<'a> {
    pub usage: &'a str,
    pub doc: &'a str,
}

/// What a chat message is as a command in a context.
pub enum CommandOutcome {
    Help,
    Player(PlayerCommand),
    Admin(from_admin::AdminCommandView),
    SuperAdmin(from_super_admin::DangerousCommandView),
    NoSuchCommand,
    NotAvailable(BadCommandContext),
}

/// The outcome of a chat message in a context: `/help`; else the first
/// command set that parses it (player, admin, super admin), if its check
/// passes; no command otherwise.
pub open spec fn spec_command(ctxt: CommandContext) -> CommandOutcome {
    let w = split_ws(ctxt.cmd@);
    if spec_trim(ctxt.cmd@) == "/help"@ {
        CommandOutcome::Help
    } else if let Some(c) = spec_parse_player(w) {
        CommandOutcome::Player(c)
    } else if let Some(c) = spec_parse_admin(w) {
        match spec_check_admin(c, ctxt) {
            None => CommandOutcome::Admin(c),
            Some(e) => CommandOutcome::NotAvailable(e),
        }
    } else if let Some(c) = spec_parse_super_admin(w) {
        if role_rank(ctxt.player_role) < role_rank(PlayerRole::SuperAdmin) {
            CommandOutcome::NotAvailable(BadCommandContext::NoPermission)
        } else {
            CommandOutcome::SuperAdmin(c)
        }
    } else {
        CommandOutcome::NoSuchCommand
    }
}

/// The outcome of a parsed command.
pub open spec fn outcome_of(res: Result<Command, CommandDeniedError>) -> CommandOutcome {
    match res {
        Ok(Command::Help) => CommandOutcome::Help,
        Ok(Command::Player(c)) => CommandOutcome::Player(c),
        Ok(Command::Admin(c)) => CommandOutcome::Admin(c@),
        Ok(Command::SuperAdmin(c)) => CommandOutcome::SuperAdmin(c@),
        Err(CommandDeniedError::NoSuchCommand) => CommandOutcome::NoSuchCommand,
        Err(CommandDeniedError::NotAvailable(e)) => CommandOutcome::NotAvailable(e),
    }
}

impl<'a> Command<'a> {
    /// Parse a command in the given context.
    ///
    /// Returns an error variant if the command is unknown, was provided
    /// wrong arguments, or when it cannot be executed in this context.
    pub fn try_from(ctxt: CommandContext<'a>) -> (res: Result<Command<'a>, CommandDeniedError>)
        ensures
            outcome_of(res) == spec_command(ctxt),
    {
        if str_eq(trim_ws(ctxt.cmd), "/help") {
            return Ok(Command::Help);
        }
        if let Some(cmd) = PlayerCommand::parse(ctxt.cmd) {
            return match cmd.check(ctxt) {
                Ok(()) => Ok(Command::Player(cmd)),
                Err(e) => Err(CommandDeniedError::NotAvailable(e)),
            };
        }
        if let Some(cmd) = AdminCommand::parse(ctxt.cmd) {
            return match cmd.check(ctxt) {
                Ok(()) => Ok(Command::Admin(cmd)),
                Err(e) => Err(CommandDeniedError::NotAvailable(e)),
            };
        }
        if let Some(cmd) = SuperAdminCommand::parse(ctxt.cmd) {
            return match cmd.check(ctxt) {
                Ok(()) => Ok(Command::SuperAdmin(cmd)),
                Err(e) => Err(CommandDeniedError::NotAvailable(e)),
            };
        }
        Err(CommandDeniedError::NoSuchCommand)
    }
}

} // verus!
