//! Outputs of chat commands: results, confirmations and errors.

use vstd::prelude::*;

use crate::chat::command::from_super_admin::DangerousCommand;
use crate::chat::command::reference::spec_reference;
use crate::chat::command::texts::{
    denied, denied_text, deref_maps, deref_players, info, info_text, invalid_config, invalid_config_text,
    map_list, map_list_text, player_list, player_list_text,
};
use crate::chat::command::{CommandContext, CommandDeniedError};
use crate::controller::playlist::MapEntry;
use crate::gbx::structs::{DisplayString, ModeScript, PlayerInfo, ServerBuildInfo, ServerNetStats, mode_name};
use crate::text::push_str;

verus! {

/// Possible outputs for chat commands.
pub enum CommandOutput<'a> {
    /// Outputs for successful commands that list some result.
    Result(CommandResultOutput<'a>),
    /// Outputs for dangerous commands that need confirmation.
    Confirm(DangerousCommand<'a>, CommandConfirmOutput<'a>),
    /// Outputs for failed commands.
    Error(CommandErrorOutput<'a>),
}

/// Outputs for successful commands that list some result.
pub enum CommandResultOutput<'a> {
    /// Tell a player the command reference.
    ///
    /// Output for: `/help`
    CommandReference(CommandContext<'a>),
    /// List the current config, so that an admin can edit it.
    ///
    /// Output for: `/config`
    CurrentConfig { repr: &'a str },
    /// Tell an admin that the config they submitted was invalid.
    ///
    /// Output for: `/config`, after submitting an invalid config
    InvalidConfig { tried_repr: &'a str, error_msg: &'a str },
    /// List all maps in the database, and group maps in- and outside of the playlist.
    ///
    /// Output for `/maps`
    MapList { in_playlist: Vec<&'a MapEntry>, not_in_playlist: Vec<&'a MapEntry> },
    /// Lists logins and display names of connected players.
    ///
    /// Output for `/players`
    PlayerList(Vec<&'a PlayerInfo>),
    /// Information about server & controller.
    ///
    /// Output for `/info`
    ControllerInfo(Box<ControllerInfo>),
}

/// Information about server & controller.
pub struct ControllerInfo {
    pub controller_version: String,
    pub most_recent_controller_version: String,
    /// The mode settings, as text.
    pub mode_config: String,
    pub server_info: ServerBuildInfo,
    pub net_stats: ServerNetStats,
    /// The display names of the admins.
    pub admins: Vec<DisplayString>,
}

/// Outputs for dangerous commands that need confirmation.
pub enum CommandConfirmOutput<'a> {
    /// Tell a super admin that all records for that map will be deleted.
    ///
    /// Output for `/delete map`
    ConfirmMapDeletion { file_name: &'a str },
    /// Tell a super admin that all records for that player will be deleted.
    ///
    /// Output for `/delete player`
    ConfirmPlayerDeletion { login: &'a str },
    /// Tell a super admin that the server will shutdown.
    ///
    /// Output for `/shutdown`
    ConfirmShutdown,
}

/// Outputs for failed commands.
pub enum CommandErrorOutput<'a> {
    /// The reason why a command was not executed.
    CommandError(CommandContext<'a>, CommandDeniedError),
    /// Feedback for commands that affect the playlist.
    ///
    /// Output for `/playlist add`, `/playlist remove`, `/import map`
    InvalidPlaylistCommand(PlaylistCommandError),
    /// The specified login does not match any player.
    ///
    /// Output for `/delete player`, `/kick`, `/bounce`
    UnknownPlayer,
    /// The specified login does not match any blacklisted player.
    ///
    /// Output for `/blacklist remove`
    UnknownBlacklistPlayer,
    /// Tell a super admin that prior to deleting a player, they have to blacklist them.
    ///
    /// Output for `/delete player`
    CannotDeleteWhitelistedPlayer,
    /// The specified map UID does not match any map.
    ///
    /// Output for `/delete map`, `/queue`
    UnknownMap,
    /// Tell a super admin that prior to deleting a map, they have to remove it from the playlist.
    ///
    /// Output for `/delete map`
    CannotDeletePlaylistMap,
    /// Tell an admin that the current game mode does not support pauses.
    ///
    /// Output for `/pause`
    CannotPause,
    /// Tell an admin that the entered command only works during warmup.
    ///
    /// Output for any `/warmup *` command
    NotInWarmup,
    /// Tell an admin that the given name did not match any available game mode.
    ///
    /// Output for `/mode` command
    UnknownMode { tried: &'a str, options: Vec<ModeScript> },
    /// Tell an admin that the mode could not be changed.
    ///
    /// Output for `/mode` command
    CannotChangeMode { msg: &'a str },
    /// Tell an admin that the given name did not match any available match settings.
    ///
    /// Output for `/settings load` command
    UnknownMatchSettings { tried: &'a str, options: Vec<String> },
    /// Tell an admin that the current match settings could not be saved to a file.
    ///
    /// Output for `/settings save` command
    CannotSaveMatchSettings { msg: &'a str },
}

/// Possible errors when issuing a command that changes the playlist.
#[derive(Debug)]
pub enum PlaylistCommandError {
    /// A generic error message that indicates that the map
    /// UID that was passed to a command was not known.
    UnknownUid,
    /// The map ID or UID used for the map import command was not known.
    UnknownImportId,
    /// An error message sent to admins that try to remove the single map
    /// currently in the playlist.
    EmptyPlaylistDisallowed,
    /// Tried to import a map that was already imported.
    MapAlreadyImported,
    /// Tried to add a map that was already in the playlist.
    MapAlreadyAdded,
    /// Tried to remove a map that was already removed from the playlist.
    MapAlreadyRemoved,
    /// Command failed for a reason not covered by any other variant; the
    /// error as `{:?}` shows it.
    MapImportFailed(String),
}

/// The message of a playlist command error.
pub open spec fn playlist_error_text(e: PlaylistCommandError) -> Seq<char> {
    match e {
        PlaylistCommandError::UnknownUid => "No server map with this UID!"@,
        PlaylistCommandError::UnknownImportId => "No map with this ID or UID on Trackmania.Exchange!"@,
        PlaylistCommandError::MapAlreadyImported => "This map was already imported."@,
        PlaylistCommandError::MapAlreadyAdded => "This map is already in the playlist."@,
        PlaylistCommandError::MapAlreadyRemoved => "This map was already removed from the playlist."@,
        PlaylistCommandError::MapImportFailed(err) => "Failed to import map: "@ + err@,
        PlaylistCommandError::EmptyPlaylistDisallowed => "You cannot remove the only map in the playlist. "@
            + "Add at least one other map to remove this one."@,
    }
}

impl PlaylistCommandError {
    /// The message shown to the admin.
    pub fn to_text(&self) -> (res: String)
        ensures
            res@ == playlist_error_text(*self),
    {
        match self {
            PlaylistCommandError::UnknownUid => String::from_str("No server map with this UID!"),
            PlaylistCommandError::UnknownImportId => String::from_str("No map with this ID or UID on Trackmania.Exchange!"),
            PlaylistCommandError::MapAlreadyImported => String::from_str("This map was already imported."),
            PlaylistCommandError::MapAlreadyAdded => String::from_str("This map is already in the playlist."),
            PlaylistCommandError::MapAlreadyRemoved => String::from_str("This map was already removed from the playlist."),
            PlaylistCommandError::MapImportFailed(err) => {
                let mut s = String::from_str("Failed to import map: ");
                push_str(&mut s, err.as_str());
                s
            },
            PlaylistCommandError::EmptyPlaylistDisallowed => {
                let mut s = String::from_str("You cannot remove the only map in the playlist. ");
                push_str(&mut s, "Add at least one other map to remove this one.");
                s
            },
        }
    }
}

/// Each option as a list item: ` - `, the name, a line feed.
pub open spec fn listed(names: Seq<Seq<char>>) -> Seq<char>
    decreases names.len(),
{
    if names.len() == 0 {
        Seq::empty()
    } else {
        listed(names.drop_last()) + " - "@ + names.last() + "\n"@
    }
}

/// Appends the options as list items.
fn push_listed(s: &mut String, names: &Vec<&str>)
    ensures
        final(s)@ == old(s)@ + listed(names@.map_values(|n: &str| n@)),
{
    let ghost base = s@;
    let ghost nv = names@.map_values(|n: &str| n@);
    let mut i: usize = 0;
    while i < names.len()
        invariant
            i <= names@.len(),
            nv == names@.map_values(|n: &str| n@),
            s@ == base + listed(nv.take(i as int)),
        decreases names@.len() - i,
    {
        push_str(s, " - ");
        push_str(s, names[i]);
        push_str(s, "\n");
        proof {
            assert(nv.take(i + 1).drop_last() =~= nv.take(i as int));
            assert(nv.take(i + 1).last() == names@[i as int]@);
            assert(s@ =~= base + listed(nv.take(i + 1)));
        }
        i = i + 1;
    }
    assert(nv.take(names@.len() as int) =~= nv);
}

/// The text of an error output.
pub open spec fn error_output_text(e: CommandErrorOutput) -> Seq<char> {
    match e {
        CommandErrorOutput::CommandError(ctxt, d) => denied_text(ctxt.cmd@, d, spec_reference(ctxt)),
        CommandErrorOutput::InvalidPlaylistCommand(p) => playlist_error_text(p),
        CommandErrorOutput::UnknownPlayer => "There is no player with that login!\n"@,
        CommandErrorOutput::UnknownBlacklistPlayer => "There is no blacklisted player with that login!\n"@,
        CommandErrorOutput::CannotDeleteWhitelistedPlayer => "Only blacklisted players can be removed from the database!\n"@,
        CommandErrorOutput::UnknownMap => "There is no map with that UID!\n"@,
        CommandErrorOutput::CannotDeletePlaylistMap => "Only maps outside of the playlist can be removed from the database!\n"@,
        CommandErrorOutput::CannotPause => "This game mode does not support pausing!\n"@,
        CommandErrorOutput::NotInWarmup => "This command works only during warmup.\n"@,
        CommandErrorOutput::UnknownMode { tried, options } => "'"@ + tried@ + "' is not a known game mode.\n"@ + "\n"@
            + "The available game modes are:\n"@ + listed(options@.map_values(|m: ModeScript| mode_name(m))),
        CommandErrorOutput::CannotChangeMode { msg } => "Failed to change game mode: "@ + msg@ + "\n"@,
        CommandErrorOutput::UnknownMatchSettings { tried, options } => "'"@ + tried@ + "' is not a known match settings file.\n"@
            + "\n"@ + "The available match settings are:\n"@ + listed(options@.map_values(|o: String| o@)),
        CommandErrorOutput::CannotSaveMatchSettings { msg } => "Failed to save match settings: "@ + msg@ + "\n"@,
    }
}

impl<'a> CommandErrorOutput<'a> {
    /// The text of this output.
    pub fn to_text(&self) -> (res: String)
        ensures
            res@ == error_output_text(*self),
    {
        match self {
            CommandErrorOutput::CommandError(ctxt, d) => denied(ctxt, d),
            CommandErrorOutput::InvalidPlaylistCommand(p) => p.to_text(),
            CommandErrorOutput::UnknownPlayer => String::from_str("There is no player with that login!\n"),
            CommandErrorOutput::UnknownBlacklistPlayer => String::from_str("There is no blacklisted player with that login!\n"),
            CommandErrorOutput::CannotDeleteWhitelistedPlayer => String::from_str(
                "Only blacklisted players can be removed from the database!\n",
            ),
            CommandErrorOutput::UnknownMap => String::from_str("There is no map with that UID!\n"),
            CommandErrorOutput::CannotDeletePlaylistMap => String::from_str(
                "Only maps outside of the playlist can be removed from the database!\n",
            ),
            CommandErrorOutput::CannotPause => String::from_str("This game mode does not support pausing!\n"),
            CommandErrorOutput::NotInWarmup => String::from_str("This command works only during warmup.\n"),
            CommandErrorOutput::UnknownMode { tried, options } => {
                let mut s = String::from_str("'");
                push_str(&mut s, tried);
                push_str(&mut s, "' is not a known game mode.\n");
                push_str(&mut s, "\n");
                push_str(&mut s, "The available game modes are:\n");
                let mut names: Vec<&str> = Vec::new();
                let mut i: usize = 0;
                while i < options.len()
                    invariant
                        i <= options@.len(),
                        names@.map_values(|n: &str| n@) == options@.take(i as int).map_values(|m: ModeScript| mode_name(m)),
                    decreases options@.len() - i,
                {
                    let ghost before = names@;
                    let nm = options[i].name();
                    names.push(nm);
                    proof {
                        assert(names@ == before.push(nm));
                        assert(names@.map_values(|n: &str| n@) =~= before.map_values(|n: &str| n@).push(nm@));
                        assert(options@.take(i + 1) =~= options@.take(i as int).push(options@[i as int]));
                        assert(options@.take(i + 1).map_values(|m: ModeScript| mode_name(m)) =~= options@.take(i as int).map_values(|m: ModeScript| mode_name(m)).push(mode_name(options@[i as int])));
                        assert(names@.map_values(|n: &str| n@) =~= options@.take(i + 1).map_values(|m: ModeScript| mode_name(m)));
                    }
                    i = i + 1;
                }
                assert(options@.take(options@.len() as int) =~= options@);
                push_listed(&mut s, &names);
                s
            },
            CommandErrorOutput::CannotChangeMode { msg } => {
                let mut s = String::from_str("Failed to change game mode: ");
                push_str(&mut s, msg);
                push_str(&mut s, "\n");
                s
            },
            CommandErrorOutput::UnknownMatchSettings { tried, options } => {
                let mut s = String::from_str("'");
                push_str(&mut s, tried);
                push_str(&mut s, "' is not a known match settings file.\n");
                push_str(&mut s, "\n");
                push_str(&mut s, "The available match settings are:\n");
                let mut names: Vec<&str> = Vec::new();
                let mut i: usize = 0;
                while i < options.len()
                    invariant
                        i <= options@.len(),
                        names@.map_values(|n: &str| n@) == options@.take(i as int).map_values(|o: String| o@),
                    decreases options@.len() - i,
                {
                    let ghost before = names@;
                    let nm = options[i].as_str();
                    names.push(nm);
                    proof {
                        assert(names@ == before.push(nm));
                        assert(names@.map_values(|n: &str| n@) =~= before.map_values(|n: &str| n@).push(nm@));
                        assert(options@.take(i + 1) =~= options@.take(i as int).push(options@[i as int]));
                        assert(options@.take(i + 1).map_values(|o: String| o@) =~= options@.take(i as int).map_values(|o: String| o@).push(options@[i as int]@));
                        assert(names@.map_values(|n: &str| n@) =~= options@.take(i + 1).map_values(|o: String| o@));
                    }
                    i = i + 1;
                }
                assert(options@.take(options@.len() as int) =~= options@);
                push_listed(&mut s, &names);
                s
            },
            CommandErrorOutput::CannotSaveMatchSettings { msg } => {
                let mut s = String::from_str("Failed to save match settings: ");
                push_str(&mut s, msg);
                push_str(&mut s, "\n");
                s
            },
        }
    }
}

/// The text of a confirmation output.
pub open spec fn confirm_output_text(c: CommandConfirmOutput) -> Seq<char> {
    match c {
        CommandConfirmOutput::ConfirmMapDeletion { file_name } => "Warning: this action will delete map '"@ + file_name@
            + "', and all of its records.\n"@,
        CommandConfirmOutput::ConfirmPlayerDeletion { login } => "Warning: this action will delete player '"@ + login@
            + "', and all of their records.\n"@,
        CommandConfirmOutput::ConfirmShutdown => "Warning: this will stop the server.\n"@,
    }
}

impl<'a> CommandConfirmOutput<'a> {
    /// The text of this output.
    pub fn to_text(&self) -> (res: String)
        ensures
            res@ == confirm_output_text(*self),
    {
        match self {
            CommandConfirmOutput::ConfirmMapDeletion { file_name } => {
                let mut s = String::from_str("Warning: this action will delete map '");
                push_str(&mut s, file_name);
                push_str(&mut s, "', and all of its records.\n");
                s
            },
            CommandConfirmOutput::ConfirmPlayerDeletion { login } => {
                let mut s = String::from_str("Warning: this action will delete player '");
                push_str(&mut s, login);
                push_str(&mut s, "', and all of their records.\n");
                s
            },
            CommandConfirmOutput::ConfirmShutdown => String::from_str("Warning: this will stop the server.\n"),
        }
    }
}

/// The text of a result output; `None` only if a display name could not be
/// made plain. The map list leaves out the section of maps outside the
/// playlist when there are none.
pub open spec fn result_output_text(r: CommandResultOutput) -> Option<Seq<char>> {
    match r {
        CommandResultOutput::CommandReference(ctxt) => Some(spec_reference(ctxt)),
        CommandResultOutput::CurrentConfig { repr } => Some(repr@),
        CommandResultOutput::InvalidConfig { tried_repr, error_msg } => Some(invalid_config_text(tried_repr@, error_msg@)),
        CommandResultOutput::MapList { in_playlist, not_in_playlist } => map_list_text(
            deref_maps(in_playlist@),
            deref_maps(not_in_playlist@),
            false,
            false,
        ),
        CommandResultOutput::PlayerList(players) => player_list_text(deref_players(players@), false),
        CommandResultOutput::ControllerInfo(i) => info_text(
            i.controller_version@,
            i.most_recent_controller_version@,
            i.mode_config@,
            i.server_info,
            i.net_stats,
            i.admins@,
        ),
    }
}

impl<'a> CommandResultOutput<'a> {
    /// The text of this output.
    pub fn to_text(&self) -> (res: Option<String>)
        ensures
            match res {
                Some(t) => result_output_text(*self) == Some(t@),
                None => result_output_text(*self) is None,
            },
    {
        match self {
            CommandResultOutput::CommandReference(ctxt) => Some(ctxt.reference()),
            CommandResultOutput::CurrentConfig { repr } => Some(String::from_str(repr)),
            CommandResultOutput::InvalidConfig { tried_repr, error_msg } => Some(invalid_config(tried_repr, error_msg)),
            CommandResultOutput::MapList { in_playlist, not_in_playlist } => map_list(in_playlist, not_in_playlist, false, false),
            CommandResultOutput::PlayerList(players) => player_list(players, false),
            CommandResultOutput::ControllerInfo(i) => info(
                i.controller_version.as_str(),
                i.most_recent_controller_version.as_str(),
                i.mode_config.as_str(),
                &i.server_info,
                &i.net_stats,
                &i.admins,
            ),
        }
    }
}

impl<'a> CommandOutput<'a> {
    /// The text of this output, as it is sent to the player.
    pub fn to_text(&self) -> (res: Option<String>)
        ensures
            match self {
                CommandOutput::Result(r) => match res {
                    Some(t) => result_output_text(*r) == Some(t@),
                    None => result_output_text(*r) is None,
                },
                CommandOutput::Confirm(_, c) => res matches Some(t) && t@ == confirm_output_text(*c),
                CommandOutput::Error(e) => res matches Some(t) && t@ == error_output_text(*e),
            },
    {
        match self {
            CommandOutput::Result(r) => r.to_text(),
            CommandOutput::Confirm(_, c) => Some(c.to_text()),
            CommandOutput::Error(e) => Some(e.to_text()),
        }
    }
}

} // verus!
