//! Responses to chat commands.

use vstd::prelude::*;

use crate::chat::command::from_super_admin::DangerousCommand;
use crate::chat::command::reference::spec_reference;
use crate::chat::command::texts::{
    denied, denied_text, deref_maps, deref_players, info, info_text, invalid_config, invalid_config_text,
    map_list, map_list_text, player_list, player_list_text,
};
use crate::chat::command::{CommandContext, CommandDeniedError};
use crate::controller::playlist::MapEntry;
use crate::gbx::structs::{DisplayString, PlayerInfo, ServerBuildInfo, ServerNetStats};
use crate::text::push_str;

verus! {

/// Possible responses for chat commands.
pub enum CommandResponse<'a> {
    /// Responses for successful commands that give some output.
    Output(CommandOutputResponse<'a>),
    /// Responses for dangerous commands that need confirmation.
    Confirm(DangerousCommand<'a>, CommandConfirmResponse<'a>),
    /// Responses for failed commands.
    Error(CommandErrorResponse<'a>),
}

/// Responses for successful commands that give some output.
pub enum CommandOutputResponse<'a> {
    /// Tell a player the command reference.
    ///
    /// Output for: `/help`
    CommandReference(CommandContext<'a>),
    /// List the current config, so that an admin can edit it.
    ///
    /// Output for: `/config`
    CurrentConfig { repr: &'a str },
    /// Tell an admin that the config they submitted was invalid.
    ///
    /// Output for: `/config`, after submitting an invalid config
    InvalidConfig { tried_repr: &'a str, error_msg: &'a str },
    /// List all maps in the database, and group maps in- and outside of the playlist.
    ///
    /// Output for `/maps`
    MapList { in_playlist: Vec<&'a MapEntry>, not_in_playlist: Vec<&'a MapEntry> },
    /// Lists logins and display names of connected players.
    ///
    /// Output for `/players`
    PlayerList(Vec<&'a PlayerInfo>),
    /// Information about server & controller.
    ///
    /// Output for `/info`
    Info(Box<InfoResponse>),
}

/// Information about server & controller.
pub struct InfoResponse {
    pub controller_version: String,
    pub most_recent_controller_version: String,
    /// The mode settings, as text.
    pub mode_config: String,
    pub server_info: ServerBuildInfo,
    pub net_stats: ServerNetStats,
    /// The display names of the admins.
    pub admins: Vec<DisplayString>,
}

/// Responses for failed commands.
pub enum CommandErrorResponse<'a> {
    /// The reason why a command was not executed.
    CommandError(CommandContext<'a>, CommandDeniedError),
    /// Feedback for commands that affect the playlist.
    ///
    /// Output for `/playlist add`, `/playlist remove`, `/map_import`
    InvalidPlaylistCommand(PlaylistCommandError),
    /// The specified login does not match any player.
    ///
    /// Output for `/delete player`
    UnknownPlayer,
    /// The specified login does not match any blacklisted player.
    ///
    /// Output for `/blacklist remove`
    UnknownBlacklistPlayer,
    /// Tell a super admin that prior to deleting a player, they have to blacklist them.
    ///
    /// Output for `/delete player`
    CannotDeleteWhitelistedPlayer,
    /// The specified map UID does not match any map.
    ///
    /// Output for `/delete map`, `/queue`
    UnknownMap,
    /// Tell a super admin that prior to deleting a map, they have to remove it from the playlist.
    ///
    /// Output for `/delete map`
    CannotDeletePlaylistMap,
    /// Tell an admin that the current game mode does not support pauses.
    ///
    /// Output for `/pause`
    CannotPause,
    /// Tell an admin that the entered command only works during warmup.
    ///
    /// Output for any `/warmup *` command
    NotInWarmup,
}

/// Responses for dangerous commands that need confirmation.
pub enum CommandConfirmResponse<'a> {
    /// Tell a super admin that all records for that map will be deleted.
    ///
    /// Output for `/delete map`
    ConfirmMapDeletion { file_name: &'a str },
    /// Tell a super admin that all records for that player will be deleted.
    ///
    /// Output for `/delete player`
    ConfirmPlayerDeletion { login: &'a str },
    /// Tell a super admin that the server will shutdown.
    ///
    /// Output for `/shutdown`
    ConfirmShutdown,
}

/// Possible errors when issuing a command that changes the playlist.
#[derive(Debug)]
pub enum PlaylistCommandError {
    /// A generic error message that indicates that the map
    /// UID that was passed to a command was not known.
    UnknownUid,
    /// The map ID or UID used for the map import command was not known.
    UnknownImportId,
    /// An error message sent to admins that try to disable the last enabled
    /// map. An empty playlist would cause all kinds of problems.
    CannotDisableAllMaps,
    /// Tried to import a map that was already imported.
    MapAlreadyImported,
    /// Tried to add a map that was already in the playlist.
    MapAlreadyAdded,
    /// Tried to remove a map that was already removed from the playlist.
    MapAlreadyRemoved,
    /// Command failed for a reason not covered by any other variant; the
    /// error as `{:?}` shows it.
    MapImportFailed(String),
}

/// The message of a playlist command error.
pub open spec fn playlist_error_text(e: PlaylistCommandError) -> Seq<char> {
    match e {
        PlaylistCommandError::UnknownUid => "No server map with this UID!"@,
        PlaylistCommandError::UnknownImportId => "No map with this ID or UID on Trackmania.Exchange!"@,
        PlaylistCommandError::MapAlreadyImported => "This map was already imported."@,
        PlaylistCommandError::MapAlreadyAdded => "This map is already in the playlist."@,
        PlaylistCommandError::MapAlreadyRemoved => "This map was already removed from the playlist."@,
        PlaylistCommandError::MapImportFailed(err) => "Failed to import map: "@ + err@,
        PlaylistCommandError::CannotDisableAllMaps => "You cannot disable every map! Enable at least one other map."@,
    }
}

impl PlaylistCommandError {
    /// The message shown to the admin.
    pub fn to_text(&self) -> (res: String)
        ensures
            res@ == playlist_error_text(*self),
    {
        match self {
            PlaylistCommandError::UnknownUid => String::from_str("No server map with this UID!"),
            PlaylistCommandError::UnknownImportId => String::from_str("No map with this ID or UID on Trackmania.Exchange!"),
            PlaylistCommandError::MapAlreadyImported => String::from_str("This map was already imported."),
            PlaylistCommandError::MapAlreadyAdded => String::from_str("This map is already in the playlist."),
            PlaylistCommandError::MapAlreadyRemoved => String::from_str("This map was already removed from the playlist."),
            PlaylistCommandError::MapImportFailed(err) => {
                let mut s = String::from_str("Failed to import map: ");
                push_str(&mut s, err.as_str());
                s
            },
            PlaylistCommandError::CannotDisableAllMaps => String::from_str(
                "You cannot disable every map! Enable at least one other map.",
            ),
        }
    }
}

/// The text of a response; `None` only if a display name could not be made plain.
pub open spec fn response_text(r: CommandResponse) -> Option<Seq<char>> {
    match r {
        CommandResponse::Output(CommandOutputResponse::CommandReference(ctxt)) => Some(spec_reference(ctxt)),
        CommandResponse::Output(CommandOutputResponse::CurrentConfig { repr }) => Some(repr@),
        CommandResponse::Output(CommandOutputResponse::InvalidConfig { tried_repr, error_msg }) => Some(
            invalid_config_text(tried_repr@, error_msg@),
        ),
        CommandResponse::Output(CommandOutputResponse::MapList { in_playlist, not_in_playlist }) => map_list_text(
            deref_maps(in_playlist@),
            deref_maps(not_in_playlist@),
            true,
            true,
        ),
        CommandResponse::Output(CommandOutputResponse::PlayerList(players)) => player_list_text(deref_players(players@), true),
        CommandResponse::Output(CommandOutputResponse::Info(i)) => info_text(
            i.controller_version@,
            i.most_recent_controller_version@,
            i.mode_config@,
            i.server_info,
            i.net_stats,
            i.admins@,
        ),
        CommandResponse::Error(CommandErrorResponse::CommandError(ctxt, e)) => Some(denied_text(ctxt.cmd@, e, spec_reference(ctxt))),
        CommandResponse::Error(CommandErrorResponse::InvalidPlaylistCommand(e)) => Some(playlist_error_text(e)),
        CommandResponse::Error(CommandErrorResponse::UnknownPlayer) => Some("There is no player with that login!\n"@),
        CommandResponse::Error(CommandErrorResponse::UnknownBlacklistPlayer) => Some("There is no blacklisted player with that login!\n"@),
        CommandResponse::Error(CommandErrorResponse::CannotDeleteWhitelistedPlayer) => Some(
            "Only blacklisted players can be removed from the database!\n"@,
        ),
        CommandResponse::Error(CommandErrorResponse::UnknownMap) => Some("There is no map with that UID!\n"@),
        CommandResponse::Error(CommandErrorResponse::CannotDeletePlaylistMap) => Some(
            "Only maps outside of the playlist can be removed from the database!\n"@,
        ),
        CommandResponse::Error(CommandErrorResponse::CannotPause) => Some("This game mode does not support pausing!\n"@),
        CommandResponse::Error(CommandErrorResponse::NotInWarmup) => Some("This command works only during warmup.\n"@),
        CommandResponse::Confirm(_, CommandConfirmResponse::ConfirmMapDeletion { file_name }) => Some(
            "Warning: this action will delete map '"@ + file_name@ + "', and all of its records.\n"@,
        ),
        CommandResponse::Confirm(_, CommandConfirmResponse::ConfirmPlayerDeletion { login }) => Some(
            "Warning: this action will delete player '"@ + login@ + "', and all of their records.\n"@,
        ),
        CommandResponse::Confirm(_, CommandConfirmResponse::ConfirmShutdown) => Some("Warning: this will stop the server.\n"@),
    }
}

impl<'a> CommandResponse<'a> {
    /// The text of this response, as it is sent to the player.
    pub fn to_text(&self) -> (res: Option<String>)
        ensures
            match res {
                Some(t) => response_text(*self) == Some(t@),
                None => response_text(*self) is None,
            },
    {
        match self {
            CommandResponse::Output(CommandOutputResponse::CommandReference(ctxt)) => Some(ctxt.reference()),
            CommandResponse::Output(CommandOutputResponse::CurrentConfig { repr }) => Some(String::from_str(repr)),
            CommandResponse::Output(CommandOutputResponse::InvalidConfig { tried_repr, error_msg }) => Some(
                invalid_config(tried_repr, error_msg),
            ),
            CommandResponse::Output(CommandOutputResponse::MapList { in_playlist, not_in_playlist }) => map_list(
                in_playlist,
                not_in_playlist,
                true,
                true,
            ),
            CommandResponse::Output(CommandOutputResponse::PlayerList(players)) => player_list(players, true),
            CommandResponse::Output(CommandOutputResponse::Info(i)) => info(
                i.controller_version.as_str(),
                i.most_recent_controller_version.as_str(),
                i.mode_config.as_str(),
                &i.server_info,
                &i.net_stats,
                &i.admins,
            ),
            CommandResponse::Error(CommandErrorResponse::CommandError(ctxt, e)) => Some(denied(ctxt, e)),
            CommandResponse::Error(CommandErrorResponse::InvalidPlaylistCommand(e)) => Some(e.to_text()),
            CommandResponse::Error(CommandErrorResponse::UnknownPlayer) => Some(String::from_str("There is no player with that login!\n")),
            CommandResponse::Error(CommandErrorResponse::UnknownBlacklistPlayer) => Some(
                String::from_str("There is no blacklisted player with that login!\n"),
            ),
            CommandResponse::Error(CommandErrorResponse::CannotDeleteWhitelistedPlayer) => Some(
                String::from_str("Only blacklisted players can be removed from the database!\n"),
            ),
            CommandResponse::Error(CommandErrorResponse::UnknownMap) => Some(String::from_str("There is no map with that UID!\n")),
            CommandResponse::Error(CommandErrorResponse::CannotDeletePlaylistMap) => Some(
                String::from_str("Only maps outside of the playlist can be removed from the database!\n"),
            ),
            CommandResponse::Error(CommandErrorResponse::CannotPause) => Some(String::from_str("This game mode does not support pausing!\n")),
            CommandResponse::Error(CommandErrorResponse::NotInWarmup) => Some(String::from_str("This command works only during warmup.\n")),
            CommandResponse::Confirm(_, CommandConfirmResponse::ConfirmMapDeletion { file_name }) => {
                let mut s = String::from_str("Warning: this action will delete map '");
                push_str(&mut s, file_name);
                push_str(&mut s, "', and all of its records.\n");
                Some(s)
            },
            CommandResponse::Confirm(_, CommandConfirmResponse::ConfirmPlayerDeletion { login }) => {
                let mut s = String::from_str("Warning: this action will delete player '");
                push_str(&mut s, login);
                push_str(&mut s, "', and all of their records.\n");
                Some(s)
            },
            CommandResponse::Confirm(_, CommandConfirmResponse::ConfirmShutdown) => Some(
                String::from_str("Warning: this will stop the server.\n"),
            ),
        }
    }
}

} // verus!
