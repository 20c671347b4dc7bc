//! Chat commands by role, with fixed references and plain-text responses.

use vstd::prelude::*;

use crate::chat::command::texts::{deref_maps, deref_players, quote_debug, server_info_pretty};
use crate::chat::table::{fill, spec_fill};
use crate::controller::playlist::MapEntry;
use crate::gbx::structs::{PlayerInfo, ServerBuildInfo, ServerNetStats, spec_plain, trunc_div};
use crate::text::{all_digits, digits_value, parse_u64, push_signed, push_str, signed_decimal, split_whitespace, split_ws, str_eq};

verus! {

/// Chat commands that can only be executed by super admins.
#[derive(Debug)]
pub enum SuperAdminCommand {
    /// Print a reference of available super admin commands.
    ///
    /// Usage: `/help`
    Help,
    /// Prepare a dangerous command, that will only be executed after taking
    /// further action.
    ///
    /// Usage: see `DangerousCommand`
    Unconfirmed(DangerousCommand),
    /// Execute the dangerous command that was prepared last.
    ///
    /// Usage: `/confirm`
    Confirm,
}

/// Destructive chat commands that can only be executed by super admins,
/// after explicitly confirming them.
#[derive(Debug, Clone)]
pub enum DangerousCommand {
    /// Delete a map that is not in the playlist from the database.
    ///
    /// Usage: `/delete map <uid>`
    DeleteMap { uid: String },
    /// Delete a blacklisted player from the database.
    ///
    /// Usage: `/delete player <login>`
    DeletePlayer { login: String },
    /// Shutdown the server.
    ///
    /// Usage: `/shutdown`
    Shutdown,
}

/// The super admin command that the words of a chat message stand for.
pub open spec fn spec_super_admin_from(w: Seq<Seq<char>>, res: Option<SuperAdminCommand>) -> bool {
    if w.len() == 3 && w[0] == "/delete"@ && w[1] == "map"@ {
        res matches Some(SuperAdminCommand::Unconfirmed(DangerousCommand::DeleteMap { uid })) && uid@ == w[2]
    } else if w.len() == 3 && w[0] == "/delete"@ && w[1] == "player"@ {
        res matches Some(SuperAdminCommand::Unconfirmed(DangerousCommand::DeletePlayer { login })) && login@ == w[2]
    } else if w.len() == 1 && w[0] == "/help"@ {
        res matches Some(SuperAdminCommand::Help)
    } else if w.len() == 1 && w[0] == "/shutdown"@ {
        res matches Some(SuperAdminCommand::Unconfirmed(DangerousCommand::Shutdown))
    } else if w.len() == 1 && w[0] == "/confirm"@ {
        res matches Some(SuperAdminCommand::Confirm)
    } else {
        res is None
    }
}

impl SuperAdminCommand {
    /// Parse a super admin command.
    pub fn from(chat_message: &str) -> (res: Option<SuperAdminCommand>)
        ensures
            spec_super_admin_from(split_ws(chat_message@), res),
    {
        let w = split_whitespace(chat_message);
        let n = w.len();
        if n == 3 && str_eq(w[0], "/delete") && str_eq(w[1], "map") {
            Some(SuperAdminCommand::Unconfirmed(DangerousCommand::DeleteMap { uid: String::from_str(w[2]) }))
        } else if n == 3 && str_eq(w[0], "/delete") && str_eq(w[1], "player") {
            Some(SuperAdminCommand::Unconfirmed(DangerousCommand::DeletePlayer { login: String::from_str(w[2]) }))
        } else if n == 1 && str_eq(w[0], "/help") {
            Some(SuperAdminCommand::Help)
        } else if n == 1 && str_eq(w[0], "/shutdown") {
            Some(SuperAdminCommand::Unconfirmed(DangerousCommand::Shutdown))
        } else if n == 1 && str_eq(w[0], "/confirm") {
            Some(SuperAdminCommand::Confirm)
        } else {
            None
        }
    }
}

/// Chat commands that can only be executed by admins.
#[derive(Debug)]
pub enum AdminCommand<'a> {
    /// Print a reference of available admin commands.
    ///
    /// Usage: `/help`
    Help,
    /// List the server's maps and their UIDs, in- and outside of the playlist.
    ///
    /// Usage: `/maps`
    ListMaps,
    /// List the connected players with login and nickname.
    ///
    /// Usage: `/players`
    ListPlayers,
    /// Add the map with the given UID to the playlist.
    ///
    /// Usage: `/playlist add <uid>`
    PlaylistAdd { uid: &'a str },
    /// Remove the map with the given UID from the playlist.
    ///
    /// Usage: `/playlist remove <uid>`
    PlaylistRemove { uid: &'a str },
    /// Import a map from `trackmania.exchange`, by its ID on the website (a
    /// number), or its UID (from inside the map file).
    ///
    /// Usage: `/map_import <id/uid>`
    ImportMap { id: &'a str },
    /// End the current race immediately.
    ///
    /// Usage `/skip`
    SkipCurrentMap,
    /// Restart the current map after the race.
    ///
    /// Usage `/restart`
    RestartCurrentMap,
    /// Set the map that will be played after the current one.
    ///
    /// Usage `/queue <uid>`
    ForceQueue { uid: &'a str },
    /// Set the duration of a race in seconds.
    ///
    /// Usage `/set timelimit <seconds>`
    SetRaceDuration(u32),
    /// Set the outro duration in seconds.
    ///
    /// Usage `/set chattime <seconds>`
    SetOutroDuration(u32),
    /// Add a player to the server's blacklist, and kick them if they are
    /// currently connected.
    ///
    /// Usage: `/blacklist <login>`
    BlacklistAdd { login: &'a str },
    /// Remove a player from the server's blacklist.
    ///
    /// Usage: `/unblacklist <login>`
    BlacklistRemove { login: &'a str },
}

/// A number of seconds as the `/set` commands accept it: ASCII digits of a
/// value from 1 up to `u32::MAX`.
pub open spec fn spec_secs(w: Seq<char>) -> Option<u32> {
    if w.len() > 0 && all_digits(w) && 0 < digits_value(w) <= u32::MAX {
        Some(digits_value(w) as u32)
    } else {
        None
    }
}

/// The admin command that the words of a chat message stand for.
pub open spec fn spec_admin_from(w: Seq<Seq<char>>, res: Option<AdminCommand>) -> bool {
    if w.len() == 2 && w[0] == "/blacklist"@ {
        res matches Some(AdminCommand::BlacklistAdd { login }) && login@ == w[1]
    } else if w.len() == 1 && w[0] == "/help"@ {
        res matches Some(AdminCommand::Help)
    } else if w.len() == 2 && w[0] == "/map_import"@ {
        res matches Some(AdminCommand::ImportMap { id }) && id@ == w[1]
    } else if w.len() == 1 && w[0] == "/maps"@ {
        res matches Some(AdminCommand::ListMaps)
    } else if w.len() == 1 && w[0] == "/players"@ {
        res matches Some(AdminCommand::ListPlayers)
    } else if w.len() == 3 && w[0] == "/playlist"@ && w[1] == "add"@ {
        res matches Some(AdminCommand::PlaylistAdd { uid }) && uid@ == w[2]
    } else if w.len() == 3 && w[0] == "/playlist"@ && w[1] == "remove"@ {
        res matches Some(AdminCommand::PlaylistRemove { uid }) && uid@ == w[2]
    } else if w.len() == 2 && w[0] == "/queue"@ {
        res matches Some(AdminCommand::ForceQueue { uid }) && uid@ == w[1]
    } else if w.len() == 1 && w[0] == "/restart"@ {
        res matches Some(AdminCommand::RestartCurrentMap)
    } else if w.len() == 3 && w[0] == "/set"@ && w[1] == "timelimit"@ {
        match spec_secs(w[2]) {
            Some(secs) => res matches Some(AdminCommand::SetRaceDuration(s)) && s == secs,
            None => res is None,
        }
    } else if w.len() == 3 && w[0] == "/set"@ && w[1] == "chattime"@ {
        match spec_secs(w[2]) {
            Some(secs) => res matches Some(AdminCommand::SetOutroDuration(s)) && s == secs,
            None => res is None,
        }
    } else if w.len() == 1 && w[0] == "/skip"@ {
        res matches Some(AdminCommand::SkipCurrentMap)
    } else if w.len() == 2 && w[0] == "/unblacklist"@ {
        res matches Some(AdminCommand::BlacklistRemove { login }) && login@ == w[1]
    } else {
        res is None
    }
}

/// The number of seconds in a word of ASCII digits, if it is from 1 up to `u32::MAX`.
fn secs_of(w: &str) -> (res: Option<u32>)
    ensures
        res == spec_secs(w@),
{
    let n = w.unicode_len();
    let mut i: usize = 0;
    while i < n
        invariant
            n == w@.len(),
            i <= n,
            forall|k: int| 0 <= k < i ==> '0' <= #[trigger] w@[k] <= '9',
        decreases n - i,
    {
        let c = w.get_char(i);
        if !('0' <= c && c <= '9') {
            return None;
        }
        i = i + 1;
    }
    if n == 0 {
        return None;
    }
    proof {
        assert(w@.len() > 0 && w@[0] != '+');
        assert(!(w@.len() > 0 && w@[0] == '+'));
        assert(all_digits(w@));
        crate::text::lemma_digits_value_nonneg(w@);
    }
    match parse_u64(w) {
        Some(v) => {
            if v > 0 && v <= 4294967295 {
                Some(v as u32)
            } else {
                None
            }
        },
        None => None,
    }
}

impl<'a> AdminCommand<'a> {
    /// Parse an admin command.
    pub fn from(chat_message: &'a str) -> (res: Option<AdminCommand<'a>>)
        ensures
            spec_admin_from(split_ws(chat_message@), res),
    {
        let w = split_whitespace(chat_message);
        let n = w.len();
        if n == 2 && str_eq(w[0], "/blacklist") {
            Some(AdminCommand::BlacklistAdd { login: w[1] })
        } else if n == 1 && str_eq(w[0], "/help") {
            Some(AdminCommand::Help)
        } else if n == 2 && str_eq(w[0], "/map_import") {
            Some(AdminCommand::ImportMap { id: w[1] })
        } else if n == 1 && str_eq(w[0], "/maps") {
            Some(AdminCommand::ListMaps)
        } else if n == 1 && str_eq(w[0], "/players") {
            Some(AdminCommand::ListPlayers)
        } else if n == 3 && str_eq(w[0], "/playlist") && str_eq(w[1], "add") {
            Some(AdminCommand::PlaylistAdd { uid: w[2] })
        } else if n == 3 && str_eq(w[0], "/playlist") && str_eq(w[1], "remove") {
            Some(AdminCommand::PlaylistRemove { uid: w[2] })
        } else if n == 2 && str_eq(w[0], "/queue") {
            Some(AdminCommand::ForceQueue { uid: w[1] })
        } else if n == 1 && str_eq(w[0], "/restart") {
            Some(AdminCommand::RestartCurrentMap)
        } else if n == 3 && str_eq(w[0], "/set") && str_eq(w[1], "timelimit") {
            match secs_of(w[2]) {
                Some(secs) => Some(AdminCommand::SetRaceDuration(secs)),
                None => None,
            }
        } else if n == 3 && str_eq(w[0], "/set") && str_eq(w[1], "chattime") {
            match secs_of(w[2]) {
                Some(secs) => Some(AdminCommand::SetOutroDuration(secs)),
                None => None,
            }
        } else if n == 1 && str_eq(w[0], "/skip") {
            Some(AdminCommand::SkipCurrentMap)
        } else if n == 2 && str_eq(w[0], "/unblacklist") {
            Some(AdminCommand::BlacklistRemove { login: w[1] })
        } else {
            None
        }
    }
}

/// Chat commands for players.
#[derive(Debug, Clone, Copy, PartialEq, Eq, Structural)]
pub enum PlayerCommand {
    /// Print a reference of available commands.
    ///
    /// Usage: `/help`
    Help,
    /// Print information about server & controller.
    ///
    /// Usage: `/info`
    Info,
}

/// The player command that the words of a chat message stand for.
pub open spec fn spec_player_from(w: Seq<Seq<char>>) -> Option<PlayerCommand> {
    if w == seq!["/help"@] {
        Some(PlayerCommand::Help)
    } else if w == seq!["/info"@] {
        Some(PlayerCommand::Info)
    } else {
        None
    }
}

impl PlayerCommand {
    /// Parse a player command.
    pub fn from(chat_message: &str) -> (res: Option<PlayerCommand>)
        ensures
            res == spec_player_from(split_ws(chat_message@)),
    {
        let w = split_whitespace(chat_message);
        if w.len() == 1 && str_eq(w[0], "/help") {
            assert(split_ws(chat_message@) =~= seq!["/help"@]);
            Some(PlayerCommand::Help)
        } else if w.len() == 1 && str_eq(w[0], "/info") {
            assert(split_ws(chat_message@) =~= seq!["/info"@]);
            Some(PlayerCommand::Info)
        } else {
            proof {
                if split_ws(chat_message@) == seq!["/help"@] {
                    assert(w@[0]@ == "/help"@);
                }
                if split_ws(chat_message@) == seq!["/info"@] {
                    assert(w@[0]@ == "/info"@);
                }
            }
            None
        }
    }
}

/// Super admin command reference that can be printed in-game.
pub const SUPER_ADMIN_COMMAND_REFERENCE: &'static str = "
/delete map <uid>         Delete a map from the database. Needs confirmation.
/delete player <login>    Delete a player from the database. Needs confirmation.
/shutdown                 Shutdown the server. Needs confirmation.
";

/// Admin command reference that can be printed in-game.
pub const ADMIN_COMMAND_REFERENCE: &'static str = "
/maps        List the server's maps and their UIDs.
/players     List the connected players with login and nickname.

/map_import <id/uid>       Import the trackmania.exchange map with the given id.
/playlist add <uid>        Add the specified map to the playlist.
/playlist remove <uid>     Remove the specified map from the playlist.

/skip            Start the next map immediately.
/restart         Restart the current map after this race.
/queue <uid>     Set the map that will be played after the current one.

/set timelimit <seconds>     Change the time limit.
/set chattime <seconds>      Change the outro duration at the end of a map.

/blacklist <login>       Add a player to the server's blacklist.
/unblacklist <login>     Remove a player from the server's blacklist.
";

/// Player command reference that can be printed in-game.
pub const PLAYER_COMMAND_REFERENCE: &'static str = "
/help     Display this list.
/info     Display information about server & controller.
";


/// Possible responses for chat commands.
pub enum CommandResponse<'a> {
    /// Responses for successful commands that give some output.
    Output(CommandOutputResponse<'a>),
    /// Responses for dangerous commands that need confirmation.
    Confirm(CommandConfirmResponse<'a>),
    /// Responses for failed commands.
    Error(CommandErrorResponse),
}

/// Responses for successful commands that give some output.
pub enum CommandOutputResponse<'a> {
    /// Tell a super admin the command reference.
    ///
    /// Output for: `/help`
    SuperAdminCommandReference,
    /// Tell an admin the command reference.
    ///
    /// Output for: `/help`
    AdminCommandReference,
    /// Tell a player the command reference.
    ///
    /// Output for: `/help`
    PlayerCommandReference,
    /// List all maps in the database, and group maps in- and outside of the playlist.
    ///
    /// Output for `/maps`
    MapList(Vec<&'a MapEntry>),
    /// List the connected players.
    ///
    /// Output for `/players`
    PlayerList(Vec<&'a PlayerInfo>),
    /// Information about server & controller.
    ///
    /// Output for `/info`
    Info {
        controller_version: &'a str,
        most_recent_controller_version: &'a str,
        /// The time limit of a race in seconds.
        race_duration_secs: u32,
        /// The time players can vote at the end of a race in seconds.
        vote_duration_secs: u32,
        super_admin_whitelist: &'a Vec<String>,
        admin_whitelist: &'a Vec<String>,
        server_info: &'a ServerBuildInfo,
        net_stats: &'a ServerNetStats,
        blacklist: &'a Vec<String>,
    },
}

/// Responses for failed commands.
pub enum CommandErrorResponse {
    /// Feedback for commands that affect the playlist.
    ///
    /// Output for `/playlist add`, `/playlist remove`, `/map_import`
    InvalidPlaylistCommand(PlaylistCommandError),
    /// The specified login does not match any player.
    ///
    /// Output for `/delete player`
    UnknownPlayer,
    /// The specified login does not match any blacklisted player.
    ///
    /// Output for `/blacklist`
    UnknownBlacklistPlayer,
    /// Tell a super admin that prior to deleting a player, they have to blacklist them.
    ///
    /// Output for `/delete player`
    CannotDeleteWhitelistedPlayer,
    /// The specified map UID does not match any map.
    ///
    /// Output for `/delete map`, `/queue`
    UnknownMap,
    /// Tell a super admin that prior to deleting a map, they have to remove it from the playlist.
    ///
    /// Output for `/delete map`
    CannotDeletePlaylistMap,
}

/// Responses for dangerous commands that need confirmation.
pub enum CommandConfirmResponse<'a> {
    /// Tell a super admin that all records for that map will be deleted.
    ///
    /// Output for `/delete map`
    ConfirmMapDeletion { file_name: &'a str },
    /// Tell a super admin that all records for that player will be deleted.
    ///
    /// Output for `/delete player`
    ConfirmPlayerDeletion { login: &'a str },
    /// Tell a super admin that the server will shutdown.
    ///
    /// Output for `/shutdown`
    ConfirmShutdown,
}

/// Possible errors when issuing a command that changes the playlist.
#[derive(Debug)]
pub enum PlaylistCommandError {
    /// A generic error message that indicates that the map
    /// UID that was passed to a command was not known.
    UnknownUid,
    /// The map ID or UID used for the map import command was not known.
    UnknownImportId,
    /// An error message sent to admins that try to disable the last enabled
    /// map. An empty playlist would cause all kinds of problems.
    CannotDisableAllMaps,
    /// Tried to import a map that was already imported.
    MapAlreadyImported,
    /// Tried to add a map that was already in the playlist.
    MapAlreadyAdded,
    /// Tried to remove a map that was already removed from the playlist.
    MapAlreadyRemoved,
    /// Command failed for a reason not covered by any other variant; the
    /// error as `{:?}` shows it.
    MapImportFailed(String),
}

/// The rows of maps in (or outside) the playlist: file name fitted to 30
/// columns, UID, and the exchange id if there is one.
pub open spec fn map_lines(maps: Seq<MapEntry>, in_playlist: bool) -> Seq<char>
    decreases maps.len(),
{
    if maps.len() == 0 {
        Seq::empty()
    } else {
        let m = maps.last();
        let rest = map_lines(maps.drop_last(), in_playlist);
        if m.in_playlist == in_playlist {
            rest + spec_fill(m.file_name@, 30) + " | "@ + m.uid@ + " | "@ + match m.exchange_id {
                Some(id) => signed_decimal(id as int),
                None => Seq::empty(),
            } + "\n"@
        } else {
            rest
        }
    }
}

/// The rows of players: plain nickname fitted to 30 columns, and login.
pub open spec fn player_lines(ps: Seq<PlayerInfo>) -> Option<Seq<char>>
    decreases ps.len(),
{
    if ps.len() == 0 {
        Some(Seq::empty())
    } else {
        match (player_lines(ps.drop_last()), spec_plain(ps.last().display_name.formatted@)) {
            (Some(rest), Some(p)) => Some(rest + spec_fill(p, 30) + " | "@ + ps.last().login@ + "\n"@),
            _ => None,
        }
    }
}

/// Texts joined by `, `.
pub open spec fn joined(s: Seq<Seq<char>>) -> Seq<char>
    decreases s.len(),
{
    if s.len() == 0 {
        Seq::empty()
    } else if s.len() == 1 {
        s[0]
    } else {
        joined(s.drop_last()) + ", "@ + s.last()
    }
}

/// The text of an output response; `None` only if a nickname could not be made plain.
pub open spec fn legacy_output_text(r: CommandOutputResponse) -> Option<Seq<char>> {
    match r {
        CommandOutputResponse::SuperAdminCommandReference => Some(
            "Super admin commands:\n"@ + "===================="@ + SUPER_ADMIN_COMMAND_REFERENCE@ + "\n"@
                + "Admin commands:\n"@ + "==============="@ + ADMIN_COMMAND_REFERENCE@ + "\n"@
                + "Player commands:\n"@ + "================"@ + PLAYER_COMMAND_REFERENCE@,
        ),
        CommandOutputResponse::AdminCommandReference => Some(
            "Admin commands:\n"@ + "==============="@ + ADMIN_COMMAND_REFERENCE@ + "\n"@ + "Player commands:\n"@
                + "================\n"@ + PLAYER_COMMAND_REFERENCE@,
        ),
        CommandOutputResponse::PlayerCommandReference => Some(PLAYER_COMMAND_REFERENCE@),
        CommandOutputResponse::MapList(maps) => Some(
            "In playlist:\n"@ + "============\n"@ + map_lines(deref_maps(maps@), true) + "\n"@
                + "Not in playlist:\n"@ + "================\n"@ + map_lines(deref_maps(maps@), false),
        ),
        CommandOutputResponse::PlayerList(players) => player_lines(deref_players(players@)),
        CommandOutputResponse::Info {
                controller_version,
                most_recent_controller_version,
                race_duration_secs,
                vote_duration_secs,
                super_admin_whitelist,
                admin_whitelist,
                server_info,
                net_stats,
                blacklist,
            } => Some(
            "This server uses the 'Steward' controller (https://github.com/timwie/steward)\n"@ + "\n"@
                + "Controller version: "@ + controller_version@ + "\n"@ + "Most recent version: "@
                + most_recent_controller_version@ + "\n"@ + "\n"@ + "Uptime: "@ + signed_decimal(
                trunc_div(trunc_div(net_stats.uptime_secs as int, 60), 60),
            ) + " hours\n"@ + server_info_pretty(*server_info) + "\n"@ + "\n"@ + "Time limit: "@ + signed_decimal(
                race_duration_secs as int,
            ) + " seconds\n"@ + "Outro duration: "@ + signed_decimal(race_duration_secs as int) + " seconds\n"@
                + "Outro vote duration: "@ + signed_decimal(vote_duration_secs as int) + " seconds\n"@ + "\n"@
                + "Super Admins: "@ + joined(super_admin_whitelist@.map_values(|s: String| s@)) + "\n"@ + "Admins: "@
                + joined(admin_whitelist@.map_values(|s: String| s@)) + "\n"@ + "Blacklisted: "@ + joined(
                blacklist@.map_values(|s: String| s@),
            ) + "\n"@,
        ),
    }
}

/// The text of an error response.
pub open spec fn legacy_error_text(r: CommandErrorResponse) -> Option<Seq<char>> {
    match r {
        CommandErrorResponse::InvalidPlaylistCommand(e) => Some(match e {
            PlaylistCommandError::UnknownUid => "No server map with this UID!"@,
            PlaylistCommandError::UnknownImportId => "No map with this ID or UID on Trackmania.Exchange!"@,
            PlaylistCommandError::MapAlreadyImported => "This map was already imported."@,
            PlaylistCommandError::MapAlreadyAdded => "This map is already in the playlist."@,
            PlaylistCommandError::MapAlreadyRemoved => "This map was already removed from the playlist."@,
            PlaylistCommandError::MapImportFailed(err) => "Failed to import map: "@ + err@,
            PlaylistCommandError::CannotDisableAllMaps => "You cannot disable every map! Enable at least one other map."@,
        }),
        CommandErrorResponse::UnknownPlayer => Some("There is no player with that login!\n"@),
        CommandErrorResponse::UnknownBlacklistPlayer => Some("There is no blacklisted player with that login!\n"@),
        CommandErrorResponse::CannotDeleteWhitelistedPlayer => Some(
            "Only blacklisted players can be removed from the database!\n"@,
        ),
        CommandErrorResponse::UnknownMap => Some("There is no map with that UID!\n"@),
        CommandErrorResponse::CannotDeletePlaylistMap => Some(
            "Only maps outside of the playlist can be removed from the database!\n"@,
        ),
    }
}

/// The text of a confirmation response.
pub open spec fn legacy_confirm_text(r: CommandConfirmResponse) -> Option<Seq<char>> {
    match r {
        CommandConfirmResponse::ConfirmMapDeletion { file_name } => Some(
            "Warning: this action will delete map '"@ + file_name@ + "', and all of its records.\n"@,
        ),
        CommandConfirmResponse::ConfirmPlayerDeletion { login } => Some(
            "Warning: this action will delete player '"@ + login@ + "', and all of their records.\n"@,
        ),
        CommandConfirmResponse::ConfirmShutdown => Some("Warning: this will stop the server.\n"@),
    }
}

/// The text of a response; `None` only if a nickname could not be made plain.
pub open spec fn legacy_response_text(r: CommandResponse) -> Option<Seq<char>> {
    match r {
        CommandResponse::Output(o) => legacy_output_text(o),
        CommandResponse::Error(e) => legacy_error_text(e),
        CommandResponse::Confirm(c) => legacy_confirm_text(c),
    }
}

/// Appends texts joined by `, `.
fn push_joined(s: &mut String, items: &Vec<String>)
    ensures
        final(s)@ == old(s)@ + joined(items@.map_values(|t: String| t@)),
{
    let ghost base = s@;
    let ghost v = items@.map_values(|t: String| t@);
    let mut i: usize = 0;
    while i < items.len()
        invariant
            i <= items@.len(),
            v == items@.map_values(|t: String| t@),
            s@ == base + joined(v.take(i as int)),
        decreases items@.len() - i,
    {
        if i > 0 {
            push_str(s, ", ");
        }
        push_str(s, items[i].as_str());
        proof {
            assert(v.take(i + 1).drop_last() =~= v.take(i as int));
            if i == 0 {
                assert(v.take(1) =~= seq![v[0]]);
            }
            assert(s@ =~= base + joined(v.take(i + 1)));
        }
        i = i + 1;
    }
    assert(v.take(items@.len() as int) =~= v);
}

/// Appends the rows of maps in (or outside) the playlist.
fn push_map_lines(s: &mut String, maps: &Vec<&MapEntry>, in_playlist: bool)
    ensures
        final(s)@ == old(s)@ + map_lines(deref_maps(maps@), in_playlist),
{
    let ghost base = s@;
    let ghost ms = deref_maps(maps@);
    let mut i: usize = 0;
    while i < maps.len()
        invariant
            i <= maps@.len(),
            ms == deref_maps(maps@),
            s@ == base + map_lines(ms.take(i as int), in_playlist),
        decreases maps@.len() - i,
    {
        let m = maps[i];
        proof {
            assert(ms.take(i + 1).drop_last() =~= ms.take(i as int));
            assert(ms.take(i + 1).last() == *m);
        }
        if m.in_playlist == in_playlist {
            let name = fill(m.file_name.as_str(), 30);
            push_str(s, name.as_str());
            push_str(s, " | ");
            push_str(s, m.uid.as_str());
            push_str(s, " | ");
            match m.exchange_id {
                Some(id) => push_signed(s, id as i64),
                None => {},
            }
            push_str(s, "\n");
            assert(s@ =~= base + map_lines(ms.take(i + 1), in_playlist));
        }
        i = i + 1;
    }
    assert(ms.take(maps@.len() as int) =~= ms);
}

/// The lines of the player list.
fn player_list_lines(players: &Vec<&PlayerInfo>) -> (res: Option<String>)
    ensures
        match res {
            Some(t) => player_lines(deref_players(players@)) == Some(t@),
            None => player_lines(deref_players(players@)) is None,
        },
{
    let mut s = String::new();
    let ghost ps = deref_players(players@);
    let mut i: usize = 0;
    while i < players.len()
        invariant
            i <= players@.len(),
            ps == deref_players(players@),
            player_lines(ps.take(i as int)) == Some(s@),
        decreases players@.len() - i,
    {
        let p = players[i];
        proof {
            assert(ps.take(i + 1).drop_last() =~= ps.take(i as int));
            assert(ps.take(i + 1).last() == *p);
        }
        let plain = match p.display_name.plain() {
            Some(t) => t,
            None => {
                proof {
                    lemma_player_lines_none(ps, i + 1);
                }
                return None;
            },
        };
        let name = fill(plain.as_str(), 30);
        push_str(&mut s, name.as_str());
        push_str(&mut s, " | ");
        push_str(&mut s, p.login.as_str());
        push_str(&mut s, "\n");
        i = i + 1;
    }
    assert(ps.take(players@.len() as int) =~= ps);
    Some(s)
}

/// The information about server & controller.
#[verifier::rlimit(40)]
fn legacy_info_text(
    controller_version: &str,
    most_recent_controller_version: &str,
    race_duration_secs: u32,
    vote_duration_secs: u32,
    super_admin_whitelist: &Vec<String>,
    admin_whitelist: &Vec<String>,
    server_info: &ServerBuildInfo,
    net_stats: &ServerNetStats,
    blacklist: &Vec<String>,
) -> (res: String)
    ensures
        Some(res@) == legacy_output_text(CommandOutputResponse::Info {
            controller_version,
            most_recent_controller_version,
            race_duration_secs,
            vote_duration_secs,
            super_admin_whitelist,
            admin_whitelist,
            server_info,
            net_stats,
            blacklist,
        }),
{
    let mut s = String::new();
                push_str(&mut s, "This server uses the 'Steward' controller (https://github.com/timwie/steward)\n");
    push_str(&mut s, "\n");
    push_str(&mut s, "Controller version: ");
    push_str(&mut s, controller_version);
    push_str(&mut s, "\n");
    push_str(&mut s, "Most recent version: ");
    push_str(&mut s, most_recent_controller_version);
    push_str(&mut s, "\n");
    push_str(&mut s, "\n");
    push_str(&mut s, "Uptime: ");
    push_signed(&mut s, (net_stats.uptime_secs / 60 / 60) as i64);
    push_str(&mut s, " hours\n");
    push_str(&mut s, "ServerBuildInfo {\n    name: ");
    push_str(&mut s, quote_debug(server_info.name.as_str()).as_str());
    push_str(&mut s, ",\n    version: ");
    push_str(&mut s, quote_debug(server_info.version.as_str()).as_str());
    push_str(&mut s, ",\n    version_date: ");
    push_str(&mut s, quote_debug(server_info.version_date.as_str()).as_str());
    push_str(&mut s, ",\n}");
    push_str(&mut s, "\n");
    push_str(&mut s, "\n");
    let ghost head = s@;
    assert(head =~= "This server uses the 'Steward' controller (https://github.com/timwie/steward)\n"@ + "\n"@
        + "Controller version: "@ + controller_version@ + "\n"@ + "Most recent version: "@
        + most_recent_controller_version@ + "\n"@ + "\n"@ + "Uptime: "@ + signed_decimal(
        trunc_div(trunc_div(net_stats.uptime_secs as int, 60), 60),
    ) + " hours\n"@ + server_info_pretty(*server_info) + "\n"@ + "\n"@);
    push_str(&mut s, "Time limit: ");
    push_signed(&mut s, race_duration_secs as i64);
    push_str(&mut s, " seconds\n");
    push_str(&mut s, "Outro duration: ");
    push_signed(&mut s, race_duration_secs as i64);
    push_str(&mut s, " seconds\n");
    push_str(&mut s, "Outro vote duration: ");
    push_signed(&mut s, vote_duration_secs as i64);
    push_str(&mut s, " seconds\n");
    push_str(&mut s, "\n");
    let ghost mid = s@;
    assert(mid =~= head + "Time limit: "@ + signed_decimal(race_duration_secs as int) + " seconds\n"@ + "Outro duration: "@
        + signed_decimal(race_duration_secs as int) + " seconds\n"@ + "Outro vote duration: "@ + signed_decimal(vote_duration_secs as int)
        + " seconds\n"@ + "\n"@);
    push_str(&mut s, "Super Admins: ");
    push_joined(&mut s, super_admin_whitelist);
    push_str(&mut s, "\n");
    push_str(&mut s, "Admins: ");
    push_joined(&mut s, admin_whitelist);
    push_str(&mut s, "\n");
    push_str(&mut s, "Blacklisted: ");
    push_joined(&mut s, blacklist);
    push_str(&mut s, "\n");
    assert(s@ =~= mid + "Super Admins: "@ + joined(super_admin_whitelist@.map_values(|t: String| t@)) + "\n"@ + "Admins: "@
        + joined(admin_whitelist@.map_values(|t: String| t@)) + "\n"@ + "Blacklisted: "@ + joined(blacklist@.map_values(|t: String| t@))
        + "\n"@);
    s
}

impl<'a> CommandOutputResponse<'a> {
    /// The text of this response.
    pub fn to_text(&self) -> (res: Option<String>)
        ensures
            match res {
                Some(t) => legacy_output_text(*self) == Some(t@),
                None => legacy_output_text(*self) is None,
            },
    {
        let mut s = String::new();
        match self {
            CommandOutputResponse::SuperAdminCommandReference => {
                push_str(&mut s, "Super admin commands:\n");
                push_str(&mut s, "====================");
                push_str(&mut s, SUPER_ADMIN_COMMAND_REFERENCE);
                push_str(&mut s, "\n");
                push_str(&mut s, "Admin commands:\n");
                push_str(&mut s, "===============");
                push_str(&mut s, ADMIN_COMMAND_REFERENCE);
                push_str(&mut s, "\n");
                push_str(&mut s, "Player commands:\n");
                push_str(&mut s, "================");
                push_str(&mut s, PLAYER_COMMAND_REFERENCE);
            },
            CommandOutputResponse::AdminCommandReference => {
                push_str(&mut s, "Admin commands:\n");
                push_str(&mut s, "===============");
                push_str(&mut s, ADMIN_COMMAND_REFERENCE);
                push_str(&mut s, "\n");
                push_str(&mut s, "Player commands:\n");
                push_str(&mut s, "================\n");
                push_str(&mut s, PLAYER_COMMAND_REFERENCE);
            },
            CommandOutputResponse::PlayerCommandReference => {
                push_str(&mut s, PLAYER_COMMAND_REFERENCE);
            },
            CommandOutputResponse::MapList(maps) => {
                push_str(&mut s, "In playlist:\n");
                push_str(&mut s, "============\n");
                push_map_lines(&mut s, maps, true);
                push_str(&mut s, "\n");
                push_str(&mut s, "Not in playlist:\n");
                push_str(&mut s, "================\n");
                push_map_lines(&mut s, maps, false);
            },
            CommandOutputResponse::PlayerList(players) => {
                return player_list_lines(players);
            },
            CommandOutputResponse::Info {
                    controller_version,
                    most_recent_controller_version,
                    race_duration_secs,
                    vote_duration_secs,
                    super_admin_whitelist,
                    admin_whitelist,
                    server_info,
                    net_stats,
                    blacklist,
                } => {
                s = legacy_info_text(
                    controller_version,
                    most_recent_controller_version,
                    *race_duration_secs,
                    *vote_duration_secs,
                    super_admin_whitelist,
                    admin_whitelist,
                    server_info,
                    net_stats,
                    blacklist,
                );
            },
        }
        Some(s)
    }
}

impl CommandErrorResponse {
    /// The text of this response.
    pub fn to_text(&self) -> (res: String)
        ensures
            legacy_error_text(*self) == Some(res@),
    {
        let mut s = String::new();
        match self {
            CommandErrorResponse::InvalidPlaylistCommand(e) => match e {
                PlaylistCommandError::UnknownUid => push_str(&mut s, "No server map with this UID!"),
                PlaylistCommandError::UnknownImportId => push_str(&mut s, "No map with this ID or UID on Trackmania.Exchange!"),
                PlaylistCommandError::MapAlreadyImported => push_str(&mut s, "This map was already imported."),
                PlaylistCommandError::MapAlreadyAdded => push_str(&mut s, "This map is already in the playlist."),
                PlaylistCommandError::MapAlreadyRemoved => push_str(&mut s, "This map was already removed from the playlist."),
                PlaylistCommandError::MapImportFailed(err) => {
                    push_str(&mut s, "Failed to import map: ");
                    push_str(&mut s, err.as_str());
                },
                PlaylistCommandError::CannotDisableAllMaps => push_str(
                    &mut s,
                    "You cannot disable every map! Enable at least one other map.",
                ),
            },
            CommandErrorResponse::UnknownPlayer => push_str(&mut s, "There is no player with that login!\n"),
            CommandErrorResponse::UnknownBlacklistPlayer => push_str(
                &mut s,
                "There is no blacklisted player with that login!\n",
            ),
            CommandErrorResponse::CannotDeleteWhitelistedPlayer => push_str(
                &mut s,
                "Only blacklisted players can be removed from the database!\n",
            ),
            CommandErrorResponse::UnknownMap => push_str(&mut s, "There is no map with that UID!\n"),
            CommandErrorResponse::CannotDeletePlaylistMap => push_str(
                &mut s,
                "Only maps outside of the playlist can be removed from the database!\n",
            ),
        }
        s
    }
}

impl<'a> CommandConfirmResponse<'a> {
    /// The text of this response.
    pub fn to_text(&self) -> (res: String)
        ensures
            legacy_confirm_text(*self) == Some(res@),
    {
        let mut s = String::new();
        match self {
            CommandConfirmResponse::ConfirmMapDeletion { file_name } => {
                push_str(&mut s, "Warning: this action will delete map '");
                push_str(&mut s, file_name);
                push_str(&mut s, "', and all of its records.\n");
            },
            CommandConfirmResponse::ConfirmPlayerDeletion { login } => {
                push_str(&mut s, "Warning: this action will delete player '");
                push_str(&mut s, login);
                push_str(&mut s, "', and all of their records.\n");
            },
            CommandConfirmResponse::ConfirmShutdown => {
                push_str(&mut s, "Warning: this will stop the server.\n");
            },
        }
        s
    }
}

impl<'a> CommandResponse<'a> {
    /// The text of this response, as it is sent to the player.
    pub fn to_text(&self) -> (res: Option<String>)
        ensures
            match res {
                Some(t) => legacy_response_text(*self) == Some(t@),
                None => legacy_response_text(*self) is None,
            },
    {
        match self {
            CommandResponse::Output(o) => o.to_text(),
            CommandResponse::Error(e) => Some(e.to_text()),
            CommandResponse::Confirm(c) => Some(c.to_text()),
        }
    }
}

proof fn lemma_player_lines_none(ps: Seq<PlayerInfo>, n: int)
    requires
        0 <= n <= ps.len(),
        player_lines(ps.take(n)) is None,
    ensures
        player_lines(ps) is None,
    decreases ps.len() - n,
{
    if n < ps.len() {
        assert(ps.take(n + 1).drop_last() =~= ps.take(n));
        lemma_player_lines_none(ps, n + 1);
    } else {
        assert(ps.take(n) =~= ps);
    }
}

} // verus!
