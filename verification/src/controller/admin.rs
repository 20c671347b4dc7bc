//! What admin commands decide before the server is told: what each command
//! does, which game mode a name stands for, which match settings file a name
//! stands for, and how a dangerous command is answered before it is confirmed.

use vstd::prelude::*;

use crate::chat::command::from_admin::AdminCommand;
use crate::chat::command::from_super_admin::DangerousCommand;
use crate::chat::command::output::{CommandConfirmOutput, CommandErrorOutput, CommandOutput};
use crate::chat::command::reference::{str_lt, text_lt};
use crate::controller::playlist::{first_index, MapEntry, PlaylistState};
use crate::compat::{ends_with, str_ends_with};
use crate::gbx::structs::{mode_name, spec_default_modes, ModeScript, PauseStatus, WarmupStatus};
use crate::text::{push_str, str_eq, trim_end, trim_end_matches};

verus! {

/// The lower case of a text, as `str::to_lowercase` maps it.
pub uninterp spec fn lowercase(s: Seq<char>) -> Seq<char>;

/// The lower case of a text (`str::to_lowercase`); named by `lowercase`.
#[verifier::external_body]
fn to_lowercase(s: &str) -> (res: String)
    ensures
        res@ == lowercase(s@),
{
    s.to_lowercase()
}

/// The first of the modes whose name is `key` in lower case.
pub open spec fn first_named(modes: Seq<ModeScript>, key: Seq<char>) -> Option<ModeScript>
    decreases modes.len(),
{
    if modes.len() == 0 {
        None
    } else if lowercase(mode_name(modes[0])) == key {
        Some(modes[0])
    } else {
        first_named(modes.drop_first(), key)
    }
}

/// The default game mode that an admin named, ignoring case; `None` if no
/// default mode has that name.
pub fn default_mode_named(script_name: &str) -> (res: Option<ModeScript>)
    ensures
        res == first_named(spec_default_modes(), lowercase(script_name@)),
{
    let key = to_lowercase(script_name);
    let mut modes = ModeScript::default_modes();
    let ghost all = modes@;
    let mut i: usize = 0;
    assert(all.skip(0) =~= all);
    while i < modes.len()
        invariant
            modes@ == all,
            all == spec_default_modes(),
            key@ == lowercase(script_name@),
            i <= all.len(),
            first_named(all, key@) == first_named(all.skip(i as int), key@),
        decreases all.len() - i,
    {
        let name = to_lowercase(modes[i].name());
        proof {
            assert(all.skip(i as int)[0] == all[i as int]);
            assert(all.skip(i as int).drop_first() =~= all.skip(i + 1));
        }
        if str_eq(name.as_str(), key.as_str()) {
            let m = modes.remove(i);
            proof {
                assert(m == all[i as int]);
                assert(all.skip(i as int)[0] == m);
                assert(lowercase(mode_name(all.skip(i as int)[0])) == key@);
                assert(first_named(all.skip(i as int), key@) == Some(m));
            }
            return Some(m);
        }
        i = i + 1;
    }
    None
}

/// The file of the match settings an admin named: the name with its `.txt`
/// endings taken off and one put back; and the name of those settings, the
/// file without its `.txt` endings.
pub fn match_settings_file(file_name: &str) -> (res: (String, String))
    ensures
        res.0@ == trim_end(file_name@, ".txt"@) + ".txt"@,
        res.1@ == trim_end(res.0@, ".txt"@),
{
    proof {
        reveal_strlit(".txt");
    }
    let mut file = String::new();
    push_str(&mut file, trim_end_matches(file_name, ".txt"));
    push_str(&mut file, ".txt");
    let name = trim_end_matches(file.as_str(), ".txt");
    let mut settings_name = String::new();
    push_str(&mut settings_name, name);
    (file, settings_name)
}

/// `x` put into the sorted `t` after every text that is not greater.
pub open spec fn insert_text(t: Seq<Seq<char>>, x: Seq<char>) -> Seq<Seq<char>>
    decreases t.len(),
{
    if t.len() == 0 {
        seq![x]
    } else if text_lt(x, t.last()) {
        insert_text(t.drop_last(), x).push(t.last())
    } else {
        t.push(x)
    }
}

/// The names of match settings files (those that end with `.txt`), sorted.
pub open spec fn settings_files(names: Seq<Seq<char>>) -> Seq<Seq<char>>
    decreases names.len(),
{
    if names.len() == 0 {
        Seq::empty()
    } else if ends_with(names.last(), ".txt"@) {
        insert_text(settings_files(names.drop_last()), names.last())
    } else {
        settings_files(names.drop_last())
    }
}

/// The texts of a list of strings.
pub open spec fn texts(v: Seq<String>) -> Seq<Seq<char>> {
    v.map_values(|s: String| s@)
}

/// Puts a text into its place in the sorted list.
fn insert_sorted_text(sorted: &mut Vec<String>, x: String)
    ensures
        texts(final(sorted)@) == insert_text(texts(old(sorted)@), x@),
{
    let ghost t = texts(sorted@);
    let mut j: usize = sorted.len();
    assert(t.take(j as int) =~= t);
    assert(t.skip(j as int) =~= Seq::<Seq<char>>::empty());
    assert(insert_text(t, x@) + t.skip(j as int) =~= insert_text(t, x@));
    while j > 0 && str_lt(x.as_str(), sorted[j - 1].as_str())
        invariant
            j <= sorted@.len(),
            t == texts(sorted@),
            insert_text(t, x@) == insert_text(t.take(j as int), x@) + t.skip(j as int),
        decreases j,
    {
        proof {
            let tj = t.take(j as int);
            assert(tj.last() == sorted@[j - 1]@);
            assert(tj.drop_last() =~= t.take(j - 1));
            assert(seq![tj.last()] + t.skip(j as int) =~= t.skip(j - 1));
            assert(insert_text(tj, x@) == insert_text(t.take(j - 1), x@).push(tj.last()));
            assert(insert_text(t.take(j - 1), x@).push(tj.last()) + t.skip(j as int)
                =~= insert_text(t.take(j - 1), x@) + t.skip(j - 1));
        }
        j = j - 1;
    }
    proof {
        let tj = t.take(j as int);
        if j > 0 {
            assert(tj.last() == sorted@[j - 1]@);
        }
        assert(insert_text(tj, x@) =~= tj.push(x@));
    }
    let ghost xv = x@;
    sorted.insert(j, x);
    assert(texts(sorted@) =~= t.take(j as int).push(xv) + t.skip(j as int));
}

/// The match settings files an admin can choose from, of the names of the
/// files in the match settings directory: those that end with `.txt`, sorted.
pub fn settings_options(names: Vec<String>) -> (res: Vec<String>)
    ensures
        texts(res@) == settings_files(texts(names@)),
{
    let ghost all = texts(names@);
    let mut sorted: Vec<String> = Vec::new();
    let mut rest = names;
    let mut i: usize = 0;
    let n = rest.len();
    while i < n
        invariant
            n == all.len(),
            i <= n,
            texts(rest@) == all.skip(i as int),
            rest@.len() == n - i,
            texts(sorted@) == settings_files(all.take(i as int)),
        decreases n - i,
    {
        let ghost before = rest@;
        let name = rest.remove(0);
        proof {
            assert(name == before[0]);
            assert(texts(before)[0] == before[0]@);
            assert(all.skip(i as int)[0] == name@);
            assert(all[i as int] == name@);
            assert forall|k: int| 0 <= k < rest@.len() implies #[trigger] texts(rest@)[k] == all.skip(i + 1)[k] by {
                assert(rest@[k] == before[k + 1]);
                assert(texts(before)[k + 1] == before[k + 1]@);
                assert(all.skip(i as int)[k + 1] == all.skip(i + 1)[k]);
            }
            assert(texts(rest@) =~= all.skip(i + 1));
            assert(all.take(i + 1).drop_last() =~= all.take(i as int));
            assert(all.take(i + 1).last() == name@);
        }
        proof {
            reveal_strlit(".txt");
        }
        if str_ends_with(name.as_str(), ".txt") {
            insert_sorted_text(&mut sorted, name);
        }
        i = i + 1;
    }
    assert(all.take(n as int) =~= all);
    sorted
}

/// Whether `login` is on the blacklist.
fn is_blacklisted(blacklist: &Vec<String>, login: &str) -> (res: bool)
    ensures
        res == texts(blacklist@).contains(login@),
{
    let mut i: usize = 0;
    while i < blacklist.len()
        invariant
            i <= blacklist@.len(),
            forall|j: int| 0 <= j < i ==> texts(blacklist@)[j] != login@,
        decreases blacklist@.len() - i,
    {
        if str_eq(blacklist[i].as_str(), login) {
            assert(texts(blacklist@)[i as int] == login@);
            return true;
        }
        i = i + 1;
    }
    false
}

/// How a super admin's request for a dangerous command is answered, given
/// the known map of that UID, if any: a map can only be deleted when it is
/// known and not in the playlist, a player only when blacklisted; any other
/// request is asked to be confirmed.
pub fn prepare_dangerous<'a>(
    cmd: DangerousCommand<'a>,
    map: Option<&'a MapEntry>,
    playlist: &PlaylistState,
    blacklist: &Vec<String>,
) -> (res: CommandOutput<'a>)
    ensures
        match cmd {
            DangerousCommand::DeleteMap { uid } => match map {
                None => res matches CommandOutput::Error(CommandErrorOutput::UnknownMap),
                Some(m) => if first_index(playlist.maps@, uid@) is Some {
                    res matches CommandOutput::Error(CommandErrorOutput::CannotDeletePlaylistMap)
                } else {
                    res matches CommandOutput::Confirm(
                        DangerousCommand::DeleteMap { uid: u },
                        CommandConfirmOutput::ConfirmMapDeletion { file_name },
                    ) && u@ == uid@ && file_name@ == m.file_name@
                },
            },
            DangerousCommand::DeletePlayer { login } => if texts(blacklist@).contains(login@) {
                res matches CommandOutput::Confirm(
                    DangerousCommand::DeletePlayer { login: l },
                    CommandConfirmOutput::ConfirmPlayerDeletion { login: shown },
                ) && l@ == login@ && shown@ == login@
            } else {
                res matches CommandOutput::Error(CommandErrorOutput::CannotDeleteWhitelistedPlayer)
            },
            DangerousCommand::Shutdown => res matches CommandOutput::Confirm(
                DangerousCommand::Shutdown,
                CommandConfirmOutput::ConfirmShutdown,
            ),
        },
{
    match cmd {
        DangerousCommand::DeleteMap { uid } => match map {
            None => CommandOutput::Error(CommandErrorOutput::UnknownMap),
            Some(m) => {
                if playlist.index_of(uid).is_some() {
                    CommandOutput::Error(CommandErrorOutput::CannotDeletePlaylistMap)
                } else {
                    CommandOutput::Confirm(
                        DangerousCommand::DeleteMap { uid },
                        CommandConfirmOutput::ConfirmMapDeletion { file_name: m.file_name.as_str() },
                    )
                }
            },
        },
        DangerousCommand::DeletePlayer { login } => {
            if is_blacklisted(blacklist, login) {
                CommandOutput::Confirm(
                    DangerousCommand::DeletePlayer { login },
                    CommandConfirmOutput::ConfirmPlayerDeletion { login },
                )
            } else {
                CommandOutput::Error(CommandErrorOutput::CannotDeleteWhitelistedPlayer)
            }
        },
        DangerousCommand::Shutdown => CommandOutput::Confirm(DangerousCommand::Shutdown, CommandConfirmOutput::ConfirmShutdown),
    }
}

/// What the controller does for an admin's command.
pub enum AdminStep<'a> {
    /// Show the current config for editing.
    ShowConfig,
    /// List the known maps, in and outside the playlist (see `map_list_sections`).
    ListMaps,
    /// List the connected players.
    ListPlayers,
    /// Add a known map to the playlist (see `PlaylistState::check_add`).
    AddToPlaylist { uid: &'a str },
    /// Remove a map from the playlist (see `PlaylistState::remove`).
    RemoveFromPlaylist { uid: &'a str },
    /// Import a map from Trackmania Exchange.
    ImportMap { id: &'a str },
    /// End the current map, and announce it.
    SkipMap,
    /// Queue the current map first (see `QueueState::force_restart`), and announce it.
    RestartMap,
    /// Queue the map at this playlist index first (see `QueueState::force_queue`).
    ForceQueue { playlist_index: usize },
    /// Kick and blacklist a player, and announce it.
    Blacklist { login: &'a str },
    /// Take a player off the blacklist, and announce it.
    Unblacklist { login: &'a str },
    /// Toggle the pause of the match, which is active or not.
    TogglePause { active: bool },
    /// Extend the warmup round, and announce it.
    ExtendWarmup { secs: u64 },
    /// End the warmup, and announce it.
    SkipWarmup,
    /// Nothing: admins cannot blacklist themselves.
    Nothing,
    /// Tell the admin why the command cannot be done.
    Refuse(CommandErrorOutput<'a>),
}

/// What the controller does for an admin's command, given the admin's login,
/// the playlist, the server's pause and warmup status and its blacklist.
pub fn admin_step<'a>(
    cmd: AdminCommand<'a>,
    from_login: &str,
    playlist: &PlaylistState,
    pause: &PauseStatus,
    warmup: &WarmupStatus,
    blacklist: &Vec<String>,
) -> (res: AdminStep<'a>)
    ensures
        match cmd {
            AdminCommand::EditConfig => res == AdminStep::ShowConfig,
            AdminCommand::ListMaps => res == AdminStep::ListMaps,
            AdminCommand::ListPlayers => res == AdminStep::ListPlayers,
            AdminCommand::PlaylistAdd { uid } => res == AdminStep::AddToPlaylist { uid },
            AdminCommand::PlaylistRemove { uid } => res == AdminStep::RemoveFromPlaylist { uid },
            AdminCommand::ImportMap { id } => res == AdminStep::ImportMap { id },
            AdminCommand::SkipCurrentMap => res == AdminStep::SkipMap,
            AdminCommand::RestartCurrentMap => res == AdminStep::RestartMap,
            AdminCommand::ForceQueue { uid } => match first_index(playlist.maps@, uid@) {
                Some(i) => res == AdminStep::ForceQueue { playlist_index: i as usize },
                None => res matches AdminStep::Refuse(CommandErrorOutput::UnknownMap),
            },
            AdminCommand::BlacklistAdd { login } => if login@ == from_login@ {
                res == AdminStep::Nothing
            } else {
                res == AdminStep::Blacklist { login }
            },
            AdminCommand::BlacklistRemove { login } => if texts(blacklist@).contains(login@) {
                res == AdminStep::Unblacklist { login }
            } else {
                res matches AdminStep::Refuse(CommandErrorOutput::UnknownBlacklistPlayer)
            },
            AdminCommand::TogglePause => if pause.available {
                res == AdminStep::TogglePause { active: pause.active }
            } else {
                res matches AdminStep::Refuse(CommandErrorOutput::CannotPause)
            },
            AdminCommand::ExtendWarmup { secs } => if warmup.active {
                res == AdminStep::ExtendWarmup { secs }
            } else {
                res matches AdminStep::Refuse(CommandErrorOutput::NotInWarmup)
            },
            AdminCommand::SkipWarmup => if warmup.active {
                res == AdminStep::SkipWarmup
            } else {
                res matches AdminStep::Refuse(CommandErrorOutput::NotInWarmup)
            },
        },
{
    match cmd {
        AdminCommand::EditConfig => AdminStep::ShowConfig,
        AdminCommand::ListMaps => AdminStep::ListMaps,
        AdminCommand::ListPlayers => AdminStep::ListPlayers,
        AdminCommand::PlaylistAdd { uid } => AdminStep::AddToPlaylist { uid },
        AdminCommand::PlaylistRemove { uid } => AdminStep::RemoveFromPlaylist { uid },
        AdminCommand::ImportMap { id } => AdminStep::ImportMap { id },
        AdminCommand::SkipCurrentMap => AdminStep::SkipMap,
        AdminCommand::RestartCurrentMap => AdminStep::RestartMap,
        AdminCommand::ForceQueue { uid } => match playlist.index_of(uid) {
            Some(i) => AdminStep::ForceQueue { playlist_index: i },
            None => AdminStep::Refuse(CommandErrorOutput::UnknownMap),
        },
        AdminCommand::BlacklistAdd { login } => {
            if str_eq(login, from_login) {
                AdminStep::Nothing
            } else {
                AdminStep::Blacklist { login }
            }
        },
        AdminCommand::BlacklistRemove { login } => {
            if is_blacklisted(blacklist, login) {
                AdminStep::Unblacklist { login }
            } else {
                AdminStep::Refuse(CommandErrorOutput::UnknownBlacklistPlayer)
            }
        },
        AdminCommand::TogglePause => {
            if pause.available {
                AdminStep::TogglePause { active: pause.active }
            } else {
                AdminStep::Refuse(CommandErrorOutput::CannotPause)
            }
        },
        AdminCommand::ExtendWarmup { secs } => {
            if warmup.active {
                AdminStep::ExtendWarmup { secs }
            } else {
                AdminStep::Refuse(CommandErrorOutput::NotInWarmup)
            }
        },
        AdminCommand::SkipWarmup => {
            if warmup.active {
                AdminStep::SkipWarmup
            } else {
                AdminStep::Refuse(CommandErrorOutput::NotInWarmup)
            }
        },
    }
}

} // verus!
