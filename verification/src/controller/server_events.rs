//! How the controller reacts to what the server tells it: each callback
//! becomes the steps that the controller takes next, in order. Steps that
//! change the controller's state (players, race) come back with what changed,
//! and then lead to further steps.

use vstd::prelude::*;

use crate::controller::player::PlayerDiff;
use crate::gbx::callbacks::{Callback, ModeScriptSectionCallback, PlayloopCallback};
use crate::gbx::structs::{CheckpointEvent, PlayerInfo, PlayerManialinkEvent, Scores};

verus! {

/// The countdown after a player gave up or skipped their outro, until their
/// next run starts.
pub const RUN_COUNTDOWN_SECS: u64 = 2;

/// A step that the controller takes in reaction to the server.
pub enum Reaction {
    /// Update the cached information of a player (`PlayersState::update_player`).
    UpdatePlayer(PlayerInfo),
    /// Forget a player who left (`PlayersState::remove_player`).
    RemovePlayer { login: String },
    /// The connected players changed.
    NewPlayerList(PlayerDiff),
    /// A player starts a run, after the given countdown.
    BeginRun { login: String, after_secs: u64 },
    /// A player crossed a checkpoint or the finish line.
    ContinueRun(CheckpointEvent),
    /// A player's run is not coherent and does not count.
    DesyncRun { login: String },
    /// Set whether the race is paused (`RaceState::set_pause`).
    SetPause(bool),
    /// Set whether the race is in warmup (`RaceState::set_warmup`).
    SetWarmup(bool),
    /// Take over the server's race ranking (`RaceState::set_scores`).
    SetScores(Scores),
    BeginPause,
    EndPause,
    BeginWarmup,
    EndWarmup,
    /// The mode script was restarted or changed: its options are read again,
    /// and the match settings are saved.
    ChangeMode,
    BeginIntro,
    EndIntro,
    BeginOutro,
    EndOutro,
    ChangeMap,
    /// The server now plays the map at this playlist index.
    SetPlaylistIndex(usize),
    /// The playlist was modified on the server: save the match settings.
    SaveMatchSettings,
    /// A chat message or command of a player.
    Chat { from_uid: i32, from_login: String, message: String },
    /// A player answered a Manialink.
    Answer { from_uid: i32, from_login: String, answer: PlayerManialinkEvent },
}

/// The steps for a mode script section.
pub open spec fn section_reactions(s: ModeScriptSectionCallback) -> Seq<Reaction> {
    match s {
        ModeScriptSectionCallback::PreStartServer { restarted_script, changed_script } => if restarted_script
            || changed_script {
            seq![Reaction::ChangeMode]
        } else {
            Seq::empty()
        },
        ModeScriptSectionCallback::PreLoadMap { is_restart } => if is_restart {
            seq![Reaction::EndOutro, Reaction::BeginIntro]
        } else {
            seq![Reaction::BeginIntro]
        },
        ModeScriptSectionCallback::StartWarmupRound(_) => seq![Reaction::BeginWarmup],
        ModeScriptSectionCallback::EndWarmupRound(status) => if status.current_round == status.nb_total_rounds {
            seq![Reaction::EndWarmup]
        } else {
            Seq::empty()
        },
        ModeScriptSectionCallback::StartPlayloop => seq![Reaction::EndIntro],
        ModeScriptSectionCallback::EndPlayloop => seq![Reaction::BeginOutro],
        ModeScriptSectionCallback::EndMapScores(scores) => seq![Reaction::SetScores(scores)],
        ModeScriptSectionCallback::PreUnloadMap => seq![Reaction::ChangeMap, Reaction::EndOutro],
        _ => Seq::empty(),
    }
}

/// The steps for a playloop callback.
pub open spec fn playloop_reactions(p: PlayloopCallback) -> Seq<Reaction> {
    match p {
        PlayloopCallback::StartLine { login } => seq![Reaction::BeginRun { login, after_secs: 0 }],
        PlayloopCallback::GiveUp { login } => seq![Reaction::BeginRun { login, after_secs: RUN_COUNTDOWN_SECS }],
        PlayloopCallback::SkipOutro { login } => seq![Reaction::BeginRun { login, after_secs: RUN_COUNTDOWN_SECS }],
        PlayloopCallback::Checkpoint(ev) => seq![Reaction::ContinueRun(ev)],
        PlayloopCallback::CheckpointRespawn(_) => Seq::empty(),
        PlayloopCallback::Incoherence { login } => seq![Reaction::DesyncRun { login }],
    }
}

/// The steps for a server callback, in order.
pub open spec fn callback_reactions(cb: Callback) -> Seq<Reaction> {
    match cb {
        Callback::ModeScriptSection(s) => section_reactions(s),
        Callback::Playloop(p) => playloop_reactions(p),
        Callback::PlayerInfoChanged(info) => seq![Reaction::UpdatePlayer(info)],
        Callback::PlayerDisconnect { login } => seq![Reaction::RemovePlayer { login }],
        Callback::PlaylistChanged { curr_idx, next_idx: _, playlist_modified } => {
            let head: Seq<Reaction> = match curr_idx {
                Some(i) => seq![Reaction::SetPlaylistIndex(i as usize)],
                None => Seq::empty(),
            };
            if playlist_modified {
                head.push(Reaction::SaveMatchSettings)
            } else {
                head
            }
        },
        Callback::PlayerChat { from_uid, from_login, message } => seq![Reaction::Chat { from_uid, from_login, message }],
        Callback::PlayerAnswered { from_uid, from_login, answer } => seq![
            Reaction::Answer { from_uid, from_login, answer },
        ],
        Callback::Scores(scores) => seq![Reaction::SetScores(scores)],
        Callback::PauseStatus(status) => seq![Reaction::SetPause(status.active)],
        Callback::WarmupStatus(status) => seq![Reaction::SetWarmup(status.active)],
    }
}

fn section_steps(s: ModeScriptSectionCallback) -> (res: Vec<Reaction>)
    ensures
        res@ == section_reactions(s),
{
    match s {
        ModeScriptSectionCallback::PreStartServer { restarted_script, changed_script } => {
            if restarted_script || changed_script {
                vec![Reaction::ChangeMode]
            } else {
                Vec::new()
            }
        },
        ModeScriptSectionCallback::PreLoadMap { is_restart } => {
            if is_restart {
                vec![Reaction::EndOutro, Reaction::BeginIntro]
            } else {
                vec![Reaction::BeginIntro]
            }
        },
        ModeScriptSectionCallback::StartWarmupRound(_) => vec![Reaction::BeginWarmup],
        ModeScriptSectionCallback::EndWarmupRound(status) => {
            if status.current_round == status.nb_total_rounds {
                vec![Reaction::EndWarmup]
            } else {
                Vec::new()
            }
        },
        ModeScriptSectionCallback::StartPlayloop => vec![Reaction::EndIntro],
        ModeScriptSectionCallback::EndPlayloop => vec![Reaction::BeginOutro],
        ModeScriptSectionCallback::EndMapScores(scores) => vec![Reaction::SetScores(scores)],
        ModeScriptSectionCallback::PreUnloadMap => vec![Reaction::ChangeMap, Reaction::EndOutro],
        _ => Vec::new(),
    }
}

fn playloop_steps(p: PlayloopCallback) -> (res: Vec<Reaction>)
    ensures
        res@ == playloop_reactions(p),
{
    match p {
        PlayloopCallback::StartLine { login } => vec![Reaction::BeginRun { login, after_secs: 0 }],
        PlayloopCallback::GiveUp { login } => vec![Reaction::BeginRun { login, after_secs: RUN_COUNTDOWN_SECS }],
        PlayloopCallback::SkipOutro { login } => vec![Reaction::BeginRun { login, after_secs: RUN_COUNTDOWN_SECS }],
        PlayloopCallback::Checkpoint(ev) => vec![Reaction::ContinueRun(ev)],
        PlayloopCallback::CheckpointRespawn(_) => Vec::new(),
        PlayloopCallback::Incoherence { login } => vec![Reaction::DesyncRun { login }],
    }
}

/// The steps that the controller takes for a server callback, in order.
pub fn on_server_callback(cb: Callback) -> (res: Vec<Reaction>)
    ensures
        res@ == callback_reactions(cb),
{
    match cb {
        Callback::ModeScriptSection(s) => section_steps(s),
        Callback::Playloop(p) => playloop_steps(p),
        Callback::PlayerInfoChanged(info) => vec![Reaction::UpdatePlayer(info)],
        Callback::PlayerDisconnect { login } => vec![Reaction::RemovePlayer { login }],
        Callback::PlaylistChanged { curr_idx, next_idx: _, playlist_modified } => {
            let mut res: Vec<Reaction> = Vec::new();
            match curr_idx {
                Some(i) => res.push(Reaction::SetPlaylistIndex(i as usize)),
                None => {},
            }
            if playlist_modified {
                res.push(Reaction::SaveMatchSettings);
            }
            proof {
                let head: Seq<Reaction> = match curr_idx {
                    Some(i) => seq![Reaction::SetPlaylistIndex(i as usize)],
                    None => Seq::empty(),
                };
                if playlist_modified {
                    assert(res@ =~= head.push(Reaction::SaveMatchSettings));
                } else {
                    assert(res@ =~= head);
                }
            }
            res
        },
        Callback::PlayerChat { from_uid, from_login, message } => vec![Reaction::Chat { from_uid, from_login, message }],
        Callback::PlayerAnswered { from_uid, from_login, answer } => vec![Reaction::Answer { from_uid, from_login, answer }],
        Callback::Scores(scores) => vec![Reaction::SetScores(scores)],
        Callback::PauseStatus(status) => vec![Reaction::SetPause(status.active)],
        Callback::WarmupStatus(status) => vec![Reaction::SetWarmup(status.active)],
    }
}

/// The step after the players changed: the new player list, if there was
/// a change.
pub fn player_list_step(diff: Option<PlayerDiff>) -> (res: Option<Reaction>)
    ensures
        res == match diff {
            Some(d) => Some(Reaction::NewPlayerList(d)),
            None => None::<Reaction>,
        },
{
    match diff {
        Some(d) => Some(Reaction::NewPlayerList(d)),
        None => None,
    }
}

/// The step after a pause was set: it begins or ends, if that changed.
pub fn pause_step(changed: bool, active: bool) -> (res: Option<Reaction>)
    ensures
        res == if !changed {
            None::<Reaction>
        } else if active {
            Some(Reaction::BeginPause)
        } else {
            Some(Reaction::EndPause)
        },
{
    if !changed {
        None
    } else if active {
        Some(Reaction::BeginPause)
    } else {
        Some(Reaction::EndPause)
    }
}

/// The step after a warmup was set: it begins or ends, if that changed.
pub fn warmup_step(changed: bool, active: bool) -> (res: Option<Reaction>)
    ensures
        res == if !changed {
            None::<Reaction>
        } else if active {
            Some(Reaction::BeginWarmup)
        } else {
            Some(Reaction::EndWarmup)
        },
{
    if !changed {
        None
    } else if active {
        Some(Reaction::BeginWarmup)
    } else {
        Some(Reaction::EndWarmup)
    }
}

/// Each callback about a player's run or state leads to the step that acts
/// on it, with the same data: a checkpoint or finish continues the run (and
/// only a checkpoint does), a player at the start line begins a run at once,
/// one who gave up or skipped the outro after the countdown, an incoherent
/// run is dropped, changed information updates the player, a disconnect
/// removes them, and the pause and warmup statuses are taken over. A warmup
/// section ends with the last warmup round only.
pub proof fn law_callbacks_lead_to_their_steps(cb: Callback, e: CheckpointEvent)
    ensures
        cb matches Callback::Playloop(PlayloopCallback::Checkpoint(ev)) ==> callback_reactions(cb).contains(
            Reaction::ContinueRun(ev),
        ),
        callback_reactions(cb).contains(Reaction::ContinueRun(e)) ==> cb == Callback::Playloop(
            PlayloopCallback::Checkpoint(e),
        ),
        cb matches Callback::Playloop(PlayloopCallback::StartLine { login }) ==> callback_reactions(cb).contains(
            Reaction::BeginRun { login, after_secs: 0 },
        ),
        cb matches Callback::Playloop(PlayloopCallback::GiveUp { login }) ==> callback_reactions(cb).contains(
            Reaction::BeginRun { login, after_secs: RUN_COUNTDOWN_SECS },
        ),
        cb matches Callback::Playloop(PlayloopCallback::SkipOutro { login }) ==> callback_reactions(cb).contains(
            Reaction::BeginRun { login, after_secs: RUN_COUNTDOWN_SECS },
        ),
        cb matches Callback::Playloop(PlayloopCallback::Incoherence { login }) ==> callback_reactions(cb).contains(
            Reaction::DesyncRun { login },
        ),
        cb matches Callback::PlayerInfoChanged(info) ==> callback_reactions(cb).contains(Reaction::UpdatePlayer(info)),
        cb matches Callback::PlayerDisconnect { login } ==> callback_reactions(cb).contains(
            Reaction::RemovePlayer { login },
        ),
        cb matches Callback::PauseStatus(st) ==> callback_reactions(cb).contains(Reaction::SetPause(st.active)),
        cb matches Callback::WarmupStatus(st) ==> callback_reactions(cb).contains(Reaction::SetWarmup(st.active)),
        cb matches Callback::Scores(sc) ==> callback_reactions(cb).contains(Reaction::SetScores(sc)),
        cb matches Callback::ModeScriptSection(ModeScriptSectionCallback::EndWarmupRound(st))
            ==> callback_reactions(cb).contains(Reaction::EndWarmup) == (st.current_round == st.nb_total_rounds),
{
    let r = callback_reactions(cb);
    match cb {
        Callback::ModeScriptSection(sec) => {
            assert(!r.contains(Reaction::ContinueRun(e)));
            if let ModeScriptSectionCallback::EndWarmupRound(st) = sec {
                if st.current_round == st.nb_total_rounds {
                    assert(r[0] == Reaction::EndWarmup);
                }
            }
        },
        Callback::Playloop(p) => {
            assert(r.len() > 0 ==> r.len() == 1);
            if r.len() == 1 {
                assert(r.contains(r[0]));
            }
        },
        Callback::PlaylistChanged { curr_idx, next_idx, playlist_modified } => {
            assert forall|k: int| 0 <= k < r.len() implies r[k] is SetPlaylistIndex || r[k] is SaveMatchSettings by {}
        },
        _ => {
            assert(r.len() == 1);
            assert(r.contains(r[0]));
        },
    }
}

} // verus!
