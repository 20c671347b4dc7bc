//! Server and mode script callbacks, and how a script callback is told
//! apart by its name and turned into one of them.

use vstd::prelude::*;

use crate::gbx::structs::{
    ChampionEndRoundEvent, CheckpointEvent, CheckpointRespawnEvent, KnockoutEndRoundEvent,
    PauseStatus, PlayerInfo, PlayerManialinkEvent, Scores, ScoresSection, WarmupRoundStatus,
    WarmupStatus,
};
use crate::text::str_eq;

verus! {

/// The version of the script API that this library speaks.
pub const SCRIPT_API_VERSION: &'static str = "3.1.0";

/// Server and mode script callbacks: calls to be executed controller-side.
pub enum Callback {
    /// Sent when the game mode script reaches a certain section.
    ModeScriptSection(ModeScriptSectionCallback),
    /// Sent during the game mode's playloop.
    Playloop(PlayloopCallback),
    /// Sent when player info changes, f.e. when entering or leaving spectator
    /// mode. Sent on connect, but not on disconnect.
    PlayerInfoChanged(PlayerInfo),
    /// Sent when a player disconnects from the server.
    PlayerDisconnect { login: String },
    /// Sent when either the playlist or playlist indexes changed.
    PlaylistChanged { curr_idx: Option<i32>, next_idx: i32, playlist_modified: bool },
    /// Sent when a player writes something in the chat.
    PlayerChat { from_uid: i32, from_login: String, message: String },
    /// Sent when a player interacts with a Manialink element that defines an
    /// action, or a ManiaScript triggers one.
    PlayerAnswered { from_uid: i32, from_login: String, answer: PlayerManialinkEvent },
    /// The scores of the current match.
    Scores(Scores),
    /// The status of a pause.
    PauseStatus(PauseStatus),
    /// The status of a warmup.
    WarmupStatus(WarmupStatus),
}

/// Lifecycle callbacks at the start or end of the sections of a game mode
/// script: server, match, map, round, turn and playloop, from early to late.
pub enum ModeScriptSectionCallback {
    /// The mode is about to be initialized, on server start or after a change of script.
    PreStartServer { restarted_script: bool, changed_script: bool },
    /// The mode was initialized.
    PostStartServer,
    /// A match is about to start.
    PreStartMatch,
    /// A match was started.
    PostStartMatch,
    /// A map is about to be loaded or restarted.
    PreLoadMap { is_restart: bool },
    /// A map was loaded or restarted.
    PostLoadMap,
    /// The map intro is about to start.
    PreStartMap { nth_map_in_match: i32 },
    /// A warmup round starts.
    StartWarmupRound(WarmupRoundStatus),
    /// A warmup round ends.
    EndWarmupRound(WarmupRoundStatus),
    /// The map intro ended.
    PostStartMap { nth_map_in_match: i32 },
    /// A round is about to start.
    PreStartRound { nth_round_on_map: i32 },
    /// A round was started.
    PostStartRound { nth_round_on_map: i32 },
    /// The playloop starts.
    StartPlayloop,
    /// The playloop ends.
    EndPlayloop,
    /// A round is about to end.
    PreEndRound { nth_round_on_map: i32 },
    /// The scores before the end of a round.
    PreEndRoundScores(Scores),
    /// The scores at the end of a Champion round.
    EndRoundChampionScores(ChampionEndRoundEvent),
    /// The eliminations at the end of a Knockout round.
    EndRoundKnockoutEliminations(KnockoutEndRoundEvent),
    /// The scores at the end of a round.
    EndRoundScores(Scores),
    /// A round ended.
    PostEndRound { nth_round_on_map: i32 },
    /// The map outro is about to start.
    PreEndMap { nth_map_in_match: i32 },
    /// The scores at the end of a map.
    EndMapScores(Scores),
    /// The map outro ended.
    PostEndMap { nth_map_in_match: i32 },
    /// A map is about to be unloaded.
    PreUnloadMap,
    /// A map was unloaded.
    PostUnloadMap,
    /// A match is about to end.
    PreEndMatch,
    /// The scores at the end of a match.
    EndMatchScores(Scores),
    /// A match ended.
    PostEndMatch,
    /// The mode is about to be unloaded.
    PreEndServer,
    /// The mode was unloaded.
    PostEndServer,
}

/// Callbacks of the game mode's playloop.
pub enum PlayloopCallback {
    /// A player is about to start a run.
    StartLine { login: String },
    /// A player crossed a checkpoint or the finish line.
    Checkpoint(CheckpointEvent),
    /// A player respawned at the previous checkpoint.
    CheckpointRespawn(CheckpointRespawnEvent),
    /// A player gave up their run.
    GiveUp { login: String },
    /// A player skipped the outro of their run, and a countdown follows.
    SkipOutro { login: String },
    /// The run of a player is not coherent, and will not count.
    Incoherence { login: String },
}

/// How a callback was received.
pub enum ReceivedCallback {
    /// A callback that is not represented by `Callback`.
    Ignored,
    /// A callback that was sent by the game server or mode script on its own.
    Unprompted(Callback),
    /// A callback that answers a script method call with this id.
    Prompted { callback: Callback, response_id: String },
}

/// The kind of data in the first argument of a script callback.
#[derive(Clone, Copy, Debug, PartialEq, Eq, Structural)]
pub enum PayloadKind {
    NoData,
    StartServer,
    LoadingMap,
    Counted,
    WarmupRound,
    Scores,
    ChampionScores,
    KnockoutElims,
    Pause,
    Generic,
    Respawn,
    Checkpoint,
    Warmup,
    ApiVersions,
}

/// The data in the first argument of a script callback, parsed.
pub enum ScriptPayload {
    /// No data is read.
    NoData,
    /// Whether the script was restarted, and whether the mode was changed.
    StartServer { restarted: bool, mode_updated: bool },
    /// Whether the map was restarted.
    LoadingMap { restarted: bool },
    /// The number of the map in the match, or of the round on the map.
    Counted { count: i32 },
    WarmupRound(WarmupRoundStatus),
    Scores(Scores),
    ChampionScores(ChampionEndRoundEvent),
    KnockoutElims(KnockoutEndRoundEvent),
    Pause(PauseStatus),
    /// An event that names a player.
    Generic { login: String },
    Respawn(CheckpointRespawnEvent),
    Checkpoint(CheckpointEvent),
    Warmup(WarmupStatus),
    /// The latest script API version.
    ApiVersions { latest: String },
}

/// The kind of a parsed payload.
pub open spec fn kind_of(p: ScriptPayload) -> PayloadKind {
    match p {
        ScriptPayload::NoData => PayloadKind::NoData,
        ScriptPayload::StartServer { .. } => PayloadKind::StartServer,
        ScriptPayload::LoadingMap { .. } => PayloadKind::LoadingMap,
        ScriptPayload::Counted { .. } => PayloadKind::Counted,
        ScriptPayload::WarmupRound(_) => PayloadKind::WarmupRound,
        ScriptPayload::Scores(_) => PayloadKind::Scores,
        ScriptPayload::ChampionScores(_) => PayloadKind::ChampionScores,
        ScriptPayload::KnockoutElims(_) => PayloadKind::KnockoutElims,
        ScriptPayload::Pause(_) => PayloadKind::Pause,
        ScriptPayload::Generic { .. } => PayloadKind::Generic,
        ScriptPayload::Respawn(_) => PayloadKind::Respawn,
        ScriptPayload::Checkpoint(_) => PayloadKind::Checkpoint,
        ScriptPayload::Warmup(_) => PayloadKind::Warmup,
        ScriptPayload::ApiVersions { .. } => PayloadKind::ApiVersions,
    }
}

impl ScriptPayload {
    /// The kind of this payload.
    pub fn kind(&self) -> (res: PayloadKind)
        ensures
            res == kind_of(*self),
    {
        match self {
            ScriptPayload::NoData => PayloadKind::NoData,
            ScriptPayload::StartServer { .. } => PayloadKind::StartServer,
            ScriptPayload::LoadingMap { .. } => PayloadKind::LoadingMap,
            ScriptPayload::Counted { .. } => PayloadKind::Counted,
            ScriptPayload::WarmupRound(_) => PayloadKind::WarmupRound,
            ScriptPayload::Scores(_) => PayloadKind::Scores,
            ScriptPayload::ChampionScores(_) => PayloadKind::ChampionScores,
            ScriptPayload::KnockoutElims(_) => PayloadKind::KnockoutElims,
            ScriptPayload::Pause(_) => PayloadKind::Pause,
            ScriptPayload::Generic { .. } => PayloadKind::Generic,
            ScriptPayload::Respawn(_) => PayloadKind::Respawn,
            ScriptPayload::Checkpoint(_) => PayloadKind::Checkpoint,
            ScriptPayload::Warmup(_) => PayloadKind::Warmup,
            ScriptPayload::ApiVersions { .. } => PayloadKind::ApiVersions,
        }
    }
}

/// The script callbacks that this library knows, by their names.
#[derive(Clone, Copy, Debug, PartialEq, Eq, Structural)]
pub enum ScriptCallbackName {
    /// `Maniaplanet.StartServer_Start`
    StartServerStart,
    /// `Maniaplanet.StartServer_End`
    StartServerEnd,
    /// `Maniaplanet.StartMatch_Start`
    StartMatchStart,
    /// `Maniaplanet.StartMatch_End`
    StartMatchEnd,
    /// `Maniaplanet.LoadingMap_Start`
    LoadingMapStart,
    /// `Maniaplanet.LoadingMap_End`
    LoadingMapEnd,
    /// `Maniaplanet.StartMap_Start`
    StartMapStart,
    /// `Trackmania.WarmUp.StartRound`
    WarmupStartRound,
    /// `Trackmania.WarmUp.EndRound`
    WarmupEndRound,
    /// `Maniaplanet.StartMap_End`
    StartMapEnd,
    /// `Maniaplanet.StartRound_Start`
    StartRoundStart,
    /// `Maniaplanet.StartRound_End`
    StartRoundEnd,
    /// `Maniaplanet.StartPlayLoop`
    StartPlayLoop,
    /// `Maniaplanet.EndPlayLoop`
    EndPlayLoop,
    /// `Maniaplanet.EndRound_Start`
    EndRoundStart,
    /// `Maniaplanet.EndRound_End`
    EndRoundEnd,
    /// `Maniaplanet.EndMap_Start`
    EndMapStart,
    /// `Maniaplanet.EndMap_End`
    EndMapEnd,
    /// `Maniaplanet.UnloadingMap_Start`
    UnloadingMapStart,
    /// `Maniaplanet.UnloadingMap_End`
    UnloadingMapEnd,
    /// `Maniaplanet.EndMatch_Start`
    EndMatchStart,
    /// `Maniaplanet.EndMatch_End`
    EndMatchEnd,
    /// `Maniaplanet.EndServer_Start`
    EndServerStart,
    /// `Maniaplanet.EndServer_End`
    EndServerEnd,
    /// `Trackmania.Scores`
    Scores,
    /// `Trackmania.Champion.Scores`
    ChampionScores,
    /// `Trackmania.Knockout.Elimination`
    KnockoutElimination,
    /// `Maniaplanet.Pause.Status`
    PauseStatus,
    /// `Trackmania.Event.StartLine`
    StartLine,
    /// `Trackmania.Event.SkipOutro`
    SkipOutro,
    /// `Trackmania.Event.Respawn`
    Respawn,
    /// `Trackmania.Event.GiveUp`
    GiveUp,
    /// `Trackmania.Event.WayPoint`
    WayPoint,
    /// `Trackmania.WarmUp.Status`
    WarmupStatus,
    /// `XmlRpc.AllApiVersions`
    AllApiVersions,
    /// A callback that is not used, and ignored on purpose.
    Ignored,
    /// A callback that is not known.
    Unknown,
}

/// The script callback that a callback name stands for.
pub open spec fn script_name_of(name: Seq<char>) -> ScriptCallbackName {
    if name == "Maniaplanet.StartServer_Start"@ {
        ScriptCallbackName::StartServerStart
    } else if name == "Maniaplanet.StartServer_End"@ {
        ScriptCallbackName::StartServerEnd
    } else if name == "Maniaplanet.StartMatch_Start"@ {
        ScriptCallbackName::StartMatchStart
    } else if name == "Maniaplanet.StartMatch_End"@ {
        ScriptCallbackName::StartMatchEnd
    } else if name == "Maniaplanet.LoadingMap_Start"@ {
        ScriptCallbackName::LoadingMapStart
    } else if name == "Maniaplanet.LoadingMap_End"@ {
        ScriptCallbackName::LoadingMapEnd
    } else if name == "Maniaplanet.StartMap_Start"@ {
        ScriptCallbackName::StartMapStart
    } else if name == "Trackmania.WarmUp.StartRound"@ {
        ScriptCallbackName::WarmupStartRound
    } else if name == "Trackmania.WarmUp.EndRound"@ {
        ScriptCallbackName::WarmupEndRound
    } else if name == "Maniaplanet.StartMap_End"@ {
        ScriptCallbackName::StartMapEnd
    } else if name == "Maniaplanet.StartRound_Start"@ {
        ScriptCallbackName::StartRoundStart
    } else if name == "Maniaplanet.StartRound_End"@ {
        ScriptCallbackName::StartRoundEnd
    } else if name == "Maniaplanet.StartPlayLoop"@ {
        ScriptCallbackName::StartPlayLoop
    } else if name == "Maniaplanet.EndPlayLoop"@ {
        ScriptCallbackName::EndPlayLoop
    } else if name == "Maniaplanet.EndRound_Start"@ {
        ScriptCallbackName::EndRoundStart
    } else if name == "Maniaplanet.EndRound_End"@ {
        ScriptCallbackName::EndRoundEnd
    } else if name == "Maniaplanet.EndMap_Start"@ {
        ScriptCallbackName::EndMapStart
    } else if name == "Maniaplanet.EndMap_End"@ {
        ScriptCallbackName::EndMapEnd
    } else if name == "Maniaplanet.UnloadingMap_Start"@ {
        ScriptCallbackName::UnloadingMapStart
    } else if name == "Maniaplanet.UnloadingMap_End"@ {
        ScriptCallbackName::UnloadingMapEnd
    } else if name == "Maniaplanet.EndMatch_Start"@ {
        ScriptCallbackName::EndMatchStart
    } else if name == "Maniaplanet.EndMatch_End"@ {
        ScriptCallbackName::EndMatchEnd
    } else if name == "Maniaplanet.EndServer_Start"@ {
        ScriptCallbackName::EndServerStart
    } else if name == "Maniaplanet.EndServer_End"@ {
        ScriptCallbackName::EndServerEnd
    } else if name == "Trackmania.Scores"@ {
        ScriptCallbackName::Scores
    } else if name == "Trackmania.Champion.Scores"@ {
        ScriptCallbackName::ChampionScores
    } else if name == "Trackmania.Knockout.Elimination"@ {
        ScriptCallbackName::KnockoutElimination
    } else if name == "Maniaplanet.Pause.Status"@ {
        ScriptCallbackName::PauseStatus
    } else if name == "Trackmania.Event.StartLine"@ {
        ScriptCallbackName::StartLine
    } else if name == "Trackmania.Event.SkipOutro"@ {
        ScriptCallbackName::SkipOutro
    } else if name == "Trackmania.Event.Respawn"@ {
        ScriptCallbackName::Respawn
    } else if name == "Trackmania.Event.GiveUp"@ {
        ScriptCallbackName::GiveUp
    } else if name == "Trackmania.Event.WayPoint"@ {
        ScriptCallbackName::WayPoint
    } else if name == "Trackmania.WarmUp.Status"@ {
        ScriptCallbackName::WarmupStatus
    } else if name == "XmlRpc.AllApiVersions"@ {
        ScriptCallbackName::AllApiVersions
    } else if name == "Maniaplanet.StartTurn_Start"@ || name == "Maniaplanet.StartTurn_End"@ || name == "Maniaplanet.EndTurn_Start"@ || name == "Maniaplanet.EndTurn_End"@ || name == "Maniaplanet.Podium_Start"@ || name == "Maniaplanet.Podium_End"@ {
        ScriptCallbackName::Ignored
    } else {
        ScriptCallbackName::Unknown
    }
}

/// The script callback that a callback name stands for.
pub fn script_callback_name(name: &str) -> (res: ScriptCallbackName)
    ensures
        res == script_name_of(name@),
{
    if str_eq(name, "Maniaplanet.StartServer_Start") {
        return ScriptCallbackName::StartServerStart;
    }
    if str_eq(name, "Maniaplanet.StartServer_End") {
        return ScriptCallbackName::StartServerEnd;
    }
    if str_eq(name, "Maniaplanet.StartMatch_Start") {
        return ScriptCallbackName::StartMatchStart;
    }
    if str_eq(name, "Maniaplanet.StartMatch_End") {
        return ScriptCallbackName::StartMatchEnd;
    }
    if str_eq(name, "Maniaplanet.LoadingMap_Start") {
        return ScriptCallbackName::LoadingMapStart;
    }
    if str_eq(name, "Maniaplanet.LoadingMap_End") {
        return ScriptCallbackName::LoadingMapEnd;
    }
    if str_eq(name, "Maniaplanet.StartMap_Start") {
        return ScriptCallbackName::StartMapStart;
    }
    if str_eq(name, "Trackmania.WarmUp.StartRound") {
        return ScriptCallbackName::WarmupStartRound;
    }
    if str_eq(name, "Trackmania.WarmUp.EndRound") {
        return ScriptCallbackName::WarmupEndRound;
    }
    if str_eq(name, "Maniaplanet.StartMap_End") {
        return ScriptCallbackName::StartMapEnd;
    }
    if str_eq(name, "Maniaplanet.StartRound_Start") {
        return ScriptCallbackName::StartRoundStart;
    }
    if str_eq(name, "Maniaplanet.StartRound_End") {
        return ScriptCallbackName::StartRoundEnd;
    }
    if str_eq(name, "Maniaplanet.StartPlayLoop") {
        return ScriptCallbackName::StartPlayLoop;
    }
    if str_eq(name, "Maniaplanet.EndPlayLoop") {
        return ScriptCallbackName::EndPlayLoop;
    }
    if str_eq(name, "Maniaplanet.EndRound_Start") {
        return ScriptCallbackName::EndRoundStart;
    }
    if str_eq(name, "Maniaplanet.EndRound_End") {
        return ScriptCallbackName::EndRoundEnd;
    }
    if str_eq(name, "Maniaplanet.EndMap_Start") {
        return ScriptCallbackName::EndMapStart;
    }
    if str_eq(name, "Maniaplanet.EndMap_End") {
        return ScriptCallbackName::EndMapEnd;
    }
    if str_eq(name, "Maniaplanet.UnloadingMap_Start") {
        return ScriptCallbackName::UnloadingMapStart;
    }
    if str_eq(name, "Maniaplanet.UnloadingMap_End") {
        return ScriptCallbackName::UnloadingMapEnd;
    }
    if str_eq(name, "Maniaplanet.EndMatch_Start") {
        return ScriptCallbackName::EndMatchStart;
    }
    if str_eq(name, "Maniaplanet.EndMatch_End") {
        return ScriptCallbackName::EndMatchEnd;
    }
    if str_eq(name, "Maniaplanet.EndServer_Start") {
        return ScriptCallbackName::EndServerStart;
    }
    if str_eq(name, "Maniaplanet.EndServer_End") {
        return ScriptCallbackName::EndServerEnd;
    }
    if str_eq(name, "Trackmania.Scores") {
        return ScriptCallbackName::Scores;
    }
    if str_eq(name, "Trackmania.Champion.Scores") {
        return ScriptCallbackName::ChampionScores;
    }
    if str_eq(name, "Trackmania.Knockout.Elimination") {
        return ScriptCallbackName::KnockoutElimination;
    }
    if str_eq(name, "Maniaplanet.Pause.Status") {
        return ScriptCallbackName::PauseStatus;
    }
    if str_eq(name, "Trackmania.Event.StartLine") {
        return ScriptCallbackName::StartLine;
    }
    if str_eq(name, "Trackmania.Event.SkipOutro") {
        return ScriptCallbackName::SkipOutro;
    }
    if str_eq(name, "Trackmania.Event.Respawn") {
        return ScriptCallbackName::Respawn;
    }
    if str_eq(name, "Trackmania.Event.GiveUp") {
        return ScriptCallbackName::GiveUp;
    }
    if str_eq(name, "Trackmania.Event.WayPoint") {
        return ScriptCallbackName::WayPoint;
    }
    if str_eq(name, "Trackmania.WarmUp.Status") {
        return ScriptCallbackName::WarmupStatus;
    }
    if str_eq(name, "XmlRpc.AllApiVersions") {
        return ScriptCallbackName::AllApiVersions;
    }
    if str_eq(name, "Maniaplanet.StartTurn_Start") || str_eq(name, "Maniaplanet.StartTurn_End") || str_eq(name, "Maniaplanet.EndTurn_Start") || str_eq(name, "Maniaplanet.EndTurn_End") || str_eq(name, "Maniaplanet.Podium_Start") || str_eq(name, "Maniaplanet.Podium_End") {
        return ScriptCallbackName::Ignored;
    }
    ScriptCallbackName::Unknown
}

/// The kind of data that a script callback carries.
pub open spec fn payload_kind(n: ScriptCallbackName) -> PayloadKind {
    match n {
        ScriptCallbackName::StartServerStart => PayloadKind::StartServer,
        ScriptCallbackName::StartServerEnd => PayloadKind::NoData,
        ScriptCallbackName::StartMatchStart => PayloadKind::NoData,
        ScriptCallbackName::StartMatchEnd => PayloadKind::NoData,
        ScriptCallbackName::LoadingMapStart => PayloadKind::LoadingMap,
        ScriptCallbackName::LoadingMapEnd => PayloadKind::NoData,
        ScriptCallbackName::StartMapStart => PayloadKind::Counted,
        ScriptCallbackName::WarmupStartRound => PayloadKind::WarmupRound,
        ScriptCallbackName::WarmupEndRound => PayloadKind::WarmupRound,
        ScriptCallbackName::StartMapEnd => PayloadKind::Counted,
        ScriptCallbackName::StartRoundStart => PayloadKind::Counted,
        ScriptCallbackName::StartRoundEnd => PayloadKind::Counted,
        ScriptCallbackName::StartPlayLoop => PayloadKind::NoData,
        ScriptCallbackName::EndPlayLoop => PayloadKind::NoData,
        ScriptCallbackName::EndRoundStart => PayloadKind::Counted,
        ScriptCallbackName::EndRoundEnd => PayloadKind::Counted,
        ScriptCallbackName::EndMapStart => PayloadKind::Counted,
        ScriptCallbackName::EndMapEnd => PayloadKind::Counted,
        ScriptCallbackName::UnloadingMapStart => PayloadKind::NoData,
        ScriptCallbackName::UnloadingMapEnd => PayloadKind::NoData,
        ScriptCallbackName::EndMatchStart => PayloadKind::NoData,
        ScriptCallbackName::EndMatchEnd => PayloadKind::NoData,
        ScriptCallbackName::EndServerStart => PayloadKind::NoData,
        ScriptCallbackName::EndServerEnd => PayloadKind::NoData,
        ScriptCallbackName::Scores => PayloadKind::Scores,
        ScriptCallbackName::ChampionScores => PayloadKind::ChampionScores,
        ScriptCallbackName::KnockoutElimination => PayloadKind::KnockoutElims,
        ScriptCallbackName::PauseStatus => PayloadKind::Pause,
        ScriptCallbackName::StartLine => PayloadKind::Generic,
        ScriptCallbackName::SkipOutro => PayloadKind::Generic,
        ScriptCallbackName::Respawn => PayloadKind::Respawn,
        ScriptCallbackName::GiveUp => PayloadKind::Generic,
        ScriptCallbackName::WayPoint => PayloadKind::Checkpoint,
        ScriptCallbackName::WarmupStatus => PayloadKind::Warmup,
        ScriptCallbackName::AllApiVersions => PayloadKind::ApiVersions,
        ScriptCallbackName::Ignored => PayloadKind::NoData,
        ScriptCallbackName::Unknown => PayloadKind::NoData,
    }
}

impl ScriptCallbackName {
    /// The kind of data that this callback carries in its first argument.
    pub fn payload_kind(&self) -> (res: PayloadKind)
        ensures
            res == payload_kind(*self),
    {
        match self {
            ScriptCallbackName::StartServerStart => PayloadKind::StartServer,
            ScriptCallbackName::StartServerEnd => PayloadKind::NoData,
            ScriptCallbackName::StartMatchStart => PayloadKind::NoData,
            ScriptCallbackName::StartMatchEnd => PayloadKind::NoData,
            ScriptCallbackName::LoadingMapStart => PayloadKind::LoadingMap,
            ScriptCallbackName::LoadingMapEnd => PayloadKind::NoData,
            ScriptCallbackName::StartMapStart => PayloadKind::Counted,
            ScriptCallbackName::WarmupStartRound => PayloadKind::WarmupRound,
            ScriptCallbackName::WarmupEndRound => PayloadKind::WarmupRound,
            ScriptCallbackName::StartMapEnd => PayloadKind::Counted,
            ScriptCallbackName::StartRoundStart => PayloadKind::Counted,
            ScriptCallbackName::StartRoundEnd => PayloadKind::Counted,
            ScriptCallbackName::StartPlayLoop => PayloadKind::NoData,
            ScriptCallbackName::EndPlayLoop => PayloadKind::NoData,
            ScriptCallbackName::EndRoundStart => PayloadKind::Counted,
            ScriptCallbackName::EndRoundEnd => PayloadKind::Counted,
            ScriptCallbackName::EndMapStart => PayloadKind::Counted,
            ScriptCallbackName::EndMapEnd => PayloadKind::Counted,
            ScriptCallbackName::UnloadingMapStart => PayloadKind::NoData,
            ScriptCallbackName::UnloadingMapEnd => PayloadKind::NoData,
            ScriptCallbackName::EndMatchStart => PayloadKind::NoData,
            ScriptCallbackName::EndMatchEnd => PayloadKind::NoData,
            ScriptCallbackName::EndServerStart => PayloadKind::NoData,
            ScriptCallbackName::EndServerEnd => PayloadKind::NoData,
            ScriptCallbackName::Scores => PayloadKind::Scores,
            ScriptCallbackName::ChampionScores => PayloadKind::ChampionScores,
            ScriptCallbackName::KnockoutElimination => PayloadKind::KnockoutElims,
            ScriptCallbackName::PauseStatus => PayloadKind::Pause,
            ScriptCallbackName::StartLine => PayloadKind::Generic,
            ScriptCallbackName::SkipOutro => PayloadKind::Generic,
            ScriptCallbackName::Respawn => PayloadKind::Respawn,
            ScriptCallbackName::GiveUp => PayloadKind::Generic,
            ScriptCallbackName::WayPoint => PayloadKind::Checkpoint,
            ScriptCallbackName::WarmupStatus => PayloadKind::Warmup,
            ScriptCallbackName::AllApiVersions => PayloadKind::ApiVersions,
            ScriptCallbackName::Ignored => PayloadKind::NoData,
            ScriptCallbackName::Unknown => PayloadKind::NoData,
        }
    }
}

/// A mode script section callback.
pub open spec fn section(c: ModeScriptSectionCallback) -> Option<Callback> {
    Some(Callback::ModeScriptSection(c))
}

/// A playloop callback.
pub open spec fn playloop(c: PlayloopCallback) -> Option<Callback> {
    Some(Callback::Playloop(c))
}

/// The callback for the scores of a `Trackmania.Scores` callback: plain
/// scores, or the scores of the section that it names.
pub open spec fn scores_callback(s: Scores) -> Callback {
    match s.section {
        None => Callback::Scores(s),
        Some(ScoresSection::PreEndRound) => Callback::ModeScriptSection(
            ModeScriptSectionCallback::PreEndRoundScores(s),
        ),
        Some(ScoresSection::EndRound) => Callback::ModeScriptSection(
            ModeScriptSectionCallback::EndRoundScores(s),
        ),
        Some(ScoresSection::EndMap) => Callback::ModeScriptSection(
            ModeScriptSectionCallback::EndMapScores(s),
        ),
        Some(ScoresSection::EndMatch) => Callback::ModeScriptSection(
            ModeScriptSectionCallback::EndMatchScores(s),
        ),
    }
}

/// The callback that a script callback with this name and data stands
/// for; none for one that is not used.
pub open spec fn script_callback(name: ScriptCallbackName, payload: ScriptPayload) -> Option<Callback> {
    match payload {
        ScriptPayload::NoData => match name {
            ScriptCallbackName::StartServerEnd => section(ModeScriptSectionCallback::PostStartServer),
            ScriptCallbackName::StartMatchStart => section(ModeScriptSectionCallback::PreStartMatch),
            ScriptCallbackName::StartMatchEnd => section(ModeScriptSectionCallback::PostStartMatch),
            ScriptCallbackName::LoadingMapEnd => section(ModeScriptSectionCallback::PostLoadMap),
            ScriptCallbackName::StartPlayLoop => section(ModeScriptSectionCallback::StartPlayloop),
            ScriptCallbackName::EndPlayLoop => section(ModeScriptSectionCallback::EndPlayloop),
            ScriptCallbackName::UnloadingMapStart => section(ModeScriptSectionCallback::PreUnloadMap),
            ScriptCallbackName::UnloadingMapEnd => section(ModeScriptSectionCallback::PostUnloadMap),
            ScriptCallbackName::EndMatchStart => section(ModeScriptSectionCallback::PreEndMatch),
            ScriptCallbackName::EndMatchEnd => section(ModeScriptSectionCallback::PostEndMatch),
            ScriptCallbackName::EndServerStart => section(ModeScriptSectionCallback::PreEndServer),
            ScriptCallbackName::EndServerEnd => section(ModeScriptSectionCallback::PostEndServer),
            _ => None,
        },
        ScriptPayload::StartServer { restarted, mode_updated } => section(
            ModeScriptSectionCallback::PreStartServer {
                restarted_script: restarted,
                changed_script: mode_updated,
            },
        ),
        ScriptPayload::LoadingMap { restarted } => section(
            ModeScriptSectionCallback::PreLoadMap { is_restart: restarted },
        ),
        ScriptPayload::Counted { count } => match name {
            ScriptCallbackName::StartMapStart => section(
                ModeScriptSectionCallback::PreStartMap { nth_map_in_match: count },
            ),
            ScriptCallbackName::StartMapEnd => section(
                ModeScriptSectionCallback::PostStartMap { nth_map_in_match: count },
            ),
            ScriptCallbackName::StartRoundStart => section(
                ModeScriptSectionCallback::PreStartRound { nth_round_on_map: count },
            ),
            ScriptCallbackName::StartRoundEnd => section(
                ModeScriptSectionCallback::PostStartRound { nth_round_on_map: count },
            ),
            ScriptCallbackName::EndRoundStart => section(
                ModeScriptSectionCallback::PreEndRound { nth_round_on_map: count },
            ),
            ScriptCallbackName::EndRoundEnd => section(
                ModeScriptSectionCallback::PostEndRound { nth_round_on_map: count },
            ),
            ScriptCallbackName::EndMapStart => section(
                ModeScriptSectionCallback::PreEndMap { nth_map_in_match: count },
            ),
            _ => section(ModeScriptSectionCallback::PostEndMap { nth_map_in_match: count }),
        },
        ScriptPayload::WarmupRound(status) => if name == ScriptCallbackName::WarmupStartRound {
            section(ModeScriptSectionCallback::StartWarmupRound(status))
        } else {
            section(ModeScriptSectionCallback::EndWarmupRound(status))
        },
        ScriptPayload::Scores(s) => Some(scores_callback(s)),
        ScriptPayload::ChampionScores(ev) => section(
            ModeScriptSectionCallback::EndRoundChampionScores(ev),
        ),
        ScriptPayload::KnockoutElims(ev) => section(
            ModeScriptSectionCallback::EndRoundKnockoutEliminations(ev),
        ),
        ScriptPayload::Pause(status) => Some(Callback::PauseStatus(status)),
        ScriptPayload::Generic { login } => match name {
            ScriptCallbackName::StartLine => playloop(PlayloopCallback::StartLine { login }),
            ScriptCallbackName::SkipOutro => playloop(PlayloopCallback::SkipOutro { login }),
            _ => playloop(PlayloopCallback::GiveUp { login }),
        },
        ScriptPayload::Respawn(ev) => playloop(PlayloopCallback::CheckpointRespawn(ev)),
        ScriptPayload::Checkpoint(ev) => if ev.race_time_millis > 0 {
            playloop(PlayloopCallback::Checkpoint(ev))
        } else {
            playloop(PlayloopCallback::Incoherence { login: ev.player_login })
        },
        ScriptPayload::Warmup(status) => Some(Callback::WarmupStatus(status)),
        ScriptPayload::ApiVersions { .. } => None,
    }
}

/// Turns a script callback, told apart by its name, and the data that was
/// read from its first argument for that name, into the callback it stands
/// for. Sections, scores by the section they name, playloop events, and
/// statuses; a checkpoint without a positive race time marks an incoherent
/// run. Callbacks that are not used give none.
pub fn forward_script_callback(name: ScriptCallbackName, payload: ScriptPayload) -> (res: Option<Callback>)
    requires
        kind_of(payload) == payload_kind(name),
    ensures
        res == script_callback(name, payload),
{
    match payload {
        ScriptPayload::NoData => match name {
            ScriptCallbackName::StartServerEnd => Some(Callback::ModeScriptSection(ModeScriptSectionCallback::PostStartServer)),
            ScriptCallbackName::StartMatchStart => Some(Callback::ModeScriptSection(ModeScriptSectionCallback::PreStartMatch)),
            ScriptCallbackName::StartMatchEnd => Some(Callback::ModeScriptSection(ModeScriptSectionCallback::PostStartMatch)),
            ScriptCallbackName::LoadingMapEnd => Some(Callback::ModeScriptSection(ModeScriptSectionCallback::PostLoadMap)),
            ScriptCallbackName::StartPlayLoop => Some(Callback::ModeScriptSection(ModeScriptSectionCallback::StartPlayloop)),
            ScriptCallbackName::EndPlayLoop => Some(Callback::ModeScriptSection(ModeScriptSectionCallback::EndPlayloop)),
            ScriptCallbackName::UnloadingMapStart => Some(Callback::ModeScriptSection(ModeScriptSectionCallback::PreUnloadMap)),
            ScriptCallbackName::UnloadingMapEnd => Some(Callback::ModeScriptSection(ModeScriptSectionCallback::PostUnloadMap)),
            ScriptCallbackName::EndMatchStart => Some(Callback::ModeScriptSection(ModeScriptSectionCallback::PreEndMatch)),
            ScriptCallbackName::EndMatchEnd => Some(Callback::ModeScriptSection(ModeScriptSectionCallback::PostEndMatch)),
            ScriptCallbackName::EndServerStart => Some(Callback::ModeScriptSection(ModeScriptSectionCallback::PreEndServer)),
            ScriptCallbackName::EndServerEnd => Some(Callback::ModeScriptSection(ModeScriptSectionCallback::PostEndServer)),
            _ => None,
        },
        ScriptPayload::StartServer { restarted, mode_updated } => Some(
            Callback::ModeScriptSection(
                ModeScriptSectionCallback::PreStartServer {
                    restarted_script: restarted,
                    changed_script: mode_updated,
                },
            ),
        ),
        ScriptPayload::LoadingMap { restarted } => Some(
            Callback::ModeScriptSection(ModeScriptSectionCallback::PreLoadMap { is_restart: restarted }),
        ),
        ScriptPayload::Counted { count } => {
            let c = match name {
                ScriptCallbackName::StartMapStart => ModeScriptSectionCallback::PreStartMap { nth_map_in_match: count },
                ScriptCallbackName::StartMapEnd => ModeScriptSectionCallback::PostStartMap { nth_map_in_match: count },
                ScriptCallbackName::StartRoundStart => ModeScriptSectionCallback::PreStartRound { nth_round_on_map: count },
                ScriptCallbackName::StartRoundEnd => ModeScriptSectionCallback::PostStartRound { nth_round_on_map: count },
                ScriptCallbackName::EndRoundStart => ModeScriptSectionCallback::PreEndRound { nth_round_on_map: count },
                ScriptCallbackName::EndRoundEnd => ModeScriptSectionCallback::PostEndRound { nth_round_on_map: count },
                ScriptCallbackName::EndMapStart => ModeScriptSectionCallback::PreEndMap { nth_map_in_match: count },
                _ => ModeScriptSectionCallback::PostEndMap { nth_map_in_match: count },
            };
            Some(Callback::ModeScriptSection(c))
        },
        ScriptPayload::WarmupRound(status) => {
            if name == ScriptCallbackName::WarmupStartRound {
                Some(Callback::ModeScriptSection(ModeScriptSectionCallback::StartWarmupRound(status)))
            } else {
                Some(Callback::ModeScriptSection(ModeScriptSectionCallback::EndWarmupRound(status)))
            }
        },
        ScriptPayload::Scores(s) => {
            let cb = match s.section {
                None => Callback::Scores(s),
                Some(ScoresSection::PreEndRound) => Callback::ModeScriptSection(
                    ModeScriptSectionCallback::PreEndRoundScores(s),
                ),
                Some(ScoresSection::EndRound) => Callback::ModeScriptSection(
                    ModeScriptSectionCallback::EndRoundScores(s),
                ),
                Some(ScoresSection::EndMap) => Callback::ModeScriptSection(
                    ModeScriptSectionCallback::EndMapScores(s),
                ),
                Some(ScoresSection::EndMatch) => Callback::ModeScriptSection(
                    ModeScriptSectionCallback::EndMatchScores(s),
                ),
            };
            Some(cb)
        },
        ScriptPayload::ChampionScores(ev) => Some(
            Callback::ModeScriptSection(ModeScriptSectionCallback::EndRoundChampionScores(ev)),
        ),
        ScriptPayload::KnockoutElims(ev) => Some(
            Callback::ModeScriptSection(ModeScriptSectionCallback::EndRoundKnockoutEliminations(ev)),
        ),
        ScriptPayload::Pause(status) => Some(Callback::PauseStatus(status)),
        ScriptPayload::Generic { login } => {
            let c = match name {
                ScriptCallbackName::StartLine => PlayloopCallback::StartLine { login },
                ScriptCallbackName::SkipOutro => PlayloopCallback::SkipOutro { login },
                _ => PlayloopCallback::GiveUp { login },
            };
            Some(Callback::Playloop(c))
        },
        ScriptPayload::Respawn(ev) => Some(Callback::Playloop(PlayloopCallback::CheckpointRespawn(ev))),
        ScriptPayload::Checkpoint(ev) => {
            if ev.race_time_millis > 0 {
                Some(Callback::Playloop(PlayloopCallback::Checkpoint(ev)))
            } else {
                Some(Callback::Playloop(PlayloopCallback::Incoherence { login: ev.player_login }))
            }
        },
        ScriptPayload::Warmup(status) => Some(Callback::WarmupStatus(status)),
        ScriptPayload::ApiVersions { .. } => None,
    }
}

/// How a callback was received: as an answer to the script method call
/// whose id its scores or status carry, which is taken out of it, or on
/// the server's own.
pub open spec fn received(callback: Callback) -> ReceivedCallback {
    match callback {
        Callback::Scores(s) => match s.response_id {
            Some(id) => ReceivedCallback::Prompted {
                callback: Callback::Scores(Scores { response_id: None, ..s }),
                response_id: id,
            },
            None => ReceivedCallback::Unprompted(Callback::Scores(s)),
        },
        Callback::PauseStatus(s) => match s.response_id {
            Some(id) => ReceivedCallback::Prompted {
                callback: Callback::PauseStatus(PauseStatus { response_id: None, ..s }),
                response_id: id,
            },
            None => ReceivedCallback::Unprompted(Callback::PauseStatus(s)),
        },
        Callback::WarmupStatus(s) => match s.response_id {
            Some(id) => ReceivedCallback::Prompted {
                callback: Callback::WarmupStatus(WarmupStatus { response_id: None, ..s }),
                response_id: id,
            },
            None => ReceivedCallback::Unprompted(Callback::WarmupStatus(s)),
        },
        _ => ReceivedCallback::Unprompted(callback),
    }
}

/// Tells a callback that answers a script method call, by the id in its
/// scores or status, from one the server sent on its own; none is ignored.
pub fn to_received(callback: Option<Callback>) -> (res: ReceivedCallback)
    ensures
        res == match callback {
            Some(cb) => received(cb),
            None => ReceivedCallback::Ignored,
        },
{
    match callback {
        None => ReceivedCallback::Ignored,
        Some(Callback::Scores(s)) => match s.response_id {
            Some(id) => ReceivedCallback::Prompted {
                callback: Callback::Scores(
                    Scores { response_id: None, players: s.players, teams: s.teams, section: s.section },
                ),
                response_id: id,
            },
            None => ReceivedCallback::Unprompted(Callback::Scores(s)),
        },
        Some(Callback::PauseStatus(s)) => match s.response_id {
            Some(id) => ReceivedCallback::Prompted {
                callback: Callback::PauseStatus(
                    PauseStatus { response_id: None, available: s.available, active: s.active },
                ),
                response_id: id,
            },
            None => ReceivedCallback::Unprompted(Callback::PauseStatus(s)),
        },
        Some(Callback::WarmupStatus(s)) => match s.response_id {
            Some(id) => ReceivedCallback::Prompted {
                callback: Callback::WarmupStatus(
                    WarmupStatus { response_id: None, available: s.available, active: s.active },
                ),
                response_id: id,
            },
            None => ReceivedCallback::Unprompted(Callback::WarmupStatus(s)),
        },
        Some(cb) => ReceivedCallback::Unprompted(cb),
    }
}

} // verus!
