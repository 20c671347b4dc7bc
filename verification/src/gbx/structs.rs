//! Data exchanged with the dedicated server.

use vstd::prelude::*;

use crate::text::{str_eq, str_starts_with, trim_end, trim_end_matches, trim_start, trim_start_matches};

verus! {

/// Rust's `/` on integers: the quotient rounded towards zero.
pub open spec fn trunc_div(x: int, d: int) -> int {
    if x >= 0 {
        x / d
    } else {
        -((-x) / d)
    }
}

/// Rust's `%` on integers: the remainder that has the sign of `x`.
pub open spec fn trunc_rem(x: int, d: int) -> int {
    x - d * trunc_div(x, d)
}

/// Dedicated server version information.
#[derive(Clone, Debug)]
pub struct ServerBuildInfo {
    /// This should be "Trackmania".
    pub name: String,
    /// The build's version number, f.e. "3.3.0".
    pub version: String,
    /// The build's version date, f.e. "2020-07-01_14_30".
    pub version_date: String,
}

/// Dedicated server network stats.
#[derive(Clone, Copy, Debug)]
pub struct ServerNetStats {
    /// Seconds since the server started. A server that has been online for more
    /// than 30 days may keep players from joining.
    pub uptime_secs: i32,
}

/// Game mode information.
#[derive(Clone, Debug)]
pub struct ModeInfo {
    /// The script that implements this mode.
    pub script: ModeScript,
    /// All compatible map types for this mode.
    pub compatible_map_types: Vec<MapType>,
    /// The version date of the mode script, f.e. "2020-09-10".
    pub version_date: String,
}

/// The type a map was validated for.
///
/// Map types are scripts that set certain requirements for a map.
/// The default `Race` type f.e. requires exactly one start block and at least one finish block.
#[derive(Clone, Copy, Debug, PartialEq, Eq, Hash, Structural)]
pub enum MapType {
    /// The default Trackmania map type that is compatible with all default game modes.
    Race,
}

impl MapType {
    /// The map type of the given name: "TrackMania\TM_Race" or just "TM_Race"
    /// is the only default map type, and is supported by all default modes.
    /// Custom map types are not supported: `None` for any other name.
    pub fn from_name(name: &str) -> (res: Option<MapType>)
        ensures
            res is Some <==> (name@ == "TrackMania\\TM_Race"@ || name@ == "TM_Race"@),
    {
        if str_eq(name, "TrackMania\\TM_Race") || str_eq(name, "TM_Race") {
            Some(MapType::Race)
        } else {
            None
        }
    }
}

/// Game modes that the server can play.
#[derive(Debug, PartialEq, Eq, Hash, Clone, PartialOrd, Ord)]
pub enum ModeScript {
    Champion,
    Cup,
    Knockout,
    Laps,
    Rounds,
    Teams,
    TimeAttack,
    Custom {
        /// The relative script file name in `/UserData/Scripts/Modes`.
        file_name: String,
    },
}

/// The script file name of a mode.
pub open spec fn mode_file_name(m: ModeScript) -> Seq<char> {
    match m {
        ModeScript::Champion => "Trackmania/TM_Champion_Online.Script.txt"@,
        ModeScript::Cup => "Trackmania/TM_Cup_Online.Script.txt"@,
        ModeScript::Knockout => "Trackmania/TM_Knockout_Online.Script.txt"@,
        ModeScript::Laps => "Trackmania/TM_Laps_Online.Script.txt"@,
        ModeScript::Rounds => "Trackmania/TM_Rounds_Online.Script.txt"@,
        ModeScript::Teams => "Trackmania/TM_Teams_Online.Script.txt"@,
        ModeScript::TimeAttack => "Trackmania/TM_TimeAttack_Online.Script.txt"@,
        ModeScript::Custom { file_name } => file_name@,
    }
}

/// The short name of a mode: its file name without the directory and the
/// script suffix.
pub open spec fn mode_name(m: ModeScript) -> Seq<char> {
    match m {
        ModeScript::Custom { file_name } => trim_end(
            trim_start(file_name@, "Trackmania/"@),
            ".Script.txt"@,
        ),
        _ => trim_end(trim_start(mode_file_name(m), "Trackmania/TM_"@), "_Online.Script.txt"@),
    }
}

/// The game's default game modes, in declaration order.
pub open spec fn spec_default_modes() -> Seq<ModeScript> {
    seq![
        ModeScript::Champion,
        ModeScript::Cup,
        ModeScript::Knockout,
        ModeScript::Laps,
        ModeScript::Rounds,
        ModeScript::Teams,
        ModeScript::TimeAttack,
    ]
}

/// The mode that a script file name stands for: the first default mode with
/// that file name, or a custom mode.
pub open spec fn spec_mode_from_file_name(file_name: Seq<char>) -> ModeScript {
    if exists|i: int| 0 <= i < 7 && mode_file_name(#[trigger] spec_default_modes()[i]) == file_name {
        let i = choose|i: int|
            0 <= i < 7 && mode_file_name(#[trigger] spec_default_modes()[i]) == file_name && forall|j: int|
                0 <= j < i ==> mode_file_name(#[trigger] spec_default_modes()[j]) != file_name;
        spec_default_modes()[i]
    } else {
        ModeScript::Custom { file_name: arbitrary_string_with_view(file_name) }
    }
}

/// Some string with the given characters.
pub open spec fn arbitrary_string_with_view(v: Seq<char>) -> String {
    choose|s: String| s@ == v
}

impl ModeScript {
    /// The relative script file name in `/UserData/Scripts/Modes`.
    pub fn file_name(&self) -> (res: &str)
        ensures
            res@ == mode_file_name(*self),
    {
        match self {
            ModeScript::Champion => "Trackmania/TM_Champion_Online.Script.txt",
            ModeScript::Cup => "Trackmania/TM_Cup_Online.Script.txt",
            ModeScript::Knockout => "Trackmania/TM_Knockout_Online.Script.txt",
            ModeScript::Laps => "Trackmania/TM_Laps_Online.Script.txt",
            ModeScript::Rounds => "Trackmania/TM_Rounds_Online.Script.txt",
            ModeScript::Teams => "Trackmania/TM_Teams_Online.Script.txt",
            ModeScript::TimeAttack => "Trackmania/TM_TimeAttack_Online.Script.txt",
            ModeScript::Custom { file_name } => file_name.as_str(),
        }
    }

    /// The mode's name, f.e. "TimeAttack" for the default TimeAttack mode.
    pub fn name(&self) -> (res: &str)
        ensures
            res@ == mode_name(*self),
    {
        proof {
            reveal_strlit("Trackmania/");
            reveal_strlit(".Script.txt");
            reveal_strlit("Trackmania/TM_");
            reveal_strlit("_Online.Script.txt");
        }
        match self {
            ModeScript::Custom { file_name } => trim_end_matches(
                trim_start_matches(file_name.as_str(), "Trackmania/"),
                ".Script.txt",
            ),
            _ => trim_end_matches(
                trim_start_matches(self.file_name(), "Trackmania/TM_"),
                "_Online.Script.txt",
            ),
        }
    }

    /// The game's default game modes.
    ///
    /// These game modes come with the dedicated server, and do not have to be
    /// added to the `/UserData/Scripts/Modes` directory.
    pub fn default_modes() -> (res: Vec<ModeScript>)
        ensures
            res@ == spec_default_modes(),
    {
        let res = vec![
            ModeScript::Champion,
            ModeScript::Cup,
            ModeScript::Knockout,
            ModeScript::Laps,
            ModeScript::Rounds,
            ModeScript::Teams,
            ModeScript::TimeAttack,
        ];
        assert(res@ =~= spec_default_modes());
        res
    }

    /// The mode of a script file name, as the server reports it: a default
    /// mode if its file name matches, a custom mode otherwise.
    pub fn from_file_name(file_name: String) -> (res: ModeScript)
        ensures
            match spec_mode_from_file_name(file_name@) {
                ModeScript::Custom { .. } => (res matches ModeScript::Custom { file_name: f } && f@
                    == file_name@),
                m => res == m,
            },
    {
        let modes = ModeScript::default_modes();
        let mut i: usize = 0;
        while i < modes.len()
            invariant
                modes@ == spec_default_modes(),
                i <= 7,
                forall|j: int| 0 <= j < i ==> mode_file_name(#[trigger] spec_default_modes()[j]) != file_name@,
            decreases 7 - i,
        {
            if str_eq(modes[i].file_name(), file_name.as_str()) {
                let m = match i {
                    0 => ModeScript::Champion,
                    1 => ModeScript::Cup,
                    2 => ModeScript::Knockout,
                    3 => ModeScript::Laps,
                    4 => ModeScript::Rounds,
                    5 => ModeScript::Teams,
                    _ => ModeScript::TimeAttack,
                };
                proof {
                    let w = i as int;
                    assert(mode_file_name(spec_default_modes()[w]) == file_name@);
                    let c = choose|c: int|
                        0 <= c < 7 && mode_file_name(#[trigger] spec_default_modes()[c]) == file_name@
                            && forall|j: int|
                            0 <= j < c ==> mode_file_name(#[trigger] spec_default_modes()[j]) != file_name@;
                    if c < w {
                    } else if w < c {
                        assert(mode_file_name(spec_default_modes()[w]) != file_name@);
                    }
                    assert(c == w);
                }
                return m;
            }
            i = i + 1;
        }
        ModeScript::Custom { file_name }
    }
}

/// Game mode settings.
///
/// Every mode script has a different set of possible settings.
#[derive(Debug)]
pub enum ModeOptions {
    Champion(ChampionOptions),
    Cup(CupOptions),
    Knockout(KnockoutOptions),
    Laps(LapsOptions),
    Rounds(RoundsOptions),
    Teams(TeamsOptions),
    TimeAttack(TimeAttackOptions),
}

impl ModeOptions {
    /// The mode that these settings belong to.
    pub fn script(&self) -> (res: ModeScript)
        ensures
            res == match self {
                ModeOptions::Champion(_) => ModeScript::Champion,
                ModeOptions::Cup(_) => ModeScript::Cup,
                ModeOptions::Knockout(_) => ModeScript::Knockout,
                ModeOptions::Laps(_) => ModeScript::Laps,
                ModeOptions::Rounds(_) => ModeScript::Rounds,
                ModeOptions::Teams(_) => ModeScript::Teams,
                ModeOptions::TimeAttack(_) => ModeScript::TimeAttack,
            },
    {
        match self {
            ModeOptions::Champion(_) => ModeScript::Champion,
            ModeOptions::Cup(_) => ModeScript::Cup,
            ModeOptions::Knockout(_) => ModeScript::Knockout,
            ModeOptions::Laps(_) => ModeScript::Laps,
            ModeOptions::Rounds(_) => ModeScript::Rounds,
            ModeOptions::Teams(_) => ModeScript::Teams,
            ModeOptions::TimeAttack(_) => ModeScript::TimeAttack,
        }
    }
}

/// Settings for the TimeAttack game mode.
#[derive(Clone, Copy, Debug)]
pub struct TimeAttackOptions {
    /// Chat time at the end of a map in seconds.
    pub chat_time_secs: i32,
    /// Forced number of laps: -1 for the laps of the map validation, 0 for
    /// "independent" laps (the TimeAttack default).
    pub forced_nb_laps: i32,
    /// The number of rounds per warmup.
    pub nb_warmup_rounds: i32,
    /// The duration of one warmup round in seconds.
    pub warmup_duration_secs: i32,
    /// Time limit before going to the next map in seconds.
    pub time_limit_secs: i32,
}

/// Settings for the Champion game mode.
#[derive(Clone, Copy, Debug)]
pub struct ChampionOptions {}

/// Settings for the Cup game mode.
#[derive(Clone, Copy, Debug)]
pub struct CupOptions {}

/// Settings for the Knockout game mode.
#[derive(Clone, Copy, Debug)]
pub struct KnockoutOptions {}

/// Settings for the Laps game mode.
#[derive(Clone, Copy, Debug)]
pub struct LapsOptions {}

/// Settings for the Rounds game mode.
#[derive(Clone, Copy, Debug)]
pub struct RoundsOptions {}

/// Settings for the Teams game mode.
#[derive(Clone, Copy, Debug)]
pub struct TeamsOptions {}

/// Information for a connected player.
#[derive(Clone, Debug)]
pub struct PlayerInfo {
    /// Player UID that is tied to this player while they are connected.
    /// Once they dis- and reconnect, they might have a different UID.
    pub uid: i32,
    /// Player-unique login.
    pub login: String,
    /// Formatted display name.
    pub display_name: DisplayString,
    /// The current team of this player, if any.
    pub team_id: Option<TeamId>,
    /// Decimal digits that flag the slot and connection of the player.
    pub flag_digit_mask: i32,
    /// Decimal digits that flag the spectator status of the player.
    pub spectator_digit_mask: i32,
}

/// An identifier for teams in team-based game modes.
#[derive(Debug, PartialEq, Eq, Clone, Copy, Structural)]
pub enum TeamId {
    Blue,
    Red,
}

/// The team of a team number as the server sends it: -1 for no team, 0 for
/// blue and 1 for red; `Err` for any other number.
pub fn team_id_from_number(id: i32) -> (res: Result<Option<TeamId>, i32>)
    ensures
        res == (if id == -1 {
            Ok(None)
        } else if id == 0 {
            Ok(Some(TeamId::Blue))
        } else if id == 1 {
            Ok(Some(TeamId::Red))
        } else {
            Err(id)
        }),
{
    if id == -1 {
        Ok(None)
    } else if id == 0 {
        Ok(Some(TeamId::Blue))
    } else if id == 1 {
        Ok(Some(TeamId::Red))
    } else {
        Err(id)
    }
}

/// The decimal digit of `mask` at the given power of ten.
pub open spec fn mask_digit(mask: i32, pow: int) -> int {
    trunc_rem(trunc_div(mask as int, pow), 10)
}

pub open spec fn spec_is_spectator(p: PlayerInfo) -> bool {
    mask_digit(p.spectator_digit_mask, 1) == 1
}

pub open spec fn spec_has_player_slot(p: PlayerInfo) -> bool {
    mask_digit(p.flag_digit_mask, 1_000_000) == 1
}

pub open spec fn spec_is_player(p: PlayerInfo) -> bool {
    mask_digit(p.flag_digit_mask, 100_000) == 0
}

pub open spec fn spec_has_joined(p: PlayerInfo) -> bool {
    mask_digit(p.flag_digit_mask, 100_000_000) == 1
}

/// The slot a player occupies, decided by the flags in this order.
pub open spec fn spec_slot(p: PlayerInfo) -> PlayerSlot {
    if !spec_is_player(p) || !spec_has_joined(p) {
        PlayerSlot::NoSlot
    } else if !spec_has_player_slot(p) {
        PlayerSlot::PureSpectator
    } else if spec_is_spectator(p) {
        PlayerSlot::PlayerSpectator
    } else {
        PlayerSlot::Player
    }
}

impl PlayerInfo {
    /// A copy of this information.
    pub fn duplicate(&self) -> (res: Self)
        ensures
            res == *self,
    {
        PlayerInfo {
            uid: self.uid,
            login: self.login.clone(),
            display_name: self.display_name.duplicate(),
            team_id: self.team_id,
            flag_digit_mask: self.flag_digit_mask,
            spectator_digit_mask: self.spectator_digit_mask,
        }
    }

    /// Signals what slot this player occupies, and whether they are spectating or not:
    /// - `NoSlot` if it's not actually a player, but a server login, or if they left
    /// - `PureSpectator` if a player has only a spectator slot
    /// - `PlayerSpectator` if a player has a player slot, but is spectating
    /// - `Player` if a player has a player slot, and is not spectating
    ///
    /// Note that spectators can only have a player slot if `keep_player_slots` is enabled
    /// in the server options.
    pub fn slot(&self) -> (res: PlayerSlot)
        ensures
            res == spec_slot(*self),
    {
        if !self.is_player() || !self.has_joined() {
            PlayerSlot::NoSlot
        } else if !self.has_player_slot() {
            PlayerSlot::PureSpectator
        } else if self.is_spectator() {
            PlayerSlot::PlayerSpectator
        } else {
            PlayerSlot::Player
        }
    }

    /// `true` if the player spectates: the last digit of the spectator mask
    /// (`2_551_010`) is 1.
    pub fn is_spectator(&self) -> (res: bool)
        ensures
            res == spec_is_spectator(*self),
    {
        self.spectator_digit_mask % 10 == 1
    }

    /// `true` if the player occupies a player slot: the millions digit of the
    /// flags (`101_000_000`) is 1.
    pub fn has_player_slot(&self) -> (res: bool)
        ensures
            res == spec_has_player_slot(*self),
    {
        self.flag_digit_mask / 1_000_000 % 10 == 1
    }

    /// `true` if this information belongs to a player: one "player" info
    /// describes the server itself, and has 1 as the hundred-thousands digit
    /// of the flags.
    pub fn is_player(&self) -> (res: bool)
        ensures
            res == spec_is_player(*self),
    {
        self.flag_digit_mask / 100_000 % 10 == 0
    }

    /// `false` if the player has disconnected, `true` otherwise: the hundred
    /// millions digit of the flags (`101_000_000` joined, `1_000_000` left).
    pub fn has_joined(&self) -> (res: bool)
        ensures
            res == spec_has_joined(*self),
    {
        self.flag_digit_mask / 100_000_000 % 10 == 1
    }
}

/// Signals what slot a player occupies, and whether they are spectating or not.
#[derive(Debug, PartialEq, Eq, Clone, Copy, Structural)]
pub enum PlayerSlot {
    /// This player has disconnected, or is the "player" that represents
    /// the server.
    NoSlot,
    /// Slot for actively racing players that are not spectating.
    Player,
    /// Slot for spectators that still have a player slot.
    /// They can quickly re-join the race, without waiting until a slot frees up.
    PlayerSpectator,
    /// Slot for *pure* spectators, that do not occupy a player slot.
    PureSpectator,
}

/// A map that is currently in the server's playlist.
#[derive(Clone, Debug)]
pub struct PlaylistMap {
    /// A unique identifier.
    pub uid: String,
    /// The map's file name in `.../UserData/Maps`.
    pub file_name: String,
}

impl PlaylistMap {
    /// `true` if this map is a Nadeo campaign map.
    ///
    /// The server's playlist can include bundled maps, that are not stored in `.../UserData/Maps`,
    /// with a file name like this: `Campaigns/CurrentQuarterly/Summer 2020 - 01.Map.Gbx`
    pub fn is_campaign_map(&self) -> (res: bool)
        ensures
            res == "Campaigns/"@.is_prefix_of(self.file_name@),
    {
        str_starts_with(self.file_name.as_str(), "Campaigns/")
    }
}

/// Information of a map in `.../UserData/Maps`.
#[derive(Clone, Debug)]
pub struct MapInfo {
    /// A unique identifier.
    pub uid: String,
    /// The formatted map name.
    pub name: DisplayString,
    /// The map's file path relative to `.../UserData/Maps`.
    pub file_name: String,
    /// The map author's login.
    pub author_login: String,
    /// The "author time" in milliseconds. This is the time the map
    /// was validated with in the map editor.
    pub author_millis: i32,
}

/// Event data produced when players cross a checkpoint or finish line.
#[derive(Clone, Debug)]
pub struct CheckpointEvent {
    /// The driving player's login.
    pub player_login: String,
    /// Total duration of the run up to this checkpoint.
    pub race_time_millis: i32,
    /// Total duration of the lap up to this checkpoint.
    pub lap_time_millis: i32,
    /// The number of unique checkpoints crossed since the beginning of this run minus one.
    pub race_cp_index: i32,
    /// The number of unique checkpoints crossed since the beginning of this lap minus one.
    pub lap_cp_index: i32,
    /// The total durations of this run at the time of passing each checkpoint,
    /// where the mode script was asked to fill them.
    pub race_cp_millis: Vec<i32>,
    /// The total durations of this lap at the time of passing each checkpoint,
    /// where the mode script was asked to fill them.
    pub lap_cp_millis: Vec<i32>,
    /// `true` if the player has crossed the finish line.
    pub is_finish: bool,
    /// `true` if the player has crossed the multi-lap line.
    pub is_lap_finish: bool,
    /// The bits (`f32::to_bits`) of the player's speed in km/h at this
    /// checkpoint, which is negative when driving backwards.
    pub speed_bits: u32,
}

/// Event data produced when a player respawns at the previous checkpoint.
#[derive(Clone, Debug)]
pub struct CheckpointRespawnEvent {
    /// The driving player's login.
    pub player_login: String,
    /// The total number of respawns in this run so far.
    pub nb_respawns: i32,
    /// The number of unique checkpoints crossed since the beginning of this run minus one.
    pub race_cp_index: i32,
    /// The number of unique checkpoints crossed since the beginning of this lap minus one.
    pub lap_cp_index: i32,
}

/// Scores of the current match.
#[derive(Clone, Debug)]
pub struct Scores {
    /// The id of the request that this answers, if any.
    pub response_id: Option<String>,
    /// Race ranking sorted from best to worst.
    pub players: Vec<PlayerScore>,
    /// Race ranking sorted from best to worst.
    pub teams: Vec<TeamScore>,
    /// The mode script section at which this event was triggered.
    pub section: Option<ScoresSection>,
}

/// Mode script sections that can trigger the `Trackmania.Scores` callback.
#[derive(Clone, Copy, Debug, PartialEq, Eq, Structural)]
pub enum ScoresSection {
    PreEndRound,
    EndRound,
    EndMap,
    EndMatch,
}

/// The section of a `Trackmania.Scores` callback by its name: `Ok(None)`
/// for an empty name, `Err` for an unknown one.
pub fn scores_section_from_name(name: &str) -> (res: Result<Option<ScoresSection>, ()>)
    ensures
        res == (if name@.len() == 0 {
            Ok(None)
        } else if name@ == "PreEndRound"@ {
            Ok(Some(ScoresSection::PreEndRound))
        } else if name@ == "EndRound"@ {
            Ok(Some(ScoresSection::EndRound))
        } else if name@ == "EndMap"@ {
            Ok(Some(ScoresSection::EndMap))
        } else if name@ == "EndMatch"@ {
            Ok(Some(ScoresSection::EndMatch))
        } else {
            Err(())
        }),
{
    if name.unicode_len() == 0 {
        Ok(None)
    } else if str_eq(name, "PreEndRound") {
        Ok(Some(ScoresSection::PreEndRound))
    } else if str_eq(name, "EndRound") {
        Ok(Some(ScoresSection::EndRound))
    } else if str_eq(name, "EndMap") {
        Ok(Some(ScoresSection::EndMap))
    } else if str_eq(name, "EndMatch") {
        Ok(Some(ScoresSection::EndMatch))
    } else {
        Err(())
    }
}

/// A response id as the server sends it: an empty string stands for none.
pub fn response_id_from(s: String) -> (res: Option<String>)
    ensures
        s@.len() == 0 ==> res is None,
        s@.len() > 0 ==> (res matches Some(r) && r@ == s@),
{
    if s.as_str().unicode_len() == 0 {
        None
    } else {
        Some(s)
    }
}

/// A player's score in the current match.
#[derive(Clone, Debug)]
pub struct PlayerScore {
    /// The player's login.
    pub login: String,
    /// Yet another identifier for players.
    pub account_id: String,
    /// The player's formatted display name.
    pub display_name: DisplayString,
    /// Rank of the player in the current race.
    pub pos: i32,
    /// Best run time in milliseconds (or -1 if no completed run).
    pub best_time_millis: i32,
    /// Checkpoints times during the best run in milliseconds (or empty if no completed run).
    pub best_time_cp_millis: Vec<i32>,
    /// Best lap time in milliseconds (or -1 if no completed lap).
    pub best_lap_time_millis: i32,
    /// Checkpoints times during the best lap in milliseconds (or empty if no completed lap).
    pub best_lap_time_cp_millis: Vec<i32>,
    /// Points collected by this player.
    pub points: Points,
}

/// A team's score in the current match.
#[derive(Clone, Debug)]
pub struct TeamScore {
    pub id: TeamId,
    /// The team's formatted display name.
    pub name: DisplayString,
    /// Points collected by this team.
    pub points: Points,
}

/// Point scores of a player or team.
///
/// Different game modes will use different types of points:
///  - Champion: round, map, match (but there is only one round per map)
///  - Cup: round, map, match
///  - Knockout: match (players' final points are the number of total players minus their own rank)
///  - Laps: none
///  - Rounds: round, map, match
///  - Teams: round, map, match
///  - TimeAttack: none
#[derive(Clone, Copy, Debug)]
pub struct Points {
    /// Points collected in the current round.
    pub round: Option<i32>,
    /// Points collected on the current map.
    pub map: Option<i32>,
    /// Points collected in the current match.
    pub match_: Option<i32>,
}

/// A string with in-game formatting.
#[derive(Clone, Debug)]
pub struct DisplayString {
    /// The formatted string.
    pub formatted: String,
}

/// What the regex crate makes of `haystack` when it compiles `pattern` and
/// replaces all of its matches with `replacement`: `None` where it refuses the
/// pattern.
pub uninterp spec fn regex_replacement(
    pattern: Seq<char>,
    haystack: Seq<char>,
    replacement: Seq<char>,
) -> Option<Seq<char>>;

/// Compiles `pattern` with `regex::Regex::new` and replaces all of its
/// non-overlapping matches in `haystack` with `replacement`
/// (`regex::Regex::replace_all`); `None` if the crate refuses the pattern.
/// The result is named by `regex_replacement`: it depends on the three
/// arguments alone.
#[verifier::external_body]
fn regex_replace_all(pattern: &str, haystack: &str, replacement: &str) -> (res: Option<String>)
    ensures
        match res {
            Some(r) => regex_replacement(pattern@, haystack@, replacement@) == Some(r@),
            None => regex_replacement(pattern@, haystack@, replacement@) is None,
        },
{
    match regex::Regex::new(pattern) {
        Ok(re) => Some(re.replace_all(haystack, replacement).into_owned()),
        Err(_) => None,
    }
}

/// The pattern of what `plain` takes out: an escaped dollar sign `$$`, whose
/// second dollar sign is kept (group 1), or a formatting code: a color, a
/// style or a link. Escaped dollar signs come first, so that `$$fff` is a
/// dollar sign followed by the text `fff`.
pub open spec fn formatting_pattern() -> Seq<char> {
    r"\$(\$)|\$[A-Fa-f0-9]{3}|\$[wWnNoOiItTsSgGzZpP]|\$[lLhHpP]\[.+]"@
}

/// `formatted` without its formatting codes, and with each escaped dollar
/// sign as one dollar sign: every match of `formatting_pattern` replaced by
/// what it holds in group 1 (`${1}`), which is nothing for a formatting code.
pub open spec fn spec_plain(formatted: Seq<char>) -> Option<Seq<char>> {
    regex_replacement(formatting_pattern(), formatted, "${1}"@)
}

impl DisplayString {
    /// A copy of this string.
    pub fn duplicate(&self) -> (res: Self)
        ensures
            res == *self,
    {
        DisplayString { formatted: self.formatted.clone() }
    }

    pub fn from(str: String) -> (res: Self)
        ensures
            res.formatted@ == str@,
    {
        DisplayString { formatted: str }
    }

    /// Removes all text formatting (see https://wiki.xaseco.org/wiki/Text_formatting),
    /// and turns each escaped dollar sign `$$` into `$`.
    /// `None` only if the regex crate refuses the constant pattern.
    pub fn plain(&self) -> (res: Option<String>)
        ensures
            match res {
                Some(r) => spec_plain(self.formatted@) == Some(r@),
                None => spec_plain(self.formatted@) is None,
            },
    {
        regex_replace_all(
            r"\$(\$)|\$[A-Fa-f0-9]{3}|\$[wWnNoOiItTsSgGzZpP]|\$[lLhHpP]\[.+]",
            self.formatted.as_str(),
            "${1}",
        )
    }
}

/// Event data produced when a player interacts with a Manialink.
#[derive(Clone, Debug)]
pub struct PlayerManialinkEvent {
    /// The answer string, either from a Manialink (`<quad action="my_action"/>`),
    /// or from ManiaScript (`TriggerPageAction("my_action");`)
    pub answer: String,
    /// The current values of Manialink inputs like `<entry name="...">`
    /// or `<textedit name="...">`, by name: each name once.
    pub entries: Vec<(String, String)>,
}

/// Current status of a warmup.
#[derive(Clone, Debug)]
pub struct WarmupStatus {
    /// The id of the request that this answers, if any.
    pub response_id: Option<String>,
    /// True if a warmup is available in the game mode, false otherwise.
    ///
    /// Warmups are available for all default modes.
    pub available: bool,
    /// True if a warmup is ongoing, false otherwise.
    pub active: bool,
}

/// Current status of a pause.
#[derive(Clone, Debug)]
pub struct PauseStatus {
    /// The id of the request that this answers, if any.
    pub response_id: Option<String>,
    /// True if a pause is available in the game mode, false otherwise.
    ///
    /// Pauses are available for the round-based default modes (Cup, Champion,
    /// Knockout, Rounds, Teams), and not for Laps and TimeAttack.
    pub available: bool,
    /// True if a pause is ongoing, false otherwise.
    pub active: bool,
}

/// Event data produced when a warmup round starts or ends.
#[derive(Clone, Copy, Debug)]
pub struct WarmupRoundStatus {
    /// The number of the current warmup round.
    pub current_round: i32,
    /// The total number of warmup rounds.
    pub nb_total_rounds: i32,
}

/// Event data produced at the end of a Champion round.
#[derive(Clone, Debug)]
pub struct ChampionEndRoundEvent {
    pub scores: Vec<ChampionScoreOverall>,
}

/// Player score in the Champion mode.
#[derive(Clone, Debug)]
pub struct ChampionScoreOverall {
    pub player_login: String,
    /// Collected points and ranking in the current round.
    pub round: ChampionScore,
    /// Collected points and ranking in the current match.
    pub step: ChampionScore,
}

/// Player score in a step or round of the Champion mode.
#[derive(Clone, Copy, Debug)]
pub struct ChampionScore {
    pub rank: i32,
    pub points: i32,
}

/// Event data produced at the end of a Knockout round.
#[derive(Clone, Debug)]
pub struct KnockoutEndRoundEvent {
    /// The account IDs of players that were eliminated in this round.
    pub eliminated_account_ids: Vec<String>,
}

} // verus!
