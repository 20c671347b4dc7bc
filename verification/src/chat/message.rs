//! Chat messages from the controller, and the pieces they are made of.

use vstd::prelude::*;
use vstd::string::*;

use crate::gbx::structs::ModeScript;
use crate::gbx::structs::mode_name;
use crate::text::{
    decimal, push_char, push_decimal, push_signed, push_str, push_zero_padded, signed_decimal,
    zero_pad,
};

verus! {

/// The formatting code that highlights a part of a message.
pub const HIGHLIGHT: &'static str = "$fff";

/// The formatting code of notices.
pub const NOTICE: &'static str = "$fc0";

/// The formatting code that resets all formatting.
pub const RESET: &'static str = "$z$s";

/// `mm:ss:mmm` for a run time in milliseconds, with at least two digits of
/// minutes, two of seconds and three of milliseconds.
pub open spec fn spec_fmt_time(millis: nat) -> Seq<char> {
    let secs = millis / 1000;
    let ms = millis % 1000;
    let mins = secs / 60;
    let s = secs % 60;
    zero_pad(decimal(mins), 2) + seq![':'] + zero_pad(decimal(s), 2) + seq![':']
        + zero_pad(decimal(ms), 3)
}

/// Turns a number of milliseconds into a readable run time,
/// f.e. `00:48:051` for `48051`.
pub fn fmt_time(millis: usize) -> (res: String)
    ensures
        res@ == spec_fmt_time(millis as nat),
{
    let secs = millis / 1000;
    let ms = millis % 1000;
    let mins = secs / 60;
    let s = secs % 60;
    let mut out = String::new();
    push_zero_padded(&mut out, mins as u64, 2);
    push_char(&mut out, ':');
    push_zero_padded(&mut out, s as u64, 2);
    push_char(&mut out, ':');
    push_zero_padded(&mut out, ms as u64, 3);
    out
}

/// Either `"no <word>"`, `"one <word>"` or `"<amount> <word>s"`.
pub open spec fn spec_pluralize(word: Seq<char>, amount: nat) -> Seq<char> {
    let prefix = if amount == 0 {
        seq!['n', 'o']
    } else if amount == 1 {
        seq!['o', 'n', 'e']
    } else {
        decimal(amount)
    };
    prefix + seq![' '] + word + if amount <= 1 { Seq::<char>::empty() } else { seq!['s'] }
}

/// Either `"no <word>"`, `"one <word>"` or `"<amount> <word>s"`.
pub fn pluralize(word: &str, amount: usize) -> (res: String)
    ensures
        res@ == spec_pluralize(word@, amount as nat),
{
    let mut s = String::new();
    if amount == 0 {
        push_char(&mut s, 'n');
        push_char(&mut s, 'o');
    } else if amount == 1 {
        push_char(&mut s, 'o');
        push_char(&mut s, 'n');
        push_char(&mut s, 'e');
    } else {
        push_decimal(&mut s, amount as u64);
    }
    push_char(&mut s, ' ');
    push_str(&mut s, word);
    if amount > 1 {
        push_char(&mut s, 's');
    }
    assert(s@ =~= spec_pluralize(word@, amount as nat));
    s
}

/// Chat messages from the controller to a specific player.
pub enum PlayerMessage {
    /// Remind a player to change their preferences to influence the queue.
    PreferenceReminder { nb_active_preferences: usize },
}

/// Chat announcements from the controller to all players.
pub enum ServerMessage<'a> {
    /// A player connected.
    Joining { display_name: &'a str },
    /// A player disconnected.
    Leaving { display_name: &'a str },
    /// At least one player improved their rank, and took one of the top spots.
    NewTopRanks(Vec<TopRankMessage<'a>>),
    /// A player improved their record on the current map, and took one of the top spots.
    TopRecord { player_display_name: &'a str, new_map_rank: usize, millis: usize },
    /// A player improved their map record, but kept the same record rank.
    TopRecordImproved { player_display_name: &'a str, map_rank: usize, millis: usize },
    /// A new map was imported.
    NewMap { name: &'a str, author: &'a str },
    /// A map was re-introduced to the playlist.
    AddedMap { name: &'a str },
    /// A map was removed from the playlist.
    RemovedMap { name: &'a str },
    /// Announce the next map after the vote.
    NextMap { name: &'a str, author: &'a str },
    /// Tell players to vote if they want a restart: for this many seconds,
    /// with this many quarters of the players needed.
    VoteNow { duration_secs: i64, threshold_quarters: u32 },
    /// Tell players that an admin skipped the current map.
    CurrentMapSkipped { admin_name: &'a str },
    /// Tell players that an admin deleted a map and its records.
    MapDeleted { admin_name: &'a str, map_name: &'a str },
    /// Tell players that an admin has blacklisted a player.
    PlayerBlacklisted { admin_name: &'a str, player_name: &'a str },
    /// Tell players that an admin has removed a player from the blacklist.
    PlayerUnblacklisted { admin_name: &'a str, player_name: &'a str },
    /// Tell players that an admin has forced a restart of the current map.
    ForceRestart { admin_name: &'a str },
    /// Tell players that an admin has pushed a map to the top of the queue.
    ForceQueued { admin_name: &'a str, map_name: &'a str },
    /// Tell players that an admin has changed the time limit config.
    TimeLimitChanged { admin_name: &'a str },
    /// Tell players that an admin has paused the match.
    MatchPaused { admin_name: &'a str },
    /// Tell players that an admin has unpaused the match.
    MatchUnpaused { admin_name: &'a str },
    /// Tell players that an admin has extended the current warmup round.
    WarmupRoundExtended { admin_name: &'a str, secs: u64 },
    /// Tell players that an admin has skipped the remaining warmup.
    WarmupSkipped { admin_name: &'a str },
    /// Tell players that an admin changed the game mode for the next map.
    ModeChanging { admin_name: &'a str, mode: ModeScript },
    /// Tell players that an admin loaded match settings from a file.
    LoadedMatchSettings { admin_name: &'a str, settings_name: &'a str },
    /// Tell players that an admin saved the current match settings to a file.
    SavedMatchSettings { admin_name: &'a str, settings_name: &'a str },
}

/// A player improved their rank, and took one of the top spots.
pub struct TopRankMessage<'a> {
    pub display_name: &'a str,
    pub rank: usize,
}

impl<'a> ServerMessage<'a> {
    /// Whether the message is sent at all: not if it announces no top ranks.
    pub fn is_empty(&self) -> (res: bool)
        ensures
            res == (self matches ServerMessage::NewTopRanks(v) && v@.len() == 0),
    {
        match self {
            ServerMessage::NewTopRanks(v) => v.len() == 0,
            _ => false,
        }
    }

    /// Whether a restart vote announcement says that the map will not be
    /// restarted: when more than all players would be needed.
    pub fn vote_is_closed(&self) -> (res: bool)
        ensures
            res == (self matches ServerMessage::VoteNow { threshold_quarters, .. } && threshold_quarters > 4),
    {
        match self {
            ServerMessage::VoteNow { threshold_quarters, .. } => *threshold_quarters > 4,
            _ => false,
        }
    }
}


/// A piece of a chat message, by the way it is styled: plain notice text,
/// a name after which all formatting is reset, or a highlighted value.
pub enum MessagePart {
    Text(String),
    Name(String),
    Highlighted(String),
}

/// The characters of a [`MessagePart`], with its style.
pub enum PartView {
    Text(Seq<char>),
    Name(Seq<char>),
    Highlighted(Seq<char>),
}

impl View for MessagePart {
    type V = PartView;

    open spec fn view(&self) -> PartView {
        match self {
            MessagePart::Text(s) => PartView::Text(s@),
            MessagePart::Name(s) => PartView::Name(s@),
            MessagePart::Highlighted(s) => PartView::Highlighted(s@),
        }
    }
}

/// The views of a list of message parts.
pub open spec fn parts_view(v: Seq<MessagePart>) -> Seq<PartView> {
    v.map_values(|p: MessagePart| p@)
}

/// The chat text of a part: notice text as it is, a name followed by a reset
/// of its own formatting and a return to the notice color, a highlighted
/// value in the highlight color followed by the same reset.
pub open spec fn part_text(p: PartView) -> Seq<char> {
    match p {
        PartView::Text(s) => s,
        PartView::Name(s) => s + RESET@ + NOTICE@,
        PartView::Highlighted(s) => HIGHLIGHT@ + s + RESET@ + NOTICE@,
    }
}

/// The chat text of a message: the notice color, then each part in turn.
pub open spec fn rendered(parts: Seq<PartView>) -> Seq<char>
    decreases parts.len(),
{
    if parts.len() == 0 {
        NOTICE@
    } else {
        rendered(parts.drop_last()) + part_text(parts.last())
    }
}

/// Writes message parts as chat text, in the notice color, with names and
/// highlighted values styled as `part_text` says.
pub fn render(parts: &Vec<MessagePart>) -> (res: String)
    ensures
        res@ == rendered(parts_view(parts@)),
{
    let mut out = String::new();
    push_str(&mut out, NOTICE);
    let mut i: usize = 0;
    while i < parts.len()
        invariant
            i <= parts@.len(),
            out@ == rendered(parts_view(parts@.take(i as int))),
        decreases parts@.len() - i,
    {
        proof {
            assert(parts_view(parts@.take(i + 1)).drop_last() =~= parts_view(parts@.take(i as int)));
            assert(parts_view(parts@.take(i + 1)).last() == parts@[i as int]@);
        }
        match &parts[i] {
            MessagePart::Text(t) => {
                push_str(&mut out, t.as_str());
            },
            MessagePart::Name(n) => {
                push_str(&mut out, n.as_str());
                push_str(&mut out, RESET);
                push_str(&mut out, NOTICE);
            },
            MessagePart::Highlighted(h) => {
                push_str(&mut out, HIGHLIGHT);
                push_str(&mut out, h.as_str());
                push_str(&mut out, RESET);
                push_str(&mut out, NOTICE);
            },
        }
        proof {
            let v = parts@[i as int]@;
            let before = rendered(parts_view(parts@.take(i as int)));
            match v {
                PartView::Text(t) => {},
                PartView::Name(n) => {
                    assert(before + n + RESET@ + NOTICE@ =~= before + (n + RESET@ + NOTICE@));
                },
                PartView::Highlighted(h) => {
                    assert(before + HIGHLIGHT@ + h + RESET@ + NOTICE@ =~= before + (HIGHLIGHT@ + h + RESET@
                        + NOTICE@));
                },
            }
        }
        i = i + 1;
    }
    assert(parts@.take(parts@.len() as int) =~= parts@);
    out
}

fn text(s: &str) -> (p: MessagePart)
    ensures
        p@ == PartView::Text(s@),
{
    MessagePart::Text(String::from_str(s))
}

fn name(s: &str) -> (p: MessagePart)
    ensures
        p@ == PartView::Name(s@),
{
    MessagePart::Name(String::from_str(s))
}

fn highlighted(s: &str) -> (p: MessagePart)
    ensures
        p@ == PartView::Highlighted(s@),
{
    MessagePart::Highlighted(String::from_str(s))
}

/// A rank or record position as it is announced: the number and a period.
pub open spec fn ordinal(n: nat) -> Seq<char> {
    decimal(n) + seq!['.']
}

fn ordinal_part(n: usize) -> (p: MessagePart)
    ensures
        p@ == PartView::Highlighted(ordinal(n as nat)),
{
    let mut s = String::new();
    push_decimal(&mut s, n as u64);
    push_char(&mut s, '.');
    assert(s@ =~= ordinal(n as nat));
    MessagePart::Highlighted(s)
}

/// The parts that announce each of these top ranks in turn.
pub open spec fn top_rank_parts(ranks: Seq<TopRankMessage>) -> Seq<PartView>
    decreases ranks.len(),
{
    if ranks.len() == 0 {
        Seq::empty()
    } else {
        let tr = ranks.last();
        top_rank_parts(ranks.drop_last()) + seq![
            PartView::Name(tr.display_name@),
            PartView::Text(" reaches rank "@),
            PartView::Highlighted(decimal(tr.rank as nat)),
            PartView::Text("!"@),
        ]
    }
}

/// A number of seconds as it is announced.
pub open spec fn seconds_text(n: int) -> Seq<char> {
    signed_decimal(n) + " seconds"@
}

/// The parts of a chat announcement, in the order in which they are
/// written; none where the announcement names no top ranks, and is not sent.
pub open spec fn server_parts(m: ServerMessage) -> Seq<PartView> {
    match m {
        ServerMessage::Joining { display_name } => seq![
            PartView::Name(display_name@),
            PartView::Text(" joined."@),
        ],
        ServerMessage::Leaving { display_name } => seq![
            PartView::Name(display_name@),
            PartView::Text(" left."@),
        ],
        ServerMessage::NewTopRanks(v) => top_rank_parts(v@),
        ServerMessage::TopRecord { player_display_name, new_map_rank, millis } => seq![
            PartView::Name(player_display_name@),
            PartView::Text(" sets the "@),
            PartView::Highlighted(ordinal(new_map_rank as nat)),
            PartView::Text(" record! "@),
            PartView::Highlighted(spec_fmt_time(millis as nat)),
        ],
        ServerMessage::TopRecordImproved { player_display_name, map_rank, millis } => seq![
            PartView::Name(player_display_name@),
            PartView::Text(" improved the "@),
            PartView::Highlighted(ordinal(map_rank as nat)),
            PartView::Text(" record! "@),
            PartView::Highlighted(spec_fmt_time(millis as nat)),
        ],
        ServerMessage::NewMap { name, author } => seq![
            PartView::Text("A new map was added: "@),
            PartView::Name(name@),
            PartView::Text(" by "@),
            PartView::Name(author@),
        ],
        ServerMessage::AddedMap { name } => seq![
            PartView::Name(name@),
            PartView::Text(" was added back into the playlist."@),
        ],
        ServerMessage::RemovedMap { name } => seq![
            PartView::Name(name@),
            PartView::Text(" was removed from the playlist."@),
        ],
        ServerMessage::NextMap { name, author } => seq![
            PartView::Text("Next map will be "@),
            PartView::Name(name@),
            PartView::Text(" by "@),
            PartView::Name(author@),
        ],
        ServerMessage::VoteNow { duration_secs, threshold_quarters } => if threshold_quarters > 4 {
            seq![PartView::Text("This map will not be restarted."@)]
        } else {
            seq![
                PartView::Text("Vote for a restart in the next "@),
                PartView::Highlighted(seconds_text(duration_secs as int)),
                PartView::Text("!"@),
            ]
        },
        ServerMessage::CurrentMapSkipped { admin_name } => admin_parts(
            admin_name@,
            seq![PartView::Text(" skipped the current map!"@)],
        ),
        ServerMessage::MapDeleted { admin_name, map_name } => admin_parts(
            admin_name@,
            seq![
                PartView::Text(" deleted map "@),
                PartView::Name(map_name@),
                PartView::Text(" and all of its records!"@),
            ],
        ),
        ServerMessage::PlayerBlacklisted { admin_name, player_name } => admin_parts(
            admin_name@,
            seq![
                PartView::Text(" blacklisted player "@),
                PartView::Name(player_name@),
                PartView::Text("!"@),
            ],
        ),
        ServerMessage::PlayerUnblacklisted { admin_name, player_name } => admin_parts(
            admin_name@,
            seq![
                PartView::Text(" un-blacklisted player "@),
                PartView::Name(player_name@),
                PartView::Text("!"@),
            ],
        ),
        ServerMessage::ForceRestart { admin_name } => admin_parts(
            admin_name@,
            seq![PartView::Text(" forced a map restart!"@)],
        ),
        ServerMessage::ForceQueued { admin_name, map_name } => admin_parts(
            admin_name@,
            seq![
                PartView::Text(" queued map "@),
                PartView::Name(map_name@),
                PartView::Text("!"@),
            ],
        ),
        ServerMessage::TimeLimitChanged { admin_name } => admin_parts(
            admin_name@,
            seq![PartView::Text(" changed the time limit settings!"@)],
        ),
        ServerMessage::MatchPaused { admin_name } => admin_parts(
            admin_name@,
            seq![PartView::Text(" paused the match!"@)],
        ),
        ServerMessage::MatchUnpaused { admin_name } => admin_parts(
            admin_name@,
            seq![PartView::Text(" unpaused the match!"@)],
        ),
        ServerMessage::WarmupRoundExtended { admin_name, secs } => admin_parts(
            admin_name@,
            seq![
                PartView::Text(" extended the warmup by "@),
                PartView::Highlighted(seconds_text(secs as int)),
                PartView::Text("!"@),
            ],
        ),
        ServerMessage::WarmupSkipped { admin_name } => admin_parts(
            admin_name@,
            seq![PartView::Text(" skipped the warmup!"@)],
        ),
        ServerMessage::ModeChanging { admin_name, mode } => admin_parts(
            admin_name@,
            seq![
                PartView::Text(" changed the game mode to "@),
                PartView::Highlighted(mode_name(mode)),
                PartView::Text("!"@),
            ],
        ),
        ServerMessage::LoadedMatchSettings { admin_name, settings_name } => admin_parts(
            admin_name@,
            seq![
                PartView::Text(" loaded the "@),
                PartView::Highlighted(settings_name@),
                PartView::Text(" match settings!"@),
            ],
        ),
        ServerMessage::SavedMatchSettings { admin_name, settings_name } => admin_parts(
            admin_name@,
            seq![
                PartView::Text(" saved the current match settings in "@),
                PartView::Highlighted(settings_name@),
                PartView::Text("!"@),
            ],
        ),
    }
}

/// An announcement of an admin's action: `Admin `, the admin's name, then
/// what they did.
pub open spec fn admin_parts(admin_name: Seq<char>, rest: Seq<PartView>) -> Seq<PartView> {
    seq![PartView::Text("Admin "@), PartView::Name(admin_name)] + rest
}

fn push_admin(out: &mut Vec<MessagePart>, admin_name: &str)
    requires
        old(out)@.len() == 0,
    ensures
        parts_view(final(out)@) == seq![PartView::Text("Admin "@), PartView::Name(admin_name@)],
{
    out.push(text("Admin "));
    out.push(name(admin_name));
    assert(parts_view(out@) =~= seq![PartView::Text("Admin "@), PartView::Name(admin_name@)]);
}

fn push_part(out: &mut Vec<MessagePart>, p: MessagePart)
    ensures
        parts_view(final(out)@) == parts_view(old(out)@).push(p@),
{
    out.push(p);
    assert(parts_view(out@) =~= parts_view(old(out)@).push(p@));
}

fn seconds_part(n: i64) -> (p: MessagePart)
    ensures
        p@ == PartView::Highlighted(seconds_text(n as int)),
{
    let mut s = String::new();
    push_signed(&mut s, n);
    push_str(&mut s, " seconds");
    MessagePart::Highlighted(s)
}

fn unsigned_seconds_part(n: u64) -> (p: MessagePart)
    ensures
        p@ == PartView::Highlighted(seconds_text(n as int)),
{
    let mut s = String::new();
    push_decimal(&mut s, n);
    push_str(&mut s, " seconds");
    MessagePart::Highlighted(s)
}

impl<'a> ServerMessage<'a> {
    /// This announcement as chat text.
    pub fn to_text(&self) -> (res: String)
        ensures
            res@ == rendered(server_parts(*self)),
    {
        render(&self.parts())
    }

    /// The parts of this announcement, in the order in which they are
    /// written. None where it names no top ranks: such an announcement is
    /// not sent.
    #[verifier::rlimit(40)]
    pub fn parts(&self) -> (res: Vec<MessagePart>)
        ensures
            parts_view(res@) == server_parts(*self),
    {
        let mut out: Vec<MessagePart> = Vec::new();
        match self {
            ServerMessage::Joining { display_name } => {
                push_part(&mut out, name(display_name));
                push_part(&mut out, text(" joined."));
            },
            ServerMessage::Leaving { display_name } => {
                push_part(&mut out, name(display_name));
                push_part(&mut out, text(" left."));
            },
            ServerMessage::NewTopRanks(v) => {
                let mut i: usize = 0;
                while i < v.len()
                    invariant
                        i <= v@.len(),
                        parts_view(out@) == top_rank_parts(v@.take(i as int)),
                    decreases v@.len() - i,
                {
                    let tr = &v[i];
                    assert(v@.take(i + 1).drop_last() =~= v@.take(i as int));
                    push_part(&mut out, name(tr.display_name));
                    push_part(&mut out, text(" reaches rank "));
                    let mut r = String::new();
                    push_decimal(&mut r, tr.rank as u64);
                    push_part(&mut out, MessagePart::Highlighted(r));
                    push_part(&mut out, text("!"));
                    i = i + 1;
                }
                assert(v@.take(v@.len() as int) =~= v@);
            },
            ServerMessage::TopRecord { player_display_name, new_map_rank, millis } => {
                push_part(&mut out, name(player_display_name));
                push_part(&mut out, text(" sets the "));
                push_part(&mut out, ordinal_part(*new_map_rank));
                push_part(&mut out, text(" record! "));
                push_part(&mut out, MessagePart::Highlighted(fmt_time(*millis)));
            },
            ServerMessage::TopRecordImproved { player_display_name, map_rank, millis } => {
                push_part(&mut out, name(player_display_name));
                push_part(&mut out, text(" improved the "));
                push_part(&mut out, ordinal_part(*map_rank));
                push_part(&mut out, text(" record! "));
                push_part(&mut out, MessagePart::Highlighted(fmt_time(*millis)));
            },
            ServerMessage::NewMap { name: map_name, author } => {
                push_part(&mut out, text("A new map was added: "));
                push_part(&mut out, name(map_name));
                push_part(&mut out, text(" by "));
                push_part(&mut out, name(author));
            },
            ServerMessage::AddedMap { name: map_name } => {
                push_part(&mut out, name(map_name));
                push_part(&mut out, text(" was added back into the playlist."));
            },
            ServerMessage::RemovedMap { name: map_name } => {
                push_part(&mut out, name(map_name));
                push_part(&mut out, text(" was removed from the playlist."));
            },
            ServerMessage::NextMap { name: map_name, author } => {
                push_part(&mut out, text("Next map will be "));
                push_part(&mut out, name(map_name));
                push_part(&mut out, text(" by "));
                push_part(&mut out, name(author));
            },
            ServerMessage::VoteNow { duration_secs, threshold_quarters } => {
                if *threshold_quarters > 4 {
                    push_part(&mut out, text("This map will not be restarted."));
                } else {
                    push_part(&mut out, text("Vote for a restart in the next "));
                    push_part(&mut out, seconds_part(*duration_secs));
                    push_part(&mut out, text("!"));
                }
            },
            ServerMessage::CurrentMapSkipped { admin_name } => {
                push_admin(&mut out, admin_name);
                push_part(&mut out, text(" skipped the current map!"));
            },
            ServerMessage::MapDeleted { admin_name, map_name } => {
                push_admin(&mut out, admin_name);
                push_part(&mut out, text(" deleted map "));
                push_part(&mut out, name(map_name));
                push_part(&mut out, text(" and all of its records!"));
            },
            ServerMessage::PlayerBlacklisted { admin_name, player_name } => {
                push_admin(&mut out, admin_name);
                push_part(&mut out, text(" blacklisted player "));
                push_part(&mut out, name(player_name));
                push_part(&mut out, text("!"));
            },
            ServerMessage::PlayerUnblacklisted { admin_name, player_name } => {
                push_admin(&mut out, admin_name);
                push_part(&mut out, text(" un-blacklisted player "));
                push_part(&mut out, name(player_name));
                push_part(&mut out, text("!"));
            },
            ServerMessage::ForceRestart { admin_name } => {
                push_admin(&mut out, admin_name);
                push_part(&mut out, text(" forced a map restart!"));
            },
            ServerMessage::ForceQueued { admin_name, map_name } => {
                push_admin(&mut out, admin_name);
                push_part(&mut out, text(" queued map "));
                push_part(&mut out, name(map_name));
                push_part(&mut out, text("!"));
            },
            ServerMessage::TimeLimitChanged { admin_name } => {
                push_admin(&mut out, admin_name);
                push_part(&mut out, text(" changed the time limit settings!"));
            },
            ServerMessage::MatchPaused { admin_name } => {
                push_admin(&mut out, admin_name);
                push_part(&mut out, text(" paused the match!"));
            },
            ServerMessage::MatchUnpaused { admin_name } => {
                push_admin(&mut out, admin_name);
                push_part(&mut out, text(" unpaused the match!"));
            },
            ServerMessage::WarmupRoundExtended { admin_name, secs } => {
                push_admin(&mut out, admin_name);
                push_part(&mut out, text(" extended the warmup by "));
                push_part(&mut out, unsigned_seconds_part(*secs));
                push_part(&mut out, text("!"));
            },
            ServerMessage::WarmupSkipped { admin_name } => {
                push_admin(&mut out, admin_name);
                push_part(&mut out, text(" skipped the warmup!"));
            },
            ServerMessage::ModeChanging { admin_name, mode } => {
                push_admin(&mut out, admin_name);
                push_part(&mut out, text(" changed the game mode to "));
                push_part(&mut out, highlighted(mode.name()));
                push_part(&mut out, text("!"));
            },
            ServerMessage::LoadedMatchSettings { admin_name, settings_name } => {
                push_admin(&mut out, admin_name);
                push_part(&mut out, text(" loaded the "));
                push_part(&mut out, highlighted(settings_name));
                push_part(&mut out, text(" match settings!"));
            },
            ServerMessage::SavedMatchSettings { admin_name, settings_name } => {
                push_admin(&mut out, admin_name);
                push_part(&mut out, text(" saved the current match settings in "));
                push_part(&mut out, highlighted(settings_name));
                push_part(&mut out, text("!"));
            },
        }
        proof {
            assert(parts_view(out@) =~= server_parts(*self));
        }
        out
    }
}

/// The parts of a message to one player, in the order in which they are
/// written.
pub open spec fn player_parts(m: PlayerMessage) -> Seq<PartView> {
    match m {
        PlayerMessage::PreferenceReminder { nb_active_preferences } => if nb_active_preferences
            == 0 {
            seq![
                PartView::Text("Don't like this map? "@),
                PartView::Text("Make sure to set your preferences in the map list."@),
            ]
        } else {
            seq![
                PartView::Text(
                    "You are influencing the map queue with "@ + spec_pluralize(
                        "preference"@,
                        nb_active_preferences as nat,
                    ) + "."@,
                ),
                PartView::Text(
                    "Make sure to change them to your liking by bringing up the map list."@,
                ),
            ]
        },
    }
}

impl PlayerMessage {
    /// This message as chat text.
    pub fn to_text(&self) -> (res: String)
        ensures
            res@ == rendered(player_parts(*self)),
    {
        render(&self.parts())
    }

    /// The parts of this message, in the order in which they are written.
    pub fn parts(&self) -> (res: Vec<MessagePart>)
        ensures
            parts_view(res@) == player_parts(*self),
    {
        let mut out: Vec<MessagePart> = Vec::new();
        match self {
            PlayerMessage::PreferenceReminder { nb_active_preferences } => {
                if *nb_active_preferences == 0 {
                    push_part(&mut out, text("Don't like this map? "));
                    push_part(&mut out, text("Make sure to set your preferences in the map list."));
                } else {
                    let mut s = String::from_str("You are influencing the map queue with ");
                    let p = pluralize("preference", *nb_active_preferences);
                    push_str(&mut s, p.as_str());
                    push_str(&mut s, ".");
                    push_part(&mut out, MessagePart::Text(s));
                    push_part(
                        &mut out,
                        text("Make sure to change them to your liking by bringing up the map list."),
                    );
                }
            },
        }
        proof {
            assert(parts_view(out@) =~= player_parts(*self));
        }
        out
    }
}

/// Each announced top rank takes four parts.
proof fn lemma_top_rank_parts_len(ranks: Seq<TopRankMessage>)
    ensures
        top_rank_parts(ranks).len() == 4 * ranks.len(),
    decreases ranks.len(),
{
    if ranks.len() > 0 {
        lemma_top_rank_parts_len(ranks.drop_last());
    }
}

/// An announcement is written with no parts exactly when it names no top
/// ranks, which is when it is not sent.
pub proof fn law_no_parts_iff_empty(m: ServerMessage)
    ensures
        (server_parts(m).len() == 0) == (m matches ServerMessage::NewTopRanks(v) && v@.len() == 0),
{
    if let ServerMessage::NewTopRanks(v) = m {
        lemma_top_rank_parts_len(v@);
    }
}

} // verus!
