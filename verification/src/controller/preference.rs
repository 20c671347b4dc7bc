//! Map preferences, play history and restart votes of connected players.

use vstd::prelude::*;

use crate::controller::player::{PlayersState, playing_infos};
use crate::gbx::structs::PlayerInfo;
use crate::keyed::{
    PlayerMapKeyed, get_key, key_pos, lemma_lookup_key_at, lookup_key, retain_keys, set_insert, set_remove, survives, unique_keys,
    upsert_key,
};
use crate::text::str_eq;

verus! {

/// A player's preference for a map (`Unset` when they have none), including the implicit `AutoPick`
/// for maps they have no record on.
#[derive(Clone, Copy, Debug, PartialEq, Eq, Structural)]
pub enum ActivePreferenceValue {
    Unset,
    AutoPick,
    Pick,
    Veto,
    Remove,
}

/// A preference that a player stated.
#[derive(Clone, Copy, Debug, PartialEq, Eq, Structural)]
pub enum PreferenceValue {
    Pick,
    Veto,
    Remove,
}

/// A stored preference of a player for a map.
#[derive(Debug)]
pub struct Preference {
    pub player_login: String,
    pub map_uid: String,
    pub value: PreferenceValue,
}

/// When a player last played a map.
#[derive(Debug)]
pub struct History {
    pub player_login: String,
    pub map_uid: String,
    /// When the map was last played, in milliseconds since the Unix epoch;
    /// `None` if never.
    pub last_played: Option<i64>,
    /// The number of other maps played since.
    pub nb_maps_since: usize,
}

/// A history entry as the library reasons about it.
pub struct HistoryView {
    pub player_login: Seq<char>,
    pub map_uid: Seq<char>,
    pub last_played: Option<i64>,
    pub nb_maps_since: usize,
}

impl View for History {
    type V = HistoryView;

    open spec fn view(&self) -> HistoryView {
        HistoryView {
            player_login: self.player_login@,
            map_uid: self.map_uid@,
            last_played: self.last_played,
            nb_maps_since: self.nb_maps_since,
        }
    }
}

/// Extends `Preference` by implicit preference values, like `AutoPick`.
#[derive(Debug)]
pub struct ActivePreference {
    pub player_uid: i32,
    pub map_uid: String,
    pub value: ActivePreferenceValue,
}

/// A player and a map.
#[derive(Debug)]
pub struct PlayerMapKey {
    pub player_uid: i32,
    pub map_uid: String,
}

impl PlayerMapKey {
    pub fn new(player_uid: i32, map_uid: String) -> (res: Self)
        ensures
            res.player_uid == player_uid,
            res.map_uid == map_uid,
    {
        PlayerMapKey { player_uid, map_uid }
    }
}

impl PlayerMapKeyed for ActivePreference {
    open spec fn key_view(&self) -> (i32, Seq<char>) {
        (self.player_uid, self.map_uid@)
    }

    fn key_uid(&self) -> (res: i32) {
        self.player_uid
    }

    fn key_map(&self) -> (res: &str) {
        self.map_uid.as_str()
    }
}

/// A history entry of a connected player, by their UID.
#[derive(Debug)]
pub struct PlayerHistory {
    pub player_uid: i32,
    pub history: History,
}

impl PlayerMapKeyed for PlayerHistory {
    open spec fn key_view(&self) -> (i32, Seq<char>) {
        (self.player_uid, self.history.map_uid@)
    }

    fn key_uid(&self) -> (res: i32) {
        self.player_uid
    }

    fn key_map(&self) -> (res: &str) {
        self.history.map_uid.as_str()
    }
}

/// Preferences and history of connected players.
pub struct PreferencesState {
    /// The preferences of connected players (without spectators) for every
    /// map; no player and map occur twice.
    pub preferences: Vec<ActivePreference>,
    /// The playing history of connected players for every map; no player
    /// and map occur twice.
    pub history: Vec<PlayerHistory>,
    /// UIDs of players (that have a player slot) that are in favor of a restart.
    pub restart_votes: Vec<i32>,
}

/// The number of entries of the player.
pub open spec fn count_uid(s: Seq<ActivePreference>, uid: i32) -> nat
    decreases s.len(),
{
    if s.len() == 0 {
        0
    } else {
        count_uid(s.drop_last(), uid) + if s.last().player_uid == uid { 1nat } else { 0nat }
    }
}

/// Replacing an entry by one of the same player keeps each player's count.
proof fn lemma_count_uid_update(s: Seq<ActivePreference>, i: int, x: ActivePreference, u: i32)
    requires
        0 <= i < s.len(),
        s[i].player_uid == x.player_uid,
    ensures
        count_uid(s.update(i, x), u) == count_uid(s, u),
    decreases s.len(),
{
    let t = s.update(i, x);
    if i == s.len() - 1 {
        assert(t.drop_last() =~= s.drop_last());
    } else {
        assert(t.drop_last() =~= s.drop_last().update(i, x));
        lemma_count_uid_update(s.drop_last(), i, x, u);
    }
}

/// The preference values for the map, in the order of the entries.
pub open spec fn values_for_map(s: Seq<ActivePreference>, map: Seq<char>) -> Seq<ActivePreferenceValue>
    decreases s.len(),
{
    if s.len() == 0 {
        Seq::empty()
    } else if s.last().map_uid@ == map {
        values_for_map(s.drop_last(), map).push(s.last().value)
    } else {
        values_for_map(s.drop_last(), map)
    }
}

/// The restart votes of players that play.
pub open spec fn votes_of_playing(votes: Seq<i32>, playing: Seq<i32>) -> Seq<i32>
    decreases votes.len(),
{
    if votes.len() == 0 {
        Seq::empty()
    } else if playing.contains(votes.last()) {
        votes_of_playing(votes.drop_last(), playing).push(votes.last())
    } else {
        votes_of_playing(votes.drop_last(), playing)
    }
}

/// The active value of a stated preference.
pub open spec fn active_value(v: PreferenceValue) -> ActivePreferenceValue {
    match v {
        PreferenceValue::Pick => ActivePreferenceValue::Pick,
        PreferenceValue::Veto => ActivePreferenceValue::Veto,
        PreferenceValue::Remove => ActivePreferenceValue::Remove,
    }
}

/// The stated preference of an active value; `None` for those that are
/// not stated (`Unset`, `AutoPick`).
pub open spec fn stated_value(v: ActivePreferenceValue) -> Option<PreferenceValue> {
    match v {
        ActivePreferenceValue::Pick => Some(PreferenceValue::Pick),
        ActivePreferenceValue::Veto => Some(PreferenceValue::Veto),
        ActivePreferenceValue::Remove => Some(PreferenceValue::Remove),
        _ => None,
    }
}

/// Whether `a` was played more recently than `b` (a map never played is the
/// least recent).
pub open spec fn played_later(a: Option<i64>, b: Option<i64>) -> bool {
    match (a, b) {
        (Some(x), Some(y)) => x > y,
        (Some(_), None) => true,
        _ => false,
    }
}

impl PreferencesState {
    /// No player and map occur twice, and no vote twice.
    pub open spec fn wf(&self) -> bool {
        &&& unique_keys(self.preferences@)
        &&& unique_keys(self.history@)
        &&& self.restart_votes@.no_duplicates()
    }

    /// The preference of a player for a map.
    pub open spec fn pref_value(&self, uid: i32, map: Seq<char>) -> ActivePreferenceValue {
        match lookup_key(self.preferences@, (uid, map)) {
            Some(p) => p.value,
            None => ActivePreferenceValue::Unset,
        }
    }

    /// The history of a player for a map.
    pub open spec fn history_view(&self, uid: i32, map: Seq<char>) -> Option<HistoryView> {
        match lookup_key(self.history@, (uid, map)) {
            Some(h) => Some(h.history@),
            None => None,
        }
    }

    /// No preferences, history or votes.
    pub fn init() -> (res: Self)
        ensures
            res.wf(),
            res.preferences@.len() == 0,
            res.history@.len() == 0,
            res.restart_votes@.len() == 0,
    {
        PreferencesState { restart_votes: Vec::new(), history: Vec::new(), preferences: Vec::new() }
    }

    /// Add or replace a player's map preference: it takes the place of the
    /// player's preference for that map, or is added last.
    pub fn add_pref(&mut self, pref: ActivePreference)
        requires
            old(self).wf(),
        ensures
            final(self).wf(),
            final(self).preferences@ == match key_pos(old(self).preferences@, pref.key_view()) {
                Some(i) => old(self).preferences@.update(i, pref),
                None => old(self).preferences@.push(pref),
            },
            forall|u: i32| #[trigger] count_uid(final(self).preferences@, u) == count_uid(old(self).preferences@, u)
                + if u == pref.player_uid && key_pos(old(self).preferences@, pref.key_view()) is None { 1int } else { 0int },
            forall|u: i32, m: Seq<char>| #[trigger] final(self).pref_value(u, m) == if u == pref.player_uid && m == pref.map_uid@ {
                pref.value
            } else {
                old(self).pref_value(u, m)
            },
            forall|u: i32, m: Seq<char>| #[trigger] final(self).history_view(u, m) == old(self).history_view(u, m),
            final(self).restart_votes == old(self).restart_votes,
    {
        let ghost kv = pref.key_view();
        let ghost v = pref.value;
        let ghost p0 = pref;
        upsert_key(&mut self.preferences, pref);
        proof {
            let o = old(self).preferences@;
            match key_pos(o, kv) {
                Some(i) => {
                    assert forall|u: i32| #[trigger] count_uid(self.preferences@, u) == count_uid(o, u) by {
                        lemma_count_uid_update(o, i, p0, u);
                    }
                },
                None => {
                    assert(self.preferences@.drop_last() =~= o);
                },
            }
        }
        assert forall|u: i32, m: Seq<char>| #[trigger] self.pref_value(u, m) == if u == kv.0 && m == kv.1 {
            v
        } else {
            old(self).pref_value(u, m)
        } by {
            assert(lookup_key(self.preferences@, (u, m)) == if (u, m) == kv { Some(pref) } else { lookup_key(old(self).preferences@, (u, m)) });
        }
    }

    /// Add or replace a player's history for a map.
    pub fn add_history(&mut self, player_uid: i32, history: History)
        requires
            old(self).wf(),
        ensures
            final(self).wf(),
            forall|u: i32, m: Seq<char>| #[trigger] final(self).history_view(u, m) == if u == player_uid && m == history.map_uid@ {
                Some(history@)
            } else {
                old(self).history_view(u, m)
            },
            forall|u: i32, m: Seq<char>| #[trigger] final(self).pref_value(u, m) == old(self).pref_value(u, m),
            final(self).restart_votes == old(self).restart_votes,
    {
        let ghost hv = history@;
        let entry = PlayerHistory { player_uid, history };
        let ghost e = entry;
        upsert_key(&mut self.history, entry);
        assert forall|u: i32, m: Seq<char>| #[trigger] self.history_view(u, m) == if u == player_uid && m == hv.map_uid {
            Some(hv)
        } else {
            old(self).history_view(u, m)
        } by {
            assert(lookup_key(self.history@, (u, m)) == if (u, m) == e.key_view() { Some(e) } else { lookup_key(old(self).history@, (u, m)) });
        }
    }

    /// Return the specified player's preference for the specified map.
    pub fn pref(&self, player_uid: i32, map_uid: &str) -> (res: ActivePreferenceValue)
        requires
            self.wf(),
        ensures
            res == self.pref_value(player_uid, map_uid@),
    {
        match get_key(&self.preferences, player_uid, map_uid) {
            Some(p) => p.value,
            None => ActivePreferenceValue::Unset,
        }
    }

    /// Return the specified player's history for the specified map.
    pub fn history(&self, player_uid: i32, map_uid: &str) -> (res: Option<&History>)
        requires
            self.wf(),
        ensures
            match res {
                Some(h) => self.history_view(player_uid, map_uid@) == Some(h@),
                None => self.history_view(player_uid, map_uid@) is None,
            },
    {
        match get_key(&self.history, player_uid, map_uid) {
            Some(h) => Some(&h.history),
            None => None,
        }
    }

    /// Count active map preferences of the specified, connected player.
    pub fn nb_player_prefs(&self, uid: i32) -> (res: usize)
        ensures
            res == count_uid(self.preferences@, uid),
    {
        let mut n: usize = 0;
        let mut i: usize = 0;
        while i < self.preferences.len()
            invariant
                i <= self.preferences@.len(),
                n == count_uid(self.preferences@.take(i as int), uid),
                n <= i,
            decreases self.preferences@.len() - i,
        {
            proof {
                assert(self.preferences@.take(i + 1).drop_last() =~= self.preferences@.take(i as int));
            }
            if self.preferences[i].player_uid == uid {
                n = n + 1;
            }
            i = i + 1;
        }
        assert(self.preferences@.take(self.preferences@.len() as int) =~= self.preferences@);
        n
    }

    /// Collect preferences of connected players for the specified map.
    pub fn map_prefs(&self, map_uid: &str) -> (res: Vec<ActivePreferenceValue>)
        ensures
            res@ == values_for_map(self.preferences@, map_uid@),
    {
        let mut res: Vec<ActivePreferenceValue> = Vec::new();
        let mut i: usize = 0;
        while i < self.preferences.len()
            invariant
                i <= self.preferences@.len(),
                res@ == values_for_map(self.preferences@.take(i as int), map_uid@),
            decreases self.preferences@.len() - i,
        {
            proof {
                assert(self.preferences@.take(i + 1).drop_last() =~= self.preferences@.take(i as int));
            }
            if str_eq(self.preferences[i].map_uid.as_str(), map_uid) {
                res.push(self.preferences[i].value);
            }
            i = i + 1;
        }
        assert(self.preferences@.take(self.preferences@.len() as int) =~= self.preferences@);
        res
    }

    /// Unload a player's preferences, history and restart vote, when they
    /// leave their player slot.
    pub fn remove_player(&mut self, player_uid: i32)
        requires
            old(self).wf(),
        ensures
            final(self).wf(),
            forall|u: i32, m: Seq<char>| #[trigger] final(self).pref_value(u, m) == if u == player_uid {
                ActivePreferenceValue::Unset
            } else {
                old(self).pref_value(u, m)
            },
            forall|u: i32, m: Seq<char>| #[trigger] final(self).history_view(u, m) == if u == player_uid {
                None
            } else {
                old(self).history_view(u, m)
            },
            forall|y: i32| #[trigger] final(self).restart_votes@.contains(y) == (y != player_uid && old(self).restart_votes@.contains(y)),
    {
        retain_keys(&mut self.preferences, player_uid, "", 1);
        retain_keys(&mut self.history, player_uid, "", 1);
        set_remove(&mut self.restart_votes, player_uid);
        assert forall|u: i32, m: Seq<char>| #[trigger] self.pref_value(u, m) == if u == player_uid {
            ActivePreferenceValue::Unset
        } else {
            old(self).pref_value(u, m)
        } by {
            assert(survives((u, m), player_uid, ""@, 1) == (u != player_uid));
        }
        assert forall|u: i32, m: Seq<char>| #[trigger] self.history_view(u, m) == if u == player_uid {
            None
        } else {
            old(self).history_view(u, m)
        } by {
            assert(survives((u, m), player_uid, ""@, 1) == (u != player_uid));
        }
    }

    /// Unload every player's preference and history for a map that was removed.
    pub fn remove_map(&mut self, map_uid: &str)
        requires
            old(self).wf(),
        ensures
            final(self).wf(),
            forall|u: i32, m: Seq<char>| #[trigger] final(self).pref_value(u, m) == if m == map_uid@ {
                ActivePreferenceValue::Unset
            } else {
                old(self).pref_value(u, m)
            },
            forall|u: i32, m: Seq<char>| #[trigger] final(self).history_view(u, m) == if m == map_uid@ {
                None
            } else {
                old(self).history_view(u, m)
            },
            final(self).restart_votes == old(self).restart_votes,
    {
        retain_keys(&mut self.preferences, 0, map_uid, 2);
        retain_keys(&mut self.history, 0, map_uid, 2);
        assert forall|u: i32, m: Seq<char>| #[trigger] self.pref_value(u, m) == if m == map_uid@ {
            ActivePreferenceValue::Unset
        } else {
            old(self).pref_value(u, m)
        } by {
            assert(survives((u, m), 0, map_uid@, 2) == (m != map_uid@));
        }
        assert forall|u: i32, m: Seq<char>| #[trigger] self.history_view(u, m) == if m == map_uid@ {
            None
        } else {
            old(self).history_view(u, m)
        } by {
            assert(survives((u, m), 0, map_uid@, 2) == (m != map_uid@));
        }
    }

    /// Update a player's restart vote for the current map.
    pub fn set_restart_vote(&mut self, player_uid: i32, vote: bool)
        requires
            old(self).wf(),
        ensures
            final(self).wf(),
            forall|y: i32| #[trigger] final(self).restart_votes@.contains(y) == if y == player_uid {
                vote
            } else {
                old(self).restart_votes@.contains(y)
            },
            final(self).preferences == old(self).preferences,
            final(self).history == old(self).history,
    {
        if vote {
            set_insert(&mut self.restart_votes, player_uid);
        } else {
            set_remove(&mut self.restart_votes, player_uid);
        }
    }

    /// Reset all restart votes when maps change.
    pub fn reset_restart_votes(&mut self)
        ensures
            final(self).restart_votes@.len() == 0,
            final(self).preferences == old(self).preferences,
            final(self).history == old(self).history,
    {
        self.restart_votes = Vec::new();
    }

    /// The UIDs of non-spectating players that are in favor of restarting
    /// the current map.
    pub fn poll_restart(&self, players: &PlayersState) -> (res: Vec<i32>)
        ensures
            res@ == votes_of_playing(self.restart_votes@, players.playing@),
    {
        let mut res: Vec<i32> = Vec::new();
        let mut i: usize = 0;
        while i < self.restart_votes.len()
            invariant
                i <= self.restart_votes@.len(),
                res@ == votes_of_playing(self.restart_votes@.take(i as int), players.playing@),
            decreases self.restart_votes@.len() - i,
        {
            proof {
                assert(self.restart_votes@.take(i + 1).drop_last() =~= self.restart_votes@.take(i as int));
            }
            let uid = self.restart_votes[i];
            let mut k: usize = 0;
            let mut found = false;
            while k < players.playing.len()
                invariant
                    k <= players.playing@.len(),
                    found == exists|j: int| 0 <= j < k && players.playing@[j] == uid,
                decreases players.playing@.len() - k,
            {
                if players.playing[k] == uid {
                    found = true;
                }
                k = k + 1;
            }
            if found {
                res.push(uid);
            }
            i = i + 1;
        }
        assert(self.restart_votes@.take(self.restart_votes@.len() as int) =~= self.restart_votes@);
        res
    }

    /// Update a player's map preference. Returns the stated preference to
    /// store, if the value is one that players state.
    pub fn set_preference(&mut self, preference: ActivePreference) -> (res: Option<PreferenceValue>)
        requires
            old(self).wf(),
        ensures
            final(self).wf(),
            res == stated_value(preference.value),
            forall|u: i32, m: Seq<char>| #[trigger] final(self).pref_value(u, m) == if u == preference.player_uid && m == preference.map_uid@ {
                preference.value
            } else {
                old(self).pref_value(u, m)
            },
            forall|u: i32, m: Seq<char>| #[trigger] final(self).history_view(u, m) == old(self).history_view(u, m),
            final(self).restart_votes == old(self).restart_votes,
    {
        let value = match preference.value {
            ActivePreferenceValue::Pick => Some(PreferenceValue::Pick),
            ActivePreferenceValue::Veto => Some(PreferenceValue::Veto),
            ActivePreferenceValue::Remove => Some(PreferenceValue::Remove),
            _ => None,
        };
        self.add_pref(preference);
        value
    }

    /// Marks the map as the player's most recently played one, at the time
    /// `now_millis`: a first play removes an `AutoPick`, every other map that
    /// was played more recently than this one gets one more map played since,
    /// and this map none.
    pub fn update_history(&mut self, player_uid: i32, map_uid: &str, now_millis: i64)
        requires
            old(self).wf(),
            old(self).history_view(player_uid, map_uid@) is Some,
            forall|m: Seq<char>| #[trigger] old(self).history_view(player_uid, m) matches Some(h) ==> h.nb_maps_since < usize::MAX,
        ensures
            final(self).wf(),
            final(self).restart_votes == old(self).restart_votes,
            forall|u: i32, m: Seq<char>| #[trigger] final(self).pref_value(u, m) == if u == player_uid && m == map_uid@
                && old(self).history_view(player_uid, map_uid@)->0.last_played is None && old(self).pref_value(u, m)
                == ActivePreferenceValue::AutoPick {
                ActivePreferenceValue::Unset
            } else {
                old(self).pref_value(u, m)
            },
            forall|u: i32, m: Seq<char>| #[trigger] final(self).history_view(u, m) == if u == player_uid && m == map_uid@ {
                Some(HistoryView { last_played: Some(now_millis), nb_maps_since: 0, ..old(self).history_view(u, m)->0 })
            } else if u == player_uid && old(self).history_view(u, m) is Some && played_later(
                old(self).history_view(u, m)->0.last_played,
                old(self).history_view(player_uid, map_uid@)->0.last_played,
            ) {
                Some(HistoryView { nb_maps_since: (old(self).history_view(u, m)->0.nb_maps_since + 1) as usize, ..old(self).history_view(u, m)->0 })
            } else {
                old(self).history_view(u, m)
            },
    {
        let map_last_played = match get_key(&self.history, player_uid, map_uid) {
            Some(h) => h.history.last_played,
            None => None,
        };
        if map_last_played.is_none() {
            if get_key(&self.preferences, player_uid, map_uid).is_some() {
                if self.pref(player_uid, map_uid) == ActivePreferenceValue::AutoPick {
                    retain_keys(&mut self.preferences, player_uid, map_uid, 0);
                }
            }
        }
        let ghost prefs_after = self.preferences@;
        assert forall|u: i32, m: Seq<char>| #[trigger] self.pref_value(u, m) == if u == player_uid && m == map_uid@
            && old(self).history_view(player_uid, map_uid@)->0.last_played is None && old(self).pref_value(u, m)
            == ActivePreferenceValue::AutoPick {
            ActivePreferenceValue::Unset
        } else {
            old(self).pref_value(u, m)
        } by {
            assert(survives((u, m), player_uid, map_uid@, 0) == ((u, m) != (player_uid, map_uid@)));
        }
        let ghost orig = self.history@;
        let mut rest: Vec<PlayerHistory> = Vec::new();
        std::mem::swap(&mut self.history, &mut rest);
        let len = rest.len();
        let mut i: usize = 0;
        while i < len
            invariant
                len == orig.len(),
                i <= len,
                unique_keys(orig),
                rest@ == orig.skip(i as int),
                self.history@.len() == i,
                self.preferences@ == prefs_after,
                self.restart_votes == old(self).restart_votes,
                orig == old(self).history@,
                map_last_played == old(self).history_view(player_uid, map_uid@)->0.last_played,
                forall|m: Seq<char>| #[trigger] old(self).history_view(player_uid, m) matches Some(h) ==> h.nb_maps_since < usize::MAX,
                forall|j: int| 0 <= j < i ==> #[trigger] self.history@[j].key_view() == orig[j].key_view(),
                forall|j: int| 0 <= j < i ==> #[trigger] self.history@[j].history@ == updated_history(orig[j], player_uid, map_uid@, map_last_played, now_millis),
            decreases len - i,
        {
            let ghost old_rest = rest@;
            let e = rest.remove(0);
            proof {
                assert(old_rest[0] == orig[i as int]);
                assert(rest@ =~= orig.skip(i + 1));
                crate::keyed::lemma_lookup_key_at(orig, e.key_view(), i as int);
            }
            let PlayerHistory { player_uid: uid, history } = e;
            let History { player_login, map_uid: m, last_played, nb_maps_since } = history;
            let same_player = uid == player_uid;
            proof {
                assert(old(self).history_view(uid, m@) == Some(orig[i as int].history@));
                if same_player {
                    assert(old(self).history_view(player_uid, m@) matches Some(h) ==> h.nb_maps_since < usize::MAX);
                }
            }
            let same_map = str_eq(m.as_str(), map_uid);
            let later = match (last_played, map_last_played) {
                (Some(x), Some(y)) => x > y,
                (Some(_), None) => true,
                _ => false,
            };
            let updated = if same_player && same_map {
                History { player_login, map_uid: m, last_played: Some(now_millis), nb_maps_since: 0 }
            } else if same_player && later {
                History { player_login, map_uid: m, last_played, nb_maps_since: nb_maps_since + 1 }
            } else {
                History { player_login, map_uid: m, last_played, nb_maps_since }
            };
            self.history.push(PlayerHistory { player_uid: uid, history: updated });
            i = i + 1;
        }
        proof {
            let s = self.history@;
            assert forall|a: int, b: int| 0 <= a < b < s.len() implies (#[trigger] s[a]).key_view() != (#[trigger] s[b]).key_view() by {
                assert(s[a].key_view() == orig[a].key_view() && s[b].key_view() == orig[b].key_view());
            }
            assert forall|u: i32, m: Seq<char>| #[trigger] self.history_view(u, m) == if u == player_uid && m == map_uid@ {
                Some(HistoryView { last_played: Some(now_millis), nb_maps_since: 0, ..old(self).history_view(u, m)->0 })
            } else if u == player_uid && old(self).history_view(u, m) is Some && played_later(
                old(self).history_view(u, m)->0.last_played,
                old(self).history_view(player_uid, map_uid@)->0.last_played,
            ) {
                Some(HistoryView { nb_maps_since: (old(self).history_view(u, m)->0.nb_maps_since + 1) as usize, ..old(self).history_view(u, m)->0 })
            } else {
                old(self).history_view(u, m)
            } by {
                if exists|j: int| 0 <= j < orig.len() && orig[j].key_view() == (u, m) {
                    let j = choose|j: int| 0 <= j < orig.len() && orig[j].key_view() == (u, m);
                    crate::keyed::lemma_lookup_key_at(orig, (u, m), j);
                    crate::keyed::lemma_lookup_key_at(s, (u, m), j);
                } else {
                    assert forall|j: int| 0 <= j < s.len() implies s[j].key_view() != (u, m) by {
                        assert(s[j].key_view() == orig[j].key_view());
                    }
                }
            }
        }
    }
}

/// A history entry after the map `map` was played by `uid`.
pub open spec fn updated_history(e: PlayerHistory, uid: i32, map: Seq<char>, map_last_played: Option<i64>, now: i64) -> HistoryView {
    if e.player_uid == uid && e.history.map_uid@ == map {
        HistoryView { last_played: Some(now), nb_maps_since: 0, ..e.history@ }
    } else if e.player_uid == uid && played_later(e.history.last_played, map_last_played) {
        HistoryView { nb_maps_since: (e.history.nb_maps_since + 1) as usize, ..e.history@ }
    } else {
        e.history@
    }
}

/// A preference value set for a player and a map.
pub type PrefEntry = (i32, Seq<char>, ActivePreferenceValue);

/// The preference of a player for a map after these entries were set in
/// turn, where it was `before`: the last entry for them decides.
pub open spec fn value_after(entries: Seq<PrefEntry>, u: i32, m: Seq<char>, before: ActivePreferenceValue) -> ActivePreferenceValue
    decreases entries.len(),
{
    if entries.len() == 0 {
        before
    } else if entries.last().0 == u && entries.last().1 == m {
        entries.last().2
    } else {
        value_after(entries.drop_last(), u, m, before)
    }
}

/// The history of a player for a map after these entries were set in turn,
/// where it was `before`: the last entry for them decides.
pub open spec fn history_after(entries: Seq<(i32, HistoryView)>, u: i32, m: Seq<char>, before: Option<HistoryView>) -> Option<HistoryView>
    decreases entries.len(),
{
    if entries.len() == 0 {
        before
    } else if entries.last().0 == u && entries.last().1.map_uid == m {
        Some(entries.last().1)
    } else {
        history_after(entries.drop_last(), u, m, before)
    }
}

/// `AutoPick` for the player on each of these maps.
pub open spec fn auto_entries(uid: i32, maps: Seq<String>) -> Seq<PrefEntry> {
    maps.map_values(|m: String| (uid, m@, ActivePreferenceValue::AutoPick))
}

/// The entries that stored preferences give, for those of connected players.
pub open spec fn pref_entries(prefs: Seq<Preference>, players: PlayersState) -> Seq<PrefEntry>
    decreases prefs.len(),
{
    if prefs.len() == 0 {
        Seq::empty()
    } else {
        let rest = pref_entries(prefs.drop_last(), players);
        let p = prefs.last();
        match players.uid_of(p.player_login@) {
            Some(u) => rest.push((u, p.map_uid@, active_value(p.value))),
            None => rest,
        }
    }
}

/// The entries that stored history gives, for that of connected players.
pub open spec fn history_entries(history: Seq<History>, players: PlayersState) -> Seq<(i32, HistoryView)>
    decreases history.len(),
{
    if history.len() == 0 {
        Seq::empty()
    } else {
        let rest = history_entries(history.drop_last(), players);
        let h = history.last();
        match players.uid_of(h.player_login@) {
            Some(u) => rest.push((u, h@)),
            None => rest,
        }
    }
}

/// `AutoPick` for each of these players on a map.
pub open spec fn new_map_prefs(infos: Seq<PlayerInfo>, map: Seq<char>) -> Seq<PrefEntry> {
    infos.map_values(|i: PlayerInfo| (i.uid, map, ActivePreferenceValue::AutoPick))
}

/// A history for each of these players on a map that was never played,
/// with this many maps played since.
pub open spec fn new_map_history(infos: Seq<PlayerInfo>, map: Seq<char>, nb_maps: usize) -> Seq<(i32, HistoryView)> {
    infos.map_values(
        |i: PlayerInfo|
            (i.uid, HistoryView { player_login: i.login@, map_uid: map, last_played: None, nb_maps_since: nb_maps }),
    )
}

impl PreferencesState {
    /// Loads what is stored for a player that takes a player slot: `AutoPick`
    /// for each map they have no record on, then their stated preferences and
    /// their history, each for connected players. Returns the number of the
    /// player's preferences, which they are reminded of.
    pub fn load_player(
        &mut self,
        player_uid: i32,
        auto_picked_maps: Vec<String>,
        prefs: Vec<Preference>,
        history: Vec<History>,
        players: &PlayersState,
    ) -> (nb: usize)
        requires
            old(self).wf(),
            players.wf(),
        ensures
            final(self).wf(),
            forall|u: i32, m: Seq<char>| #[trigger] final(self).pref_value(u, m) == value_after(
                auto_entries(player_uid, auto_picked_maps@) + pref_entries(prefs@, *players),
                u,
                m,
                old(self).pref_value(u, m),
            ),
            forall|u: i32, m: Seq<char>| #[trigger] final(self).history_view(u, m) == history_after(
                history_entries(history@, *players),
                u,
                m,
                old(self).history_view(u, m),
            ),
            final(self).restart_votes == old(self).restart_votes,
            nb == count_uid(final(self).preferences@, player_uid),
    {
        let ghost start = *self;
        let ghost autos = auto_entries(player_uid, auto_picked_maps@);
        let mut i: usize = 0;
        while i < auto_picked_maps.len()
            invariant
                self.wf(),
                i <= auto_picked_maps@.len(),
                autos == auto_entries(player_uid, auto_picked_maps@),
                forall|u: i32, m: Seq<char>| #[trigger] self.pref_value(u, m) == value_after(
                    autos.take(i as int),
                    u,
                    m,
                    start.pref_value(u, m),
                ),
                forall|u: i32, m: Seq<char>| #[trigger] self.history_view(u, m) == start.history_view(u, m),
                self.restart_votes == start.restart_votes,
            decreases auto_picked_maps@.len() - i,
        {
            let map_uid = auto_picked_maps[i].clone();
            proof {
                assert(autos.take(i + 1).drop_last() =~= autos.take(i as int));
            }
            self.add_pref(ActivePreference { player_uid, map_uid, value: ActivePreferenceValue::AutoPick });
            i = i + 1;
        }
        assert(autos.take(autos.len() as int) =~= autos);
        let ghost mid = *self;
        let ghost entries = pref_entries(prefs@, *players);
        let mut prefs = prefs;
        let ghost all_prefs = prefs@;
        let mut rest: Vec<Preference> = Vec::new();
        let mut k: usize = 0;
        let n = prefs.len();
        while k < n
            invariant
                self.wf(),
                players.wf(),
                n == all_prefs.len(),
                k <= n,
                prefs@ == all_prefs.subrange(k as int, n as int),
                forall|u: i32, m: Seq<char>| #[trigger] self.pref_value(u, m) == value_after(
                    pref_entries(all_prefs.take(k as int), *players),
                    u,
                    m,
                    mid.pref_value(u, m),
                ),
                forall|u: i32, m: Seq<char>| #[trigger] self.history_view(u, m) == start.history_view(u, m),
                self.restart_votes == start.restart_votes,
            decreases n - k,
        {
            let p = prefs.remove(0);
            let ghost gp = p;
            let ghost prev = pref_entries(all_prefs.take(k as int), *players);
            proof {
                assert(all_prefs.take(k + 1).drop_last() =~= all_prefs.take(k as int));
                assert(all_prefs.take(k + 1).last() == p);
                assert(prefs@ =~= all_prefs.subrange(k + 1, n as int));
            }
            match to_active_pref(p, players) {
                Some(a) => {
                    let ghost e = (a.player_uid, a.map_uid@, a.value);
                    self.add_pref(a);
                    proof {
                        assert(pref_entries(all_prefs.take(k + 1), *players) == prev.push(e));
                        assert(prev.push(e).drop_last() =~= prev);
                    }
                },
                None => {
                    assert(pref_entries(all_prefs.take(k + 1), *players) == prev);
                },
            }
            k = k + 1;
        }
        proof {
            assert(all_prefs.take(n as int) =~= all_prefs);
            assert forall|u: i32, m: Seq<char>|
                #[trigger] value_after(autos + entries, u, m, start.pref_value(u, m)) == value_after(
                    entries,
                    u,
                    m,
                    value_after(autos, u, m, start.pref_value(u, m)),
                ) by {
                lemma_value_after_concat(autos, entries, u, m, start.pref_value(u, m));
            }
        }
        let ghost before_history = *self;
        let mut history = history;
        let ghost all_history = history@;
        let hn = history.len();
        let mut h: usize = 0;
        while h < hn
            invariant
                self.wf(),
                players.wf(),
                hn == all_history.len(),
                h <= hn,
                history@ == all_history.subrange(h as int, hn as int),
                forall|u: i32, m: Seq<char>| #[trigger] self.history_view(u, m) == history_after(
                    history_entries(all_history.take(h as int), *players),
                    u,
                    m,
                    start.history_view(u, m),
                ),
                forall|u: i32, m: Seq<char>| #[trigger] self.pref_value(u, m) == before_history.pref_value(u, m),
                self.restart_votes == start.restart_votes,
            decreases hn - h,
        {
            let entry = history.remove(0);
            proof {
                assert(all_history.take(h + 1).drop_last() =~= all_history.take(h as int));
                assert(all_history.take(h + 1).last() == entry);
                assert(history@ =~= all_history.subrange(h + 1, hn as int));
            }
            let ghost prev = history_entries(all_history.take(h as int), *players);
            match players.uid(entry.player_login.as_str()) {
                Some(uid) => {
                    let ghost e = (*uid, entry@);
                    self.add_history(*uid, entry);
                    proof {
                        assert(history_entries(all_history.take(h + 1), *players) == prev.push(e));
                        assert(prev.push(e).drop_last() =~= prev);
                    }
                },
                None => {
                    assert(history_entries(all_history.take(h + 1), *players) == prev);
                },
            }
            h = h + 1;
        }
        assert(all_history.take(hn as int) =~= all_history);
        self.nb_player_prefs(player_uid)
    }

    /// Gives each playing player `AutoPick` and an empty history for a map
    /// that is new to the playlist, which holds this many maps.
    pub fn add_new_map(&mut self, map_uid: &str, nb_maps: usize, players: &PlayersState)
        requires
            old(self).wf(),
        ensures
            final(self).wf(),
            forall|u: i32, m: Seq<char>| #[trigger] final(self).pref_value(u, m) == value_after(
                new_map_prefs(playing_infos(players.uid_to_info@, players.playing@), map_uid@),
                u,
                m,
                old(self).pref_value(u, m),
            ),
            forall|u: i32, m: Seq<char>| #[trigger] final(self).history_view(u, m) == history_after(
                new_map_history(playing_infos(players.uid_to_info@, players.playing@), map_uid@, nb_maps),
                u,
                m,
                old(self).history_view(u, m),
            ),
            final(self).restart_votes == old(self).restart_votes,
    {
        let ghost start = *self;
        let infos = players.info_playing();
        let ghost pinfos = playing_infos(players.uid_to_info@, players.playing@);
        assert(infos@.map_values(|r: &PlayerInfo| *r) == pinfos);
        let ghost pe = new_map_prefs(pinfos, map_uid@);
        let mut i: usize = 0;
        while i < infos.len()
            invariant
                self.wf(),
                i <= infos@.len(),
                infos@.map_values(|r: &PlayerInfo| *r) == pinfos,
                pe == new_map_prefs(pinfos, map_uid@),
                forall|u: i32, m: Seq<char>| #[trigger] self.pref_value(u, m) == value_after(
                    pe.take(i as int),
                    u,
                    m,
                    start.pref_value(u, m),
                ),
                forall|u: i32, m: Seq<char>| #[trigger] self.history_view(u, m) == start.history_view(u, m),
                self.restart_votes == start.restart_votes,
            decreases infos@.len() - i,
        {
            let info = infos[i];
            proof {
                assert(pe.take(i + 1).drop_last() =~= pe.take(i as int));
                assert(pinfos[i as int] == *infos@[i as int]);
            }
            self.add_pref(
                ActivePreference {
                    player_uid: info.uid,
                    map_uid: String::from_str(map_uid),
                    value: ActivePreferenceValue::AutoPick,
                },
            );
            i = i + 1;
        }
        assert(pe.take(pe.len() as int) =~= pe);
        let ghost mid = *self;
        let ghost he = new_map_history(pinfos, map_uid@, nb_maps);
        let mut j: usize = 0;
        while j < infos.len()
            invariant
                self.wf(),
                j <= infos@.len(),
                infos@.map_values(|r: &PlayerInfo| *r) == pinfos,
                he == new_map_history(pinfos, map_uid@, nb_maps),
                forall|u: i32, m: Seq<char>| #[trigger] self.history_view(u, m) == history_after(
                    he.take(j as int),
                    u,
                    m,
                    start.history_view(u, m),
                ),
                forall|u: i32, m: Seq<char>| #[trigger] self.pref_value(u, m) == mid.pref_value(u, m),
                self.restart_votes == start.restart_votes,
            decreases infos@.len() - j,
        {
            let info = infos[j];
            proof {
                assert(he.take(j + 1).drop_last() =~= he.take(j as int));
                assert(pinfos[j as int] == *infos@[j as int]);
            }
            let entry = History {
                player_login: info.login.clone(),
                map_uid: String::from_str(map_uid),
                last_played: None,
                nb_maps_since: nb_maps,
            };
            self.add_history(info.uid, entry);
            j = j + 1;
        }
        assert(he.take(he.len() as int) =~= he);
    }
}

/// Setting two lists of entries in turn is setting the one after the other.
pub proof fn lemma_value_after_concat(a: Seq<PrefEntry>, b: Seq<PrefEntry>, u: i32, m: Seq<char>, before: ActivePreferenceValue)
    ensures
        value_after(a + b, u, m, before) == value_after(b, u, m, value_after(a, u, m, before)),
    decreases b.len(),
{
    if b.len() == 0 {
        assert(a + b =~= a);
    } else {
        assert((a + b).drop_last() =~= a + b.drop_last());
        assert((a + b).last() == b.last());
        lemma_value_after_concat(a, b.drop_last(), u, m, before);
    }
}

/// The active preference of a stored preference, for a connected player.
pub fn to_active_pref(pref: Preference, players: &PlayersState) -> (res: Option<ActivePreference>)
    requires
        players.wf(),
    ensures
        match players.uid_of(pref.player_login@) {
            Some(u) => res matches Some(a) && a.player_uid == u && a.map_uid == pref.map_uid && a.value == active_value(pref.value),
            None => res is None,
        },
{
    match players.uid(pref.player_login.as_str()) {
        Some(id) => Some(ActivePreference {
            player_uid: *id,
            map_uid: pref.map_uid,
            value: match pref.value {
                PreferenceValue::Pick => ActivePreferenceValue::Pick,
                PreferenceValue::Veto => ActivePreferenceValue::Veto,
                PreferenceValue::Remove => ActivePreferenceValue::Remove,
            },
        }),
        None => None,
    }
}

/// The votes that count are those of playing players.
proof fn lemma_votes_of_playing(votes: Seq<i32>, playing: Seq<i32>, uid: i32)
    ensures
        votes_of_playing(votes, playing).contains(uid) == (votes.contains(uid) && playing.contains(uid)),
    decreases votes.len(),
{
    if votes.len() > 0 {
        lemma_votes_of_playing(votes.drop_last(), playing, uid);
        assert(votes =~= votes.drop_last().push(votes.last()));
        if votes.last() == uid {
            assert(votes.contains(uid));
        }
        if votes.drop_last().contains(uid) {
            let k = choose|k: int| 0 <= k < votes.drop_last().len() && votes.drop_last()[k] == uid;
            assert(votes[k] == uid);
        }
        if votes.contains(uid) && votes.last() != uid {
            let k = choose|k: int| 0 <= k < votes.len() && votes[k] == uid;
            assert(votes.drop_last()[k] == uid);
        }
        let rest = votes_of_playing(votes.drop_last(), playing);
        if playing.contains(votes.last()) {
            assert(rest.push(votes.last()).last() == votes.last());
            if rest.contains(uid) {
                let k = choose|k: int| 0 <= k < rest.len() && rest[k] == uid;
                assert(rest.push(votes.last())[k] == uid);
            }
            if rest.push(votes.last()).contains(uid) && votes.last() != uid {
                let k = choose|k: int| 0 <= k < rest.len() + 1 && rest.push(votes.last())[k] == uid;
                assert(rest[k] == uid);
            }
        }
    }
}

/// The players with an entry for the map, in the order of the entries.
pub open spec fn players_for_map(s: Seq<ActivePreference>, map: Seq<char>) -> Seq<i32>
    decreases s.len(),
{
    if s.len() == 0 {
        Seq::empty()
    } else if s.last().map_uid@ == map {
        players_for_map(s.drop_last(), map).push(s.last().player_uid)
    } else {
        players_for_map(s.drop_last(), map)
    }
}

/// The value stored for a player and a map, `Unset` without an entry.
pub open spec fn stored_value(s: Seq<ActivePreference>, uid: i32, map: Seq<char>) -> ActivePreferenceValue {
    match lookup_key(s, (uid, map)) {
        Some(p) => p.value,
        None => ActivePreferenceValue::Unset,
    }
}

proof fn lemma_values_are_lookups(s: Seq<ActivePreference>, map: Seq<char>)
    requires
        unique_keys(s),
    ensures
        values_for_map(s, map) == players_for_map(s, map).map_values(|u: i32| stored_value(s, u, map)),
        players_for_map(s, map).no_duplicates(),
        forall|u: i32| players_for_map(s, map).contains(u) <==> (exists|j: int| 0 <= j < s.len() && #[trigger] s[j].key_view() == (u, map)),
    decreases s.len(),
{
    if s.len() > 0 {
        let prev = s.drop_last();
        let x = s.last();
        assert forall|a: int, b: int| 0 <= a < b < prev.len() implies (#[trigger] prev[a]).key_view() != (#[trigger] prev[b]).key_view() by {
            assert(prev[a] == s[a] && prev[b] == s[b]);
        }
        lemma_values_are_lookups(prev, map);
        let pp = players_for_map(prev, map);
        // Entries of `prev` keep their looked-up values in `s`.
        assert forall|u: i32| #[trigger] pp.contains(u) implies stored_value(s, u, map) == stored_value(prev, u, map) by {
            let j = choose|j: int| 0 <= j < prev.len() && #[trigger] prev[j].key_view() == (u, map);
            assert(prev[j] == s[j]);
            lemma_lookup_key_at(prev, (u, map), j);
            lemma_lookup_key_at(s, (u, map), j);
        }
        let f = |u: i32| stored_value(s, u, map);
        let g = |u: i32| stored_value(prev, u, map);
        assert(pp.map_values(f) =~= pp.map_values(g)) by {
            assert forall|k: int| 0 <= k < pp.len() implies pp.map_values(f)[k] == pp.map_values(g)[k] by {
                assert(pp.contains(pp[k]));
            }
        }
        assert forall|u: i32| players_for_map(s, map).contains(u) <==> (exists|j: int| 0 <= j < s.len() && #[trigger] s[j].key_view() == (u, map)) by {
            if players_for_map(s, map).contains(u) {
                if pp.contains(u) {
                    let j = choose|j: int| 0 <= j < prev.len() && #[trigger] prev[j].key_view() == (u, map);
                    assert(s[j] == prev[j]);
                } else {
                    let k = choose|k: int| 0 <= k < players_for_map(s, map).len() && players_for_map(s, map)[k] == u;
                    if x.map_uid@ == map {
                        assert(players_for_map(s, map) == pp.push(x.player_uid));
                        if k < pp.len() {
                            assert(pp[k] == u);
                            assert(pp.contains(u));
                        }
                        assert(u == x.player_uid);
                        assert(s[s.len() - 1].key_view() == (u, map));
                    } else {
                        assert(players_for_map(s, map) == pp);
                        assert(pp[k] == u);
                    }
                }
            }
            if exists|j: int| 0 <= j < s.len() && #[trigger] s[j].key_view() == (u, map) {
                let j = choose|j: int| 0 <= j < s.len() && #[trigger] s[j].key_view() == (u, map);
                if j < prev.len() {
                    assert(prev[j] == s[j]);
                    assert(prev[j].key_view() == (u, map));
                    assert(pp.contains(u));
                    let k = choose|k: int| 0 <= k < pp.len() && pp[k] == u;
                    if x.map_uid@ == map {
                        assert(pp.push(x.player_uid)[k] == u);
                    }
                } else {
                    assert(s[j] == x);
                    assert(pp.push(x.player_uid)[pp.len() as int] == u);
                }
            }
        }
        if x.map_uid@ == map {
            let u = x.player_uid;
            assert(!pp.contains(u)) by {
                if pp.contains(u) {
                    let j = choose|j: int| 0 <= j < prev.len() && #[trigger] prev[j].key_view() == (u, map);
                    assert(s[j] == prev[j]);
                    assert(s[j].key_view() != s[s.len() - 1].key_view());
                }
            }
            lemma_lookup_key_at(s, (u, map), s.len() - 1);
            assert(values_for_map(s, map) =~= players_for_map(s, map).map_values(f));
        } else {
            assert(values_for_map(s, map) =~= players_for_map(s, map).map_values(f));
        }
    }
}

/// The preferences collected for a map are, entry by entry, those that a
/// lookup gives for each player with an entry for the map, each player once.
pub proof fn law_map_prefs_are_lookups(s: PreferencesState, map: Seq<char>)
    requires
        s.wf(),
    ensures
        values_for_map(s.preferences@, map) == players_for_map(s.preferences@, map).map_values(
            |u: i32| s.pref_value(u, map),
        ),
        players_for_map(s.preferences@, map).no_duplicates(),
        forall|u: i32| #[trigger] players_for_map(s.preferences@, map).contains(u) <==> lookup_key(s.preferences@, (u, map)) is Some,
{
    let t = s.preferences@;
    lemma_values_are_lookups(t, map);
    assert(players_for_map(t, map).map_values(|u: i32| s.pref_value(u, map)) =~= players_for_map(t, map).map_values(
        |u: i32| stored_value(t, u, map),
    ));
    assert forall|u: i32| #[trigger] players_for_map(t, map).contains(u) <==> lookup_key(t, (u, map)) is Some by {
        if exists|j: int| 0 <= j < t.len() && #[trigger] t[j].key_view() == (u, map) {
            let j = choose|j: int| 0 <= j < t.len() && #[trigger] t[j].key_view() == (u, map);
            lemma_lookup_key_at(t, (u, map), j);
        }
    }
}

/// A stated preference keeps its value when it becomes active: reading the
/// active value back as a stated one gives the same preference, and only
/// stated values (not `Unset` or `AutoPick`) read back at all.
pub proof fn law_active_value_keeps_preference(v: PreferenceValue, a: ActivePreferenceValue)
    ensures
        stated_value(active_value(v)) == Some(v),
        stated_value(a) matches Some(w) ==> active_value(w) == a,
        (a == ActivePreferenceValue::Unset || a == ActivePreferenceValue::AutoPick) ==> stated_value(a) is None,
{
}

/// A restart vote counts exactly while its player plays: once a player
/// voted for a restart, the poll holds them if and only if they play; once
/// they voted against, it does not hold them.
pub proof fn law_vote_counts_while_playing(votes: Seq<i32>, playing: Seq<i32>, uid: i32, vote: bool)
    requires
        votes.contains(uid) == vote,
    ensures
        votes_of_playing(votes, playing).contains(uid) == (vote && playing.contains(uid)),
{
    lemma_votes_of_playing(votes, playing, uid);
}

} // verus!
