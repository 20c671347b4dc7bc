//! Connected players: their information, and which slot each one occupies.

use std::collections::HashSet;

use vstd::prelude::*;

use crate::gbx::structs::{PlayerInfo, PlayerSlot, spec_has_joined, spec_is_player, spec_slot};
use crate::keyed::{
    get_id, get_login, lemma_lookup_at, lookup, lookup_login, remove_id, remove_login, set_insert, set_remove,
    unique_ids, unique_logins, upsert_id, upsert_login,
};

verus! {

/// How a player's presence changed.
#[derive(Debug)]
pub enum PlayerDiff {
    AddPlayer(PlayerInfo),
    AddSpectator(PlayerInfo),
    AddPureSpectator(PlayerInfo),
    MoveToPlayer(PlayerInfo),
    MoveToSpectator(PlayerInfo),
    MoveToPureSpectator(PlayerInfo),
    RemovePlayer(PlayerInfo),
    RemoveSpectator(PlayerInfo),
    RemovePureSpectator(PlayerInfo),
}

/// Connected players.
pub struct PlayersState {
    /// Cached player info for connected players, by UID; no UID occurs twice.
    pub uid_to_info: Vec<(i32, PlayerInfo)>,
    /// Maps player logins to their UIDs; no login occurs twice.
    pub login_to_uid: Vec<(String, i32)>,
    /// UIDs of players that are not spectating.
    pub playing: Vec<i32>,
    /// UIDs of players that are spectating, but have a player slot.
    pub spectating: Vec<i32>,
    /// UIDs of players that are spectating, and have *no* player slot.
    pub pure_spectating: Vec<i32>,
}

/// Inserts `uid` into `first`. If it was there, nothing changes and the result
/// is `None`; else it leaves `second`, or if it was not there, `third`, and
/// the result tells whether it left one of them.
fn move_into(first: &mut Vec<i32>, second: &mut Vec<i32>, third: &mut Vec<i32>, uid: i32) -> (res: Option<bool>)
    requires
        old(first)@.no_duplicates(),
        old(second)@.no_duplicates(),
        old(third)@.no_duplicates(),
    ensures
        final(first)@.no_duplicates(),
        final(second)@.no_duplicates(),
        final(third)@.no_duplicates(),
        old(first)@.contains(uid) ==> {
            &&& res is None
            &&& final(first)@ == old(first)@
            &&& final(second)@ == old(second)@
            &&& final(third)@ == old(third)@
        },
        !old(first)@.contains(uid) ==> {
            &&& res == Some(old(second)@.contains(uid) || old(third)@.contains(uid))
            &&& forall|y: i32| #[trigger] final(first)@.contains(y) == (y == uid || old(first)@.contains(y))
            &&& forall|y: i32| #[trigger] final(second)@.contains(y) == (y != uid && old(second)@.contains(y))
            &&& if old(second)@.contains(uid) {
                final(third)@ == old(third)@
            } else {
                forall|y: i32| #[trigger] final(third)@.contains(y) == (y != uid && old(third)@.contains(y))
            }
        },
{
    if !set_insert(first, uid) {
        return None;
    }
    if set_remove(second, uid) {
        Some(true)
    } else {
        Some(set_remove(third, uid))
    }
}

impl PlayersState {
    /// No UID or login occurs twice, and no UID twice in a set; each known
    /// login leads to the cached information of that login, and each UID to
    /// information of that UID.
    pub open spec fn wf(&self) -> bool {
        &&& unique_ids(self.uid_to_info@)
        &&& unique_logins(self.login_to_uid@)
        &&& self.playing@.no_duplicates()
        &&& self.spectating@.no_duplicates()
        &&& self.pure_spectating@.no_duplicates()
        &&& self.logins_linked()
        &&& self.slots_consistent()
        &&& forall|u: i32| #[trigger] self.info_of(u) matches Some(i) ==> i.uid == u
    }

    /// A UID is in one of the three sets exactly while its information is
    /// cached, and in no more than one.
    pub open spec fn slots_consistent(&self) -> bool {
        &&& forall|u: i32| #[trigger] self.info_of(u) is Some ==> self.playing@.contains(u)
            || self.spectating@.contains(u) || self.pure_spectating@.contains(u)
        &&& disjoint(self.playing@, self.spectating@)
        &&& disjoint(self.playing@, self.pure_spectating@)
        &&& disjoint(self.spectating@, self.pure_spectating@)
        &&& forall|u: i32| #[trigger] self.playing@.contains(u) ==> self.info_of(u) is Some
        &&& forall|u: i32| #[trigger] self.spectating@.contains(u) ==> self.info_of(u) is Some
        &&& forall|u: i32| #[trigger] self.pure_spectating@.contains(u) ==> self.info_of(u) is Some
    }

    /// The UID of each known login has cached information, of that login.
    pub open spec fn logins_linked(&self) -> bool {
        forall|l: Seq<char>| #[trigger] self.uid_of(l) is Some ==> (self.info_of(self.uid_of(l)->0) matches Some(i)
            && i.login@ == l)
    }

    /// The UID of a connected login.
    pub open spec fn uid_of(&self, login: Seq<char>) -> Option<i32> {
        lookup_login(self.login_to_uid@, login)
    }

    /// The information of a connected UID.
    pub open spec fn info_of(&self, uid: i32) -> Option<PlayerInfo> {
        lookup(self.uid_to_info@, uid)
    }

    /// The state without players.
    pub fn init() -> (res: Self)
        ensures
            res.wf(),
            res.uid_to_info@.len() == 0,
            res.login_to_uid@.len() == 0,
            res.playing@.len() == 0,
            res.spectating@.len() == 0,
            res.pure_spectating@.len() == 0,
    {
        PlayersState {
            uid_to_info: Vec::new(),
            login_to_uid: Vec::new(),
            playing: Vec::new(),
            spectating: Vec::new(),
            pure_spectating: Vec::new(),
        }
    }

    /// Return the UID of the player with the given login,
    /// or `None` if no such player is connected.
    pub fn uid(&self, login: &str) -> (res: Option<&i32>)
        requires
            self.wf(),
        ensures
            match res {
                Some(u) => self.uid_of(login@) == Some(*u),
                None => self.uid_of(login@) is None,
            },
    {
        get_login(&self.login_to_uid, login)
    }

    /// Return the UIDs for all connected players.
    pub fn uid_all(&self) -> (res: HashSet<i32>)
        ensures
            res@ == self.playing@.to_set() + self.spectating@.to_set() + self.pure_spectating@.to_set(),
    {
        broadcast use vstd::std_specs::hash::group_hash_axioms;
        broadcast use vstd::seq_lib::group_seq_properties;

        let mut res: HashSet<i32> = HashSet::new();
        let mut i: usize = 0;
        while i < self.playing.len()
            invariant
                i <= self.playing@.len(),
                res@ == self.playing@.take(i as int).to_set(),
            decreases self.playing@.len() - i,
        {
            proof {
                assert(self.playing@.take(i + 1) =~= self.playing@.take(i as int).push(self.playing@[i as int]));
                self.playing@.take(i as int).lemma_push_to_set_commute(self.playing@[i as int]);
            }
            res.insert(self.playing[i]);
            i = i + 1;
        }
        assert(self.playing@.take(self.playing@.len() as int) =~= self.playing@);
        let ghost base = res@;
        let mut i: usize = 0;
        while i < self.spectating.len()
            invariant
                i <= self.spectating@.len(),
                res@ == base + self.spectating@.take(i as int).to_set(),
            decreases self.spectating@.len() - i,
        {
            proof {
                assert(self.spectating@.take(i + 1) =~= self.spectating@.take(i as int).push(self.spectating@[i as int]));
                self.spectating@.take(i as int).lemma_push_to_set_commute(self.spectating@[i as int]);
            }
            res.insert(self.spectating[i]);
            assert(res@ =~= base + self.spectating@.take(i + 1).to_set());
            i = i + 1;
        }
        assert(self.spectating@.take(self.spectating@.len() as int) =~= self.spectating@);
        let ghost base2 = res@;
        let mut i: usize = 0;
        while i < self.pure_spectating.len()
            invariant
                i <= self.pure_spectating@.len(),
                res@ == base2 + self.pure_spectating@.take(i as int).to_set(),
            decreases self.pure_spectating@.len() - i,
        {
            proof {
                assert(self.pure_spectating@.take(i + 1) =~= self.pure_spectating@.take(i as int).push(
                    self.pure_spectating@[i as int],
                ));
                self.pure_spectating@.take(i as int).lemma_push_to_set_commute(self.pure_spectating@[i as int]);
            }
            res.insert(self.pure_spectating[i]);
            assert(res@ =~= base2 + self.pure_spectating@.take(i + 1).to_set());
            i = i + 1;
        }
        assert(self.pure_spectating@.take(self.pure_spectating@.len() as int) =~= self.pure_spectating@);
        res
    }

    /// Return detailed information for the given login.
    pub fn info(&self, login: &str) -> (res: Option<&PlayerInfo>)
        requires
            self.wf(),
        ensures
            match res {
                Some(i) => self.uid_of(login@) matches Some(u) && self.info_of(u) == Some(*i) && i.login@ == login@,
                None => match self.uid_of(login@) {
                    Some(u) => self.info_of(u) is None,
                    None => true,
                },
            },
    {
        match get_login(&self.login_to_uid, login) {
            Some(u) => get_id(&self.uid_to_info, *u),
            None => None,
        }
    }

    /// Return detailed information for the given UID.
    pub fn uid_info(&self, player_uid: i32) -> (res: Option<&PlayerInfo>)
        requires
            self.wf(),
        ensures
            match res {
                Some(i) => self.info_of(player_uid) == Some(*i),
                None => self.info_of(player_uid) is None,
            },
    {
        get_id(&self.uid_to_info, player_uid)
    }

    /// Return information for all connected players and spectators.
    pub fn info_all(&self) -> (res: Vec<&PlayerInfo>)
        ensures
            res@.len() == self.uid_to_info@.len(),
            forall|i: int| 0 <= i < res@.len() ==> #[trigger] res@[i] == &self.uid_to_info@[i].1,
    {
        let mut res: Vec<&PlayerInfo> = Vec::new();
        let mut i: usize = 0;
        while i < self.uid_to_info.len()
            invariant
                i <= self.uid_to_info@.len(),
                res@.len() == i,
                forall|j: int| 0 <= j < i ==> #[trigger] res@[j] == &self.uid_to_info@[j].1,
            decreases self.uid_to_info@.len() - i,
        {
            res.push(&self.uid_to_info[i].1);
            i = i + 1;
        }
        res
    }

    /// Return information for all connected players that are not spectating,
    /// in the order of `info_all`.
    pub fn info_playing(&self) -> (res: Vec<&PlayerInfo>)
        ensures
            res@.map_values(|r: &PlayerInfo| *r) == playing_infos(self.uid_to_info@, self.playing@),
    {
        let mut res: Vec<&PlayerInfo> = Vec::new();
        let mut i: usize = 0;
        while i < self.uid_to_info.len()
            invariant
                i <= self.uid_to_info@.len(),
                res@.map_values(|r: &PlayerInfo| *r) == playing_infos(self.uid_to_info@.take(i as int), self.playing@),
            decreases self.uid_to_info@.len() - i,
        {
            let info = &self.uid_to_info[i].1;
            proof {
                assert(self.uid_to_info@.take(i + 1).drop_last() =~= self.uid_to_info@.take(i as int));
            }
            let mut k: usize = 0;
            let mut found = false;
            while k < self.playing.len()
                invariant
                    k <= self.playing@.len(),
                    found == exists|j: int| 0 <= j < k && self.playing@[j] == info.uid,
                decreases self.playing@.len() - k,
            {
                if self.playing[k] == info.uid {
                    found = true;
                }
                k = k + 1;
            }
            let ghost before = res@;
            if found {
                res.push(info);
                assert(res@.map_values(|r: &PlayerInfo| *r) =~= before.map_values(|r: &PlayerInfo| *r).push(*info));
            }
            i = i + 1;
        }
        assert(self.uid_to_info@.take(self.uid_to_info@.len() as int) =~= self.uid_to_info@);
        res
    }

    /// Return the login of the player with the given UID, or `None` if no
    /// player with that UID is connected.
    pub fn login(&self, player_uid: i32) -> (res: Option<&str>)
        requires
            self.wf(),
        ensures
            match res {
                Some(l) => self.info_of(player_uid) matches Some(i) && i.login@ == l@,
                None => self.info_of(player_uid) is None,
            },
    {
        match get_id(&self.uid_to_info, player_uid) {
            Some(info) => Some(info.login.as_str()),
            None => None,
        }
    }

    /// Whether the UID belongs to a connected player, whose information is cached.
    pub fn is_connected(&self, player_uid: i32) -> (res: bool)
        requires
            self.wf(),
        ensures
            res == self.info_of(player_uid) is Some,
    {
        get_id(&self.uid_to_info, player_uid).is_some()
    }

    /// Update a player's information: a login that does not belong to a player
    /// changes nothing, a player who left is removed, and a player who joined
    /// or changed slot is moved into the set of their slot. The information
    /// is cached when the UID connects, and kept as it was then.
    pub fn update_player(&mut self, info: PlayerInfo) -> (res: Option<PlayerDiff>)
        requires
            old(self).wf(),
        ensures
            final(self).wf(),
            !spec_is_player(info) ==> res is None && same_players(*final(self), *old(self)),
            spec_is_player(info) && !spec_has_joined(info) ==> removed(*old(self), *final(self), info.login@, res),
            spec_is_player(info) && spec_has_joined(info) ==> joined(*old(self), *final(self), info, res),
    {
        if !info.is_player() {
            return None;
        }
        if !info.has_joined() {
            return self.remove_player(info.login.as_str());
        }
        let uid = info.uid;
        let ghost info_g = info;
        if !self.is_connected(uid) {
            upsert_login(&mut self.login_to_uid, info.login.clone(), uid);
            upsert_id(&mut self.uid_to_info, uid, info.duplicate());
        }
        assert forall|u: i32| #[trigger] self.info_of(u) == if u == info_g.uid && old(self).info_of(u) is None {
            Some(info_g)
        } else {
            old(self).info_of(u)
        } by {}
        assert forall|l: Seq<char>| #[trigger] self.uid_of(l) == if l == info_g.login@ && old(self).info_of(info_g.uid) is None {
            Some(info_g.uid)
        } else {
            old(self).uid_of(l)
        } by {}
        assert forall|l: Seq<char>| #[trigger] self.uid_of(l) is Some implies (self.info_of(self.uid_of(l)->0) matches Some(i)
            && i.login@ == l) by {
            if !(l == info_g.login@ && old(self).info_of(info_g.uid) is None) {
                let u = old(self).uid_of(l)->0;
                assert(old(self).uid_of(l) == Some(u));
                assert(old(self).info_of(u) is Some);
            }
        }
        let ghost mid = *self;
        let res = match info.slot() {
            PlayerSlot::NoSlot => None,
            PlayerSlot::Player => match move_into(&mut self.playing, &mut self.spectating, &mut self.pure_spectating, uid) {
                None => None,
                Some(true) => Some(PlayerDiff::MoveToPlayer(info)),
                Some(false) => Some(PlayerDiff::AddPlayer(info)),
            },
            PlayerSlot::PlayerSpectator => match move_into(&mut self.spectating, &mut self.playing, &mut self.pure_spectating, uid) {
                None => None,
                Some(true) => Some(PlayerDiff::MoveToSpectator(info)),
                Some(false) => Some(PlayerDiff::AddSpectator(info)),
            },
            PlayerSlot::PureSpectator => match move_into(&mut self.pure_spectating, &mut self.playing, &mut self.spectating, uid) {
                None => None,
                Some(true) => Some(PlayerDiff::MoveToPureSpectator(info)),
                Some(false) => Some(PlayerDiff::AddPureSpectator(info)),
            },
        };
        proof {
            lemma_linked_same_tables(mid, *self);
            assert(spec_slot(info_g) != PlayerSlot::NoSlot);
            assert forall|u: i32| #[trigger] self.info_of(u) is Some implies self.playing@.contains(u)
                || self.spectating@.contains(u) || self.pure_spectating@.contains(u) by {
                assert(mid.info_of(u) == self.info_of(u));
                if u != uid {
                    assert(old(self).info_of(u) is Some);
                    assert(old(self).playing@.contains(u) || old(self).spectating@.contains(u)
                        || old(self).pure_spectating@.contains(u));
                    assert(self.playing@.contains(u) == mid.playing@.contains(u));
                    assert(self.spectating@.contains(u) == mid.spectating@.contains(u));
                    assert(self.pure_spectating@.contains(u) == mid.pure_spectating@.contains(u));
                }
            }
        }
        res
    }

    /// Remove a player's information: the login and its UID are forgotten, and
    /// the UID leaves the set it was in, which the result names.
    pub fn remove_player(&mut self, login: &str) -> (res: Option<PlayerDiff>)
        requires
            old(self).wf(),
        ensures
            final(self).wf(),
            removed(*old(self), *final(self), login@, res),
    {
        let uid = match remove_login(&mut self.login_to_uid, login) {
            Some(uid) => uid,
            None => {
                proof {
                    lemma_linked_same_tables(*old(self), *self);
                    assert forall|u: i32| #[trigger] self.info_of(u) is Some implies self.playing@.contains(u)
                        || self.spectating@.contains(u) || self.pure_spectating@.contains(u) by {
                        assert(old(self).info_of(u) == self.info_of(u));
                    }
                }
                return None;
            },
        };
        proof {
            assert(old(self).uid_of(login@) == Some(uid));
            assert(old(self).info_of(uid) is Some);
        }
        let info = match remove_id(&mut self.uid_to_info, uid) {
            Some(info) => info,
            None => return None,
        };
        proof {
            assert forall|l: Seq<char>| #[trigger] self.uid_of(l) is Some implies (self.info_of(self.uid_of(l)->0) matches Some(
                i,
            ) && i.login@ == l) by {
                let u = self.uid_of(l)->0;
                assert(old(self).uid_of(l) == Some(u));
                if u == uid {
                    assert(old(self).info_of(uid)->0.login@ == login@);
                }
            }
        }
        let ghost mid = *self;
        let res = if set_remove(&mut self.playing, uid) {
            Some(PlayerDiff::RemovePlayer(info))
        } else if set_remove(&mut self.spectating, uid) {
            Some(PlayerDiff::RemoveSpectator(info))
        } else if set_remove(&mut self.pure_spectating, uid) {
            Some(PlayerDiff::RemovePureSpectator(info))
        } else {
            None
        };
        proof {
            lemma_linked_same_tables(mid, *self);
            assert forall|u: i32| #[trigger] self.info_of(u) is Some implies self.playing@.contains(u)
                || self.spectating@.contains(u) || self.pure_spectating@.contains(u) by {
                assert(mid.info_of(u) == self.info_of(u));
                assert(u != uid);
                assert(old(self).info_of(u) is Some);
                assert(old(self).playing@.contains(u) || old(self).spectating@.contains(u)
                    || old(self).pure_spectating@.contains(u));
                assert(mid.playing@ == old(self).playing@);
                assert(self.playing@.contains(u) == mid.playing@.contains(u));
                assert(self.spectating@.contains(u) == mid.spectating@.contains(u));
                assert(self.pure_spectating@.contains(u) == mid.pure_spectating@.contains(u));
            }
        }
        res
    }
}

/// No UID is in both sets.
pub open spec fn disjoint(a: Seq<i32>, b: Seq<i32>) -> bool {
    forall|y: i32| #[trigger] a.contains(y) ==> !b.contains(y)
}

/// The link of logins to information rests on the two tables alone.
proof fn lemma_linked_same_tables(a: PlayersState, b: PlayersState)
    requires
        a.logins_linked(),
        a.login_to_uid@ == b.login_to_uid@,
        a.uid_to_info@ == b.uid_to_info@,
    ensures
        b.logins_linked(),
{
    assert forall|l: Seq<char>| #[trigger] b.uid_of(l) is Some implies (b.info_of(b.uid_of(l)->0) matches Some(i)
        && i.login@ == l) by {
        assert(a.uid_of(l) == b.uid_of(l));
        assert(a.info_of(a.uid_of(l)->0) == b.info_of(b.uid_of(l)->0));
    }
}

/// The information of the UIDs in `playing`, in the order of `infos`.
pub open spec fn playing_infos(infos: Seq<(i32, PlayerInfo)>, playing: Seq<i32>) -> Seq<PlayerInfo>
    decreases infos.len(),
{
    if infos.len() == 0 {
        Seq::empty()
    } else {
        let rest = playing_infos(infos.drop_last(), playing);
        if playing.contains(infos.last().1.uid) {
            rest.push(infos.last().1)
        } else {
            rest
        }
    }
}

/// `uid` was moved into `first` from `second` or, if not there, `third`;
/// nothing changed if it was in `first` already.
pub open spec fn slot_moved(
    first: Seq<i32>,
    second: Seq<i32>,
    third: Seq<i32>,
    first2: Seq<i32>,
    second2: Seq<i32>,
    third2: Seq<i32>,
    uid: i32,
) -> bool {
    if first.contains(uid) {
        first2 == first && second2 == second && third2 == third
    } else {
        &&& forall|y: i32| #[trigger] first2.contains(y) == (y == uid || first.contains(y))
        &&& forall|y: i32| #[trigger] second2.contains(y) == (y != uid && second.contains(y))
        &&& if second.contains(uid) {
            third2 == third
        } else {
            forall|y: i32| #[trigger] third2.contains(y) == (y != uid && third.contains(y))
        }
    }
}

/// The diff of a move into `first`: none if `uid` was there already, a move if
/// it came from another set, an addition otherwise.
pub open spec fn slot_diff(first: Seq<i32>, second: Seq<i32>, third: Seq<i32>, uid: i32, moved: PlayerDiff, added: PlayerDiff) -> Option<PlayerDiff> {
    if first.contains(uid) {
        None
    } else if second.contains(uid) || third.contains(uid) {
        Some(moved)
    } else {
        Some(added)
    }
}

/// `after` is `before` once the player of `info` joined or changed slot:
/// a new UID is cached with `info` and its login, and the UID moves into
/// the set of its slot, which `res` names.
pub open spec fn joined(before: PlayersState, after: PlayersState, info: PlayerInfo, res: Option<PlayerDiff>) -> bool {
    &&& forall|u: i32| #[trigger] after.info_of(u) == if u == info.uid && before.info_of(u) is None {
        Some(info)
    } else {
        before.info_of(u)
    }
    &&& forall|l: Seq<char>| #[trigger] after.uid_of(l) == if l == info.login@ && before.info_of(info.uid) is None {
        Some(info.uid)
    } else {
        before.uid_of(l)
    }
    &&& match spec_slot(info) {
        PlayerSlot::Player => slot_moved(before.playing@, before.spectating@, before.pure_spectating@,
            after.playing@, after.spectating@, after.pure_spectating@, info.uid)
            && res == slot_diff(before.playing@, before.spectating@, before.pure_spectating@, info.uid,
                PlayerDiff::MoveToPlayer(info), PlayerDiff::AddPlayer(info)),
        PlayerSlot::PlayerSpectator => slot_moved(before.spectating@, before.playing@, before.pure_spectating@,
            after.spectating@, after.playing@, after.pure_spectating@, info.uid)
            && res == slot_diff(before.spectating@, before.playing@, before.pure_spectating@, info.uid,
                PlayerDiff::MoveToSpectator(info), PlayerDiff::AddSpectator(info)),
        PlayerSlot::PureSpectator => slot_moved(before.pure_spectating@, before.playing@, before.spectating@,
            after.pure_spectating@, after.playing@, after.spectating@, info.uid)
            && res == slot_diff(before.pure_spectating@, before.playing@, before.spectating@, info.uid,
                PlayerDiff::MoveToPureSpectator(info), PlayerDiff::AddPureSpectator(info)),
        PlayerSlot::NoSlot => res is None && after.playing@ == before.playing@
            && after.spectating@ == before.spectating@ && after.pure_spectating@ == before.pure_spectating@,
    }
}

/// The two states hold the same players in the same order.
pub open spec fn same_players(a: PlayersState, b: PlayersState) -> bool {
    &&& a.uid_to_info@ == b.uid_to_info@
    &&& a.login_to_uid@ == b.login_to_uid@
    &&& a.playing@ == b.playing@
    &&& a.spectating@ == b.spectating@
    &&& a.pure_spectating@ == b.pure_spectating@
}

/// `after` is `before` without the player of `login`, and `res` names the
/// set that their UID left.
pub open spec fn removed(before: PlayersState, after: PlayersState, login: Seq<char>, res: Option<PlayerDiff>) -> bool {
    match before.uid_of(login) {
        None => res is None && same_players(after, before),
        Some(uid) => {
            &&& forall|l: Seq<char>| #[trigger] after.uid_of(l) == if l == login { None } else { before.uid_of(l) }
            &&& match before.info_of(uid) {
                None => {
                    &&& res is None
                    &&& after.uid_to_info@ == before.uid_to_info@
                    &&& after.playing@ == before.playing@
                    &&& after.spectating@ == before.spectating@
                    &&& after.pure_spectating@ == before.pure_spectating@
                },
                Some(info) => {
                    &&& forall|u: i32| #[trigger] after.info_of(u) == if u == uid { None } else { before.info_of(u) }
                    &&& if before.playing@.contains(uid) {
                        &&& res == Some(PlayerDiff::RemovePlayer(info))
                        &&& forall|y: i32| #[trigger] after.playing@.contains(y) == (y != uid && before.playing@.contains(y))
                        &&& after.spectating@ == before.spectating@
                        &&& after.pure_spectating@ == before.pure_spectating@
                    } else if before.spectating@.contains(uid) {
                        &&& res == Some(PlayerDiff::RemoveSpectator(info))
                        &&& after.playing@ == before.playing@
                        &&& forall|y: i32| #[trigger] after.spectating@.contains(y) == (y != uid && before.spectating@.contains(y))
                        &&& after.pure_spectating@ == before.pure_spectating@
                    } else if before.pure_spectating@.contains(uid) {
                        &&& res == Some(PlayerDiff::RemovePureSpectator(info))
                        &&& after.playing@ == before.playing@
                        &&& after.spectating@ == before.spectating@
                        &&& forall|y: i32| #[trigger] after.pure_spectating@.contains(y) == (y != uid && before.pure_spectating@.contains(y))
                    } else {
                        &&& res is None
                        &&& after.playing@ == before.playing@
                        &&& after.spectating@ == before.spectating@
                        &&& after.pure_spectating@ == before.pure_spectating@
                    }
                },
            }
        },
    }
}

/// A player who joins is connected afterwards, found by their login when
/// they are new, and in the set of their slot; a new player is reported as
/// added. Updating again with the same information reports nothing and
/// changes no player.
pub proof fn law_join_settles(
    s0: PlayersState,
    s1: PlayersState,
    s2: PlayersState,
    info: PlayerInfo,
    r1: Option<PlayerDiff>,
    r2: Option<PlayerDiff>,
)
    requires
        s0.wf(),
        spec_is_player(info),
        spec_has_joined(info),
        joined(s0, s1, info, r1),
        joined(s1, s2, info, r2),
    ensures
        s1.info_of(info.uid) is Some,
        s0.info_of(info.uid) is None ==> s1.info_of(info.uid) == Some(info) && s1.uid_of(info.login@) == Some(info.uid),
        spec_slot(info) == PlayerSlot::Player ==> s1.playing@.contains(info.uid) && (s0.info_of(info.uid) is None
            ==> r1 == Some(PlayerDiff::AddPlayer(info))),
        spec_slot(info) == PlayerSlot::PlayerSpectator ==> s1.spectating@.contains(info.uid) && (s0.info_of(info.uid) is None
            ==> r1 == Some(PlayerDiff::AddSpectator(info))),
        spec_slot(info) == PlayerSlot::PureSpectator ==> s1.pure_spectating@.contains(info.uid) && (s0.info_of(info.uid) is None
            ==> r1 == Some(PlayerDiff::AddPureSpectator(info))),
        r2 is None,
        forall|u: i32| #[trigger] s2.info_of(u) == s1.info_of(u),
        forall|l: Seq<char>| #[trigger] s2.uid_of(l) == s1.uid_of(l),
        s2.playing@ == s1.playing@,
        s2.spectating@ == s1.spectating@,
        s2.pure_spectating@ == s1.pure_spectating@,
{
    let uid = info.uid;
    assert(s1.info_of(uid) == if s0.info_of(uid) is None { Some(info) } else { s0.info_of(uid) });
    assert(s1.uid_of(info.login@) == if s0.info_of(uid) is None { Some(uid) } else { s0.uid_of(info.login@) });
    if s0.info_of(uid) is None {
        assert(!s0.playing@.contains(uid));
        assert(!s0.spectating@.contains(uid));
        assert(!s0.pure_spectating@.contains(uid));
    }
    assert forall|u: i32| #[trigger] s2.info_of(u) == s1.info_of(u) by {}
    assert forall|l: Seq<char>| #[trigger] s2.uid_of(l) == s1.uid_of(l) by {}
}

/// The lookups by login and by UID agree: a connected login leads to a UID
/// whose information is cached and names that login, and every UID in one
/// of the three sets has cached information.
pub proof fn law_lookups_agree(s: PlayersState, login: Seq<char>, uid: i32)
    requires
        s.wf(),
    ensures
        s.uid_of(login) matches Some(u) ==> (s.info_of(u) matches Some(i) && i.login@ == login),
        (s.playing@.contains(uid) || s.spectating@.contains(uid) || s.pure_spectating@.contains(uid)) ==> s.info_of(uid) is Some,
{
}

/// The UIDs of the cached information, in the order of `info_all`.
pub open spec fn info_uids(infos: Seq<(i32, PlayerInfo)>) -> Seq<i32> {
    infos.map_values(|e: (i32, PlayerInfo)| e.1.uid)
}

/// Every connected player or spectator is counted exactly once: a UID is in
/// one of the three sets exactly when its information is cached, and in no
/// more than one; the UIDs of the three sets together (`uid_all`) are those of
/// the cached information (`info_all`), of which there are as many as entries.
pub proof fn law_each_player_counted_once(s: PlayersState, u: i32)
    requires
        s.wf(),
    ensures
        (s.info_of(u) is Some) == (s.playing@.contains(u) || s.spectating@.contains(u)
            || s.pure_spectating@.contains(u)),
        !(s.playing@.contains(u) && s.spectating@.contains(u)),
        !(s.playing@.contains(u) && s.pure_spectating@.contains(u)),
        !(s.spectating@.contains(u) && s.pure_spectating@.contains(u)),
        s.playing@.to_set() + s.spectating@.to_set() + s.pure_spectating@.to_set() == info_uids(
            s.uid_to_info@,
        ).to_set(),
        info_uids(s.uid_to_info@).to_set().len() == s.uid_to_info@.len(),
{
    let t = s.uid_to_info@;
    let ids = info_uids(t);
    // Each entry holds the information of its own key.
    assert forall|j: int| 0 <= j < t.len() implies #[trigger] ids[j] == t[j].0 by {
        lemma_lookup_at(t, t[j].0, j);
        assert(s.info_of(t[j].0) == Some(t[j].1));
    }
    let all = s.playing@.to_set() + s.spectating@.to_set() + s.pure_spectating@.to_set();
    assert forall|v: i32| #[trigger] all.contains(v) == ids.to_set().contains(v) by {
        if all.contains(v) {
            assert(s.info_of(v) is Some);
            let j = choose|j: int| 0 <= j < t.len() && t[j].0 == v;
            assert(ids[j] == v);
        }
        if ids.to_set().contains(v) {
            let j = choose|j: int| 0 <= j < ids.len() && ids[j] == v;
            assert(ids[j] == t[j].0);
            lemma_lookup_at(t, v, j);
            assert(s.info_of(v) is Some);
        }
    }
    assert(all =~= ids.to_set());
    assert forall|a: int, b: int| 0 <= a < ids.len() && 0 <= b < ids.len() && a != b implies ids[a] != ids[b] by {
        assert(ids[a] == t[a].0 && ids[b] == t[b].0);
        if a < b {
            assert(t[a].0 != t[b].0);
        } else {
            assert(t[b].0 != t[a].0);
        }
    }
    ids.unique_seq_to_set();
}

/// A player's set follows their last update: after a joined player's update,
/// their UID is in the set of their slot and in neither of the other two,
/// and every other UID stays in the sets it was in. After a removal, the UID
/// of the login is in no set, and every other UID stays where it was.
pub proof fn law_slot_follows_last_update(
    s0: PlayersState,
    s1: PlayersState,
    info: PlayerInfo,
    res: Option<PlayerDiff>,
    v: i32,
)
    requires
        s0.wf(),
        s1.wf(),
        spec_is_player(info),
        spec_has_joined(info),
        joined(s0, s1, info, res),
    ensures
        s1.playing@.contains(info.uid) == (spec_slot(info) == PlayerSlot::Player),
        s1.spectating@.contains(info.uid) == (spec_slot(info) == PlayerSlot::PlayerSpectator),
        s1.pure_spectating@.contains(info.uid) == (spec_slot(info) == PlayerSlot::PureSpectator),
        v != info.uid ==> {
            &&& s1.playing@.contains(v) == s0.playing@.contains(v)
            &&& s1.spectating@.contains(v) == s0.spectating@.contains(v)
            &&& s1.pure_spectating@.contains(v) == s0.pure_spectating@.contains(v)
        },
{
    let u = info.uid;
    assert(s1.info_of(u) is Some);
    match spec_slot(info) {
        PlayerSlot::Player => {
            assert(s1.playing@.contains(u));
        },
        PlayerSlot::PlayerSpectator => {
            assert(s1.spectating@.contains(u));
        },
        PlayerSlot::PureSpectator => {
            assert(s1.pure_spectating@.contains(u));
        },
        PlayerSlot::NoSlot => {},
    }
}

/// After a removal, the UID that the login had is in no set and has no
/// cached information, and every other UID stays in the sets it was in.
pub proof fn law_removed_player_leaves_every_set(
    s0: PlayersState,
    s1: PlayersState,
    login: Seq<char>,
    res: Option<PlayerDiff>,
    v: i32,
)
    requires
        s0.wf(),
        s1.wf(),
        removed(s0, s1, login, res),
    ensures
        s0.uid_of(login) matches Some(u) ==> {
            &&& s1.info_of(u) is None
            &&& !s1.playing@.contains(u)
            &&& !s1.spectating@.contains(u)
            &&& !s1.pure_spectating@.contains(u)
        },
        s1.uid_of(login) is None,
        (s0.uid_of(login) matches Some(u) && v != u) || s0.uid_of(login) is None ==> {
            &&& s1.playing@.contains(v) == s0.playing@.contains(v)
            &&& s1.spectating@.contains(v) == s0.spectating@.contains(v)
            &&& s1.pure_spectating@.contains(v) == s0.pure_spectating@.contains(v)
        },
{
    if let Some(u) = s0.uid_of(login) {
        assert(s0.info_of(u) is Some);
        assert(s1.info_of(u) is None);
    }
}

} // verus!
