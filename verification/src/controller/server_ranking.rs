//! The server ranking between races, and what changed for connected players
//! when it is computed anew.

use vstd::prelude::*;

use crate::controller::player::PlayersState;
use crate::controller::server_rank::{MAX_DISPLAYED_SERVER_RANKS, ServerRank};
use crate::gbx::structs::{DisplayString, PlayerInfo};

verus! {

/// The server ranks, sorted from best to worst, one for each login.
pub struct ServerRankingState {
    pub all_ranks: Vec<ServerRank>,
}

/// How the server rank of a connected player changed.
pub struct ServerRankDiff {
    pub player_display_name: DisplayString,
    /// The new position in the ranking.
    pub new_pos: usize,
    /// The old position minus the new one; for a first rank, the number of
    /// ranks minus the new position.
    pub gained_pos: i32,
    /// The old number of wins minus the new one; for a first rank, the
    /// number of wins.
    pub gained_wins: i32,
}

/// The changed server ranks of connected players, by player UID.
pub struct ServerRankingDiff {
    pub diffs: Vec<(i32, ServerRankDiff)>,
    /// The number of ranked players.
    pub max_pos: usize,
}

/// The first rank of this login, if any.
pub open spec fn find_rank(ranks: Seq<ServerRank>, login: Seq<char>) -> Option<ServerRank>
    decreases ranks.len(),
{
    if ranks.len() == 0 {
        None
    } else if ranks[0].player_login@ == login {
        Some(ranks[0])
    } else {
        find_rank(ranks.skip(1), login)
    }
}

/// Whether an old rank of this login is kept to compare with: it was ranked,
/// and is connected.
pub open spec fn kept(old: Seq<ServerRank>, players: PlayersState, login: Seq<char>) -> bool {
    find_rank(old, login) is Some && players.uid_of(login) is Some
}

/// The change from an old rank to a new one.
pub open spec fn changed(old: ServerRank, new: ServerRank) -> ServerRankDiff {
    ServerRankDiff {
        player_display_name: old.player_display_name,
        new_pos: new.pos,
        gained_pos: (old.pos - new.pos) as i32,
        gained_wins: (old.nb_wins - new.nb_wins) as i32,
    }
}

/// The change to a first rank, out of this many.
pub open spec fn first(new: ServerRank, nb_ranks: nat) -> ServerRankDiff {
    ServerRankDiff {
        player_display_name: new.player_display_name,
        new_pos: new.pos,
        gained_pos: (nb_ranks - new.pos) as i32,
        gained_wins: new.nb_wins as i32,
    }
}

/// The changes of the old ranks of connected players, in the order of the
/// old ranking.
pub open spec fn old_diffs(old: Seq<ServerRank>, new: Seq<ServerRank>, players: PlayersState) -> Seq<
    (i32, ServerRankDiff),
>
    decreases old.len(),
{
    if old.len() == 0 {
        Seq::empty()
    } else {
        let rest = old_diffs(old.drop_last(), new, players);
        let r = old.last();
        match players.uid_of(r.player_login@) {
            None => rest,
            Some(uid) => rest.push((uid, changed(r, find_rank(new, r.player_login@).unwrap()))),
        }
    }
}

/// The first ranks of connected players that had none, or were not
/// connected, in the order of the connected players.
pub open spec fn first_diffs(
    infos: Seq<(i32, PlayerInfo)>,
    old: Seq<ServerRank>,
    new: Seq<ServerRank>,
    players: PlayersState,
) -> Seq<(i32, ServerRankDiff)>
    decreases infos.len(),
{
    if infos.len() == 0 {
        Seq::empty()
    } else {
        let rest = first_diffs(infos.drop_last(), old, new, players);
        let info = infos.last().1;
        if kept(old, players, info.login@) {
            rest
        } else {
            match find_rank(new, info.login@) {
                None => rest,
                Some(nr) => rest.push((info.uid, first(nr, new.len()))),
            }
        }
    }
}

/// Whether positions, wins and the number of ranks fit in an `i32`.
pub open spec fn small_ranks(ranks: Seq<ServerRank>) -> bool {
    &&& ranks.len() <= i32::MAX
    &&& forall|i: int| 0 <= i < ranks.len() ==> (#[trigger] ranks[i]).pos <= i32::MAX && ranks[i].nb_wins <= i32::MAX
}

proof fn lemma_find_rank_at(ranks: Seq<ServerRank>, login: Seq<char>, k: int)
    requires
        0 <= k < ranks.len(),
        ranks[k].player_login@ == login,
        forall|j: int| 0 <= j < k ==> (#[trigger] ranks[j]).player_login@ != login,
    ensures
        find_rank(ranks, login) == Some(ranks[k]),
    decreases k,
{
    if k > 0 {
        lemma_find_rank_at(ranks.skip(1), login, k - 1);
    }
}

proof fn lemma_find_rank_none(ranks: Seq<ServerRank>, login: Seq<char>)
    requires
        forall|j: int| 0 <= j < ranks.len() ==> (#[trigger] ranks[j]).player_login@ != login,
    ensures
        find_rank(ranks, login) is None,
    decreases ranks.len(),
{
    if ranks.len() > 0 {
        lemma_find_rank_none(ranks.skip(1), login);
    }
}

/// The rank of this login, found from the front.
fn position_of(ranks: &Vec<ServerRank>, login: &str) -> (res: Option<usize>)
    ensures
        match res {
            Some(k) => k < ranks@.len() && find_rank(ranks@, login@) == Some(ranks@[k as int]),
            None => find_rank(ranks@, login@) is None,
        },
{
    let mut k: usize = 0;
    while k < ranks.len()
        invariant
            k <= ranks@.len(),
            forall|j: int| 0 <= j < k ==> (#[trigger] ranks@[j]).player_login@ != login@,
        decreases ranks@.len() - k,
    {
        if crate::text::str_eq(ranks[k].player_login.as_str(), login) {
            proof {
                lemma_find_rank_at(ranks@, login@, k as int);
            }
            return Some(k);
        }
        k = k + 1;
    }
    proof {
        lemma_find_rank_none(ranks@, login@);
    }
    None
}

impl ServerRankingState {
    /// The top ranks that are displayed, from better to worse.
    pub fn top_ranks(&self) -> (res: &[ServerRank])
        ensures
            res@ == self.all_ranks@.take(
                if self.all_ranks@.len() < MAX_DISPLAYED_SERVER_RANKS {
                    self.all_ranks@.len() as int
                } else {
                    MAX_DISPLAYED_SERVER_RANKS as int
                },
            ),
    {
        let n = if self.all_ranks.len() < MAX_DISPLAYED_SERVER_RANKS {
            self.all_ranks.len()
        } else {
            MAX_DISPLAYED_SERVER_RANKS
        };
        let s = vstd::slice::slice_subrange(self.all_ranks.as_slice(), 0, n);
        assert(s@ =~= self.all_ranks@.take(n as int));
        s
    }

    /// The server rank of this player, if they have one.
    pub fn rank_of(&self, player_login: &str) -> (res: Option<&ServerRank>)
        ensures
            match res {
                Some(r) => find_rank(self.all_ranks@, player_login@) == Some(*r),
                None => find_rank(self.all_ranks@, player_login@) is None,
            },
    {
        match position_of(&self.all_ranks, player_login) {
            Some(k) => Some(&self.all_ranks[k]),
            None => None,
        }
    }

    /// The number of players that have a server rank.
    pub fn max_pos(&self) -> (res: usize)
        ensures
            res == self.all_ranks@.len(),
    {
        self.all_ranks.len()
    }

    /// Replaces the ranking with one computed anew, and tells what changed
    /// for connected players: for those that had a rank, their new position
    /// and what they gained; for the others that have one now, their first.
    /// A connected player that had a rank must still have one.
    pub fn update(&mut self, new_ranking: Vec<ServerRank>, players: &PlayersState) -> (res:
        ServerRankingDiff)
        requires
            players.wf(),
            small_ranks(old(self).all_ranks@),
            small_ranks(new_ranking@),
            forall|i: int|
                0 <= i < old(self).all_ranks@.len() && players.uid_of(
                    (#[trigger] old(self).all_ranks@[i]).player_login@,
                ) is Some ==> find_rank(new_ranking@, old(self).all_ranks@[i].player_login@) is Some,
        ensures
            final(self).all_ranks@ == new_ranking@,
            res.max_pos == new_ranking@.len(),
            res.diffs@ == old_diffs(old(self).all_ranks@, new_ranking@, *players) + first_diffs(
                players.uid_to_info@,
                old(self).all_ranks@,
                new_ranking@,
                *players,
            ),
    {
        let ghost old_ranks = self.all_ranks@;
        let mut diffs: Vec<(i32, ServerRankDiff)> = Vec::new();
        let mut i: usize = 0;
        while i < self.all_ranks.len()
            invariant
                self.all_ranks@ == old_ranks,
                players.wf(),
                small_ranks(old_ranks),
                small_ranks(new_ranking@),
                forall|j: int|
                    0 <= j < old_ranks.len() && players.uid_of(
                        (#[trigger] old_ranks[j]).player_login@,
                    ) is Some ==> find_rank(new_ranking@, old_ranks[j].player_login@) is Some,
                i <= old_ranks.len(),
                diffs@ == old_diffs(old_ranks.take(i as int), new_ranking@, *players),
            decreases old_ranks.len() - i,
        {
            let r = &self.all_ranks[i];
            proof {
                assert(old_ranks.take(i + 1).drop_last() =~= old_ranks.take(i as int));
                assert(old_ranks.take(i + 1).last() == old_ranks[i as int]);
            }
            match players.uid(r.player_login.as_str()) {
                None => {},
                Some(uid) => {
                    let k = position_of(&new_ranking, r.player_login.as_str()).unwrap();
                    let nr = &new_ranking[k];
                    assert(0 <= k < new_ranking@.len());
                    let d = ServerRankDiff {
                        player_display_name: r.player_display_name.duplicate(),
                        new_pos: nr.pos,
                        gained_pos: r.pos as i32 - nr.pos as i32,
                        gained_wins: r.nb_wins as i32 - nr.nb_wins as i32,
                    };
                    diffs.push((*uid, d));
                },
            }
            i = i + 1;
        }
        assert(old_ranks.take(old_ranks.len() as int) =~= old_ranks);
        let ghost mid = diffs@;
        let infos = &players.uid_to_info;
        let mut p: usize = 0;
        while p < infos.len()
            invariant
                self.all_ranks@ == old_ranks,
                players.wf(),
                infos == &players.uid_to_info,
                small_ranks(new_ranking@),
                p <= infos@.len(),
                diffs@ == mid + first_diffs(infos@.take(p as int), old_ranks, new_ranking@, *players),
            decreases infos@.len() - p,
        {
            let info = &infos[p].1;
            proof {
                assert(infos@.take(p + 1).drop_last() =~= infos@.take(p as int));
                assert(infos@.take(p + 1).last() == infos@[p as int]);
            }
            let was_kept = position_of(&self.all_ranks, info.login.as_str()).is_some() && players.uid(
                info.login.as_str(),
            ).is_some();
            if !was_kept {
                match position_of(&new_ranking, info.login.as_str()) {
                    None => {},
                    Some(k) => {
                        let nr = &new_ranking[k];
                        let d = ServerRankDiff {
                            player_display_name: nr.player_display_name.duplicate(),
                            new_pos: nr.pos,
                            gained_pos: new_ranking.len() as i32 - nr.pos as i32,
                            gained_wins: nr.nb_wins as i32,
                        };
                        diffs.push((info.uid, d));
                        assert(diffs@ =~= mid + first_diffs(infos@.take(p + 1), old_ranks, new_ranking@, *players));
                    },
                }
            }
            p = p + 1;
        }
        assert(infos@.take(infos@.len() as int) =~= infos@);
        let max_pos = new_ranking.len();
        self.all_ranks = new_ranking;
        ServerRankingDiff { diffs, max_pos }
    }
}

} // verus!
