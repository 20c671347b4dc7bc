//! The ranking of the current race, and whether it is paused or in warmup.

use vstd::prelude::*;

use crate::controller::player::PlayersState;
use crate::gbx::structs::{DisplayString, PlayerInfo, PlayerScore, Scores};
use crate::keyed::set_insert;
use crate::text::str_eq;

verus! {

/// A player's place in the current race.
#[derive(Debug)]
pub struct RaceRank {
    pub login: String,
    pub nick_name: DisplayString,
    /// The best run time in this race, if the player finished a run.
    pub millis: Option<usize>,
}

/// A race rank as the library reasons about it.
pub struct RaceRankView {
    pub login: Seq<char>,
    pub nick_name: Seq<char>,
    pub millis: Option<usize>,
}

impl View for RaceRank {
    type V = RaceRankView;

    open spec fn view(&self) -> RaceRankView {
        RaceRankView { login: self.login@, nick_name: self.nick_name.formatted@, millis: self.millis }
    }
}

/// The views of a ranking.
pub open spec fn rank_views(s: Seq<RaceRank>) -> Seq<RaceRankView> {
    s.map_values(|r: RaceRank| r@)
}

/// The state of the current race.
pub struct RaceState {
    /// The ranking, from best to worst; players without a finished run last.
    pub ranking: Vec<RaceRank>,
    /// UIDs of non-spectators that are past the intro phase; no UID occurs twice.
    pub pre_race: Vec<i32>,
    pub warmup: bool,
    pub paused: bool,
}

/// The first position of `login` in the ranking.
pub open spec fn first_login(s: Seq<RaceRankView>, login: Seq<char>) -> Option<int> {
    if exists|i: int| 0 <= i < s.len() && s[i].login == login {
        Some(choose|i: int| 0 <= i < s.len() && s[i].login == login && forall|j: int| 0 <= j < i ==> s[j].login != login)
    } else {
        None
    }
}

/// Whether a rank comes after a run of `millis`: it has no run, or a slower one.
pub open spec fn ranked_after(r: RaceRankView, millis: usize) -> bool {
    match r.millis {
        None => true,
        Some(m) => m > millis,
    }
}

/// The first position of a rank that comes after a run of `millis`.
pub open spec fn first_after(s: Seq<RaceRankView>, millis: usize) -> Option<int> {
    if exists|i: int| 0 <= i < s.len() && ranked_after(s[i], millis) {
        Some(choose|i: int| 0 <= i < s.len() && ranked_after(s[i], millis) && forall|j: int| 0 <= j < i ==> !ranked_after(s[j], millis))
    } else {
        None
    }
}

/// Whether the player of `login` has an earlier run faster than `millis`.
pub open spec fn kept_earlier(s: Seq<RaceRankView>, login: Seq<char>, millis: usize) -> bool {
    match first_login(s, login) {
        Some(i) => s[i].millis matches Some(p) && p < millis,
        None => false,
    }
}

/// `s` without the first rank of `login`.
pub open spec fn without_first(s: Seq<RaceRankView>, login: Seq<char>) -> Seq<RaceRankView> {
    match first_login(s, login) {
        Some(i) => s.remove(i),
        None => s,
    }
}

/// `t` with `new` before the first rank without a run or with a slower one.
pub open spec fn insert_by_run(t: Seq<RaceRankView>, new: RaceRankView, millis: usize) -> Seq<RaceRankView> {
    match first_after(t, millis) {
        Some(j) => t.insert(j, new),
        None => t.push(new),
    }
}

/// The ranking after a finished run of `millis` by a player: unchanged if their
/// earlier run was faster; else their entry leaves, and the new one enters
/// before the first rank without a run or with a slower one.
pub open spec fn ranking_after_run(s: Seq<RaceRankView>, new: RaceRankView, millis: usize) -> Seq<RaceRankView> {
    if kept_earlier(s, new.login, millis) {
        s
    } else {
        insert_by_run(without_first(s, new.login), new, millis)
    }
}

/// `s` without any rank of `login`.
pub open spec fn without_login(s: Seq<RaceRankView>, login: Seq<char>) -> Seq<RaceRankView>
    decreases s.len(),
{
    if s.len() == 0 {
        s
    } else if s.last().login == login {
        without_login(s.drop_last(), login)
    } else {
        without_login(s.drop_last(), login).push(s.last())
    }
}

/// The ranking after the scores `kept` were applied, one after the other:
/// the k-th score replaces the entry of its player, and is put at position k.
pub open spec fn apply_scores(s: Seq<RaceRankView>, kept: Seq<RaceRankView>) -> Seq<RaceRankView>
    decreases kept.len(),
{
    if kept.len() == 0 {
        s
    } else {
        without_login(apply_scores(s, kept.drop_last()), kept.last().login).insert(kept.len() - 1, kept.last())
    }
}

/// Whether every score of `kept` has a place: the position of the k-th score
/// is at most the length of the ranking without its player.
pub open spec fn scores_fit(s: Seq<RaceRankView>, kept: Seq<RaceRankView>) -> bool
    decreases kept.len(),
{
    if kept.len() == 0 {
        true
    } else {
        scores_fit(s, kept.drop_last())
            && kept.len() - 1 <= without_login(apply_scores(s, kept.drop_last()), kept.last().login).len()
    }
}

/// The run time of a score, if the player finished a run.
pub open spec fn score_millis(best_time_millis: i32) -> Option<usize> {
    if best_time_millis > 0 {
        Some(best_time_millis as usize)
    } else {
        None
    }
}

/// The ranks that the scores give to connected players, in the order of the scores.
pub open spec fn kept_scores(ps: Seq<PlayerScore>, players: PlayersState) -> Seq<RaceRankView>
    decreases ps.len(),
{
    if ps.len() == 0 {
        Seq::empty()
    } else {
        let rest = kept_scores(ps.drop_last(), players);
        let sc = ps.last();
        match players.uid_of(sc.login@) {
            Some(u) => match players.info_of(u) {
                Some(info) => rest.push(
                    RaceRankView {
                        login: info.login@,
                        nick_name: sc.display_name.formatted@,
                        millis: score_millis(sc.best_time_millis),
                    },
                ),
                None => rest,
            },
            None => rest,
        }
    }
}

/// The first position of `login` in the ranking.
fn find_login(ranking: &Vec<RaceRank>, login: &str) -> (res: Option<usize>)
    ensures
        match res {
            Some(i) => i < ranking@.len() && first_login(rank_views(ranking@), login@) == Some(i as int),
            None => first_login(rank_views(ranking@), login@) is None,
        },
{
    let ghost v = rank_views(ranking@);
    let mut k: usize = 0;
    while k < ranking.len()
        invariant
            k <= ranking@.len(),
            v == rank_views(ranking@),
            v.len() == ranking@.len(),
            forall|j: int| 0 <= j < k ==> #[trigger] v[j].login != login@,
        decreases ranking@.len() - k,
    {
        assert(v[k as int] == ranking@[k as int]@);
        if str_eq(ranking[k].login.as_str(), login) {
            proof {
                let w = k as int;
                let c = choose|i: int| 0 <= i < v.len() && v[i].login == login@ && forall|j: int| 0 <= j < i ==> v[j].login != login@;
                if c < w {
                } else if w < c {
                    assert(v[w].login != login@);
                }
            }
            return Some(k);
        }
        k = k + 1;
    }
    None
}

/// The first position of a rank that comes after a run of `millis`.
fn find_after(ranking: &Vec<RaceRank>, millis: usize) -> (res: Option<usize>)
    ensures
        match res {
            Some(i) => i < ranking@.len() && first_after(rank_views(ranking@), millis) == Some(i as int),
            None => first_after(rank_views(ranking@), millis) is None,
        },
{
    let ghost v = rank_views(ranking@);
    let mut k: usize = 0;
    while k < ranking.len()
        invariant
            k <= ranking@.len(),
            v == rank_views(ranking@),
            v.len() == ranking@.len(),
            forall|j: int| 0 <= j < k ==> !ranked_after(#[trigger] v[j], millis),
        decreases ranking@.len() - k,
    {
        assert(v[k as int] == ranking@[k as int]@);
        let after = match ranking[k].millis {
            None => true,
            Some(m) => m > millis,
        };
        if after {
            proof {
                let w = k as int;
                let c = choose|i: int| 0 <= i < v.len() && ranked_after(v[i], millis) && forall|j: int| 0 <= j < i ==> !ranked_after(v[j], millis);
                if c < w {
                } else if w < c {
                    assert(!ranked_after(v[w], millis));
                }
            }
            return Some(k);
        }
        k = k + 1;
    }
    None
}

/// Removes every rank of `login`.
fn retain_other_logins(ranking: &mut Vec<RaceRank>, login: &String)
    ensures
        rank_views(final(ranking)@) == without_login(rank_views(old(ranking)@), login@),
{
    let ghost orig = rank_views(ranking@);
    let mut rest: Vec<RaceRank> = Vec::new();
    std::mem::swap(ranking, &mut rest);
    let len = rest.len();
    let mut i: usize = 0;
    while i < len
        invariant
            len == orig.len(),
            i <= len,
            rank_views(rest@) == orig.skip(i as int),
            rest@.len() == len - i,
            rank_views(ranking@) == without_login(orig.take(i as int), login@),
        decreases len - i,
    {
        let ghost old_rest = rest@;
        let r = rest.remove(0);
        proof {
            assert(orig.skip(i as int)[0] == orig[i as int]);
            assert(rank_views(old_rest)[0] == old_rest[0]@);
            assert(r@ == orig[i as int]);
            assert(rest@ =~= old_rest.subrange(1, old_rest.len() as int));
            assert forall|k: int| 0 <= k < rest@.len() implies #[trigger] rank_views(rest@)[k] == orig.skip(i + 1)[k] by {
                assert(rank_views(rest@)[k] == rest@[k]@);
                assert(rest@[k] == old_rest[k + 1]);
                assert(rank_views(old_rest)[k + 1] == old_rest[k + 1]@);
                assert(orig.skip(i as int)[k + 1] == orig.skip(i + 1)[k]);
            }
            assert(rank_views(rest@) =~= orig.skip(i + 1));
            assert(orig.take(i + 1).drop_last() =~= orig.take(i as int));
            assert(orig.take(i + 1).last() == orig[i as int]);
        }
        if r.login != *login {
            ranking.push(r);
            assert(rank_views(ranking@) =~= without_login(orig.take(i + 1), login@));
        }
        i = i + 1;
    }
    assert(orig.take(len as int) =~= orig);
}


proof fn lemma_kept_prefix(ps: Seq<PlayerScore>, players: PlayersState, i: int)
    requires
        0 <= i <= ps.len(),
    ensures
        kept_scores(ps.take(i), players).is_prefix_of(kept_scores(ps, players)),
    decreases ps.len(),
{
    if i == ps.len() {
        assert(ps.take(i) =~= ps);
    } else {
        lemma_kept_prefix(ps.drop_last(), players, i);
        assert(ps.drop_last().take(i) =~= ps.take(i));
    }
}

proof fn lemma_fit_prefix(s: Seq<RaceRankView>, kept: Seq<RaceRankView>, p: Seq<RaceRankView>)
    requires
        scores_fit(s, kept),
        p.is_prefix_of(kept),
    ensures
        scores_fit(s, p),
    decreases kept.len(),
{
    if p.len() == kept.len() {
        assert(p =~= kept);
    } else {
        assert(p.is_prefix_of(kept.drop_last()));
        lemma_fit_prefix(s, kept.drop_last(), p);
    }
}

/// Takes out the player's first rank, unless it has a faster run than
/// `millis`; returns whether it was kept.
fn take_out_unless_faster(ranking: &mut Vec<RaceRank>, login: &str, millis: usize) -> (kept: bool)
    ensures
        kept == kept_earlier(rank_views(old(ranking)@), login@, millis),
        kept ==> rank_views(final(ranking)@) == rank_views(old(ranking)@),
        !kept ==> rank_views(final(ranking)@) == without_first(rank_views(old(ranking)@), login@),
{
    let ghost s = rank_views(ranking@);
    match find_login(ranking, login) {
        Some(idx) => {
            let keep = match ranking[idx].millis {
                Some(prev) => prev < millis,
                None => false,
            };
            assert(s[idx as int] == ranking@[idx as int]@);
            if keep {
                return true;
            }
            ranking.remove(idx);
            assert(rank_views(ranking@) =~= s.remove(idx as int));
            false
        },
        None => false,
    }
}

/// Puts `new_rank` before the first rank without a run or with a slower one.
#[verifier::spinoff_prover]
#[verifier::rlimit(30)]
fn insert_run(ranking: &mut Vec<RaceRank>, new_rank: RaceRank, millis: usize)
    ensures
        rank_views(final(ranking)@) == insert_by_run(rank_views(old(ranking)@), new_rank@, millis),
{
    let ghost t = rank_views(ranking@);
    let ghost nv = new_rank@;
    match find_after(ranking, millis) {
        Some(j) => {
            ranking.insert(j, new_rank);
            assert(rank_views(ranking@) =~= t.insert(j as int, nv));
        },
        None => {
            ranking.push(new_rank);
            assert(rank_views(ranking@) =~= t.push(nv));
        },
    }
}

/// Moves the player's rank to a finished run of `millis`, unless their
/// earlier run was faster.
fn apply_run(ranking: &mut Vec<RaceRank>, info: &PlayerInfo, millis: usize)
    ensures
        rank_views(final(ranking)@) == ranking_after_run(
            rank_views(old(ranking)@),
            RaceRankView { login: info.login@, nick_name: info.display_name.formatted@, millis: Some(millis) },
            millis,
        ),
{
    if take_out_unless_faster(ranking, info.login.as_str(), millis) {
        return;
    }
    let new_rank = RaceRank { login: info.login.clone(), nick_name: info.display_name.duplicate(), millis: Some(millis) };
    insert_run(ranking, new_rank, millis);
}

impl RaceState {
    /// No UID occurs twice among the contestants.
    pub open spec fn wf(&self) -> bool {
        self.pre_race@.no_duplicates()
    }

    /// A race without ranks or contestants.
    pub fn init(warmup: bool, paused: bool) -> (res: Self)
        ensures
            res.wf(),
            res.ranking@.len() == 0,
            res.pre_race@.len() == 0,
            res.warmup == warmup,
            res.paused == paused,
    {
        RaceState { ranking: Vec::new(), pre_race: Vec::new(), warmup, paused }
    }

    /// Signals that a player is past the intro stage, and is now part of the
    /// race. Returns `false` if the login is not connected, or if the player
    /// was already part of the race.
    pub fn add_contestant(&mut self, players: &PlayersState, login: &str) -> (res: bool)
        requires
            old(self).wf(),
            players.wf(),
        ensures
            final(self).wf(),
            rank_views(final(self).ranking@) == rank_views(old(self).ranking@),
            final(self).warmup == old(self).warmup,
            final(self).paused == old(self).paused,
            match players.uid_of(login@) {
                None => !res && final(self).pre_race@ == old(self).pre_race@,
                Some(u) => res == !old(self).pre_race@.contains(u)
                    && forall|y: i32| #[trigger] final(self).pre_race@.contains(y) == (y == u || old(self).pre_race@.contains(y)),
            },
    {
        match players.uid(login) {
            Some(u) => set_insert(&mut self.pre_race, *u),
            None => false,
        }
    }

    /// Set whether the current race is paused; `true` if that changed.
    pub fn set_pause(&mut self, active: bool) -> (res: bool)
        ensures
            res == (old(self).paused != active),
            final(self).paused == active,
            final(self).warmup == old(self).warmup,
            final(self).ranking == old(self).ranking,
            final(self).pre_race == old(self).pre_race,
    {
        let res = self.paused != active;
        self.paused = active;
        res
    }

    /// Set whether the current race is in warmup; `true` if that changed.
    pub fn set_warmup(&mut self, active: bool) -> (res: bool)
        ensures
            res == (old(self).warmup != active),
            final(self).warmup == active,
            final(self).paused == old(self).paused,
            final(self).ranking == old(self).ranking,
            final(self).pre_race == old(self).pre_race,
    {
        let res = self.warmup != active;
        self.warmup = active;
        res
    }

    /// Clear the ranking for a new race: every connected player gets a rank
    /// without a run, in the order of `PlayersState::info_all`. Returns the
    /// previous ranking.
    pub fn reset(&mut self, players: &PlayersState) -> (res: Vec<RaceRank>)
        ensures
            final(self).wf(),
            res@ == old(self).ranking@,
            final(self).pre_race@.len() == 0,
            final(self).warmup == old(self).warmup,
            final(self).paused == old(self).paused,
            rank_views(final(self).ranking@) == players.uid_to_info@.map_values(
                |e: (i32, PlayerInfo)| RaceRankView { login: e.1.login@, nick_name: e.1.display_name.formatted@, millis: None },
            ),
    {
        let mut res: Vec<RaceRank> = Vec::new();
        std::mem::swap(&mut res, &mut self.ranking);
        self.pre_race = Vec::new();
        let infos = players.info_all();
        let mut i: usize = 0;
        while i < infos.len()
            invariant
                i <= infos@.len(),
                infos@.len() == players.uid_to_info@.len(),
                forall|j: int| 0 <= j < infos@.len() ==> #[trigger] infos@[j] == &players.uid_to_info@[j].1,
                rank_views(self.ranking@) == players.uid_to_info@.take(i as int).map_values(
                    |e: (i32, PlayerInfo)| RaceRankView { login: e.1.login@, nick_name: e.1.display_name.formatted@, millis: None },
                ),
                self.pre_race@.len() == 0,
                self.warmup == old(self).warmup,
                self.paused == old(self).paused,
            decreases infos@.len() - i,
        {
            let info = infos[i];
            let ghost before = rank_views(self.ranking@);
            self.ranking.push(RaceRank { login: info.login.clone(), nick_name: info.display_name.duplicate(), millis: None });
            proof {
                let e = players.uid_to_info@[i as int];
                assert(*info == e.1);
                assert(rank_views(self.ranking@) =~= before.push(RaceRankView { login: e.1.login@, nick_name: e.1.display_name.formatted@, millis: None }));
                assert(players.uid_to_info@.take(i + 1) =~= players.uid_to_info@.take(i as int).push(e));
            }
            assert(rank_views(self.ranking@) =~= players.uid_to_info@.take(i + 1).map_values(
                |e: (i32, PlayerInfo)| RaceRankView { login: e.1.login@, nick_name: e.1.display_name.formatted@, millis: None },
            ));
            i = i + 1;
        }
        assert(players.uid_to_info@.take(infos@.len() as int) =~= players.uid_to_info@);
        res
    }
    /// Replace the ranking with the scores of connected players: the k-th
    /// such score replaces its player's rank, and is put at position k. A
    /// score counts as a finished run if its best time is positive.
    pub fn set_scores(&mut self, players: &PlayersState, scores: &Scores)
        requires
            players.wf(),
            scores_fit(rank_views(old(self).ranking@), kept_scores(scores.players@, *players)),
        ensures
            rank_views(final(self).ranking@) == apply_scores(rank_views(old(self).ranking@), kept_scores(scores.players@, *players)),
            final(self).pre_race == old(self).pre_race,
            final(self).warmup == old(self).warmup,
            final(self).paused == old(self).paused,
    {
        let ghost orig = rank_views(self.ranking@);
        let ghost ps = scores.players@;
        let mut idx: usize = 0;
        let mut i: usize = 0;
        while i < scores.players.len()
            invariant
                players.wf(),
                ps == scores.players@,
                i <= ps.len(),
                scores_fit(orig, kept_scores(ps, *players)),
                rank_views(self.ranking@) == apply_scores(orig, kept_scores(ps.take(i as int), *players)),
                idx == kept_scores(ps.take(i as int), *players).len(),
                self.pre_race == old(self).pre_race,
                self.warmup == old(self).warmup,
                self.paused == old(self).paused,
            decreases ps.len() - i,
        {
            let score = &scores.players[i];
            proof {
                assert(ps.take(i + 1).drop_last() =~= ps.take(i as int));
                assert(ps.take(i + 1).last() == ps[i as int]);
                lemma_kept_prefix(ps, *players, i + 1);
                lemma_fit_prefix(orig, kept_scores(ps, *players), kept_scores(ps.take(i + 1), *players));
            }
            match players.info(score.login.as_str()) {
                Some(info) => {
                    let millis = if score.best_time_millis > 0 {
                        Some(score.best_time_millis as usize)
                    } else {
                        None
                    };
                    let rank = RaceRank { login: info.login.clone(), nick_name: score.display_name.duplicate(), millis };
                    proof {
                        let k0 = kept_scores(ps.take(i as int), *players);
                        let k1 = kept_scores(ps.take(i + 1), *players);
                        assert(k1 == k0.push(rank@));
                        assert(k1.drop_last() =~= k0);
                        assert(scores_fit(orig, k1));
                    }
                    retain_other_logins(&mut self.ranking, &info.login);
                    let ghost t = rank_views(self.ranking@);
                    self.ranking.insert(idx, rank);
                    assert(rank_views(self.ranking@) =~= t.insert(idx as int, rank@));
                    proof {
                        let k0 = kept_scores(ps.take(i as int), *players);
                        let k1 = kept_scores(ps.take(i + 1), *players);
                        assert(k1.drop_last() =~= k0);
                    }
                    let n = self.ranking.len();
                    assert(idx < n);
                    idx = idx + 1;
                },
                None => {},
            }
            i = i + 1;
        }
        assert(ps.take(ps.len() as int) =~= ps);
    }

    /// Update the ranking when a player crossed the finish line: unless the
    /// race is paused or in warmup, or the player's earlier run was faster,
    /// their rank moves to the new time.
    pub fn update(&mut self, players: &PlayersState, player_login: &str, race_time_millis: i32, is_finish: bool)
        requires
            players.wf(),
        ensures
            final(self).pre_race == old(self).pre_race,
            final(self).warmup == old(self).warmup,
            final(self).paused == old(self).paused,
            rank_views(final(self).ranking@) == match players.uid_of(player_login@) {
                Some(u) => match players.info_of(u) {
                    Some(info) if is_finish && !old(self).warmup && !old(self).paused => ranking_after_run(
                        rank_views(old(self).ranking@),
                        RaceRankView {
                            login: info.login@,
                            nick_name: info.display_name.formatted@,
                            millis: Some(race_time_millis as usize),
                        },
                        race_time_millis as usize,
                    ),
                    _ => rank_views(old(self).ranking@),
                },
                None => rank_views(old(self).ranking@),
            },
    {
        if !is_finish {
            return;
        }
        let info = match players.info(player_login) {
            Some(info) => info,
            None => return,
        };
        if self.warmup || self.paused {
            return;
        }
        let millis = race_time_millis as usize;
        apply_run(&mut self.ranking, info, millis);
    }

    /// The rank of the specified player in the current race, starting at 1,
    /// or `None` if they are not connected or have no rank.
    pub fn rank_of(&self, players: &PlayersState, player_uid: i32) -> (res: Option<usize>)
        requires
            players.wf(),
        ensures
            match players.info_of(player_uid) {
                Some(info) => match first_login(rank_views(self.ranking@), info.login@) {
                    Some(i) => res == Some((i + 1) as usize),
                    None => res is None,
                },
                None => res is None,
            },
    {
        let login = match players.login(player_uid) {
            Some(l) => l,
            None => return None,
        };
        let n = self.ranking.len();
        match find_login(&self.ranking, login) {
            Some(i) => Some(i + 1),
            None => None,
        }
    }
}


proof fn lemma_least_login(s: Seq<RaceRankView>, login: Seq<char>, w: int)
    requires
        0 <= w < s.len(),
        s[w].login == login,
    ensures
        exists|i: int| 0 <= i < s.len() && s[i].login == login && forall|j: int| 0 <= j < i ==> s[j].login != login,
    decreases w,
{
    if exists|j: int| 0 <= j < w && s[j].login == login {
        let j = choose|j: int| 0 <= j < w && s[j].login == login;
        lemma_least_login(s, login, j);
    } else {
        assert(forall|j: int| 0 <= j < w ==> s[j].login != login);
    }
}

proof fn lemma_least_after(s: Seq<RaceRankView>, millis: usize, w: int)
    requires
        0 <= w < s.len(),
        ranked_after(s[w], millis),
    ensures
        exists|i: int| 0 <= i < s.len() && ranked_after(s[i], millis) && forall|j: int| 0 <= j < i ==> !ranked_after(s[j], millis),
    decreases w,
{
    if exists|j: int| 0 <= j < w && ranked_after(s[j], millis) {
        let j = choose|j: int| 0 <= j < w && ranked_after(s[j], millis);
        lemma_least_after(s, millis, j);
    } else {
        assert(forall|j: int| 0 <= j < w ==> !ranked_after(s[j], millis));
    }
}

/// Whether rank `a` may come before rank `b`: a run before no run, and a
/// faster run before a slower one.
pub open spec fn rank_le(a: RaceRankView, b: RaceRankView) -> bool {
    match (a.millis, b.millis) {
        (Some(x), Some(y)) => x <= y,
        (Some(_), None) => true,
        (None, None) => true,
        (None, Some(_)) => false,
    }
}

/// Whether the ranking lists runs from fastest to slowest, then the ranks
/// without a run.
pub open spec fn ordered(s: Seq<RaceRankView>) -> bool {
    forall|i: int, j: int| 0 <= i < j < s.len() ==> rank_le(s[i], s[j])
}

/// A finished run keeps the race ranking in order: runs from fastest to
/// slowest, then the ranks without a run.
pub proof fn law_ranking_stays_ordered(s: Seq<RaceRankView>, new: RaceRankView, millis: usize)
    requires
        ordered(s),
        new.millis == Some(millis),
    ensures
        ordered(ranking_after_run(s, new, millis)),
{
    if !kept_earlier(s, new.login, millis) {
        if exists|i: int| 0 <= i < s.len() && s[i].login == new.login {
            let w = choose|i: int| 0 <= i < s.len() && s[i].login == new.login;
            lemma_least_login(s, new.login, w);
        }
        let t = without_first(s, new.login);
        if exists|i: int| 0 <= i < t.len() && ranked_after(t[i], millis) {
            let w = choose|i: int| 0 <= i < t.len() && ranked_after(t[i], millis);
            lemma_least_after(t, millis, w);
        }
        assert(ordered(t)) by {
            if let Some(k) = first_login(s, new.login) {
                assert forall|i: int, j: int| 0 <= i < j < t.len() implies rank_le(t[i], t[j]) by {
                    let a = if i < k { i } else { i + 1 };
                    let b = if j < k { j } else { j + 1 };
                    assert(t[i] == s[a]);
                    assert(t[j] == s[b]);
                }
            }
        }
        match first_after(t, millis) {
            Some(e) => {
                let u = t.insert(e, new);
                assert forall|k: int| 0 <= k < e implies rank_le(t[k], new) by {
                    assert(!ranked_after(t[k], millis));
                }
                assert forall|k: int| e <= k < t.len() implies rank_le(new, t[k]) by {
                    assert(ranked_after(t[e], millis));
                    if e < k {
                        assert(rank_le(t[e], t[k]));
                    }
                }
                assert forall|i: int, j: int| 0 <= i < j < u.len() implies rank_le(u[i], u[j]) by {
                    if i < e && j < e {
                        assert(u[i] == t[i] && u[j] == t[j]);
                    } else if i < e && j == e {
                        assert(u[i] == t[i]);
                    } else if i < e {
                        assert(u[i] == t[i] && u[j] == t[j - 1]);
                    } else if i == e {
                        assert(u[j] == t[j - 1]);
                    } else {
                        assert(u[i] == t[i - 1] && u[j] == t[j - 1]);
                    }
                }
            },
            None => {
                let u = t.push(new);
                assert forall|k: int| 0 <= k < t.len() implies rank_le(t[k], new) by {
                    assert(!ranked_after(t[k], millis));
                }
                assert forall|i: int, j: int| 0 <= i < j < u.len() implies rank_le(u[i], u[j]) by {
                    assert(u[i] == t[i]);
                    if j < t.len() {
                        assert(u[j] == t[j]);
                    }
                }
            },
        }
    }
}

} // verus!
