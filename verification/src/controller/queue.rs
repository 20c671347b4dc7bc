//! The map queue: an ordering of the playlist by priority.

use std::cmp::Ordering;
use std::collections::VecDeque;

use vstd::prelude::*;

use crate::controller::playlist::PlaylistDiff;
use crate::controller::preference::ActivePreferenceValue;

verus! {

/// The restart threshold for the first restart of a map, in quarters of the
/// players with a player slot (two quarters: one half).
pub const DEFAULT_MIN_RESTART_VOTE_QUARTERS: u32 = 2;

/// Added to the restart threshold for each subsequent restart, in quarters.
pub const MIN_RESTART_VOTE_QUARTERS_STEP: u32 = 1;

/// The restart threshold never exceeds all players (four quarters).
pub const MAX_RESTART_VOTE_QUARTERS: u32 = 4;

/// Limits the amount of next maps in the queue displayed during the outro.
pub const MAX_DISPLAYED_IN_QUEUE: usize = 5;

/// When deciding the next map, each map is assigned a priority.
///
/// The order, from the map queued first to the map queued last, is
/// `ServerStart < VoteRestart < Force(x) < Force(x+1) < Score(y) < Score(y-1) < NoRestart`.
#[derive(Clone, Copy, Debug, PartialEq, Eq, Structural)]
pub enum QueuePriority {
    /// Map was just played, and voted to restart.
    VoteRestart,
    /// Map was force-queued by an admin. The inner number is the
    /// amount of maps that were force-queued ahead of this map.
    Force(usize),
    /// Map has a calculated priority.
    Score(i32),
    /// Map was just played, and *not* voted to restart.
    NoRestart,
    /// The map that was played when the controller started.
    ServerStart,
}

/// The group of a priority in the queue order.
pub open spec fn priority_rank(p: QueuePriority) -> int {
    match p {
        QueuePriority::ServerStart => 0,
        QueuePriority::VoteRestart => 1,
        QueuePriority::Force(_) => 2,
        QueuePriority::Score(_) => 3,
        QueuePriority::NoRestart => 4,
    }
}

/// `a` is queued ahead of `b`.
pub open spec fn priority_lt(a: QueuePriority, b: QueuePriority) -> bool {
    match (a, b) {
        (QueuePriority::Force(x), QueuePriority::Force(y)) => x < y,
        (QueuePriority::Score(x), QueuePriority::Score(y)) => x > y,
        _ => priority_rank(a) < priority_rank(b),
    }
}

/// The queue order of entries: by priority, and by playlist index for equal priorities.
pub open spec fn key_lt(a: (usize, QueuePriority), b: (usize, QueuePriority)) -> bool {
    priority_lt(a.1, b.1) || (a.1 == b.1 && a.0 < b.0)
}

/// The queue order of priorities is a strict total order.
pub proof fn lemma_priority_order(a: QueuePriority, b: QueuePriority, c: QueuePriority)
    ensures
        !priority_lt(a, a),
        priority_lt(a, b) ==> !priority_lt(b, a),
        priority_lt(a, b) && priority_lt(b, c) ==> priority_lt(a, c),
        a != b ==> priority_lt(a, b) || priority_lt(b, a),
{
}

proof fn lemma_key_lt_transitive(a: (usize, QueuePriority), b: (usize, QueuePriority), c: (usize, QueuePriority))
    requires
        key_lt(a, b),
        key_lt(b, c),
    ensures
        key_lt(a, c),
{
    lemma_priority_order(a.1, b.1, c.1);
}

impl QueuePriority {
    fn rank(&self) -> (r: u8)
        ensures
            r as int == priority_rank(*self),
    {
        match self {
            QueuePriority::ServerStart => 0,
            QueuePriority::VoteRestart => 1,
            QueuePriority::Force(_) => 2,
            QueuePriority::Score(_) => 3,
            QueuePriority::NoRestart => 4,
        }
    }

    /// `true` if `self` is queued ahead of `other`.
    pub fn lt(&self, other: &Self) -> (res: bool)
        ensures
            res == priority_lt(*self, *other),
    {
        match (self, other) {
            (QueuePriority::Force(x), QueuePriority::Force(y)) => *x < *y,
            (QueuePriority::Score(x), QueuePriority::Score(y)) => *x > *y,
            _ => self.rank() < other.rank(),
        }
    }

    /// Compares two priorities in queue order: `Less` if `self` is queued first.
    pub fn cmp(&self, other: &Self) -> (res: Ordering)
        ensures
            (res == Ordering::Less) == priority_lt(*self, *other),
            (res == Ordering::Equal) == (*self == *other),
            (res == Ordering::Greater) == priority_lt(*other, *self),
    {
        proof {
            lemma_priority_order(*self, *other, *other);
        }
        if self.lt(other) {
            Ordering::Less
        } else if other.lt(self) {
            Ordering::Greater
        } else {
            Ordering::Equal
        }
    }
}

/// An entry in the map queue, which assigns a priority to a map in the playlist.
#[derive(Clone, Copy, Debug)]
pub struct QueueEntry {
    /// Position in the queue, starting at 0.
    pub pos: usize,
    /// The playlist index of the map represented by this entry.
    pub playlist_idx: usize,
    /// The priority of the map represented by this entry.
    pub priority: QueuePriority,
}

/// What the server has to be told after the queue was updated.
#[derive(Clone, Copy, Debug, PartialEq, Eq, Structural)]
pub enum QueueAction {
    /// The current map is played again.
    RestartMap,
    /// The map at this playlist index is played next.
    ChangeNext(usize),
    /// The server already plays the next map at the right index.
    Keep,
}

pub struct QueueState {
    /// An ordering of playlist indexes, sorted from highest to lowest priority.
    pub entries: Vec<QueueEntry>,
    /// The number of times the map at each playlist index was skipped.
    pub times_skipped: Vec<usize>,
    /// Playlist indices of maps that are queued next, regardless of their priority.
    pub force_queue: VecDeque<usize>,
    /// The threshold of players, in quarters of the players with a player slot,
    /// that have to vote for a restart to replay a map.
    pub min_restart_vote_quarters: u32,
}

/// `p` is the first position of `x` in `s`.
pub open spec fn is_first_pos(s: Seq<usize>, x: usize, p: int) -> bool {
    &&& 0 <= p < s.len()
    &&& s[p] == x
    &&& forall|q: int| 0 <= q < p ==> s[q] != x
}

/// The first position of `x` in `s`, if any.
pub open spec fn first_pos(s: Seq<usize>, x: usize) -> Option<int> {
    if exists|p: int| is_first_pos(s, x, p) {
        Some(choose|p: int| is_first_pos(s, x, p))
    } else {
        None
    }
}

proof fn lemma_first_pos_unique(s: Seq<usize>, x: usize, p: int, q: int)
    requires
        is_first_pos(s, x, p),
        is_first_pos(s, x, q),
    ensures
        p == q,
{
    if p < q {
        assert(s[p] == x);
    } else if q < p {
        assert(s[q] == x);
    }
}

/// `s` without any occurrence of `x`, in order.
pub open spec fn without(s: Seq<usize>, x: usize) -> Seq<usize>
    decreases s.len(),
{
    if s.len() == 0 {
        s
    } else if s.last() == x {
        without(s.drop_last(), x)
    } else {
        without(s.drop_last(), x).push(s.last())
    }
}

/// The priority a map gets when the queue is updated.
pub open spec fn assigned_priority(
    force_queue: Seq<usize>,
    times_skipped: Seq<usize>,
    had_entries: bool,
    curr: Option<usize>,
    voted_restart: bool,
    pref_sums: Seq<i32>,
    i: int,
) -> QueuePriority {
    let is_curr = curr == Some(i as usize);
    if voted_restart && is_curr {
        QueuePriority::VoteRestart
    } else if first_pos(force_queue, i as usize) is Some {
        QueuePriority::Force(first_pos(force_queue, i as usize)->0 as usize)
    } else if is_curr {
        if had_entries {
            QueuePriority::NoRestart
        } else {
            QueuePriority::ServerStart
        }
    } else {
        QueuePriority::Score((pref_sums[i] + times_skipped[i]) as i32)
    }
}

/// The skip counts after a map ended: every map was skipped once more,
/// except for the current map, which was skipped zero times.
pub open spec fn skips_after(times_skipped: Seq<usize>, curr: Option<usize>) -> Seq<usize> {
    Seq::new(
        times_skipped.len(),
        |i: int| if curr == Some(i as usize) { 0usize } else { (times_skipped[i] + 1) as usize },
    )
}

/// `entries` is the queue for these inputs: every playlist index once, with
/// its assigned priority, ordered by priority (and playlist index for ties),
/// with positions counting from zero.
pub open spec fn is_queue_for(
    entries: Seq<QueueEntry>,
    force_queue: Seq<usize>,
    times_skipped: Seq<usize>,
    had_entries: bool,
    curr: Option<usize>,
    voted_restart: bool,
    pref_sums: Seq<i32>,
) -> bool {
    &&& entries.len() == times_skipped.len()
    &&& forall|k: int| 0 <= k < entries.len() ==> {
        &&& #[trigger] entries[k].pos == k
        &&& entries[k].playlist_idx < times_skipped.len()
        &&& entries[k].priority == assigned_priority(
            force_queue,
            times_skipped,
            had_entries,
            curr,
            voted_restart,
            pref_sums,
            entries[k].playlist_idx as int,
        )
    }
    &&& forall|a: int, b: int|
        0 <= a < b < entries.len() ==> key_lt(
            (#[trigger] entries[a].playlist_idx, entries[a].priority),
            (#[trigger] entries[b].playlist_idx, entries[b].priority),
        )
    &&& forall|a: int, b: int|
        0 <= a < b < entries.len() ==> #[trigger] entries[a].playlist_idx
            != #[trigger] entries[b].playlist_idx
    &&& forall|i: int| 0 <= i < times_skipped.len() ==> #[trigger] has_entry_for(entries, i)
}

/// Some pair of the ordering is for playlist index `x`.
pub open spec fn has_index(s: Seq<(usize, QueuePriority)>, x: int) -> bool {
    exists|a: int| 0 <= a < s.len() && (#[trigger] s[a]).0 == x
}

/// Some entry of the queue is for the map at playlist index `i`.
pub open spec fn has_entry_for(entries: Seq<QueueEntry>, i: int) -> bool {
    exists|k: int| 0 <= k < entries.len() && #[trigger] entries[k].playlist_idx == i
}

/// The scores that each playlist map can get fit into `i32`, and no skip
/// count can overflow.
pub open spec fn scores_in_range(times_skipped: Seq<usize>, pref_sums: Seq<i32>) -> bool {
    &&& pref_sums.len() == times_skipped.len()
    &&& forall|i: int|
        0 <= i < times_skipped.len() ==> #[trigger] times_skipped[i] + 1 <= i32::MAX
            && pref_sums[i] + times_skipped[i] + 1 <= i32::MAX
}

/// The contribution of one preference to a map's score.
pub open spec fn pref_weight(v: ActivePreferenceValue) -> int {
    match v {
        ActivePreferenceValue::AutoPick => 1,
        ActivePreferenceValue::Pick => 1,
        _ => -1,
    }
}

/// The sum of the preference weights.
pub open spec fn pref_total(vs: Seq<ActivePreferenceValue>) -> int
    decreases vs.len(),
{
    if vs.len() == 0 {
        0
    } else {
        pref_total(vs.drop_last()) + pref_weight(vs.last())
    }
}

proof fn lemma_pref_total_bounds(vs: Seq<ActivePreferenceValue>)
    ensures
        -vs.len() <= pref_total(vs) <= vs.len(),
    decreases vs.len(),
{
    if vs.len() > 0 {
        lemma_pref_total_bounds(vs.drop_last());
    }
}

/// Changing one preference changes the sum by the difference of the weights.
proof fn lemma_pref_total_update(vs: Seq<ActivePreferenceValue>, k: int, x: ActivePreferenceValue)
    requires
        0 <= k < vs.len(),
    ensures
        pref_total(vs.update(k, x)) == pref_total(vs) - pref_weight(vs[k]) + pref_weight(x),
    decreases vs.len(),
{
    let u = vs.update(k, x);
    if k == vs.len() - 1 {
        assert(u.drop_last() =~= vs.drop_last());
    } else {
        assert(u.drop_last() =~= vs.drop_last().update(k, x));
        lemma_pref_total_update(vs.drop_last(), k, x);
    }
}

/// After a map ends, the map that was played has been skipped zero times,
/// fewer than any other map, and every other map has been skipped once more
/// than before (while its count stays below `usize::MAX`); with no played
/// map, every count grows by one.
pub proof fn law_played_map_skip_count_resets(times_skipped: Seq<usize>, curr: Option<usize>)
    requires
        forall|j: int| 0 <= j < times_skipped.len() ==> #[trigger] times_skipped[j] < usize::MAX,
    ensures
        skips_after(times_skipped, curr).len() == times_skipped.len(),
        curr matches Some(c) ==> c < times_skipped.len() ==> {
            &&& skips_after(times_skipped, curr)[c as int] == 0
            &&& forall|j: int| 0 <= j < times_skipped.len() ==> skips_after(times_skipped, curr)[c as int]
                <= #[trigger] skips_after(times_skipped, curr)[j]
        },
        forall|j: int|
            0 <= j < times_skipped.len() && curr != Some(j as usize) ==> #[trigger] skips_after(times_skipped, curr)[j]
                == times_skipped[j] + 1,
{
    let after = skips_after(times_skipped, curr);
    assert forall|j: int|
        0 <= j < times_skipped.len() && curr != Some(j as usize) implies #[trigger] after[j] == times_skipped[j] + 1 by {
        assert(times_skipped[j] < usize::MAX);
    }
}

/// A pick makes a map more likely to be played: with a player's pick, the
/// map's preference score is at least as high as with any other preference
/// of that player, and two points higher than with a veto or a vote to
/// remove it.
pub proof fn law_pick_raises_score(vs: Seq<ActivePreferenceValue>, k: int, other: ActivePreferenceValue)
    requires
        0 <= k < vs.len(),
    ensures
        pref_total(vs.update(k, ActivePreferenceValue::Pick)) >= pref_total(vs.update(k, other)),
        other == ActivePreferenceValue::Veto || other == ActivePreferenceValue::Remove ==> pref_total(
            vs.update(k, ActivePreferenceValue::Pick),
        ) == pref_total(vs.update(k, other)) + 2,
{
    lemma_pref_total_update(vs, k, ActivePreferenceValue::Pick);
    lemma_pref_total_update(vs, k, other);
}

/// The score of a map from the preferences of connected players: one point for
/// each pick or auto-pick, minus one point for each other preference.
pub fn pref_sum(values: &Vec<ActivePreferenceValue>) -> (res: i32)
    requires
        values@.len() <= i32::MAX,
    ensures
        res == pref_total(values@),
{
    let mut sum: i32 = 0;
    let mut i: usize = 0;
    while i < values.len()
        invariant
            i <= values@.len(),
            values@.len() <= i32::MAX,
            sum == pref_total(values@.take(i as int)),
        decreases values@.len() - i,
    {
        proof {
            lemma_pref_total_bounds(values@.take(i as int));
            assert(values@.take(i as int + 1).drop_last() =~= values@.take(i as int));
        }
        match values[i] {
            ActivePreferenceValue::AutoPick | ActivePreferenceValue::Pick => {
                sum = sum + 1;
            },
            _ => {
                sum = sum - 1;
            },
        }
        i = i + 1;
    }
    assert(values@.take(i as int) =~= values@);
    sum
}

/// `true` if enough players voted for a restart: of the `nb_playing` players
/// that have a player slot, `nb_for_restart` vote for a restart, and their
/// share reaches the threshold (given in quarters of the players). No votes
/// at all never restart a map.
pub open spec fn spec_voted_restart(nb_playing: nat, nb_for_restart: nat, quarters: nat) -> bool {
    nb_for_restart > 0 && 4 * nb_for_restart >= quarters * nb_playing
}

/// A restart vote never passes without a vote for it, always passes when
/// every playing player votes for it, keeps passing with more votes, and
/// keeps failing with a higher threshold.
pub proof fn law_restart_vote_thresholds(nb_playing: nat, nb_for: nat, more: nat, quarters: nat, higher: nat)
    requires
        quarters <= MAX_RESTART_VOTE_QUARTERS,
        quarters <= higher,
        nb_for <= more,
    ensures
        !spec_voted_restart(nb_playing, 0, quarters),
        nb_playing > 0 ==> spec_voted_restart(nb_playing, nb_playing, quarters),
        spec_voted_restart(nb_playing, nb_for, quarters) ==> spec_voted_restart(nb_playing, more, quarters),
        !spec_voted_restart(nb_playing, nb_for, quarters) ==> !spec_voted_restart(nb_playing, nb_for, higher),
{
    assert(quarters * nb_playing <= 4 * nb_playing) by (nonlinear_arith)
        requires
            quarters <= 4,
    ;
    assert(quarters * nb_playing <= higher * nb_playing) by (nonlinear_arith)
        requires
            quarters <= higher,
    ;
}

/// Decides whether the current map is restarted by vote.
pub fn voted_restart(nb_playing: usize, nb_for_restart: usize, quarters: u32) -> (res: bool)
    requires
        quarters <= MAX_RESTART_VOTE_QUARTERS,
    ensures
        res == spec_voted_restart(nb_playing as nat, nb_for_restart as nat, quarters as nat),
{
    if nb_for_restart == 0 {
        false
    } else {
        let lhs: u128 = 4 * (nb_for_restart as u128);
        assert((quarters as u128) * (nb_playing as u128) <= 4 * 0xffff_ffff_ffff_ffffu128) by (nonlinear_arith)
            requires
                quarters <= 4,
                nb_playing <= 0xffff_ffff_ffff_ffffu64,
        ;
        let rhs: u128 = (quarters as u128) * (nb_playing as u128);
        assert(rhs == quarters * nb_playing) by (nonlinear_arith)
            requires
                quarters <= 4,
                nb_playing <= usize::MAX,
                rhs == (quarters as u128) * (nb_playing as u128),
        ;
        lhs >= rhs
    }
}

/// Of two maps that are queued by their score, the one with the higher score
/// (its preference sum plus the number of times it was skipped) is queued
/// ahead of the other.
pub proof fn law_higher_score_queued_first(
    entries: Seq<QueueEntry>,
    force_queue: Seq<usize>,
    times_skipped: Seq<usize>,
    had_entries: bool,
    curr: Option<usize>,
    voted_restart: bool,
    pref_sums: Seq<i32>,
    a: int,
    b: int,
)
    requires
        is_queue_for(entries, force_queue, times_skipped, had_entries, curr, voted_restart, pref_sums),
        scores_in_range(times_skipped, pref_sums),
        0 <= a < entries.len(),
        0 <= b < entries.len(),
        entries[a].priority is Score,
        entries[b].priority is Score,
        pref_sums[entries[a].playlist_idx as int] + times_skipped[entries[a].playlist_idx as int]
            > pref_sums[entries[b].playlist_idx as int] + times_skipped[entries[b].playlist_idx as int],
    ensures
        a < b,
{
    let (i, j) = (entries[a].playlist_idx as int, entries[b].playlist_idx as int);
    assert(entries[a].pos == a && entries[b].pos == b);
    assert(entries[a].priority == assigned_priority(force_queue, times_skipped, had_entries, curr, voted_restart, pref_sums, i));
    assert(entries[b].priority == assigned_priority(force_queue, times_skipped, had_entries, curr, voted_restart, pref_sums, j));
    assert(times_skipped[i] + 1 <= i32::MAX && pref_sums[i] + times_skipped[i] + 1 <= i32::MAX);
    assert(times_skipped[j] + 1 <= i32::MAX && pref_sums[j] + times_skipped[j] + 1 <= i32::MAX);
    assert(entries[a].priority == QueuePriority::Score((pref_sums[i] + times_skipped[i]) as i32));
    assert(entries[b].priority == QueuePriority::Score((pref_sums[j] + times_skipped[j]) as i32));
    if b <= a {
        if b < a {
            assert(key_lt(
                (entries[b].playlist_idx, entries[b].priority),
                (entries[a].playlist_idx, entries[a].priority),
            ));
        }
    }
}

/// A map that was voted to restart is queued next.
pub proof fn law_vote_restart_is_next(
    entries: Seq<QueueEntry>,
    force_queue: Seq<usize>,
    times_skipped: Seq<usize>,
    had_entries: bool,
    curr: usize,
    pref_sums: Seq<i32>,
)
    requires
        is_queue_for(entries, force_queue, times_skipped, had_entries, Some(curr), true, pref_sums),
        curr < times_skipped.len(),
    ensures
        entries[0].playlist_idx == curr,
{
    assert(has_entry_for(entries, curr as int));
    let k = choose|k: int| 0 <= k < entries.len() && #[trigger] entries[k].playlist_idx == curr;
    assert(entries[k].pos == k);
    assert(entries[0].pos == 0);
    if k != 0 {
        assert(key_lt(
            (entries[0].playlist_idx, entries[0].priority),
            (entries[k].playlist_idx, entries[k].priority),
        ));
        assert(entries[k].priority == QueuePriority::VoteRestart);
    }
}

/// Without a restart vote, the first force-queued map is queued next,
/// unless the controller has just started.
pub proof fn law_force_queued_is_next(
    entries: Seq<QueueEntry>,
    force_queue: Seq<usize>,
    times_skipped: Seq<usize>,
    curr: Option<usize>,
    pref_sums: Seq<i32>,
)
    requires
        is_queue_for(entries, force_queue, times_skipped, true, curr, false, pref_sums),
        force_queue.len() > 0,
        force_queue.len() <= usize::MAX,
        force_queue[0] < times_skipped.len(),
    ensures
        entries[0].playlist_idx == force_queue[0],
{
    let f = force_queue[0];
    assert(is_first_pos(force_queue, f, 0));
    let c = choose|p: int| is_first_pos(force_queue, f, p);
    lemma_first_pos_unique(force_queue, f, 0, c);
    assert(has_entry_for(entries, f as int));
    let k = choose|k: int| 0 <= k < entries.len() && #[trigger] entries[k].playlist_idx == f;
    assert(first_pos(force_queue, f) == Some(0int));
    assert(entries[k].pos == k);
    assert(entries[0].pos == 0);
    assert(entries[k].priority == QueuePriority::Force(0));
    if k != 0 {
        assert(key_lt(
            (entries[0].playlist_idx, entries[0].priority),
            (entries[k].playlist_idx, entries[k].priority),
        ));
        let i0 = entries[0].playlist_idx;
        if entries[0].priority == QueuePriority::Force(0) {
            let p0 = first_pos(force_queue, i0);
            assert(p0 is Some);
            let q = choose|p: int| is_first_pos(force_queue, i0, p);
            assert(is_first_pos(force_queue, i0, q));
            assert(first_pos(force_queue, i0) == Some(q));
            assert(QueuePriority::Force(q as usize) == QueuePriority::Force(0));
            assert(q == 0);
            assert(entries[0].playlist_idx != entries[k].playlist_idx);
        }
    }
}

/// Without a restart vote, the map that was just played is queued last, behind
/// every other map, unless it was force-queued; so it is not queued next
/// unless it is the only map.
pub proof fn law_no_restart_without_vote(
    entries: Seq<QueueEntry>,
    force_queue: Seq<usize>,
    times_skipped: Seq<usize>,
    curr: usize,
    pref_sums: Seq<i32>,
)
    requires
        is_queue_for(entries, force_queue, times_skipped, true, Some(curr), false, pref_sums),
        curr < times_skipped.len(),
        !force_queue.contains(curr),
    ensures
        entries.last().playlist_idx == curr,
        times_skipped.len() > 1 ==> entries[0].playlist_idx != curr,
{
    assert forall|p: int| !is_first_pos(force_queue, curr, p) by {
        if is_first_pos(force_queue, curr, p) {
            assert(force_queue.contains(curr));
        }
    }
    assert(has_entry_for(entries, curr as int));
    let k = choose|k: int| 0 <= k < entries.len() && #[trigger] entries[k].playlist_idx == curr;
    assert(entries[k].pos == k);
    assert(entries[k].priority == QueuePriority::NoRestart);
    if k < entries.len() - 1 {
        let n = k + 1;
        assert(entries[n].pos == n);
        assert(key_lt(
            (entries[k].playlist_idx, entries[k].priority),
            (entries[n].playlist_idx, entries[n].priority),
        ));
        assert(entries[k].playlist_idx != entries[n].playlist_idx);
        assert(entries[n].priority != QueuePriority::NoRestart);
    }
}

impl QueueState {
    /// The threshold is within its bounds.
    pub open spec fn wf(&self) -> bool {
        DEFAULT_MIN_RESTART_VOTE_QUARTERS <= self.min_restart_vote_quarters
            <= MAX_RESTART_VOTE_QUARTERS
    }

    /// An empty queue for a playlist of the given length.
    pub fn init(playlist_len: usize) -> (s: Self)
        ensures
            s.wf(),
            s.entries@.len() == 0,
            s.times_skipped@ == Seq::new(playlist_len as nat, |i: int| 0usize),
            s.force_queue@.len() == 0,
            s.min_restart_vote_quarters == DEFAULT_MIN_RESTART_VOTE_QUARTERS,
    {
        let mut times_skipped: Vec<usize> = Vec::new();
        let mut i: usize = 0;
        while i < playlist_len
            invariant
                i <= playlist_len,
                times_skipped@ == Seq::new(i as nat, |k: int| 0usize),
            decreases playlist_len - i,
        {
            times_skipped.push(0);
            i = i + 1;
            assert(times_skipped@ =~= Seq::new(i as nat, |k: int| 0usize));
        }
        QueueState {
            entries: Vec::new(),
            times_skipped,
            force_queue: VecDeque::new(),
            min_restart_vote_quarters: DEFAULT_MIN_RESTART_VOTE_QUARTERS,
        }
    }

    /// Adds a skip count for a map appended to the playlist, and returns its
    /// playlist index.
    pub fn extend(&mut self) -> (idx: usize)
        ensures
            idx == old(self).times_skipped@.len(),
            final(self).times_skipped@ == old(self).times_skipped@.push(0),
            final(self).entries@ == old(self).entries@,
            final(self).force_queue@ == old(self).force_queue@,
            final(self).min_restart_vote_quarters == old(self).min_restart_vote_quarters,
    {
        let new_playlist_index = self.times_skipped.len();
        self.times_skipped.push(0);
        new_playlist_index
    }

    /// Queues a map at the front of the force queue, unless it is already there.
    pub fn force_queue_front(&mut self, index: usize)
        ensures
            final(self).force_queue@ == if old(self).force_queue@.len() > 0
                && old(self).force_queue@[0] == index {
                old(self).force_queue@
            } else {
                seq![index] + old(self).force_queue@
            },
            final(self).times_skipped@ == old(self).times_skipped@,
            final(self).entries@ == old(self).entries@,
            final(self).min_restart_vote_quarters == old(self).min_restart_vote_quarters,
    {
        if self.force_queue.len() > 0 && self.force_queue[0] == index {
            return;
        }
        self.force_queue.push_front(index);
    }

    /// Queues a map at the back of the force queue, unless it is already there.
    pub fn force_queue_back(&mut self, index: usize)
        ensures
            final(self).force_queue@ == if old(self).force_queue@.len() > 0
                && old(self).force_queue@.last() == index {
                old(self).force_queue@
            } else {
                old(self).force_queue@.push(index)
            },
            final(self).times_skipped@ == old(self).times_skipped@,
            final(self).entries@ == old(self).entries@,
            final(self).min_restart_vote_quarters == old(self).min_restart_vote_quarters,
    {
        let len = self.force_queue.len();
        if len > 0 && self.force_queue[len - 1] == index {
            return;
        }
        self.force_queue.push_back(index);
    }

    /// The position of the given playlist index in the force queue.
    pub fn force_queue_pos(&self, index: usize) -> (res: Option<usize>)
        ensures
            match res {
                Some(p) => first_pos(self.force_queue@, index) == Some(p as int),
                None => first_pos(self.force_queue@, index) is None,
            },
    {
        let len = self.force_queue.len();
        let mut p: usize = 0;
        while p < len
            invariant
                p <= len,
                len == self.force_queue@.len(),
                forall|q: int| 0 <= q < p ==> self.force_queue@[q] != index,
            decreases len - p,
        {
            if self.force_queue[p] == index {
                proof {
                    let s = self.force_queue@;
                    assert(is_first_pos(s, index, p as int));
                    let c = choose|q: int| is_first_pos(s, index, q);
                    lemma_first_pos_unique(s, index, p as int, c);
                }
                return Some(p);
            }
            p = p + 1;
        }
        proof {
            assert(!exists|q: int| is_first_pos(self.force_queue@, index, q));
        }
        None
    }

    /// Removes the map at the given playlist index from the skip counts and the
    /// force queue.
    pub fn remove(&mut self, index: usize)
        requires
            index < old(self).times_skipped@.len(),
        ensures
            final(self).times_skipped@ == old(self).times_skipped@.remove(index as int),
            final(self).force_queue@ == without(old(self).force_queue@, index),
            final(self).entries@ == old(self).entries@,
            final(self).min_restart_vote_quarters == old(self).min_restart_vote_quarters,
    {
        self.times_skipped.remove(index);
        let mut kept: VecDeque<usize> = VecDeque::new();
        let len = self.force_queue.len();
        let mut i: usize = 0;
        while i < len
            invariant
                i <= len,
                len == self.force_queue@.len(),
                kept@ == without(self.force_queue@.take(i as int), index),
            decreases len - i,
        {
            let x = self.force_queue[i];
            proof {
                assert(self.force_queue@.take(i as int + 1).drop_last() =~= self.force_queue@.take(i as int));
            }
            if x != index {
                kept.push_back(x);
            }
            i = i + 1;
        }
        assert(self.force_queue@.take(len as int) =~= self.force_queue@);
        self.force_queue = kept;
    }

    /// Follows a change of the playlist: an appended map gets a skip count,
    /// a newly imported one is also force-queued, and a removed one loses its
    /// skip count and force-queue entries.
    pub fn insert_or_remove(&mut self, diff: &PlaylistDiff)
        requires
            old(self).wf(),
            diff matches PlaylistDiff::Remove { was_index, .. } ==> was_index < old(self).times_skipped@.len(),
        ensures
            final(self).wf(),
            final(self).entries@ == old(self).entries@,
            match diff {
                PlaylistDiff::AppendNew(_) => {
                    &&& final(self).times_skipped@ == old(self).times_skipped@.push(0)
                    &&& final(self).force_queue@ == {
                        let idx = old(self).times_skipped@.len() as usize;
                        if old(self).force_queue@.len() > 0 && old(self).force_queue@.last() == idx {
                            old(self).force_queue@
                        } else {
                            old(self).force_queue@.push(idx)
                        }
                    }
                },
                PlaylistDiff::Append(_) => {
                    &&& final(self).times_skipped@ == old(self).times_skipped@.push(0)
                    &&& final(self).force_queue@ == old(self).force_queue@
                },
                PlaylistDiff::Remove { was_index, .. } => {
                    &&& final(self).times_skipped@ == old(self).times_skipped@.remove(*was_index as int)
                    &&& final(self).force_queue@ == without(old(self).force_queue@, *was_index)
                },
            },
    {
        match diff {
            PlaylistDiff::AppendNew(_) => {
                let new_idx = self.extend();
                self.force_queue_back(new_idx);
            },
            PlaylistDiff::Append(_) => {
                self.extend();
            },
            PlaylistDiff::Remove { was_index, .. } => {
                self.remove(*was_index);
            },
        }
    }

    /// Pushes the current map to the top of the force queue.
    /// Returns `false` if no map of the playlist is played.
    pub fn force_restart(&mut self, curr_index: Option<usize>) -> (res: bool)
        ensures
            res == curr_index is Some,
            final(self).force_queue@ == match curr_index {
                None => old(self).force_queue@,
                Some(idx) => if old(self).force_queue@.len() > 0 && old(self).force_queue@[0] == idx {
                    old(self).force_queue@
                } else {
                    seq![idx] + old(self).force_queue@
                },
            },
            final(self).times_skipped@ == old(self).times_skipped@,
            final(self).entries@ == old(self).entries@,
            final(self).min_restart_vote_quarters == old(self).min_restart_vote_quarters,
    {
        match curr_index {
            None => false,
            Some(idx) => {
                self.force_queue_front(idx);
                true
            },
        }
    }

    /// Queues the map at the given playlist index ahead of other maps.
    pub fn force_queue(&mut self, playlist_index: usize)
        ensures
            final(self).force_queue@ == if old(self).force_queue@.len() > 0
                && old(self).force_queue@.last() == playlist_index {
                old(self).force_queue@
            } else {
                old(self).force_queue@.push(playlist_index)
            },
            final(self).times_skipped@ == old(self).times_skipped@,
            final(self).entries@ == old(self).entries@,
            final(self).min_restart_vote_quarters == old(self).min_restart_vote_quarters,
    {
        self.force_queue_back(playlist_index);
    }

    /// Re-orders the queue at the end of a map.
    ///
    /// `curr_index` is the playlist index of the map that was played,
    /// `voted_restart` whether enough players voted to replay it,
    /// `pref_sums[i]` the preference score of the map at playlist index `i`,
    /// and `server_current_index` the playlist index the server reports as current.
    pub fn update_queue(
        &mut self,
        curr_index: Option<usize>,
        voted_restart: bool,
        pref_sums: &Vec<i32>,
        server_current_index: Option<usize>,
    ) -> (action: QueueAction)
        requires
            old(self).wf(),
            old(self).times_skipped@.len() > 0,
            scores_in_range(old(self).times_skipped@, pref_sums@),
        ensures
            final(self).wf(),
            final(self).times_skipped@ == skips_after(old(self).times_skipped@, curr_index),
            is_queue_for(
                final(self).entries@,
                old(self).force_queue@,
                final(self).times_skipped@,
                old(self).entries@.len() > 0,
                curr_index,
                voted_restart,
                pref_sums@,
            ),
            final(self).min_restart_vote_quarters == if voted_restart {
                if old(self).min_restart_vote_quarters + MIN_RESTART_VOTE_QUARTERS_STEP
                    > MAX_RESTART_VOTE_QUARTERS {
                    MAX_RESTART_VOTE_QUARTERS
                } else {
                    (old(self).min_restart_vote_quarters + MIN_RESTART_VOTE_QUARTERS_STEP) as u32
                }
            } else {
                DEFAULT_MIN_RESTART_VOTE_QUARTERS
            },
            final(self).force_queue@ == if voted_restart || old(self).force_queue@.len() == 0 {
                old(self).force_queue@
            } else {
                old(self).force_queue@.drop_first()
            },
            action == if curr_index == Some(final(self).entries@[0].playlist_idx) {
                QueueAction::RestartMap
            } else if server_current_index == Some(final(self).entries@[0].playlist_idx) {
                QueueAction::Keep
            } else {
                QueueAction::ChangeNext(final(self).entries@[0].playlist_idx)
            },
    {
        let ghost old_skips = self.times_skipped@;
        let n = self.times_skipped.len();
        let had_entries = self.entries.len() > 0;

        // Every map was skipped once more, except for the current map.
        let mut i: usize = 0;
        while i < n
            invariant
                i <= n,
                n == self.times_skipped@.len(),
                n == old_skips.len(),
                forall|k: int| 0 <= k < i ==> #[trigger] self.times_skipped@[k] == old_skips[k] + 1,
                forall|k: int| i <= k < n ==> #[trigger] self.times_skipped@[k] == old_skips[k],
                scores_in_range(old_skips, pref_sums@),
                self.force_queue@ == old(self).force_queue@,
                self.entries@ == old(self).entries@,
                self.min_restart_vote_quarters == old(self).min_restart_vote_quarters,
                old(self).wf(),
            decreases n - i,
        {
            let v = self.times_skipped[i];
            self.times_skipped.set(i, v + 1);
            i = i + 1;
        }
        match curr_index {
            Some(c) => {
                if c < n {
                    self.times_skipped.set(c, 0);
                }
            },
            None => {},
        }
        assert(self.times_skipped@ =~= skips_after(old_skips, curr_index));

        // Insert every playlist index into the ordering by priority.
        let mut sorted: Vec<(usize, QueuePriority)> = Vec::new();
        let mut i: usize = 0;
        while i < n
            invariant
                i <= n,
                n == self.times_skipped@.len(),
                n == old_skips.len(),
                self.times_skipped@ == skips_after(old_skips, curr_index),
                had_entries == (old(self).entries@.len() > 0),
                self.force_queue@ == old(self).force_queue@,
                self.min_restart_vote_quarters == old(self).min_restart_vote_quarters,
                old(self).wf(),
                scores_in_range(old_skips, pref_sums@),
                sorted@.len() == i,
                forall|a: int| 0 <= a < sorted@.len() ==> (#[trigger] sorted@[a]).0 < i,
                forall|a: int|
                    0 <= a < sorted@.len() ==> (#[trigger] sorted@[a]).1 == assigned_priority(
                        old(self).force_queue@,
                        skips_after(old_skips, curr_index),
                        had_entries,
                        curr_index,
                        voted_restart,
                        pref_sums@,
                        sorted@[a].0 as int,
                    ),
                forall|a: int, b: int|
                    0 <= a < b < sorted@.len() ==> key_lt(#[trigger] sorted@[a], #[trigger] sorted@[b]),
                forall|x: int| 0 <= x < i ==> #[trigger] has_index(sorted@, x),
            decreases n - i,
        {
            let is_curr = match curr_index {
                Some(c) => c == i,
                None => false,
            };
            let prio = if voted_restart && is_curr {
                QueuePriority::VoteRestart
            } else {
                match self.force_queue_pos(i) {
                    Some(p) => QueuePriority::Force(p),
                    None => {
                        if is_curr {
                            if had_entries {
                                QueuePriority::NoRestart
                            } else {
                                QueuePriority::ServerStart
                            }
                        } else {
                            let skips = self.times_skipped[i];
                            assert(skips == old_skips[i as int] + 1);
                            assert(old_skips[i as int] + 1 <= i32::MAX);
                            QueuePriority::Score(pref_sums[i] + (skips as i32))
                        }
                    },
                }
            };
            assert(prio == assigned_priority(
                old(self).force_queue@,
                skips_after(old_skips, curr_index),
                had_entries,
                curr_index,
                voted_restart,
                pref_sums@,
                i as int,
            ));

            // The first position whose priority comes after this one.
            let mut j: usize = 0;
            while j < sorted.len() && !prio.lt(&sorted[j].1)
                invariant
                    j <= sorted@.len(),
                    forall|a: int| 0 <= a < j ==> !priority_lt(prio, (#[trigger] sorted@[a]).1),
                decreases sorted@.len() - j,
            {
                j = j + 1;
            }
            let ghost before = sorted@;
            let e = (i, prio);
            sorted.insert(j, e);
            proof {
                assert(sorted@ == before.insert(j as int, e));
                assert forall|a: int, b: int| 0 <= a < b < sorted@.len() implies key_lt(
                    #[trigger] sorted@[a],
                    #[trigger] sorted@[b],
                ) by {
                    if b < j {
                        assert(sorted@[a] == before[a] && sorted@[b] == before[b]);
                    } else if b == j {
                        assert(sorted@[a] == before[a]);
                        lemma_priority_order(prio, before[a].1, prio);
                    } else if a < j {
                        assert(sorted@[a] == before[a] && sorted@[b] == before[b - 1]);
                    } else if a == j {
                        assert(sorted@[b] == before[b - 1]);
                        assert(priority_lt(prio, before[j as int].1));
                        if b - 1 > j {
                            assert(key_lt(before[j as int], before[b - 1]));
                            lemma_key_lt_transitive(e, before[j as int], before[b - 1]);
                        }
                    } else {
                        assert(sorted@[a] == before[a - 1] && sorted@[b] == before[b - 1]);
                    }
                }
                assert forall|x: int| 0 <= x < i + 1 implies #[trigger] has_index(sorted@, x) by {
                    if x == i {
                        assert(sorted@[j as int].0 == x);
                    } else {
                        assert(has_index(before, x));
                        let a = choose|a: int| 0 <= a < before.len() && (#[trigger] before[a]).0 == x;
                        if a < j {
                            assert(sorted@[a].0 == x);
                        } else {
                            assert(sorted@[a + 1].0 == x);
                        }
                    }
                }
                assert forall|a: int| 0 <= a < sorted@.len() implies (#[trigger] sorted@[a]).0 < i + 1 by {
                    if a < j {
                        assert(sorted@[a] == before[a]);
                    } else if a > j {
                        assert(sorted@[a] == before[a - 1]);
                    }
                }
                assert forall|a: int| 0 <= a < sorted@.len() implies (#[trigger] sorted@[a]).1
                    == assigned_priority(
                    old(self).force_queue@,
                    skips_after(old_skips, curr_index),
                    had_entries,
                    curr_index,
                    voted_restart,
                    pref_sums@,
                    sorted@[a].0 as int,
                ) by {
                    if a < j {
                        assert(sorted@[a] == before[a]);
                    } else if a > j {
                        assert(sorted@[a] == before[a - 1]);
                    }
                }
            }
            i = i + 1;
        }

        // Update the restart threshold, and dequeue the next force-queued map.
        if voted_restart {
            let q = self.min_restart_vote_quarters + MIN_RESTART_VOTE_QUARTERS_STEP;
            self.min_restart_vote_quarters = if q > MAX_RESTART_VOTE_QUARTERS {
                MAX_RESTART_VOTE_QUARTERS
            } else {
                q
            };
        } else {
            self.min_restart_vote_quarters = DEFAULT_MIN_RESTART_VOTE_QUARTERS;
            let _ = self.force_queue.pop_front();
        }

        // Assign positions.
        let mut entries: Vec<QueueEntry> = Vec::new();
        let mut k: usize = 0;
        while k < n
            invariant
                k <= n,
                sorted@.len() == n,
                entries@.len() == k,
                forall|a: int| 0 <= a < k ==> {
                    &&& (#[trigger] entries@[a]).pos == a
                    &&& entries@[a].playlist_idx == sorted@[a].0
                    &&& entries@[a].priority == sorted@[a].1
                },
            decreases n - k,
        {
            entries.push(QueueEntry { pos: k, playlist_idx: sorted[k].0, priority: sorted[k].1 });
            k = k + 1;
        }
        proof {
            assert forall|a: int, b: int| 0 <= a < b < entries@.len() implies key_lt(
                (#[trigger] entries@[a].playlist_idx, entries@[a].priority),
                (#[trigger] entries@[b].playlist_idx, entries@[b].priority),
            ) by {
                assert(key_lt(sorted@[a], sorted@[b]));
                assert((entries@[a].playlist_idx, entries@[a].priority) == sorted@[a]);
                assert((entries@[b].playlist_idx, entries@[b].priority) == sorted@[b]);
            }
            assert forall|a: int, b: int| 0 <= a < b < entries@.len() implies #[trigger] entries@[a].playlist_idx
                != #[trigger] entries@[b].playlist_idx by {
                assert(key_lt(sorted@[a], sorted@[b]));
                if sorted@[a].0 == sorted@[b].0 {
                    lemma_priority_order(sorted@[a].1, sorted@[b].1, sorted@[b].1);
                }
            }
            assert forall|a: int| 0 <= a < entries@.len() implies entries@[a].playlist_idx < n by {
                assert(sorted@[a].0 < n);
            }
            assert forall|x: int| 0 <= x < n implies #[trigger] has_entry_for(entries@, x) by {
                assert(has_index(sorted@, x));
                let a = choose|a: int| 0 <= a < sorted@.len() && (#[trigger] sorted@[a]).0 == x;
                assert(entries@[a].playlist_idx == x);
            }
        }
        self.entries = entries;

        let next_idx = self.entries[0].playlist_idx;
        let is_restart = match curr_index {
            Some(c) => c == next_idx,
            None => false,
        };
        if is_restart {
            QueueAction::RestartMap
        } else {
            match server_current_index {
                Some(s) => {
                    if s == next_idx {
                        QueueAction::Keep
                    } else {
                        QueueAction::ChangeNext(next_idx)
                    }
                },
                None => QueueAction::ChangeNext(next_idx),
            }
        }
    }

    /// The queue position of the map at the given playlist index, or `None`
    /// if it has no entry.
    pub fn pos(&self, playlist_idx: usize) -> (res: Option<usize>)
        ensures
            match res {
                Some(p) => exists|k: int|
                    0 <= k < self.entries@.len() && self.entries@[k].playlist_idx == playlist_idx
                        && self.entries@[k].pos == p && forall|m: int|
                        0 <= m < k ==> self.entries@[m].playlist_idx != playlist_idx,
                None => forall|k: int|
                    0 <= k < self.entries@.len() ==> self.entries@[k].playlist_idx != playlist_idx,
            },
    {
        let mut k: usize = 0;
        while k < self.entries.len()
            invariant
                k <= self.entries@.len(),
                forall|m: int| 0 <= m < k ==> self.entries@[m].playlist_idx != playlist_idx,
            decreases self.entries@.len() - k,
        {
            if self.entries[k].playlist_idx == playlist_idx {
                return Some(self.entries[k].pos);
            }
            k = k + 1;
        }
        None
    }

    /// The first entries of the queue, at most `MAX_DISPLAYED_IN_QUEUE`.
    pub fn peek(&self) -> (res: Vec<QueueEntry>)
        ensures
            res@ == self.entries@.take(
                if self.entries@.len() < MAX_DISPLAYED_IN_QUEUE {
                    self.entries@.len() as int
                } else {
                    MAX_DISPLAYED_IN_QUEUE as int
                },
            ),
    {
        let mut res: Vec<QueueEntry> = Vec::new();
        let mut k: usize = 0;
        while k < self.entries.len() && k < MAX_DISPLAYED_IN_QUEUE
            invariant
                k <= self.entries@.len(),
                k <= MAX_DISPLAYED_IN_QUEUE,
                res@ == self.entries@.take(k as int),
            decreases self.entries@.len() - k,
        {
            res.push(self.entries[k]);
            k = k + 1;
            assert(res@ =~= self.entries@.take(k as int));
        }
        res
    }
}

} // verus!
