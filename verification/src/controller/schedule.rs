//! Time limits of maps, and when a map of the playlist will be played.

use vstd::prelude::*;

use crate::controller::playlist::PlaylistDiff;
use crate::controller::queue::{QueueEntry, QueueState};

verus! {

/// The time limit is this many times the reference time of a map...
pub const TIME_LIMIT_FACTOR: u64 = 10;
/// ...rounded to a multiple of this many milliseconds...
pub const TIME_LIMIT_DIVIDER: u64 = 30000;
/// ...and at least this long...
pub const TIME_LIMIT_MIN: u64 = 300000;
/// ...and at most this long.
pub const TIME_LIMIT_MAX: u64 = 900000;

/// The time limit for a map with the given reference time, in milliseconds:
/// ten times the reference time, rounded to the nearest multiple of 30
/// seconds (down at the midpoint), between 5 and 15 minutes.
pub open spec fn spec_to_limit(ref_millis: int) -> int {
    let i = ref_millis * 10;
    let rem = i % 30000;
    let rounded = if rem > 15000 { i + 30000 - rem } else { i - rem };
    let capped = if rounded < 900000 { rounded } else { 900000 };
    if capped > 300000 { capped } else { 300000 }
}

/// The time limit for a map with the given reference time, in milliseconds.
pub fn to_limit(ref_millis: u64) -> (res: u64)
    requires
        ref_millis * TIME_LIMIT_FACTOR + TIME_LIMIT_DIVIDER <= u64::MAX,
    ensures
        res == spec_to_limit(ref_millis as int),
{
    let n = TIME_LIMIT_DIVIDER;
    let i = ref_millis * TIME_LIMIT_FACTOR;
    let rem = i % n;
    let limit = if rem > n / 2 {
        i + n - rem
    } else {
        i - rem
    };
    let limit = if limit < TIME_LIMIT_MAX { limit } else { TIME_LIMIT_MAX };
    if limit > TIME_LIMIT_MIN { limit } else { TIME_LIMIT_MIN }
}

/// The number of queue entries before the one of `playlist_idx`: all of
/// them if it has none.
pub open spec fn nb_ahead(entries: Seq<QueueEntry>, playlist_idx: usize) -> int {
    if exists|i: int| 0 <= i < entries.len() && entries[i].playlist_idx == playlist_idx {
        choose|i: int| 0 <= i < entries.len() && entries[i].playlist_idx == playlist_idx && forall|j: int| 0 <= j < i ==> entries[j].playlist_idx != playlist_idx
    } else {
        entries.len() as int
    }
}

/// The time the first `n` entries of the queue take to be played: for each,
/// its time limit, and the time in between maps.
pub open spec fn time_of_entries(refs: Seq<u64>, entries: Seq<QueueEntry>, n: int, between_millis: int) -> int
    decreases n,
{
    if n <= 0 {
        0
    } else {
        time_of_entries(refs, entries, n - 1, between_millis) + spec_to_limit(refs[entries[n - 1].playlist_idx as int] as int)
            + between_millis
    }
}

/// The reference times of the playlist maps, for the time limits.
pub struct Schedule {
    /// The reference time of the map at each playlist index: typically the
    /// top record, or the author time if no record was set yet.
    pub reference_millis: Vec<u64>,
}

/// The reference time of a map: its top record if it has one, else its
/// author time.
pub open spec fn reference_of(top_record_millis: Option<i32>, author_millis: i32) -> u64 {
    match top_record_millis {
        Some(m) => m as u64,
        None => author_millis as u64,
    }
}

impl Schedule {
    /// A schedule with the given reference times.
    pub fn init(reference_millis: Vec<u64>) -> (res: Self)
        ensures
            res.reference_millis == reference_millis,
    {
        Schedule { reference_millis }
    }

    /// Sets the time limit for the map at playlist index `idx`, based on
    /// its top record if there is one (which then becomes its reference time),
    /// else on its reference time. Returns the time limit in seconds.
    pub fn set_time_limit(&mut self, idx: usize, top_record_millis: Option<i32>) -> (res: i32)
        requires
            idx < old(self).reference_millis@.len(),
            (match top_record_millis {
                Some(m) => m as u64,
                None => old(self).reference_millis@[idx as int],
            }) * TIME_LIMIT_FACTOR + TIME_LIMIT_DIVIDER <= u64::MAX,
        ensures
            final(self).reference_millis@ == match top_record_millis {
                Some(m) => old(self).reference_millis@.update(idx as int, m as u64),
                None => old(self).reference_millis@,
            },
            res == spec_to_limit(final(self).reference_millis@[idx as int] as int) / 1000,
    {
        match top_record_millis {
            Some(m) => {
                self.reference_millis.set(idx, m as u64);
            },
            None => {},
        }
        let limit = to_limit(self.reference_millis[idx]);
        (limit / 1000) as i32
    }

    /// Follows a change of the playlist: an imported map's reference is its
    /// author time, an added map's its top record (`top_record_millis`) or
    /// else its author time; a removed map's reference is dropped.
    pub fn insert_or_remove(&mut self, diff: &PlaylistDiff, top_record_millis: Option<i32>)
        requires
            diff matches PlaylistDiff::Remove { was_index, .. } ==> was_index < old(self).reference_millis@.len(),
        ensures
            final(self).reference_millis@ == match diff {
                PlaylistDiff::AppendNew(map) => old(self).reference_millis@.push(map.author_millis as u64),
                PlaylistDiff::Append(map) => old(self).reference_millis@.push(reference_of(top_record_millis, map.author_millis)),
                PlaylistDiff::Remove { was_index, .. } => old(self).reference_millis@.remove(*was_index as int),
            },
    {
        match diff {
            PlaylistDiff::AppendNew(map) => {
                self.reference_millis.push(map.author_millis as u64);
            },
            PlaylistDiff::Append(map) => {
                let millis = match top_record_millis {
                    Some(m) => m as u64,
                    None => map.author_millis as u64,
                };
                self.reference_millis.push(millis);
            },
            PlaylistDiff::Remove { was_index, .. } => {
                self.reference_millis.remove(*was_index);
            },
        }
    }


    /// The expected time until the map at `playlist_idx` is played, in
    /// milliseconds: zero if it is the current map; else what is left of the
    /// current map's time limit after `elapsed_millis`, and for each queued
    /// map ahead of it its time limit, each followed by `between_millis`.
    /// `None` if the map is not in the playlist.
    pub fn time_until_played(
        &self,
        queue: &QueueState,
        playlist_idx: Option<usize>,
        curr_playlist_idx: Option<usize>,
        elapsed_millis: u64,
        between_millis: u64,
    ) -> (res: Option<u64>)
        requires
            forall|i: int| 0 <= i < queue.entries@.len() ==> (#[trigger] queue.entries@[i]).playlist_idx < self.reference_millis@.len(),
            forall|i: int| 0 <= i < self.reference_millis@.len() ==> (#[trigger] self.reference_millis@[i]) * TIME_LIMIT_FACTOR + TIME_LIMIT_DIVIDER <= u64::MAX,
            curr_playlist_idx matches Some(c) ==> c < self.reference_millis@.len()
                && elapsed_millis <= spec_to_limit(self.reference_millis@[c as int] as int),
            playlist_idx matches Some(p) ==> (match curr_playlist_idx {
                Some(c) => spec_to_limit(self.reference_millis@[c as int] as int) - elapsed_millis,
                None => 0int,
            }) + between_millis + time_of_entries(self.reference_millis@, queue.entries@, nb_ahead(queue.entries@, p), between_millis as int) <= u64::MAX,
        ensures
            match playlist_idx {
                None => res is None,
                Some(p) => if curr_playlist_idx == Some(p) {
                    res == Some(0u64)
                } else {
                    res == Some(((match curr_playlist_idx {
                        Some(c) => spec_to_limit(self.reference_millis@[c as int] as int) - elapsed_millis,
                        None => 0int,
                    }) + between_millis + time_of_entries(self.reference_millis@, queue.entries@, nb_ahead(queue.entries@, p), between_millis as int)) as u64)
                },
            },
    {
        let p = match playlist_idx {
            Some(p) => p,
            None => return None,
        };
        if curr_playlist_idx == Some(p) {
            return Some(0);
        }
        let mut head: u64 = 0;
        match curr_playlist_idx {
            Some(c) => {
                head = to_limit(self.reference_millis[c]) - elapsed_millis;
            },
            None => {},
        }
        let n = count_ahead(&queue.entries, p);
        proof {
            lemma_time_of_entries_grows(self.reference_millis@, queue.entries@, n as int, between_millis as int);
        }
        let mut result: u64 = head + between_millis;
        let mut k: usize = 0;
        while k < n
            invariant
                n <= queue.entries@.len(),
                n == nb_ahead(queue.entries@, p),
                k <= n,
                result == head + between_millis + time_of_entries(self.reference_millis@, queue.entries@, k as int, between_millis as int),
                head + between_millis + time_of_entries(self.reference_millis@, queue.entries@, n as int, between_millis as int) <= u64::MAX,
                forall|i: int| 0 <= i < queue.entries@.len() ==> (#[trigger] queue.entries@[i]).playlist_idx < self.reference_millis@.len(),
                forall|i: int| 0 <= i < self.reference_millis@.len() ==> (#[trigger] self.reference_millis@[i]) * TIME_LIMIT_FACTOR + TIME_LIMIT_DIVIDER <= u64::MAX,
            decreases n - k,
        {
            proof {
                lemma_time_of_entries_mono(self.reference_millis@, queue.entries@, k + 1, n as int, between_millis as int);
                lemma_time_of_entries_grows(self.reference_millis@, queue.entries@, k as int, between_millis as int);
            }
            let idx = queue.entries[k].playlist_idx;
            let limit = to_limit(self.reference_millis[idx]);
            result = result + limit;
            result = result + between_millis;
            k = k + 1;
        }
        Some(result)
    }
}

/// The number of queue entries before the one of `p`.
fn count_ahead(entries: &Vec<QueueEntry>, p: usize) -> (n: usize)
    ensures
        n == nb_ahead(entries@, p),
        n <= entries@.len(),
{
    let mut k: usize = 0;
    while k < entries.len()
        invariant
            k <= entries@.len(),
            forall|j: int| 0 <= j < k ==> entries@[j].playlist_idx != p,
        decreases entries@.len() - k,
    {
        if entries[k].playlist_idx == p {
            proof {
                let s = entries@;
                let w = k as int;
                let c = choose|i: int| 0 <= i < s.len() && s[i].playlist_idx == p && forall|j: int| 0 <= j < i ==> s[j].playlist_idx != p;
                if c < w {
                } else if w < c {
                    assert(s[w].playlist_idx != p);
                }
            }
            return k;
        }
        k = k + 1;
    }
    k
}

proof fn lemma_time_of_entries_grows(refs: Seq<u64>, entries: Seq<QueueEntry>, n: int, between: int)
    requires
        between >= 0,
    ensures
        time_of_entries(refs, entries, n, between) >= 0,
    decreases n,
{
    if n > 0 {
        lemma_time_of_entries_grows(refs, entries, n - 1, between);
    }
}

proof fn lemma_time_of_entries_mono(refs: Seq<u64>, entries: Seq<QueueEntry>, a: int, b: int, between: int)
    requires
        between >= 0,
        a <= b,
    ensures
        time_of_entries(refs, entries, a, between) <= time_of_entries(refs, entries, b, between),
    decreases b - a,
{
    if a < b {
        lemma_time_of_entries_mono(refs, entries, a, b - 1, between);
    }
}

/// The time limit of a map is between 5 and 15 minutes, a whole number of
/// 30-second steps, and as close as such a step can be to ten times the
/// reference time: it is 5 minutes for maps whose ten-fold reference time is
/// at most 5 minutes, 15 minutes for those at 15 minutes or more, and within
/// 15 seconds of ten times the reference time in between (half a step exactly
/// is rounded down). A longer reference time never gives a shorter limit.
pub proof fn law_time_limit_bounds(r: int, r2: int)
    requires
        0 <= r,
        r <= r2,
    ensures
        TIME_LIMIT_MIN <= spec_to_limit(r) <= TIME_LIMIT_MAX,
        spec_to_limit(r) % (TIME_LIMIT_DIVIDER as int) == 0,
        r * 10 <= TIME_LIMIT_MIN ==> spec_to_limit(r) == TIME_LIMIT_MIN,
        r * 10 >= TIME_LIMIT_MAX ==> spec_to_limit(r) == TIME_LIMIT_MAX,
        TIME_LIMIT_MIN <= r * 10 <= TIME_LIMIT_MAX ==> -15000 <= spec_to_limit(r) - r * 10 < 15000,
        spec_to_limit(r) <= spec_to_limit(r2),
{
    let i = r * 10;
    let j = r2 * 10;
    assert(i % 30000 >= 0 && i % 30000 < 30000);
    assert(j % 30000 >= 0 && j % 30000 < 30000);
    assert((i - i % 30000) % 30000 == 0) by (nonlinear_arith)
        requires
            i >= 0,
    ;
    assert((i + 30000 - i % 30000) % 30000 == 0) by (nonlinear_arith)
        requires
            i >= 0,
    ;
    // Rounding to the nearest step keeps the order of the ten-fold times.
    let ri = if i % 30000 > 15000 { i + 30000 - i % 30000 } else { i - i % 30000 };
    let rj = if j % 30000 > 15000 { j + 30000 - j % 30000 } else { j - j % 30000 };
    assert(ri <= rj) by (nonlinear_arith)
        requires
            0 <= i <= j,
            ri == if i % 30000 > 15000 { i + 30000 - i % 30000 } else { i - i % 30000 },
            rj == if j % 30000 > 15000 { j + 30000 - j % 30000 } else { j - j % 30000 },
    ;
}

/// Each map ahead in the queue adds its time limit, between 5 and 15
/// minutes, and the time in between maps to the wait: a map `k` places
/// further back waits at least `k` times 5 minutes plus the time in between,
/// and at most `k` times 15 minutes plus it, longer.
pub proof fn law_wait_grows_with_each_map_ahead(refs: Seq<u64>, entries: Seq<QueueEntry>, a: int, b: int, between: int)
    requires
        0 <= a <= b,
        between >= 0,
    ensures
        (b - a) * (TIME_LIMIT_MIN + between) <= time_of_entries(refs, entries, b, between) - time_of_entries(
            refs,
            entries,
            a,
            between,
        ) <= (b - a) * (TIME_LIMIT_MAX + between),
    decreases b - a,
{
    if a < b {
        law_wait_grows_with_each_map_ahead(refs, entries, a, b - 1, between);
        let r = refs[entries[b - 1].playlist_idx as int] as int;
        law_time_limit_bounds(r, r);
        assert(time_of_entries(refs, entries, b, between) == time_of_entries(refs, entries, b - 1, between)
            + spec_to_limit(r) + between);
        let lo = TIME_LIMIT_MIN + between;
        let hi = TIME_LIMIT_MAX + between;
        assert((b - a) * lo == (b - 1 - a) * lo + lo) by (nonlinear_arith);
        assert((b - a) * hi == (b - 1 - a) * hi + hi) by (nonlinear_arith);
    } else {
        assert((b - a) * (TIME_LIMIT_MIN + between) == 0) by (nonlinear_arith)
            requires
                a == b,
        ;
        assert((b - a) * (TIME_LIMIT_MAX + between) == 0) by (nonlinear_arith)
            requires
                a == b,
        ;
    }
}

} // verus!
