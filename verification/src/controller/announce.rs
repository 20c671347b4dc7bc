//! Which events are announced in the chat, and how.

use vstd::prelude::*;

use crate::chat::message::{ServerMessage, TopRankMessage};
use crate::controller::player::PlayerDiff;
use crate::controller::playlist::PlaylistDiff;
use crate::controller::record::PbDiff;
use crate::controller::server_ranking::ServerRankDiff;

verus! {

/// The worst map record that is announced when it is set.
pub const MAX_ANNOUNCED_RECORD: usize = 10;

/// The worst map record that is announced when it is improved without a
/// better rank.
pub const MAX_ANNOUNCED_RECORD_IMPROVEMENT: usize = 3;

/// The worst server rank that is announced when it is reached.
pub const MAX_ANNOUNCED_RANK: usize = 10;

/// The number of top server ranks that are announced at once.
pub const MAX_NB_ANNOUNCED_RANKS: usize = 3;

/// The announcement of a player that joins or leaves; moves between
/// player and spectator slots are not announced.
pub fn player_message<'a>(diff: &'a PlayerDiff) -> (res: Option<ServerMessage<'a>>)
    ensures
        match diff {
            PlayerDiff::AddPlayer(i) | PlayerDiff::AddSpectator(i) | PlayerDiff::AddPureSpectator(i) =>
                res matches Some(ServerMessage::Joining { display_name }) && display_name@
                    == i.display_name.formatted@,
            PlayerDiff::RemovePlayer(i) | PlayerDiff::RemoveSpectator(i) | PlayerDiff::RemovePureSpectator(
                i,
            ) => res matches Some(ServerMessage::Leaving { display_name }) && display_name@
                == i.display_name.formatted@,
            _ => res is None,
        },
{
    match diff {
        PlayerDiff::AddPlayer(i) | PlayerDiff::AddSpectator(i) | PlayerDiff::AddPureSpectator(i) => Some(
            ServerMessage::Joining { display_name: i.display_name.formatted.as_str() },
        ),
        PlayerDiff::RemovePlayer(i) | PlayerDiff::RemoveSpectator(i) | PlayerDiff::RemovePureSpectator(
            i,
        ) => Some(ServerMessage::Leaving { display_name: i.display_name.formatted.as_str() }),
        _ => None,
    }
}

/// The announcement of a finished run: a new top record that gained ranks,
/// or a top record that was improved without a better rank. A new or
/// improved first record is always announced.
pub fn record_message<'a>(diff: &'a PbDiff) -> (res: Option<ServerMessage<'a>>)
    ensures
        match diff.new_record {
            Some(r) => if diff.pos_gained > 0 && diff.new_pos <= MAX_ANNOUNCED_RECORD {
                res matches Some(ServerMessage::TopRecord { player_display_name, new_map_rank, millis })
                    && player_display_name@ == r.player_nick_name@ && new_map_rank == diff.new_pos
                    && millis == r.millis as usize
            } else if diff.pos_gained == 0 && (diff.millis_diff matches Some(d) && d < 0)
                && diff.new_pos <= MAX_ANNOUNCED_RECORD_IMPROVEMENT {
                res matches Some(ServerMessage::TopRecordImproved { player_display_name, map_rank, millis })
                    && player_display_name@ == r.player_nick_name@ && map_rank == diff.new_pos
                    && millis == r.millis as usize
            } else {
                res is None
            },
            None => res is None,
        },
        diff.new_record is Some && diff.new_pos == 1 && (diff.pos_gained > 0 || (diff.millis_diff matches Some(d)
            && d < 0)) ==> res is Some,
{
    match &diff.new_record {
        Some(r) => {
            if diff.pos_gained > 0 && diff.new_pos <= MAX_ANNOUNCED_RECORD {
                Some(
                    ServerMessage::TopRecord {
                        player_display_name: r.player_nick_name.as_str(),
                        new_map_rank: diff.new_pos,
                        millis: r.millis as usize,
                    },
                )
            } else if diff.pos_gained == 0 && match diff.millis_diff {
                Some(d) => d < 0,
                None => false,
            } && diff.new_pos <= MAX_ANNOUNCED_RECORD_IMPROVEMENT {
                Some(
                    ServerMessage::TopRecordImproved {
                        player_display_name: r.player_nick_name.as_str(),
                        map_rank: diff.new_pos,
                        millis: r.millis as usize,
                    },
                )
            } else {
                None
            }
        },
        None => None,
    }
}

/// The announcement of a change of the playlist.
pub fn playlist_message<'a>(diff: &'a PlaylistDiff) -> (res: ServerMessage<'a>)
    ensures
        match diff {
            PlaylistDiff::AppendNew(map) => res matches ServerMessage::NewMap { name, author } && name@
                == map.name.formatted@ && author@ == map.author_display_name.formatted@,
            PlaylistDiff::Append(map) => res matches ServerMessage::AddedMap { name } && name@
                == map.name.formatted@,
            PlaylistDiff::Remove { map, .. } => res matches ServerMessage::RemovedMap { name } && name@
                == map.name.formatted@,
        },
{
    match diff {
        PlaylistDiff::AppendNew(map) => ServerMessage::NewMap {
            name: map.name.formatted.as_str(),
            author: map.author_display_name.formatted.as_str(),
        },
        PlaylistDiff::Append(map) => ServerMessage::AddedMap { name: map.name.formatted.as_str() },
        PlaylistDiff::Remove { map, .. } => ServerMessage::RemovedMap { name: map.name.formatted.as_str() },
    }
}

/// A top rank as it is announced: the display name and the rank.
pub open spec fn rank_view(t: TopRankMessage) -> (Seq<char>, usize) {
    (t.display_name@, t.rank)
}

/// The ranks of connected players that gained positions and reached a top
/// rank, in the order of the changes.
pub open spec fn reached_top(diffs: Seq<(i32, ServerRankDiff)>) -> Seq<(Seq<char>, usize)>
    decreases diffs.len(),
{
    if diffs.len() == 0 {
        Seq::empty()
    } else {
        let rest = reached_top(diffs.drop_last());
        let d = diffs.last().1;
        if d.gained_pos > 0 && d.new_pos <= MAX_ANNOUNCED_RANK {
            rest.push((d.player_display_name.formatted@, d.new_pos))
        } else {
            rest
        }
    }
}

/// `x` put into `t` after every entry whose rank is not greater.
pub open spec fn insert_by_rank(t: Seq<(Seq<char>, usize)>, x: (Seq<char>, usize)) -> Seq<(Seq<char>, usize)>
    decreases t.len(),
{
    if t.len() == 0 {
        seq![x]
    } else if x.1 < t.last().1 {
        insert_by_rank(t.drop_last(), x).push(t.last())
    } else {
        t.push(x)
    }
}

/// The entries sorted by rank, best first, stably.
pub open spec fn sort_by_rank(s: Seq<(Seq<char>, usize)>) -> Seq<(Seq<char>, usize)>
    decreases s.len(),
{
    if s.len() == 0 {
        s
    } else {
        insert_by_rank(sort_by_rank(s.drop_last()), s.last())
    }
}

/// The top ranks that are announced: the best few of those reached, the
/// best last, where it stands out most in the chat.
pub open spec fn announced_ranks(diffs: Seq<(i32, ServerRankDiff)>) -> Seq<(Seq<char>, usize)> {
    let sorted = sort_by_rank(reached_top(diffs));
    let n = if sorted.len() < MAX_NB_ANNOUNCED_RANKS {
        sorted.len() as int
    } else {
        MAX_NB_ANNOUNCED_RANKS as int
    };
    sorted.take(n).reverse()
}

/// The announcement of players that reached a top server rank.
pub fn top_ranks_message<'a>(diffs: &'a Vec<(i32, ServerRankDiff)>) -> (res: ServerMessage<'a>)
    ensures
        res matches ServerMessage::NewTopRanks(v) && v@.map_values(|t: TopRankMessage| rank_view(t))
            == announced_ranks(diffs@),
{
    let ghost q = reached_top(diffs@);
    let mut sorted: Vec<TopRankMessage<'a>> = Vec::new();
    let mut i: usize = 0;
    while i < diffs.len()
        invariant
            i <= diffs@.len(),
            q == reached_top(diffs@),
            sorted@.map_values(|t: TopRankMessage| rank_view(t)) == sort_by_rank(reached_top(diffs@.take(i as int))),
        decreases diffs@.len() - i,
    {
        let d = &diffs[i].1;
        proof {
            assert(diffs@.take(i + 1).drop_last() =~= diffs@.take(i as int));
            assert(diffs@.take(i + 1).last() == diffs@[i as int]);
        }
        if d.gained_pos > 0 && d.new_pos <= MAX_ANNOUNCED_RANK {
            let x = TopRankMessage { display_name: d.player_display_name.formatted.as_str(), rank: d.new_pos };
            let ghost xv = rank_view(x);
            let ghost t = sorted@.map_values(|t: TopRankMessage| rank_view(t));
            let ghost prev = reached_top(diffs@.take(i as int));
            assert(reached_top(diffs@.take(i + 1)) == prev.push(xv));
            assert(prev.push(xv).drop_last() =~= prev);
            let mut j: usize = sorted.len();
            assert(t.take(j as int) =~= t);
            assert(insert_by_rank(t, xv) + t.skip(j as int) =~= insert_by_rank(t, xv));
            while j > 0 && x.rank < sorted[j - 1].rank
                invariant
                    j <= sorted@.len(),
                    t == sorted@.map_values(|t: TopRankMessage| rank_view(t)),
                    xv == rank_view(x),
                    insert_by_rank(t, xv) == insert_by_rank(t.take(j as int), xv) + t.skip(j as int),
                decreases j,
            {
                proof {
                    let tj = t.take(j as int);
                    assert(tj.last() == rank_view(sorted@[j - 1]));
                    assert(tj.drop_last() =~= t.take(j - 1));
                    assert(insert_by_rank(tj, xv) == insert_by_rank(t.take(j - 1), xv).push(tj.last()));
                    assert(insert_by_rank(t.take(j - 1), xv).push(tj.last()) + t.skip(j as int)
                        =~= insert_by_rank(t.take(j - 1), xv) + t.skip(j - 1));
                }
                j = j - 1;
            }
            proof {
                let tj = t.take(j as int);
                if j > 0 {
                    assert(tj.last() == rank_view(sorted@[j - 1]));
                }
                assert(insert_by_rank(tj, xv) =~= tj.push(xv));
            }
            sorted.insert(j, x);
            proof {
                assert(sorted@.map_values(|t: TopRankMessage| rank_view(t)) =~= t.take(j as int).push(xv) + t.skip(j as int));
            }
        } else {
            assert(reached_top(diffs@.take(i + 1)) == reached_top(diffs@.take(i as int)));
        }
        i = i + 1;
    }
    assert(diffs@.take(diffs@.len() as int) =~= diffs@);
    let ghost s = sorted@.map_values(|t: TopRankMessage| rank_view(t));
    let n = if sorted.len() < MAX_NB_ANNOUNCED_RANKS {
        sorted.len()
    } else {
        MAX_NB_ANNOUNCED_RANKS
    };
    let mut out: Vec<TopRankMessage<'a>> = Vec::new();
    let mut k: usize = n;
    while k > 0
        invariant
            k <= n,
            n <= sorted@.len(),
            s == sorted@.map_values(|t: TopRankMessage| rank_view(t)),
            out@.map_values(|t: TopRankMessage| rank_view(t)) == s.take(n as int).skip(k as int).reverse(),
        decreases k,
    {
        let t = &sorted[k - 1];
        let ghost prev = out@.map_values(|t: TopRankMessage| rank_view(t));
        let x = TopRankMessage { display_name: t.display_name, rank: t.rank };
        out.push(x);
        proof {
            let a = s.take(n as int).skip(k - 1);
            let b = s.take(n as int).skip(k as int);
            let o = out@.map_values(|t: TopRankMessage| rank_view(t));
            assert(o =~= prev.push(rank_view(x)));
            assert(rank_view(x) == s[k - 1]);
            assert(b.reverse().len() == b.len());
            assert(a.reverse().len() == a.len());
            assert(o.len() == a.len());
            assert forall|idx: int| 0 <= idx < o.len() implies o[idx] == a.reverse()[idx] by {
                if idx < o.len() - 1 {
                    assert(o[idx] == b.reverse()[idx]);
                }
            }
            assert(o =~= a.reverse());
        }
        k = k - 1;
    }
    assert(s.take(n as int).skip(0) =~= s.take(n as int));
    ServerMessage::NewTopRanks(out)
}

} // verus!
