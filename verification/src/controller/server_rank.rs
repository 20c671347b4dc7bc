//! The server ranking: players ranked by the records they beat on the playlist maps.

use std::cmp::Ordering;

use indexmap::IndexMap;
use vstd::prelude::*;

use crate::gbx::structs::DisplayString;

verus! {

/// Limits the amount of top server ranks displayed.
pub const MAX_DISPLAYED_SERVER_RANKS: usize = 10;

#[verifier::external_type_specification]
#[verifier::external_body]
#[verifier::reject_recursive_types(K)]
#[verifier::reject_recursive_types(V)]
#[verifier::reject_recursive_types(S)]
pub struct ExIndexMap<K, V, S>(IndexMap<K, V, S>);

/// The entries of a map from player logins to numbers of wins, in the map's order.
pub uninterp spec fn win_entries(m: IndexMap<String, usize>) -> Seq<(Seq<char>, usize)>;

/// Entries with their numbers as integers.
pub open spec fn as_ints(s: Seq<(Seq<char>, usize)>) -> Seq<(Seq<char>, int)> {
    s.map_values(|e: (Seq<char>, usize)| (e.0, e.1 as int))
}

/// `perm` lists each of `0..n` once.
pub open spec fn is_permutation(perm: Seq<int>, n: nat) -> bool {
    &&& perm.len() == n
    &&& forall|k: int| 0 <= k < n ==> 0 <= #[trigger] perm[k] < n
    &&& forall|a: int, b: int| 0 <= a < b < n ==> #[trigger] perm[a] != #[trigger] perm[b]
}

/// `perm` witnesses that `out` is a stable sort of `inp` from high to low numbers.
pub open spec fn sorts_by(out: Seq<(Seq<char>, int)>, inp: Seq<(Seq<char>, int)>, perm: Seq<int>) -> bool {
    &&& is_permutation(perm, inp.len())
    &&& out.len() == inp.len()
    &&& forall|k: int| 0 <= k < out.len() ==> #[trigger] out[k] == inp[perm[k]]
    &&& forall|a: int, b: int|
        0 <= a < b < out.len() ==> (#[trigger] out[a]).1 > (#[trigger] out[b]).1 || (out[a].1 == out[b].1
            && perm[a] < perm[b])
}

/// `out` holds the entries of `inp`, ordered by their numbers from high to
/// low, and in the order of `inp` for equal numbers (a stable sort).
pub open spec fn is_stable_sort_desc(out: Seq<(Seq<char>, int)>, inp: Seq<(Seq<char>, int)>) -> bool {
    exists|perm: Seq<int>| sorts_by(out, inp, perm)
}

/// An empty map (`IndexMap::new`).
#[verifier::external_body]
fn wins_new() -> (m: IndexMap<String, usize>)
    ensures
        win_entries(m) == Seq::<(Seq<char>, usize)>::empty(),
{
    IndexMap::new()
}

/// The number stored for `key` (`IndexMap::get`).
#[verifier::external_body]
fn wins_get(m: &IndexMap<String, usize>, key: &String) -> (res: Option<usize>)
    ensures
        match res {
            Some(v) => exists|p: int|
                0 <= p < win_entries(*m).len() && win_entries(*m)[p] == (key@, v),
            None => forall|p: int| 0 <= p < win_entries(*m).len() ==> win_entries(*m)[p].0 != key@,
        },
{
    m.get(key).copied()
}

/// Stores a number for `key` (`IndexMap::insert`): an existing key keeps its
/// place in the order and gets the new number, a new key is added last.
#[verifier::external_body]
fn wins_insert(m: &mut IndexMap<String, usize>, key: String, value: usize)
    ensures
        (exists|p: int| 0 <= p < win_entries(*old(m)).len() && win_entries(*old(m))[p].0 == key@)
            ==> exists|p: int|
            0 <= p < win_entries(*old(m)).len() && win_entries(*old(m))[p].0 == key@
                && win_entries(*final(m)) == win_entries(*old(m)).update(p, (key@, value)),
        (forall|p: int| 0 <= p < win_entries(*old(m)).len() ==> win_entries(*old(m))[p].0 != key@)
            ==> win_entries(*final(m)) == win_entries(*old(m)).push((key@, value)),
{
    m.insert(key, value);
}

/// More wins are ranked first.
fn wins_desc(a: &usize, b: &usize) -> (res: Ordering)
    ensures
        (res == Ordering::Less) == (*a > *b),
        (res == Ordering::Equal) == (*a == *b),
        (res == Ordering::Greater) == (*a < *b),
{
    if *a > *b {
        Ordering::Less
    } else if *a == *b {
        Ordering::Equal
    } else {
        Ordering::Greater
    }
}

/// Sorts the entries by their numbers, from high to low (`IndexMap::sort_by`,
/// which sorts stably).
#[verifier::external_body]
fn wins_sort_desc(m: &mut IndexMap<String, usize>)
    ensures
        is_stable_sort_desc(as_ints(win_entries(*final(m))), as_ints(win_entries(*old(m)))),
{
    m.sort_by(|_, a, _, b| wins_desc(a, b));
}

/// The entries in the map's order (`IndexMap::into_iter`).
#[verifier::external_body]
fn wins_into_vec(m: IndexMap<String, usize>) -> (res: Vec<(String, usize)>)
    ensures
        res@.map_values(|e: (String, usize)| (e.0@, e.1)) == win_entries(m),
{
    m.into_iter().collect()
}

/// A player's position in the ranking of a map.
pub struct MapRank {
    pub player_login: String,
    pub player_display_name: DisplayString,
    /// The rank on the map, starting at 1.
    pub pos: i64,
}

/// A player's server rank.
#[derive(Debug)]
pub struct ServerRank {
    pub pos: usize,
    pub player_login: String,
    pub player_display_name: DisplayString,
    /// The number of beaten records summed for every map.
    pub nb_wins: usize,
    /// The number of records better than this player's summed for every map.
    pub nb_losses: usize,
}

/// The position of the entry for `login`, if any.
pub open spec fn key_index(t: Seq<(Seq<char>, int)>, login: Seq<char>) -> Option<int> {
    if exists|p: int| 0 <= p < t.len() && t[p].0 == login {
        Some(choose|p: int| 0 <= p < t.len() && t[p].0 == login)
    } else {
        None
    }
}

/// No login occurs twice.
pub open spec fn unique_keys(t: Seq<(Seq<char>, int)>) -> bool {
    forall|a: int, b: int| 0 <= a < b < t.len() ==> (#[trigger] t[a]).0 != (#[trigger] t[b]).0
}

/// Adds `w` wins for `login`: to its entry, or in a new last entry.
pub open spec fn add_wins(t: Seq<(Seq<char>, int)>, login: Seq<char>, w: int) -> Seq<(Seq<char>, int)> {
    match key_index(t, login) {
        Some(p) => t.update(p, (login, t[p].1 + w)),
        None => t.push((login, w)),
    }
}

/// The map ranks as plain values: login, display name, position.
pub open spec fn rank_views(ranks: Seq<MapRank>) -> Seq<(Seq<char>, Seq<char>, int)> {
    ranks.map_values(|r: MapRank| (r.player_login@, r.player_display_name.formatted@, r.pos as int))
}

/// The wins of each player, in the order in which players first appear in
/// the map ranks: on each map, a player beats every ranked player with a
/// worse rank or no rank, that is `nb_ranked_players - pos` players.
pub open spec fn wins_of(ranks: Seq<(Seq<char>, Seq<char>, int)>, nb_ranked_players: int) -> Seq<(Seq<char>, int)>
    decreases ranks.len(),
{
    if ranks.len() == 0 {
        Seq::empty()
    } else {
        add_wins(
            wins_of(ranks.drop_last(), nb_ranked_players),
            ranks.last().0,
            nb_ranked_players - ranks.last().2,
        )
    }
}

/// The wins a player has before the map rank at `i` is counted.
pub open spec fn wins_before(ranks: Seq<(Seq<char>, Seq<char>, int)>, nb_ranked_players: int, i: int) -> int {
    let t = wins_of(ranks.take(i), nb_ranked_players);
    match key_index(t, ranks[i].0) {
        Some(p) => t[p].1,
        None => 0,
    }
}

/// The most wins a player can have: one for every other ranked player on every map.
pub open spec fn max_total_wins(nb_ranked_players: int, nb_maps: int) -> int {
    nb_maps * ((if nb_ranked_players < 1 { 1 } else { nb_ranked_players }) - 1)
}

/// The inputs for which the ranking is computed without leaving the range of
/// `usize`: the most wins fit, every map rank is between 0 and the number of
/// ranked players, no sum of wins overflows, and nobody has more wins than possible.
pub open spec fn ranking_computable(
    nb_ranked_players: int,
    nb_maps: int,
    ranks: Seq<(Seq<char>, Seq<char>, int)>,
) -> bool {
    &&& max_total_wins(nb_ranked_players, nb_maps) <= usize::MAX
    &&& forall|i: int| 0 <= i < ranks.len() ==> 0 <= #[trigger] ranks[i].2 <= nb_ranked_players
    &&& forall|i: int|
        0 <= i < ranks.len() ==> #[trigger] wins_before(ranks, nb_ranked_players, i) + (
        nb_ranked_players - ranks[i].2) <= usize::MAX
    &&& forall|p: int|
        0 <= p < wins_of(ranks, nb_ranked_players).len() ==> (#[trigger] wins_of(
            ranks,
            nb_ranked_players,
        )[p]).1 <= max_total_wins(nb_ranked_players, nb_maps)
}

/// The display name of the first map rank of `login`.
pub open spec fn first_display_name(ranks: Seq<(Seq<char>, Seq<char>, int)>, login: Seq<char>) -> Seq<char> {
    let i = choose|i: int|
        0 <= i < ranks.len() && ranks[i].0 == login && forall|j: int| 0 <= j < i ==> ranks[j].0 != login;
    ranks[i].1
}

/// `res` is the server ranking for these inputs: the players ordered by wins
/// (stably, from the table of wins), positions from 1, their display name from
/// their first map rank, and as losses the wins they could still have.
pub open spec fn is_server_ranking(
    res: Seq<ServerRank>,
    nb_ranked_players: int,
    nb_maps: int,
    ranks: Seq<(Seq<char>, Seq<char>, int)>,
) -> bool {
    &&& is_stable_sort_desc(
        Seq::new(res.len(), |k: int| (res[k].player_login@, res[k].nb_wins as int)),
        wins_of(ranks, nb_ranked_players),
    )
    &&& forall|k: int| 0 <= k < res.len() ==> {
        &&& (#[trigger] res[k]).pos == k + 1
        &&& res[k].nb_losses == max_total_wins(nb_ranked_players, nb_maps) - res[k].nb_wins
        &&& res[k].player_display_name.formatted@ == first_display_name(ranks, res[k].player_login@)
    }
}

proof fn lemma_key_index_unique(t: Seq<(Seq<char>, int)>, login: Seq<char>, p: int)
    requires
        unique_keys(t),
        0 <= p < t.len(),
        t[p].0 == login,
    ensures
        key_index(t, login) == Some(p),
{
    let q = choose|q: int| 0 <= q < t.len() && t[q].0 == login;
    if q < p {
        assert(t[q].0 != t[p].0);
    } else if p < q {
        assert(t[p].0 != t[q].0);
    }
}

proof fn lemma_add_wins_unique(t: Seq<(Seq<char>, int)>, login: Seq<char>, w: int)
    requires
        unique_keys(t),
    ensures
        unique_keys(add_wins(t, login, w)),
        add_wins(t, login, w).len() >= t.len(),
        forall|p: int| 0 <= p < t.len() ==> (#[trigger] add_wins(t, login, w)[p]).0 == t[p].0,
{
    let r = add_wins(t, login, w);
    match key_index(t, login) {
        Some(p) => {
            let q = choose|q: int| 0 <= q < t.len() && t[q].0 == login;
            assert(r == t.update(q, (login, t[q].1 + w)));
            assert forall|a: int, b: int| 0 <= a < b < r.len() implies (#[trigger] r[a]).0 != (#[trigger] r[b]).0 by {
                assert(r[a].0 == t[a].0 && r[b].0 == t[b].0);
            }
        },
        None => {
            assert forall|a: int, b: int| 0 <= a < b < r.len() implies (#[trigger] r[a]).0 != (#[trigger] r[b]).0 by {
                if b == t.len() {
                    assert(t[a].0 != login);
                }
            }
        },
    }
}

proof fn lemma_wins_of_unique(ranks: Seq<(Seq<char>, Seq<char>, int)>, nb: int)
    ensures
        unique_keys(wins_of(ranks, nb)),
    decreases ranks.len(),
{
    if ranks.len() > 0 {
        lemma_wins_of_unique(ranks.drop_last(), nb);
        lemma_add_wins_unique(wins_of(ranks.drop_last(), nb), ranks.last().0, nb - ranks.last().2);
    }
}

/// Every player in the table of wins has a map rank, and every player with a
/// map rank is in the table.
proof fn lemma_wins_of_logins(ranks: Seq<(Seq<char>, Seq<char>, int)>, nb: int)
    ensures
        forall|p: int| 0 <= p < wins_of(ranks, nb).len() ==> exists|i: int|
            0 <= i < ranks.len() && ranks[i].0 == (#[trigger] wins_of(ranks, nb)[p]).0,
    decreases ranks.len(),
{
    if ranks.len() > 0 {
        let prev = ranks.drop_last();
        lemma_wins_of_logins(prev, nb);
        let t = wins_of(prev, nb);
        let r = wins_of(ranks, nb);
        assert forall|p: int| 0 <= p < r.len() implies exists|i: int|
            0 <= i < ranks.len() && ranks[i].0 == (#[trigger] r[p]).0 by {
            if p < t.len() && r[p].0 == t[p].0 {
                let i = choose|i: int| 0 <= i < prev.len() && prev[i].0 == (#[trigger] t[p]).0;
                assert(ranks[i] == prev[i]);
            } else {
                assert(r[p].0 == ranks.last().0);
                assert(ranks[ranks.len() - 1] == ranks.last());
            }
        }
    }
}

fn clone_display(d: &DisplayString) -> (res: DisplayString)
    ensures
        res.formatted@ == d.formatted@,
{
    DisplayString { formatted: d.formatted.clone() }
}

/// The display name of the first map rank of `login`.
fn first_display(ranks: &Vec<MapRank>, login: &String) -> (res: DisplayString)
    requires
        exists|i: int| 0 <= i < ranks@.len() && ranks@[i].player_login@ == login@,
    ensures
        res.formatted@ == first_display_name(rank_views(ranks@), login@),
{
    let ghost v = rank_views(ranks@);
    let mut i: usize = 0;
    while i < ranks.len()
        invariant
            i <= ranks@.len(),
            v == rank_views(ranks@),
            forall|j: int| 0 <= j < i ==> ranks@[j].player_login@ != login@,
            exists|i: int| 0 <= i < ranks@.len() && ranks@[i].player_login@ == login@,
        decreases ranks@.len() - i,
    {
        if ranks[i].player_login == *login {
            proof {
                let w = i as int;
                assert(v[w].0 == login@);
                let c = choose|c: int|
                    0 <= c < v.len() && v[c].0 == login@ && forall|j: int| 0 <= j < c ==> v[j].0 != login@;
                if c < w {
                    assert(v[c].0 == ranks@[c].player_login@);
                } else if w < c {
                    assert(v[w].0 != login@);
                }
            }
            return clone_display(&ranks[i].player_display_name);
        }
        i = i + 1;
    }
    proof {
        let w = choose|w: int| 0 <= w < ranks@.len() && ranks@[w].player_login@ == login@;
        assert(ranks@[w].player_login@ != login@);
    }
    DisplayString { formatted: String::new() }
}

/// Ranks all players that have set at least one record, or `None` for the
/// inputs on which a number leaves the range of `usize`.
///
/// Players earn a "win" on each map, for every ranked player with a worse
/// personal best or none at all: with the 50th rank on a map and 200 ranked
/// players, that is `199 max wins - 49 losses = 150 wins` for that map.
/// `map_ranks` holds the ranks of the maps that count (those in the playlist).
pub fn try_calc_server_ranking(
    nb_ranked_players: usize,
    nb_maps: usize,
    map_ranks: &Vec<MapRank>,
) -> (res: Option<Vec<ServerRank>>)
    ensures
        match res {
            Some(r) => ranking_computable(nb_ranked_players as int, nb_maps as int, rank_views(map_ranks@))
                && is_server_ranking(r@, nb_ranked_players as int, nb_maps as int, rank_views(map_ranks@)),
            None => !ranking_computable(nb_ranked_players as int, nb_maps as int, rank_views(map_ranks@)),
        },
{
    let ghost v = rank_views(map_ranks@);
    let ghost nb = nb_ranked_players as int;
    let max_wins_per_map: usize = if nb_ranked_players < 1 { 0 } else { nb_ranked_players - 1 };
    if nb_maps > 0 && max_wins_per_map > usize::MAX / nb_maps {
        proof {
            assert(max_total_wins(nb, nb_maps as int) > usize::MAX) by (nonlinear_arith)
                requires
                    nb_maps > 0,
                    max_wins_per_map > usize::MAX / nb_maps,
                    max_total_wins(nb, nb_maps as int) == nb_maps * max_wins_per_map,
            ;
        }
        return None;
    }
    proof {
        if nb_maps > 0 {
            assert(nb_maps * max_wins_per_map <= usize::MAX) by (nonlinear_arith)
                requires
                    nb_maps > 0,
                    max_wins_per_map <= usize::MAX / nb_maps,
            ;
        } else {
            assert(nb_maps * max_wins_per_map == 0);
        }
    }
    let max_total: usize = nb_maps * max_wins_per_map;

    let mut wins = wins_new();
    let mut i: usize = 0;
    while i < map_ranks.len()
        invariant
            i <= map_ranks@.len(),
            v == rank_views(map_ranks@),
            nb == nb_ranked_players,
            max_total == max_total_wins(nb, nb_maps as int),
            as_ints(win_entries(wins)) == wins_of(v.take(i as int), nb),
            forall|j: int| 0 <= j < i ==> 0 <= #[trigger] v[j].2 <= nb,
            forall|j: int| 0 <= j < i ==> #[trigger] wins_before(v, nb, j) + (nb - v[j].2) <= usize::MAX,
        decreases map_ranks@.len() - i,
    {
        let rank = &map_ranks[i];
        let ghost t = wins_of(v.take(i as int), nb);
        proof {
            lemma_wins_of_unique(v.take(i as int), nb);
            assert(v.take(i as int + 1).drop_last() =~= v.take(i as int));
            assert(v[i as int] == (rank.player_login@, rank.player_display_name.formatted@, rank.pos as int));
        }
        if rank.pos < 0 || rank.pos as u64 > nb_ranked_players as u64 {
            proof {
                assert(!(0 <= v[i as int].2 <= nb));
            }
            return None;
        }
        let nb_map_wins: usize = nb_ranked_players - rank.pos as usize;
        let current: usize = match wins_get(&wins, &rank.player_login) {
            Some(c) => {
                proof {
                    let p = choose|p: int| 0 <= p < win_entries(wins).len() && win_entries(wins)[p] == (rank.player_login@, c);
                    assert(t[p] == (rank.player_login@, c as int));
                    lemma_key_index_unique(t, rank.player_login@, p);
                }
                c
            },
            None => {
                proof {
                    if exists|p: int| 0 <= p < t.len() && t[p].0 == rank.player_login@ {
                        let p = choose|p: int| 0 <= p < t.len() && t[p].0 == rank.player_login@;
                        assert(win_entries(wins)[p].0 == t[p].0);
                    }
                }
                0
            },
        };
        assert(current == wins_before(v, nb, i as int));
        if current > usize::MAX - nb_map_wins {
            proof {
                assert(wins_before(v, nb, i as int) + (nb - v[i as int].2) > usize::MAX);
            }
            return None;
        }
        let ghost before = win_entries(wins);
        wins_insert(&mut wins, rank.player_login.clone(), current + nb_map_wins);
        proof {
            let t2 = wins_of(v.take(i as int + 1), nb);
            assert(t2 == add_wins(t, rank.player_login@, nb - v[i as int].2));
            match key_index(t, rank.player_login@) {
                Some(p) => {
                    let q = choose|q: int| 0 <= q < before.len() && before[q].0 == rank.player_login@
                        && win_entries(wins) == before.update(q, (rank.player_login@, (current + nb_map_wins) as usize));
                    assert(t[q].0 == rank.player_login@);
                    lemma_key_index_unique(t, rank.player_login@, q);
                    assert(as_ints(win_entries(wins)) =~= t2);
                },
                None => {
                    assert forall|p: int| 0 <= p < before.len() implies before[p].0 != rank.player_login@ by {
                        assert(t[p].0 == before[p].0);
                    }
                    assert(as_ints(win_entries(wins)) =~= t2);
                },
            }
        }
        i = i + 1;
    }
    proof {
        assert(v.take(map_ranks@.len() as int) =~= v);
    }
    let ghost table = wins_of(v, nb);

    wins_sort_desc(&mut wins);
    let sorted = wins_into_vec(wins);
    let ghost sv = as_ints(win_entries(wins));
    proof {
        assert(sorted@.len() == win_entries(wins).len());
    }

    let mut res: Vec<ServerRank> = Vec::new();
    let mut k: usize = 0;
    while k < sorted.len()
        invariant
            k <= sorted@.len(),
            v == rank_views(map_ranks@),
            nb == nb_ranked_players,
            table == wins_of(v, nb),
            max_total == max_total_wins(nb, nb_maps as int),
            is_stable_sort_desc(sv, table),
            sv.len() == sorted@.len(),
            forall|m: int| 0 <= m < sorted@.len() ==> #[trigger] sv[m] == (sorted@[m].0@, sorted@[m].1 as int),
            res@.len() == k,
            forall|m: int| 0 <= m < k ==> {
                &&& (#[trigger] res@[m]).pos == m + 1
                &&& res@[m].player_login@ == sorted@[m].0@
                &&& res@[m].nb_wins == sorted@[m].1
                &&& res@[m].nb_losses == max_total - res@[m].nb_wins
                &&& res@[m].player_display_name.formatted@ == first_display_name(v, res@[m].player_login@)
            },
            forall|m: int| 0 <= m < k ==> (#[trigger] res@[m]).nb_wins <= max_total,
        decreases sorted@.len() - k,
    {
        let (login, nb_wins) = (&sorted[k].0, sorted[k].1);
        let ghost perm = choose|perm: Seq<int>|
            {
                &&& is_permutation(perm, table.len())
                &&& sv.len() == table.len()
                &&& forall|m: int| 0 <= m < sv.len() ==> #[trigger] sv[m] == table[perm[m]]
                &&& forall|a: int, b: int|
                    0 <= a < b < sv.len() ==> (#[trigger] sv[a]).1 > (#[trigger] sv[b]).1 || (sv[a].1
                        == sv[b].1 && perm[a] < perm[b])
            };
        proof {
            assert(sv[k as int] == table[perm[k as int]]);
            lemma_wins_of_logins(v, nb);
            assert(exists|i: int| 0 <= i < v.len() && v[i].0 == (#[trigger] table[perm[k as int]]).0);
        }
        if nb_wins > max_total {
            proof {
                assert(table[perm[k as int]].1 > max_total);
            }
            return None;
        }
        let name = first_display(map_ranks, login);
        res.push(ServerRank {
            pos: k + 1,
            player_login: login.clone(),
            player_display_name: name,
            nb_wins,
            nb_losses: max_total - nb_wins,
        });
        k = k + 1;
    }
    proof {
        assert forall|p: int| 0 <= p < table.len() implies (#[trigger] table[p]).1 <= max_total by {
            let perm = choose|perm: Seq<int>|
                {
                    &&& is_permutation(perm, table.len())
                    &&& sv.len() == table.len()
                    &&& forall|m: int| 0 <= m < sv.len() ==> #[trigger] sv[m] == table[perm[m]]
                    &&& forall|a: int, b: int|
                        0 <= a < b < sv.len() ==> (#[trigger] sv[a]).1 > (#[trigger] sv[b]).1 || (sv[a].1
                            == sv[b].1 && perm[a] < perm[b])
                };
            lemma_permutation_onto(perm, table.len(), p);
            let m = choose|m: int| 0 <= m < table.len() && perm[m] == p;
            assert(sv[m] == table[p]);
            assert(res@[m].nb_wins <= max_total);
        }
        let out = Seq::new(res@.len(), |m: int| (res@[m].player_login@, res@[m].nb_wins as int));
        assert(out =~= sv);
    }
    Some(res)
}

/// A permutation of `0..n` reaches every index.
proof fn lemma_permutation_onto(perm: Seq<int>, n: nat, x: int)
    requires
        is_permutation(perm, n),
        0 <= x < n,
    ensures
        exists|m: int| 0 <= m < n && perm[m] == x,
{
    if !exists|m: int| 0 <= m < n && perm[m] == x {
        // Then `perm` maps `0..n` into `0..n` without `x`: one value too few.
        let s = Set::new(|v: int| exists|m: int| 0 <= m < n && perm[m] == v);
        let range = Set::new(|v: int| 0 <= v < n && v != x);
        lemma_range_len(n, x);
        assert forall|v: int| s.contains(v) implies range.contains(v) by {
            let m = choose|m: int| 0 <= m < n && perm[m] == v;
            assert(0 <= perm[m] < n);
        }
        lemma_distinct_image_len(perm, n);
        vstd::set_lib::lemma_len_subset(s, range);
    }
}

proof fn lemma_range_len(n: nat, x: int)
    requires
        0 <= x < n,
    ensures
        Set::new(|v: int| 0 <= v < n && v != x).finite(),
        Set::new(|v: int| 0 <= v < n && v != x).len() == n - 1,
{
    let full = vstd::set_lib::set_int_range(0, n as int);
    vstd::set_lib::lemma_int_range(0, n as int);
    assert(Set::new(|v: int| 0 <= v < n && v != x) =~= full.remove(x));
}

/// The set of the first `n` values of a sequence of distinct values has `n` elements.
proof fn lemma_distinct_image_len(p: Seq<int>, n: nat)
    requires
        p.len() == n,
        forall|a: int, b: int| 0 <= a < b < n ==> #[trigger] p[a] != #[trigger] p[b],
    ensures
        Set::new(|v: int| exists|m: int| 0 <= m < n && p[m] == v).finite(),
        Set::new(|v: int| exists|m: int| 0 <= m < n && p[m] == v).len() == n,
    decreases n,
{
    let s = Set::new(|v: int| exists|m: int| 0 <= m < n && p[m] == v);
    if n == 0 {
        assert(s =~= Set::empty());
    } else {
        let q = p.take(n - 1);
        lemma_distinct_image_len(q, (n - 1) as nat);
        let s2 = Set::new(|v: int| exists|m: int| 0 <= m < (n - 1) as nat && q[m] == v);
        assert forall|v: int| #[trigger] s.contains(v) <==> s2.insert(p[n - 1]).contains(v) by {
            if s.contains(v) {
                let m = choose|m: int| 0 <= m < n && p[m] == v;
                if m < n - 1 {
                    assert(q[m] == p[m]);
                }
            }
            if s2.contains(v) {
                let m = choose|m: int| 0 <= m < (n - 1) as nat && q[m] == v;
                assert(q[m] == p[m]);
            }
        }
        assert(s =~= s2.insert(p[n - 1]));
        assert(!s2.contains(p[n - 1])) by {
            if s2.contains(p[n - 1]) {
                let m = choose|m: int| 0 <= m < (n - 1) as nat && q[m] == p[n - 1];
                assert(p[m] != p[n - 1]);
            }
        }
    }
}

/// The wins of `login` summed over its map ranks: `nb_ranked_players - pos` on each.
pub open spec fn total_wins(ranks: Seq<(Seq<char>, Seq<char>, int)>, nb_ranked_players: int, login: Seq<char>) -> int
    decreases ranks.len(),
{
    if ranks.len() == 0 {
        0
    } else {
        total_wins(ranks.drop_last(), nb_ranked_players, login) + if ranks.last().0 == login {
            nb_ranked_players - ranks.last().2
        } else {
            0
        }
    }
}

/// Each entry of the table of wins holds the summed wins of its login, every
/// player with a map rank has an entry, and a login without one has no wins.
proof fn lemma_wins_of_totals(ranks: Seq<(Seq<char>, Seq<char>, int)>, nb: int)
    ensures
        forall|p: int|
            0 <= p < wins_of(ranks, nb).len() ==> (#[trigger] wins_of(ranks, nb)[p]).1 == total_wins(
                ranks,
                nb,
                wins_of(ranks, nb)[p].0,
            ),
        forall|i: int| 0 <= i < ranks.len() ==> exists|p: int|
            0 <= p < wins_of(ranks, nb).len() && (#[trigger] wins_of(ranks, nb)[p]).0 == (#[trigger] ranks[i]).0,
        forall|login: Seq<char>|
            (forall|p: int| 0 <= p < wins_of(ranks, nb).len() ==> (#[trigger] wins_of(ranks, nb)[p]).0 != login)
                ==> #[trigger] total_wins(ranks, nb, login) == 0,
    decreases ranks.len(),
{
    if ranks.len() > 0 {
        let prev = ranks.drop_last();
        lemma_wins_of_totals(prev, nb);
        lemma_wins_of_unique(prev, nb);
        let t = wins_of(prev, nb);
        let l = ranks.last().0;
        let w = nb - ranks.last().2;
        lemma_add_wins_unique(t, l, w);
        let r = wins_of(ranks, nb);
        assert(r == add_wins(t, l, w));
        match key_index(t, l) {
            Some(q0) => {
                let q = choose|q: int| 0 <= q < t.len() && t[q].0 == l;
                assert(r == t.update(q, (l, t[q].1 + w)));
                assert forall|p: int| 0 <= p < r.len() implies (#[trigger] r[p]).1 == total_wins(ranks, nb, r[p].0) by {
                    if p != q {
                        assert(t[p].0 != t[q].0);
                    }
                }
                assert forall|i: int| 0 <= i < ranks.len() implies exists|p: int|
                    0 <= p < r.len() && (#[trigger] r[p]).0 == (#[trigger] ranks[i]).0 by {
                    if i < prev.len() {
                        assert(ranks[i] == prev[i]);
                        let p = choose|p: int| 0 <= p < t.len() && (#[trigger] t[p]).0 == prev[i].0;
                        assert(r[p].0 == t[p].0);
                    } else {
                        assert(r[q].0 == ranks[i].0);
                    }
                }
                assert forall|login: Seq<char>|
                    (forall|p: int| 0 <= p < r.len() ==> (#[trigger] r[p]).0 != login) implies #[trigger] total_wins(
                    ranks,
                    nb,
                    login,
                ) == 0 by {
                    assert(r[q].0 != login);
                    assert forall|p: int| 0 <= p < t.len() implies (#[trigger] t[p]).0 != login by {
                        assert(r[p].0 == t[p].0);
                    }
                    assert(total_wins(prev, nb, login) == 0);
                    assert(total_wins(ranks, nb, login) == total_wins(prev, nb, login));
                }
            },
            None => {
                assert(r == t.push((l, w)));
                assert forall|p: int| 0 <= p < r.len() implies (#[trigger] r[p]).1 == total_wins(ranks, nb, r[p].0) by {
                    if p < t.len() {
                        assert(r[p] == t[p]);
                        if t[p].0 == l {
                            assert(exists|x: int| 0 <= x < t.len() && t[x].0 == l);
                        }
                        assert(total_wins(ranks, nb, t[p].0) == total_wins(prev, nb, t[p].0));
                    } else {
                        assert forall|x: int| 0 <= x < t.len() implies (#[trigger] t[x]).0 != l by {
                            if t[x].0 == l {
                                assert(exists|y: int| 0 <= y < t.len() && t[y].0 == l);
                            }
                        }
                        assert(total_wins(prev, nb, l) == 0);
                        assert(total_wins(ranks, nb, l) == total_wins(prev, nb, l) + w);
                    }
                }
                assert forall|i: int| 0 <= i < ranks.len() implies exists|p: int|
                    0 <= p < r.len() && (#[trigger] r[p]).0 == (#[trigger] ranks[i]).0 by {
                    if i < prev.len() {
                        assert(ranks[i] == prev[i]);
                        let p = choose|p: int| 0 <= p < t.len() && (#[trigger] t[p]).0 == prev[i].0;
                        assert(r[p].0 == t[p].0);
                    } else {
                        assert(r[t.len() as int].0 == ranks[i].0);
                    }
                }
                assert forall|login: Seq<char>|
                    (forall|p: int| 0 <= p < r.len() ==> (#[trigger] r[p]).0 != login) implies #[trigger] total_wins(
                    ranks,
                    nb,
                    login,
                ) == 0 by {
                    assert(r[t.len() as int].0 != login);
                    assert forall|p: int| 0 <= p < t.len() implies (#[trigger] t[p]).0 != login by {
                        assert(r[p].0 == t[p].0);
                    }
                    assert(total_wins(prev, nb, login) == 0);
                    assert(total_wins(ranks, nb, login) == total_wins(prev, nb, login));
                }
            },
        }
    }
}

/// The ranking as pairs of login and wins.
pub open spec fn login_wins(res: Seq<ServerRank>) -> Seq<(Seq<char>, int)> {
    Seq::new(res.len(), |k: int| (res[k].player_login@, res[k].nb_wins as int))
}


#[verifier::rlimit(30)]
proof fn lemma_ranking_entries(res: Seq<ServerRank>, nb: int, nb_maps: int, ranks: Seq<(Seq<char>, Seq<char>, int)>, perm: Seq<int>)
    requires
        is_server_ranking(res, nb, nb_maps, ranks),
        sorts_by(login_wins(res), wins_of(ranks, nb), perm),
    ensures
        forall|k: int| 0 <= k < res.len() ==> {
            &&& (#[trigger] res[k]).pos == k + 1
            &&& res[k].nb_wins == total_wins(ranks, nb, res[k].player_login@)
            &&& res[k].nb_wins + res[k].nb_losses == max_total_wins(nb, nb_maps)
            &&& exists|i: int| 0 <= i < ranks.len() && ranks[i].0 == res[k].player_login@
        },
{
    let t = wins_of(ranks, nb);
    let out = login_wins(res);
    lemma_wins_of_totals(ranks, nb);
    lemma_wins_of_logins(ranks, nb);
    assert forall|k: int| 0 <= k < res.len() implies {
        &&& (#[trigger] res[k]).pos == k + 1
        &&& res[k].nb_wins == total_wins(ranks, nb, res[k].player_login@)
        &&& res[k].nb_wins + res[k].nb_losses == max_total_wins(nb, nb_maps)
        &&& exists|i: int| 0 <= i < ranks.len() && ranks[i].0 == res[k].player_login@
    } by {
        let p = perm[k];
        assert(out[k] == t[p]);
        assert(0 <= p < t.len());
        assert(t[p].1 == total_wins(ranks, nb, t[p].0));
        assert(out[k].0 == res[k].player_login@ && out[k].1 == res[k].nb_wins as int);
        let i = choose|i: int| 0 <= i < ranks.len() && ranks[i].0 == (#[trigger] t[p]).0;
        assert(ranks[i].0 == res[k].player_login@);
    }
}

proof fn lemma_ranking_order(res: Seq<ServerRank>, nb: int, ranks: Seq<(Seq<char>, Seq<char>, int)>, perm: Seq<int>)
    requires
        sorts_by(login_wins(res), wins_of(ranks, nb), perm),
    ensures
        forall|a: int, b: int|
            0 <= a < b < res.len() ==> (#[trigger] res[a]).nb_wins >= (#[trigger] res[b]).nb_wins
                && res[a].player_login@ != res[b].player_login@,
{
    let t = wins_of(ranks, nb);
    let out = login_wins(res);
    lemma_wins_of_unique(ranks, nb);
    assert forall|a: int, b: int| 0 <= a < b < res.len() implies (#[trigger] res[a]).nb_wins >= (
    #[trigger] res[b]).nb_wins && res[a].player_login@ != res[b].player_login@ by {
        assert(out[a] == t[perm[a]] && out[b] == t[perm[b]]);
        assert(out[a].1 >= out[b].1);
        assert(perm[a] != perm[b]);
        if perm[a] < perm[b] {
            assert(t[perm[a]].0 != t[perm[b]].0);
        } else {
            assert(t[perm[b]].0 != t[perm[a]].0);
        }
    }
}

proof fn lemma_ranking_covers(res: Seq<ServerRank>, nb: int, ranks: Seq<(Seq<char>, Seq<char>, int)>, perm: Seq<int>)
    requires
        sorts_by(login_wins(res), wins_of(ranks, nb), perm),
    ensures
        forall|i: int| 0 <= i < ranks.len() ==> exists|k: int|
            0 <= k < res.len() && (#[trigger] res[k]).player_login@ == (#[trigger] ranks[i]).0,
{
    let t = wins_of(ranks, nb);
    let out = login_wins(res);
    lemma_wins_of_totals(ranks, nb);
    assert forall|i: int| 0 <= i < ranks.len() implies exists|k: int|
        0 <= k < res.len() && (#[trigger] res[k]).player_login@ == (#[trigger] ranks[i]).0 by {
        let p = choose|p: int| 0 <= p < t.len() && (#[trigger] t[p]).0 == ranks[i].0;
        lemma_permutation_onto(perm, t.len(), p);
        let k = choose|k: int| 0 <= k < t.len() && perm[k] == p;
        assert(out[k] == t[perm[k]]);
    }
}

/// The server ranking ranks each player with a map rank exactly once, at
/// positions 1, 2, and so on, with wins that never grow down the ranking; a
/// player's wins are the sum, over its map ranks, of the ranked players it
/// beat there, and its wins and losses add up to the most wins possible.
pub proof fn law_server_ranking_sums(
    res: Seq<ServerRank>,
    nb_ranked_players: int,
    nb_maps: int,
    ranks: Seq<(Seq<char>, Seq<char>, int)>,
)
    requires
        is_server_ranking(res, nb_ranked_players, nb_maps, ranks),
    ensures
        forall|k: int| 0 <= k < res.len() ==> {
            &&& (#[trigger] res[k]).pos == k + 1
            &&& res[k].nb_wins == total_wins(ranks, nb_ranked_players, res[k].player_login@)
            &&& res[k].nb_wins + res[k].nb_losses == max_total_wins(nb_ranked_players, nb_maps)
            &&& exists|i: int| 0 <= i < ranks.len() && ranks[i].0 == res[k].player_login@
        },
        forall|a: int, b: int|
            0 <= a < b < res.len() ==> (#[trigger] res[a]).nb_wins >= (#[trigger] res[b]).nb_wins
                && res[a].player_login@ != res[b].player_login@,
        forall|i: int| 0 <= i < ranks.len() ==> exists|k: int|
            0 <= k < res.len() && (#[trigger] res[k]).player_login@ == (#[trigger] ranks[i]).0,
{
    let t = wins_of(ranks, nb_ranked_players);
    assert(login_wins(res) == Seq::new(res.len(), |k: int| (res[k].player_login@, res[k].nb_wins as int)));
    let perm = choose|perm: Seq<int>| sorts_by(login_wins(res), t, perm);
    lemma_ranking_entries(res, nb_ranked_players, nb_maps, ranks, perm);
    lemma_ranking_order(res, nb_ranked_players, ranks, perm);
    lemma_ranking_covers(res, nb_ranked_players, ranks, perm);
}

/// Ranks all players that have set at least one record on the maps that count.
pub fn calc_server_ranking(nb_ranked_players: usize, nb_maps: usize, map_ranks: &Vec<MapRank>) -> (res: Vec<ServerRank>)
    requires
        ranking_computable(nb_ranked_players as int, nb_maps as int, rank_views(map_ranks@)),
    ensures
        is_server_ranking(res@, nb_ranked_players as int, nb_maps as int, rank_views(map_ranks@)),
{
    match try_calc_server_ranking(nb_ranked_players, nb_maps, map_ranks) {
        Some(r) => r,
        None => {
            assert(false);
            Vec::new()
        },
    }
}

} // verus!
