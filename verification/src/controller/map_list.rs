//! The list of maps that admins see: the maps in the server's playlist, and
//! the other known maps, each sorted by their names without formatting.

use vstd::prelude::*;

use crate::chat::command::reference::{str_lt, text_lt};
use crate::chat::command::texts::deref_maps;
use crate::controller::playlist::MapEntry;
use crate::gbx::structs::{spec_plain, PlaylistMap};
use crate::text::str_eq;

verus! {

/// The sort key of a map: its name without formatting (a name that cannot be
/// stripped sorts first).
pub open spec fn name_key(m: MapEntry) -> Option<Seq<char>> {
    spec_plain(m.name.formatted@)
}

/// `a` sorts before `b`: `None` before any text, texts in their order.
pub open spec fn key_lt(a: Option<Seq<char>>, b: Option<Seq<char>>) -> bool {
    match (a, b) {
        (None, Some(_)) => true,
        (Some(x), Some(y)) => text_lt(x, y),
        _ => false,
    }
}

/// `x` put into the sorted `t` after every map whose key is not greater.
pub open spec fn insert_by_name(t: Seq<MapEntry>, x: MapEntry) -> Seq<MapEntry>
    decreases t.len(),
{
    if t.len() == 0 {
        seq![x]
    } else if key_lt(name_key(x), name_key(t.last())) {
        insert_by_name(t.drop_last(), x).push(t.last())
    } else {
        t.push(x)
    }
}

/// The maps sorted by name, stably.
pub open spec fn sort_by_name(s: Seq<MapEntry>) -> Seq<MapEntry>
    decreases s.len(),
{
    if s.len() == 0 {
        s
    } else {
        insert_by_name(sort_by_name(s.drop_last()), s.last())
    }
}

/// The UIDs of the server's playlist.
pub open spec fn playlist_uids(p: Seq<PlaylistMap>) -> Seq<Seq<char>> {
    p.map_values(|m: PlaylistMap| m.uid@)
}

/// The maps that are in the playlist (`inside`) or not, in order.
pub open spec fn maps_where(s: Seq<MapEntry>, uids: Seq<Seq<char>>, inside: bool) -> Seq<MapEntry>
    decreases s.len(),
{
    if s.len() == 0 {
        Seq::empty()
    } else if uids.contains(s.last().uid@) == inside {
        maps_where(s.drop_last(), uids, inside).push(s.last())
    } else {
        maps_where(s.drop_last(), uids, inside)
    }
}

/// The key of an entry as the library reasons about it.
pub open spec fn key_view(k: Option<String>) -> Option<Seq<char>> {
    match k {
        Some(s) => Some(s@),
        None => None,
    }
}

/// The maps of keyed entries.
pub open spec fn keyed_maps<'a>(v: Seq<(Option<String>, &'a MapEntry)>) -> Seq<MapEntry> {
    v.map_values(|e: (Option<String>, &'a MapEntry)| *e.1)
}

/// Every entry holds the key of its map.
pub open spec fn keys_match<'a>(v: Seq<(Option<String>, &'a MapEntry)>) -> bool {
    forall|j: int| 0 <= j < v.len() ==> key_view(#[trigger] v[j].0) == name_key(*v[j].1)
}

fn key_less(a: &Option<String>, b: &Option<String>) -> (res: bool)
    ensures
        res == key_lt(key_view(*a), key_view(*b)),
{
    match (a, b) {
        (None, Some(_)) => true,
        (Some(x), Some(y)) => str_lt(x.as_str(), y.as_str()),
        _ => false,
    }
}

fn in_playlist(playlist: &Vec<PlaylistMap>, uid: &str) -> (res: bool)
    ensures
        res == playlist_uids(playlist@).contains(uid@),
{
    let ghost uids = playlist_uids(playlist@);
    let mut i: usize = 0;
    while i < playlist.len()
        invariant
            i <= playlist@.len(),
            uids == playlist_uids(playlist@),
            forall|j: int| 0 <= j < i ==> uids[j] != uid@,
        decreases playlist@.len() - i,
    {
        if str_eq(playlist[i].uid.as_str(), uid) {
            assert(uids[i as int] == uid@);
            return true;
        }
        i = i + 1;
    }
    false
}

/// Puts a keyed map into its place in the sorted entries.
fn insert_keyed<'a>(sorted: &mut Vec<(Option<String>, &'a MapEntry)>, key: Option<String>, map: &'a MapEntry)
    requires
        keys_match(old(sorted)@),
        key_view(key) == name_key(*map),
    ensures
        keys_match(final(sorted)@),
        keyed_maps(final(sorted)@) == insert_by_name(keyed_maps(old(sorted)@), *map),
{
    let ghost t = keyed_maps(sorted@);
    let mut j: usize = sorted.len();
    assert(t.take(j as int) =~= t);
    assert(t.skip(j as int) =~= Seq::<MapEntry>::empty());
    assert(insert_by_name(t, *map) + t.skip(j as int) =~= insert_by_name(t, *map));
    while j > 0 && key_less(&key, &sorted[j - 1].0)
        invariant
            j <= sorted@.len(),
            t == keyed_maps(sorted@),
            keys_match(sorted@),
            key_view(key) == name_key(*map),
            insert_by_name(t, *map) == insert_by_name(t.take(j as int), *map) + t.skip(j as int),
        decreases j,
    {
        proof {
            let tj = t.take(j as int);
            assert(key_view(sorted@[j - 1].0) == name_key(*sorted@[j - 1].1));
            assert(tj.last() == *sorted@[j - 1].1);
            assert(tj.drop_last() =~= t.take(j - 1));
            assert(seq![tj.last()] + t.skip(j as int) =~= t.skip(j - 1));
            assert(insert_by_name(tj, *map) == insert_by_name(t.take(j - 1), *map).push(tj.last()));
            assert(insert_by_name(t.take(j - 1), *map).push(tj.last()) + t.skip(j as int)
                =~= insert_by_name(t.take(j - 1), *map) + t.skip(j - 1));
        }
        j = j - 1;
    }
    proof {
        let tj = t.take(j as int);
        if j > 0 {
            assert(key_view(sorted@[j - 1].0) == name_key(*sorted@[j - 1].1));
            assert(tj.last() == *sorted@[j - 1].1);
            assert(!key_lt(name_key(*map), name_key(tj.last())));
        }
        assert(insert_by_name(tj, *map) =~= tj.push(*map));
    }
    let ghost before = sorted@;
    sorted.insert(j, (key, map));
    proof {
        assert(keyed_maps(sorted@) =~= t.take(j as int).push(*map) + t.skip(j as int));
        assert forall|k: int| 0 <= k < sorted@.len() implies key_view(#[trigger] sorted@[k].0) == name_key(*sorted@[k].1) by {
            if k < j {
                assert(sorted@[k] == before[k]);
            } else if k > j {
                assert(sorted@[k] == before[k - 1]);
            }
        }
    }
}

/// The maps without their keys.
fn strip_keys<'a>(v: Vec<(Option<String>, &'a MapEntry)>) -> (res: Vec<&'a MapEntry>)
    ensures
        deref_maps(res@) == keyed_maps(v@),
{
    let mut res: Vec<&'a MapEntry> = Vec::new();
    let mut i: usize = 0;
    while i < v.len()
        invariant
            i <= v@.len(),
            deref_maps(res@) == keyed_maps(v@).take(i as int),
        decreases v@.len() - i,
    {
        let ghost prev = res@;
        res.push(v[i].1);
        proof {
            assert(res@ == prev.push(v@[i as int].1));
            assert(deref_maps(res@) =~= deref_maps(prev).push(*v@[i as int].1));
            assert(keyed_maps(v@).take(i + 1) =~= keyed_maps(v@).take(i as int).push(*v@[i as int].1));
        }
        i = i + 1;
    }
    assert(keyed_maps(v@).take(i as int) =~= keyed_maps(v@));
    res
}

/// The known maps that are in the server's playlist, and those that are not,
/// each sorted by their names without formatting; maps with equal names keep
/// their order.
pub fn map_list_sections<'a>(maps: &'a Vec<MapEntry>, playlist: &Vec<PlaylistMap>) -> (res: (
    Vec<&'a MapEntry>,
    Vec<&'a MapEntry>,
))
    ensures
        deref_maps(res.0@) == sort_by_name(maps_where(maps@, playlist_uids(playlist@), true)),
        deref_maps(res.1@) == sort_by_name(maps_where(maps@, playlist_uids(playlist@), false)),
{
    let ghost uids = playlist_uids(playlist@);
    let mut inside: Vec<(Option<String>, &'a MapEntry)> = Vec::new();
    let mut outside: Vec<(Option<String>, &'a MapEntry)> = Vec::new();
    let mut i: usize = 0;
    while i < maps.len()
        invariant
            i <= maps@.len(),
            uids == playlist_uids(playlist@),
            keys_match(inside@),
            keys_match(outside@),
            keyed_maps(inside@) == sort_by_name(maps_where(maps@.take(i as int), uids, true)),
            keyed_maps(outside@) == sort_by_name(maps_where(maps@.take(i as int), uids, false)),
        decreases maps@.len() - i,
    {
        let map = &maps[i];
        let key = map.name.plain();
        let listed = in_playlist(playlist, map.uid.as_str());
        let ghost s = maps@.take(i + 1);
        let ghost before = maps@.take(i as int);
        proof {
            assert(s.drop_last() =~= before);
            assert(s.last() == *map);
            assert(uids.contains(map.uid@) == listed);
        }
        if listed {
            proof {
                assert(maps_where(s, uids, true) == maps_where(before, uids, true).push(*map));
                assert(maps_where(s, uids, true).drop_last() =~= maps_where(before, uids, true));
                assert(maps_where(s, uids, false) == maps_where(before, uids, false));
            }
            insert_keyed(&mut inside, key, map);
        } else {
            proof {
                assert(maps_where(s, uids, false) == maps_where(before, uids, false).push(*map));
                assert(maps_where(s, uids, false).drop_last() =~= maps_where(before, uids, false));
                assert(maps_where(s, uids, true) == maps_where(before, uids, true));
            }
            insert_keyed(&mut outside, key, map);
        }
        i = i + 1;
    }
    assert(maps@.take(i as int) =~= maps@);
    (strip_keys(inside), strip_keys(outside))
}

} // verus!
