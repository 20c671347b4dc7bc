//! The playlist, and the map that is currently being played.

use vstd::prelude::*;

use crate::chat::command::response::PlaylistCommandError;
use crate::gbx::structs::DisplayString;
use crate::text::{push_str, spec_trim, str_eq, trim_ws};

verus! {

/// A map known to the controller.
#[derive(Debug)]
pub struct MapEntry {
    /// A unique identifier.
    pub uid: String,
    /// The map's file name in `.../UserData/Maps`.
    pub file_name: String,
    /// The formatted map name.
    pub name: DisplayString,
    /// The map author's login.
    pub author_login: String,
    /// The map author's formatted display name.
    pub author_display_name: DisplayString,
    /// The time the map was validated with, in milliseconds.
    pub author_millis: i32,
    /// When the map was added, in milliseconds since the Unix epoch.
    pub added_since_millis: i64,
    /// Whether the map is in the playlist.
    pub in_playlist: bool,
    /// The map's ID on Trackmania.Exchange, if it was imported from there.
    pub exchange_id: Option<i32>,
}

impl MapEntry {
    /// A copy of this map.
    pub fn duplicate(&self) -> (res: MapEntry)
        ensures
            res == *self,
    {
        MapEntry {
            uid: self.uid.clone(),
            file_name: self.file_name.clone(),
            name: self.name.duplicate(),
            author_login: self.author_login.clone(),
            author_display_name: self.author_display_name.duplicate(),
            author_millis: self.author_millis,
            added_since_millis: self.added_since_millis,
            in_playlist: self.in_playlist,
            exchange_id: self.exchange_id,
        }
    }
}

/// How the playlist changed.
#[derive(Debug)]
pub enum PlaylistDiff {
    /// A map of the database was added to the playlist.
    Append(MapEntry),
    /// A newly imported map was added to the playlist.
    AppendNew(MapEntry),
    /// A map was removed from the playlist, at the given index.
    Remove { was_index: usize, map: MapEntry },
}

/// The playlist, and the map that is currently being played.
pub struct PlaylistState {
    /// All maps in the playlist.
    pub maps: Vec<MapEntry>,
    /// The playlist index of the current map, or `None` if the current map
    /// is not part of the playlist anymore.
    pub current_index: Option<usize>,
}

/// The first index of a map with the UID.
pub open spec fn first_index(maps: Seq<MapEntry>, uid: Seq<char>) -> Option<int> {
    if exists|i: int| 0 <= i < maps.len() && maps[i].uid@ == uid {
        Some(choose|i: int| 0 <= i < maps.len() && maps[i].uid@ == uid && forall|j: int| 0 <= j < i ==> maps[j].uid@ != uid)
    } else {
        None
    }
}

impl PlaylistState {
    /// A playlist with the given maps, and the current index the server reports.
    pub fn init(maps: Vec<MapEntry>, current_index: Option<usize>) -> (res: Self)
        ensures
            res.maps == maps,
            res.current_index == current_index,
    {
        PlaylistState { maps, current_index }
    }

    /// The map at the given playlist index, or `None` if there is no such index.
    pub fn at_index(&self, index: usize) -> (res: Option<&MapEntry>)
        ensures
            index < self.maps@.len() ==> res == Some(&self.maps@[index as int]),
            index >= self.maps@.len() ==> res is None,
    {
        if index < self.maps.len() {
            Some(&self.maps[index])
        } else {
            None
        }
    }

    /// The playlist index of the specified map, or `None` if that map is not
    /// in the playlist.
    pub fn index_of(&self, map_uid: &str) -> (res: Option<usize>)
        ensures
            match res {
                Some(i) => i < self.maps@.len() && first_index(self.maps@, map_uid@) == Some(i as int),
                None => first_index(self.maps@, map_uid@) is None,
            },
    {
        let mut k: usize = 0;
        while k < self.maps.len()
            invariant
                k <= self.maps@.len(),
                forall|j: int| 0 <= j < k ==> self.maps@[j].uid@ != map_uid@,
            decreases self.maps@.len() - k,
        {
            if str_eq(self.maps[k].uid.as_str(), map_uid) {
                proof {
                    let s = self.maps@;
                    let w = k as int;
                    let c = choose|i: int| 0 <= i < s.len() && s[i].uid@ == map_uid@ && forall|j: int| 0 <= j < i ==> s[j].uid@ != map_uid@;
                    if c < w {
                    } else if w < c {
                        assert(s[w].uid@ != map_uid@);
                    }
                }
                return Some(k);
            }
            k = k + 1;
        }
        None
    }

    /// The map that is currently being played.
    pub fn current_map(&self) -> (res: Option<&MapEntry>)
        ensures
            match self.current_index {
                Some(i) => if i < self.maps@.len() {
                    res == Some(&self.maps@[i as int])
                } else {
                    res is None
                },
                None => res is None,
            },
    {
        match self.current_index {
            Some(i) => self.at_index(i),
            None => None,
        }
    }

    /// Set the current playlist index to the one of the next map.
    pub fn set_index(&mut self, next_index: usize)
        ensures
            final(self).current_index == Some(next_index),
            final(self).maps == old(self).maps,
    {
        self.current_index = Some(next_index);
    }

    /// Whether the map can be added to the playlist: not if it is in it already.
    pub fn check_add(&self, map_uid: &str) -> (res: Result<(), PlaylistCommandError>)
        ensures
            res is Ok <==> first_index(self.maps@, map_uid@) is None,
            res matches Err(e) ==> e is MapAlreadyAdded,
    {
        match self.index_of(map_uid) {
            Some(_) => Err(PlaylistCommandError::MapAlreadyAdded),
            None => Ok(()),
        }
    }

    /// Appends a map that was added to the playlist.
    pub fn append(&mut self, map: MapEntry) -> (res: PlaylistDiff)
        ensures
            final(self).maps@ == old(self).maps@.push(map),
            final(self).current_index == old(self).current_index,
            res == PlaylistDiff::Append(map),
    {
        let diff = PlaylistDiff::Append(map.duplicate());
        self.maps.push(map);
        diff
    }

    /// Appends a map that was newly imported.
    pub fn append_new(&mut self, map: MapEntry) -> (res: PlaylistDiff)
        ensures
            final(self).maps@ == old(self).maps@.push(map),
            final(self).current_index == old(self).current_index,
            res == PlaylistDiff::AppendNew(map),
    {
        let diff = PlaylistDiff::AppendNew(map.duplicate());
        self.maps.push(map);
        diff
    }

    /// Whether the map can be removed from the playlist: not if it is the only
    /// map left, nor if it is not in the playlist. On success, its index.
    pub fn check_remove(&self, map_uid: &str) -> (res: Result<usize, PlaylistCommandError>)
        ensures
            !can_disable(self.maps@, map_uid@) ==> (res matches Err(e) && e is CannotDisableAllMaps),
            res matches Ok(i) ==> i < self.maps@.len(),
            can_disable(self.maps@, map_uid@) ==> match first_index(self.maps@, map_uid@) {
                Some(i) => 0 <= i < self.maps@.len() && res == Ok::<usize, PlaylistCommandError>(i as usize),
                None => res matches Err(e) && e is MapAlreadyRemoved,
            },
    {
        let mut can_disable = false;
        let mut k: usize = 0;
        while k < self.maps.len()
            invariant
                k <= self.maps@.len(),
                can_disable == exists|i: int| 0 <= i < k && self.maps@[i].uid@ != map_uid@,
            decreases self.maps@.len() - k,
        {
            if !str_eq(self.maps[k].uid.as_str(), map_uid) {
                can_disable = true;
            }
            k = k + 1;
        }
        if !can_disable {
            return Err(PlaylistCommandError::CannotDisableAllMaps);
        }
        match self.index_of(map_uid) {
            Some(i) => Ok(i),
            None => Err(PlaylistCommandError::MapAlreadyRemoved),
        }
    }

    /// Removes the map at the given index (`map` is the removed map as the
    /// database returned it). The current index keeps pointing at the current
    /// map: it is cleared if that map was removed, and moves down by one if a
    /// map before it was removed.
    pub fn remove_at(&mut self, index: usize, map: MapEntry) -> (res: PlaylistDiff)
        requires
            index < old(self).maps@.len(),
        ensures
            final(self).maps@ == old(self).maps@.remove(index as int),
            final(self).current_index == index_after_removal(old(self).current_index, index),
            res == (PlaylistDiff::Remove { was_index: index, map }),
    {
        match self.current_index {
            Some(c) => {
                if c == index {
                    self.current_index = None;
                } else if index < c {
                    self.current_index = Some(c - 1);
                }
            },
            None => {},
        }
        self.maps.remove(index);
        PlaylistDiff::Remove { was_index: index, map }
    }

    /// Removes a map from the playlist, as an admin asked: refused where it is
    /// the only map left or not in the playlist (see `check_remove`), or where
    /// removing it from the database's playlist found no such map (`db_map` is
    /// what the database gave); else the map leaves as `remove_at` takes it out.
    pub fn remove(&mut self, map_uid: &str, db_map: Option<MapEntry>) -> (res: Result<PlaylistDiff, PlaylistCommandError>)
        ensures
            !can_disable(old(self).maps@, map_uid@) ==> (res matches Err(e) && e is CannotDisableAllMaps)
                && *final(self) == *old(self),
            can_disable(old(self).maps@, map_uid@) && first_index(old(self).maps@, map_uid@) is None ==> (res matches Err(
                e,
            ) && e is MapAlreadyRemoved) && *final(self) == *old(self),
            can_disable(old(self).maps@, map_uid@) ==> match first_index(old(self).maps@, map_uid@) {
                Some(i) => match db_map {
                    None => (res matches Err(e) && e is UnknownUid) && *final(self) == *old(self),
                    Some(m) => {
                        &&& res == Ok::<PlaylistDiff, PlaylistCommandError>(
                            PlaylistDiff::Remove { was_index: i as usize, map: m },
                        )
                        &&& final(self).maps@ == old(self).maps@.remove(i)
                        &&& final(self).current_index == index_after_removal(old(self).current_index, i as usize)
                    },
                },
                None => true,
            },
    {
        let index = match self.check_remove(map_uid) {
            Ok(i) => i,
            Err(e) => return Err(e),
        };
        let n = self.maps.len();
        proof {
            if let Some(i) = first_index(self.maps@, map_uid@) {
                assert(0 <= i < n);
                assert(index as int == i);
            }
        }
        match db_map {
            Some(m) => Ok(self.remove_at(index, m)),
            None => Err(PlaylistCommandError::UnknownUid),
        }
    }
}

/// The file that an imported map is written to: its plain name without
/// surrounding whitespace, its UID, and `.Map.gbx`, joined by periods.
pub open spec fn imported_map_file(name_plain: Seq<char>, uid: Seq<char>) -> Seq<char> {
    spec_trim(name_plain) + "."@ + uid + ".Map.gbx"@
}

/// The file name that an imported map is given in the maps directory.
pub fn imported_file_name(name_plain: &str, uid: &str) -> (res: String)
    ensures
        res@ == imported_map_file(name_plain@, uid@),
{
    let mut s = String::new();
    push_str(&mut s, trim_ws(name_plain));
    push_str(&mut s, ".");
    push_str(&mut s, uid);
    push_str(&mut s, ".Map.gbx");
    assert(s@ =~= imported_map_file(name_plain@, uid@));
    s
}

/// Some map other than `uid` is in the playlist, so that removing `uid`
/// leaves it not empty.
pub open spec fn can_disable(maps: Seq<MapEntry>, uid: Seq<char>) -> bool {
    exists|i: int| 0 <= i < maps.len() && maps[i].uid@ != uid
}

/// The current index after the map at `index` was removed: cleared if it was
/// the current map, one less if it came before it.
pub open spec fn index_after_removal(current: Option<usize>, index: usize) -> Option<usize> {
    match current {
        Some(c) => if c == index {
            None
        } else if index < c {
            Some((c - 1) as usize)
        } else {
            Some(c)
        },
        None => None,
    }
}

/// A map that is added where the playlist does not hold its UID is found
/// at the end of the playlist.
pub proof fn law_added_map_is_last(maps: Seq<MapEntry>, map: MapEntry)
    requires
        first_index(maps, map.uid@) is None,
    ensures
        first_index(maps.push(map), map.uid@) == Some(maps.len() as int),
{
    let s = maps.push(map);
    let n = maps.len() as int;
    assert(s[n].uid@ == map.uid@);
    assert(forall|j: int| 0 <= j < n ==> s[j].uid@ != map.uid@);
    let c = choose|i: int| 0 <= i < s.len() && s[i].uid@ == map.uid@ && forall|j: int| 0 <= j < i ==> s[j].uid@ != map.uid@;
    assert(0 <= n < s.len() && s[n].uid@ == map.uid@ && forall|j: int| 0 <= j < n ==> s[j].uid@ != map.uid@);
    if c < n {
        assert(s[c].uid@ != map.uid@);
    }
}

} // verus!
