//! Records of the current map: the top records, the number of records, the
//! personal bests of connected players, and the sectors of their runs.

use vstd::prelude::*;

use crate::controller::player::PlayersState;
use crate::gbx::structs::CheckpointEvent;
use crate::keyed::{get_id, lemma_lookup_at, lookup, remove_id, unique_ids, upsert_id};

verus! {

/// Limits the amount of top records cached and displayed for a map.
pub const MAX_DISPLAYED_MAP_RANKS: usize = 10;

/// A checkpoint crossed in a run.
#[derive(Clone, Copy, Debug)]
pub struct RecordSector {
    /// The checkpoint's index in the run.
    pub index: i32,
    /// The run time at this checkpoint.
    pub cp_millis: i32,
    /// The speed at this checkpoint in km/h, as the bits of an IEEE 754 single
    /// (`f32::to_bits`); the speed is kept positive when driving backwards.
    pub cp_speed_bits: u32,
}

/// A record as the library reasons about it.
pub struct RecordView {
    pub map_uid: Seq<char>,
    pub map_rank: i64,
    pub player_login: Seq<char>,
    pub player_nick_name: Seq<char>,
    pub timestamp_millis: i64,
    pub millis: i32,
    pub sectors: Seq<RecordSector>,
}

/// A player's personal best on a map.
#[derive(Debug)]
pub struct Record {
    pub map_uid: String,
    /// The rank of this record on its map, starting at 1.
    pub map_rank: i64,
    pub player_login: String,
    pub player_nick_name: String,
    /// When the record was set, in milliseconds since the Unix epoch.
    pub timestamp_millis: i64,
    /// The run time.
    pub millis: i32,
    pub sectors: Vec<RecordSector>,
}

impl View for Record {
    type V = RecordView;

    open spec fn view(&self) -> RecordView {
        RecordView {
            map_uid: self.map_uid@,
            map_rank: self.map_rank,
            player_login: self.player_login@,
            player_nick_name: self.player_nick_name@,
            timestamp_millis: self.timestamp_millis,
            millis: self.millis,
            sectors: self.sectors@,
        }
    }
}

impl Record {
    /// A copy of this record.
    pub fn duplicate(&self) -> (res: Record)
        ensures
            res@ == self@,
    {
        let sectors = self.sectors.clone();
        proof {
            assert(sectors@ =~= self.sectors@);
        }
        Record {
            map_uid: self.map_uid.clone(),
            map_rank: self.map_rank,
            player_login: self.player_login.clone(),
            player_nick_name: self.player_nick_name.clone(),
            timestamp_millis: self.timestamp_millis,
            millis: self.millis,
            sectors,
        }
    }
}

/// A finished run that is about to become a record.
#[derive(Debug)]
pub struct RecordEvidence {
    pub player_login: String,
    pub map_uid: String,
    pub millis: i32,
    /// When the run was finished, in milliseconds since the Unix epoch.
    pub timestamp_millis: i64,
    pub sectors: Vec<RecordSector>,
}

/// How a finished run changed a player's personal best.
#[derive(Debug)]
pub struct PbDiff {
    pub player_uid: i32,
    /// The run time minus the previous personal best, if there was one.
    pub millis_diff: Option<i32>,
    /// The map rank of the previous personal best, if there was one.
    pub prev_pos: Option<usize>,
    /// The map rank of the personal best after the run.
    pub new_pos: usize,
    /// The new record, if the run improved the personal best.
    pub new_record: Option<Record>,
    /// The number of map ranks gained.
    pub pos_gained: usize,
}

/// The sectors of a run, and what is known of the personal best it improves.
#[derive(Debug)]
pub struct NewPb {
    pub sectors: Vec<RecordSector>,
    pub prev_pos: Option<usize>,
    pub millis_diff: Option<i32>,
}

/// The views of a list of records.
pub open spec fn views(s: Seq<Record>) -> Seq<RecordView> {
    s.map_values(|r: Record| r@)
}

/// The first position in `s` of a record set by `login`.
pub open spec fn first_of_login(s: Seq<RecordView>, login: Seq<char>) -> Option<int> {
    if exists|i: int| 0 <= i < s.len() && s[i].player_login == login {
        Some(
            choose|i: int|
                0 <= i < s.len() && s[i].player_login == login && forall|j: int|
                    0 <= j < i ==> s[j].player_login != login,
        )
    } else {
        None
    }
}

/// The first position in `s` of a record slower than `millis`.
pub open spec fn first_slower(s: Seq<RecordView>, millis: i32) -> Option<int> {
    if exists|i: int| 0 <= i < s.len() && millis < s[i].millis {
        Some(
            choose|i: int|
                0 <= i < s.len() && millis < s[i].millis && forall|j: int| 0 <= j < i ==> !(millis < s[j].millis),
        )
    } else {
        None
    }
}

/// Where a record with this run time enters the sorted list `top`, if it does:
/// before the first slower record, or else last while the list holds fewer
/// than `MAX_DISPLAYED_MAP_RANKS` records (the list then holds all records).
pub open spec fn entry_index(top: Seq<RecordView>, millis: i32) -> Option<int> {
    match first_slower(top, millis) {
        Some(i) => Some(i),
        None => if top.len() < MAX_DISPLAYED_MAP_RANKS {
            Some(top.len() as int)
        } else {
            None
        },
    }
}

/// `top` without the record of `login`, if it holds one.
pub open spec fn without_login(top: Seq<RecordView>, login: Seq<char>) -> Seq<RecordView> {
    match first_of_login(top, login) {
        Some(i) => top.remove(i),
        None => top,
    }
}

/// The top records after `rec` was set: the player's previous entry leaves,
/// and the record enters before the first slower one, keeping the first
/// `MAX_DISPLAYED_MAP_RANKS`.
pub open spec fn top_after(top: Seq<RecordView>, rec: RecordView) -> Seq<RecordView> {
    let t = without_login(top, rec.player_login);
    match entry_index(t, rec.millis) {
        Some(i) => {
            let u = t.insert(i, rec);
            if u.len() > MAX_DISPLAYED_MAP_RANKS {
                u.take(MAX_DISPLAYED_MAP_RANKS as int)
            } else {
                u
            }
        },
        None => t,
    }
}

/// The map rank that a run time would reach among the cached top records,
/// if it enters them.
pub open spec fn spec_pos_preview(top: Seq<RecordView>, millis: i32) -> Option<int> {
    match entry_index(top, millis) {
        Some(i) => Some(i + 1),
        None => None,
    }
}

/// Records of the current map.
pub struct RecordsState {
    /// The number of players that have set a record on the current map.
    pub nb_records: usize,
    /// The top record on the current map, or `None` if no player
    /// has set a record on the current map.
    pub top_record: Option<Record>,
    /// A number of top records on the current map. The number is determined
    /// by how many records we want to display in-game. The vector is sorted
    /// from better to worse.
    pub top_records: Vec<Record>,
    /// Player UID and personal best on the current map; no UID occurs twice.
    pub pbs: Vec<(i32, Record)>,
    /// Player UID and the recorded sectors of their current run; no UID occurs twice.
    pub run_sectors: Vec<(i32, Vec<RecordSector>)>,
}

/// The position of the first index in `s` where `f` holds.
proof fn lemma_first_unique(s: Seq<RecordView>, login: Seq<char>, w: int)
    requires
        0 <= w < s.len(),
        s[w].player_login == login,
        forall|j: int| 0 <= j < w ==> s[j].player_login != login,
    ensures
        first_of_login(s, login) == Some(w),
{
    let c = choose|i: int|
        0 <= i < s.len() && s[i].player_login == login && forall|j: int| 0 <= j < i ==> s[j].player_login != login;
    if c < w {
    } else if w < c {
        assert(s[w].player_login != login);
    }
}

proof fn lemma_first_slower_unique(s: Seq<RecordView>, millis: i32, w: int)
    requires
        0 <= w < s.len(),
        millis < s[w].millis,
        forall|j: int| 0 <= j < w ==> !(millis < s[j].millis),
    ensures
        first_slower(s, millis) == Some(w),
{
    let c = choose|i: int|
        0 <= i < s.len() && millis < s[i].millis && forall|j: int| 0 <= j < i ==> !(millis < s[j].millis);
    if c < w {
    } else if w < c {
        assert(!(millis < s[w].millis));
    }
}

/// Where a record with this run time enters `top`.
fn exec_entry_index(top: &Vec<Record>, millis: i32) -> (res: Option<usize>)
    ensures
        match res {
            Some(i) => i < top@.len() || (i == top@.len() && top@.len() < MAX_DISPLAYED_MAP_RANKS),
            None => true,
        },
        match res {
            Some(i) => entry_index(views(top@), millis) == Some(i as int),
            None => entry_index(views(top@), millis) is None,
        },
{
    let ghost v = views(top@);
    let mut i: usize = 0;
    while i < top.len()
        invariant
            i <= top@.len(),
            v == views(top@),
            v.len() == top@.len(),
            forall|j: int| 0 <= j < i ==> !(millis < #[trigger] v[j].millis),
        decreases top@.len() - i,
    {
        if millis < top[i].millis {
            proof {
                assert(v[i as int] == top@[i as int]@);
                lemma_first_slower_unique(v, millis, i as int);
            }
            return Some(i);
        }
        assert(v[i as int] == top@[i as int]@);
        i = i + 1;
    }
    if top.len() < MAX_DISPLAYED_MAP_RANKS {
        Some(top.len())
    } else {
        None
    }
}

/// The position of the first record of `login` in `top`.
fn find_login(top: &Vec<Record>, login: &String) -> (res: Option<usize>)
    ensures
        match res {
            Some(i) => i < top@.len() && first_of_login(views(top@), login@) == Some(i as int),
            None => first_of_login(views(top@), login@) is None,
        },
{
    let ghost v = views(top@);
    let mut k: usize = 0;
    while k < top.len()
        invariant
            k <= top@.len(),
            v == views(top@),
            v.len() == top@.len(),
            forall|j: int| 0 <= j < k ==> #[trigger] v[j].player_login != login@,
        decreases top@.len() - k,
    {
        assert(v[k as int] == top@[k as int]@);
        if top[k].player_login == *login {
            proof {
                lemma_first_unique(v, login@, k as int);
            }
            return Some(k);
        }
        k = k + 1;
    }
    None
}

/// Removes the first record of `login` from `top`.
fn remove_login(top: &mut Vec<Record>, login: &String)
    ensures
        views(final(top)@) == without_login(views(old(top)@), login@),
{
    let ghost t0 = views(top@);
    match find_login(top, login) {
        Some(idx) => {
            top.remove(idx);
            assert(views(top@) =~= t0.remove(idx as int));
        },
        None => {},
    }
}

/// Inserts `record` before the first slower record of `top`, keeping the
/// first `MAX_DISPLAYED_MAP_RANKS`. Returns whether it entered first.
fn insert_by_time(top: &mut Vec<Record>, record: &Record) -> (entered_first: bool)
    ensures
        views(final(top)@) == match entry_index(views(old(top)@), record.millis) {
            Some(i) => {
                let u = views(old(top)@).insert(i, record@);
                if u.len() > MAX_DISPLAYED_MAP_RANKS {
                    u.take(MAX_DISPLAYED_MAP_RANKS as int)
                } else {
                    u
                }
            },
            None => views(old(top)@),
        },
        entered_first == (entry_index(views(old(top)@), record.millis) == Some(0int)),
{
    let ghost t1 = views(top@);
    match exec_entry_index(top, record.millis) {
        Some(idx) => {
            top.insert(idx, record.duplicate());
            let ghost u = t1.insert(idx as int, record@);
            assert(views(top@) =~= u);
            top.truncate(MAX_DISPLAYED_MAP_RANKS);
            proof {
                if u.len() > MAX_DISPLAYED_MAP_RANKS {
                    assert(views(top@) =~= u.take(MAX_DISPLAYED_MAP_RANKS as int));
                } else {
                    assert(views(top@) =~= u);
                }
            }
            idx == 0
        },
        None => false,
    }
}

/// Puts `record` into the sorted top records: the player's previous entry
/// leaves, and the record enters before the first slower one. Returns whether
/// it entered first.
fn update_top_records(top: &mut Vec<Record>, record: &Record) -> (entered_first: bool)
    ensures
        views(final(top)@) == top_after(views(old(top)@), record@),
        entered_first == (entry_index(without_login(views(old(top)@), record.player_login@), record.millis) == Some(0int)),
{
    remove_login(top, &record.player_login);
    insert_by_time(top, record)
}

impl RecordsState {
    /// No player UID occurs twice.
    pub open spec fn wf(&self) -> bool {
        &&& unique_ids(self.pbs@)
        &&& unique_ids(self.run_sectors@)
    }

    /// The personal best of a connected player.
    pub open spec fn pb_view(&self, uid: i32) -> Option<RecordView> {
        match lookup(self.pbs@, uid) {
            Some(r) => Some(r@),
            None => None,
        }
    }

    /// The sectors recorded in a player's current run.
    pub open spec fn sectors_view(&self, uid: i32) -> Option<Seq<RecordSector>> {
        match lookup(self.run_sectors@, uid) {
            Some(s) => Some(s@),
            None => None,
        }
    }

    /// The top records as views.
    pub open spec fn top_view(&self) -> Seq<RecordView> {
        views(self.top_records@)
    }

    /// The top record as a view.
    pub open spec fn top_record_view(&self) -> Option<RecordView> {
        match self.top_record {
            Some(r) => Some(r@),
            None => None,
        }
    }

    /// An empty state, before a map was loaded.
    pub fn init() -> (res: Self)
        ensures
            res.wf(),
            res.nb_records == 0,
            res.top_record is None,
            res.top_records@.len() == 0,
            res.pbs@.len() == 0,
            res.run_sectors@.len() == 0,
            forall|u: i32| #[trigger] res.pb_view(u) is None && res.sectors_view(u) is None,
    {
        RecordsState {
            nb_records: 0,
            top_record: None,
            top_records: Vec::new(),
            pbs: Vec::new(),
            run_sectors: Vec::new(),
        }
    }

    /// The personal best of the specified player, on the current map, or
    /// `None` if they have not set a record yet.
    pub fn pb(&self, player_uid: i32) -> (res: Option<&Record>)
        requires
            self.wf(),
        ensures
            match res {
                Some(r) => self.pb_view(player_uid) == Some(r@),
                None => self.pb_view(player_uid) is None,
            },
    {
        get_id(&self.pbs, player_uid)
    }

    /// The personal bests of connected players.
    pub fn playing_pbs(&self) -> (res: Vec<&Record>)
        ensures
            res@.len() == self.pbs@.len(),
            forall|i: int| 0 <= i < res@.len() ==> #[trigger] res@[i] == &self.pbs@[i].1,
    {
        let mut res: Vec<&Record> = Vec::new();
        let mut i: usize = 0;
        while i < self.pbs.len()
            invariant
                i <= self.pbs@.len(),
                res@.len() == i,
                forall|j: int| 0 <= j < i ==> #[trigger] res@[j] == &self.pbs@[j].1,
            decreases self.pbs@.len() - i,
        {
            res.push(&self.pbs[i].1);
            i = i + 1;
        }
        res
    }

    /// Whether sectors were recorded for the player's current run.
    pub fn has_run_sectors(&self, player_uid: i32) -> (res: bool)
        requires
            self.wf(),
        ensures
            res == self.sectors_view(player_uid) is Some,
    {
        get_id(&self.run_sectors, player_uid).is_some()
    }

    /// Without inserting the given record, return the map rank it would achieve,
    /// if it were inserted. Returns `None` if the record would not enter the
    /// top records that are cached in this state.
    pub fn pos_preview(&self, rec: &RecordEvidence) -> (res: Option<usize>)
        ensures
            match res {
                Some(p) => spec_pos_preview(self.top_view(), rec.millis) == Some(p as int),
                None => spec_pos_preview(self.top_view(), rec.millis) is None,
            },
    {
        let n = self.top_records.len();
        match exec_entry_index(&self.top_records, rec.millis) {
            Some(i) => Some(i + 1),
            None => None,
        }
    }

    /// Caches a new record of the player: it counts as a new record on the
    /// map if they had none, it becomes their personal best if it is faster,
    /// and it enters the top records if it is good enough.
    pub fn upsert_record(&mut self, player_uid: i32, record: &Record)
        requires
            old(self).wf(),
            old(self).pb_view(player_uid) is None ==> old(self).nb_records < usize::MAX,
        ensures
            final(self).wf(),
            final(self).nb_records == old(self).nb_records + if old(self).pb_view(player_uid) is None { 1int } else { 0 },
            forall|u: i32| #[trigger] final(self).pb_view(u) == if u == player_uid && (old(self).pb_view(player_uid) is None
                || record.millis < old(self).pb_view(player_uid)->0.millis) {
                Some(record@)
            } else {
                old(self).pb_view(u)
            },
            forall|u: i32| #[trigger] final(self).sectors_view(u) == old(self).sectors_view(u),
            final(self).top_view() == top_after(old(self).top_view(), record@),
            final(self).top_record_view() == if entry_index(
                without_login(old(self).top_view(), record.player_login@),
                record.millis,
            ) == Some(0int) {
                Some(record@)
            } else {
                old(self).top_record_view()
            },
    {
        let ghost old_pbs = self.pbs@;
        let is_first_record = match get_id(&self.pbs, player_uid) {
            Some(_) => false,
            None => true,
        };
        if is_first_record {
            self.nb_records = self.nb_records + 1;
        }
        let is_new_pb = match get_id(&self.pbs, player_uid) {
            Some(pb) => !(pb.millis <= record.millis),
            None => true,
        };
        if is_new_pb {
            upsert_id(&mut self.pbs, player_uid, record.duplicate());
        }
        proof {
            assert forall|u: i32| #[trigger] self.pb_view(u) == if u == player_uid && (lookup(old_pbs, player_uid) is None
                || record.millis < lookup(old_pbs, player_uid)->0.millis) {
                Some(record@)
            } else {
                match lookup(old_pbs, u) {
                    Some(r) => Some(r@),
                    None => None,
                }
            } by {}
        }

        let entered_first = update_top_records(&mut self.top_records, record);
        if entered_first {
            self.top_record = Some(record.duplicate());
        }
    }

    /// Stores the personal best of a player who joined.
    pub fn insert_pb(&mut self, player_uid: i32, pb: Record)
        requires
            old(self).wf(),
        ensures
            final(self).wf(),
            forall|u: i32| #[trigger] final(self).pb_view(u) == if u == player_uid { Some(pb@) } else { old(self).pb_view(u) },
            forall|u: i32| #[trigger] final(self).sectors_view(u) == old(self).sectors_view(u),
            final(self).nb_records == old(self).nb_records,
            final(self).top_view() == old(self).top_view(),
            final(self).top_record_view() == old(self).top_record_view(),
    {
        let ghost pbv = pb@;
        upsert_id(&mut self.pbs, player_uid, pb);
        assert forall|u: i32| #[trigger] self.pb_view(u) == if u == player_uid { Some(pbv) } else { old(self).pb_view(u) } by {}
    }

    /// Forgets the personal best and the current run of a player who left.
    pub fn remove_player(&mut self, player_uid: i32)
        requires
            old(self).wf(),
        ensures
            final(self).wf(),
            forall|u: i32| #[trigger] final(self).pb_view(u) == if u == player_uid { None } else { old(self).pb_view(u) },
            forall|u: i32| #[trigger] final(self).sectors_view(u) == if u == player_uid { None } else { old(self).sectors_view(u) },
            final(self).nb_records == old(self).nb_records,
            final(self).top_view() == old(self).top_view(),
            final(self).top_record_view() == old(self).top_record_view(),
    {
        let _ = remove_id(&mut self.pbs, player_uid);
        let _ = remove_id(&mut self.run_sectors, player_uid);
        assert forall|u: i32| #[trigger] self.pb_view(u) == if u == player_uid { None } else { old(self).pb_view(u) } by {}
        assert forall|u: i32| #[trigger] self.sectors_view(u) == if u == player_uid { None } else { old(self).sectors_view(u) } by {}
    }

    /// Replaces the cached records with those of a newly loaded map: its number
    /// of records, its top records, and the personal bests of connected players
    /// (a later entry for a UID replaces an earlier one). Runs are forgotten.
    pub fn load_map(&mut self, nb_records: usize, top_record: Option<Record>, top_records: Vec<Record>, pbs: Vec<(i32, Record)>)
        ensures
            final(self).wf(),
            final(self).nb_records == nb_records,
            final(self).top_view() == views(top_records@),
            final(self).top_record_view() == match top_record {
                Some(r) => Some(r@),
                None => None::<RecordView>,
            },
            forall|u: i32| #[trigger] final(self).sectors_view(u) is None,
            forall|u: i32| #[trigger] final(self).pb_view(u) == match lookup_last(pbs@, u) {
                Some(r) => Some(r@),
                None => None::<RecordView>,
            },
    {
        let ghost all = pbs@;
        let ghost top_v = views(top_records@);
        self.nb_records = nb_records;
        self.top_record = top_record;
        self.top_records = top_records;
        let ghost top1_v = self.top_record_view();
        self.run_sectors = Vec::new();
        self.pbs = Vec::new();
        let mut rest = pbs;
        let mut n: usize = 0;
        let len = rest.len();
        while n < len
            invariant
                len == all.len(),
                rest@ == all.skip(n as int),
                n <= len,
                unique_ids(self.pbs@),
                forall|u: i32| #[trigger] lookup(self.pbs@, u) == lookup_last(all.take(n as int), u),
                self.run_sectors@ == Seq::<(i32, Vec<RecordSector>)>::empty(),
                self.nb_records == nb_records,
                self.top_view() == top_v,
                self.top_record_view() == top1_v,
            decreases len - n,
        {
            let (uid, rec) = rest.remove(0);
            proof {
                assert(all.take(n + 1).drop_last() =~= all.take(n as int));
                assert(all.take(n + 1).last() == (uid, rec));
                assert(rest@ =~= all.skip(n + 1));
            }
            upsert_id(&mut self.pbs, uid, rec);
            n = n + 1;
        }
        proof {
            assert(all.take(len as int) =~= all);
        }
    }

    /// Adds a crossed checkpoint to the player's current run.
    pub fn push_sector(&mut self, player_uid: i32, sector: RecordSector)
        requires
            old(self).wf(),
        ensures
            final(self).wf(),
            forall|u: i32| #[trigger] final(self).sectors_view(u) == if u == player_uid {
                Some(
                    match old(self).sectors_view(player_uid) {
                        Some(s) => s,
                        None => Seq::empty(),
                    }.push(sector),
                )
            } else {
                old(self).sectors_view(u)
            },
            forall|u: i32| #[trigger] final(self).pb_view(u) == old(self).pb_view(u),
            final(self).nb_records == old(self).nb_records,
            final(self).top_view() == old(self).top_view(),
            final(self).top_record_view() == old(self).top_record_view(),
    {
        let mut sectors = match remove_id(&mut self.run_sectors, player_uid) {
            Some(s) => s,
            None => Vec::new(),
        };
        sectors.push(sector);
        let ghost sv = sectors@;
        upsert_id(&mut self.run_sectors, player_uid, sectors);
        assert forall|u: i32| #[trigger] self.sectors_view(u) == if u == player_uid {
            Some(
                match old(self).sectors_view(player_uid) {
                    Some(s) => s,
                    None => Seq::empty(),
                }.push(sector),
            )
        } else {
            old(self).sectors_view(u)
        } by {
            if u == player_uid {
                assert(sv =~= match old(self).sectors_view(player_uid) {
                    Some(s) => s,
                    None => Seq::empty(),
                }.push(sector));
            }
        }
    }

    /// The sector that a crossed checkpoint adds to a run: its index, the run
    /// time, and the speed without its sign (which a backwards drive gives).
    pub open spec fn sector_of(ev: CheckpointEvent) -> RecordSector {
        RecordSector {
            index: ev.race_cp_index,
            cp_millis: ev.race_time_millis,
            cp_speed_bits: ev.speed_bits & 0x7fff_ffffu32,
        }
    }

    /// Adds a crossed checkpoint to the current run of the connected player
    /// that crossed it; checkpoints of others are ignored.
    pub fn update_run(&mut self, players: &PlayersState, ev: &CheckpointEvent)
        requires
            old(self).wf(),
            players.wf(),
        ensures
            final(self).wf(),
            match players.uid_of(ev.player_login@) {
                Some(u) => match players.info_of(u) {
                    Some(info) => forall|v: i32| #[trigger] final(self).sectors_view(v) == if v == info.uid {
                        Some(
                            match old(self).sectors_view(info.uid) {
                                Some(s) => s,
                                None => Seq::empty(),
                            }.push(Self::sector_of(*ev)),
                        )
                    } else {
                        old(self).sectors_view(v)
                    },
                    None => *final(self) == *old(self),
                },
                None => *final(self) == *old(self),
            },
            forall|u: i32| #[trigger] final(self).pb_view(u) == old(self).pb_view(u),
            final(self).nb_records == old(self).nb_records,
            final(self).top_view() == old(self).top_view(),
            final(self).top_record_view() == old(self).top_record_view(),
    {
        match players.info(ev.player_login.as_str()) {
            Some(info) => {
                let sector = RecordSector {
                    index: ev.race_cp_index,
                    cp_millis: ev.race_time_millis,
                    cp_speed_bits: ev.speed_bits & 0x7fff_ffffu32,
                };
                self.push_sector(info.uid, sector);
            },
            None => {},
        }
    }

    /// Discards the sectors of a player's current run, when they respawn.
    pub fn reset_run(&mut self, player_uid: i32)
        requires
            old(self).wf(),
        ensures
            final(self).wf(),
            forall|u: i32| #[trigger] final(self).sectors_view(u) == if u == player_uid { None } else { old(self).sectors_view(u) },
            forall|u: i32| #[trigger] final(self).pb_view(u) == old(self).pb_view(u),
            final(self).nb_records == old(self).nb_records,
            final(self).top_view() == old(self).top_view(),
            final(self).top_record_view() == old(self).top_record_view(),
    {
        let _ = remove_id(&mut self.run_sectors, player_uid);
        assert forall|u: i32| #[trigger] self.sectors_view(u) == if u == player_uid { None } else { old(self).sectors_view(u) } by {}
    }

    /// The first step at the end of a run with the given time: a run that is
    /// not faster than the player's personal best changes nothing, and gives
    /// the unchanged diff; otherwise the sectors of the run are taken out, to
    /// become the new record's.
    pub fn begin_end_run(&mut self, player_uid: i32, race_time_millis: i32) -> (res: Result<PbDiff, NewPb>)
        requires
            old(self).wf(),
            old(self).pb_view(player_uid) matches Some(pb) ==> i32::MIN <= race_time_millis - pb.millis <= i32::MAX,
            old(self).pb_view(player_uid) matches Some(pb) && race_time_millis - pb.millis < 0 ==> old(self).sectors_view(player_uid) is Some,
            old(self).pb_view(player_uid) is None ==> old(self).sectors_view(player_uid) is Some,
        ensures
            final(self).wf(),
            forall|u: i32| #[trigger] final(self).pb_view(u) == old(self).pb_view(u),
            final(self).nb_records == old(self).nb_records,
            final(self).top_view() == old(self).top_view(),
            final(self).top_record_view() == old(self).top_record_view(),
            match old(self).pb_view(player_uid) {
                Some(pb) if race_time_millis - pb.millis >= 0 => {
                    &&& res matches Ok(d)
                    &&& d.player_uid == player_uid
                    &&& d.millis_diff == Some((race_time_millis - pb.millis) as i32)
                    &&& d.prev_pos == Some(pb.map_rank as usize)
                    &&& d.new_pos == pb.map_rank as usize
                    &&& d.new_record is None
                    &&& d.pos_gained == 0
                    &&& forall|u: i32| #[trigger] final(self).sectors_view(u) == old(self).sectors_view(u)
                },
                _ => {
                    &&& res matches Err(n)
                    &&& Some(n.sectors@) == old(self).sectors_view(player_uid)
                    &&& n.prev_pos == match old(self).pb_view(player_uid) {
                        Some(pb) => Some(pb.map_rank as usize),
                        None => None::<usize>,
                    }
                    &&& n.millis_diff == match old(self).pb_view(player_uid) {
                        Some(pb) => Some((race_time_millis - pb.millis) as i32),
                        None => None::<i32>,
                    }
                    &&& forall|u: i32| #[trigger] final(self).sectors_view(u) == if u == player_uid { None } else { old(self).sectors_view(u) }
                },
            },
    {
        let (prev_pos, millis_diff) = match get_id(&self.pbs, player_uid) {
            Some(pb) => (Some(pb.map_rank as usize), Some(race_time_millis - pb.millis)),
            None => (None, None),
        };
        let is_new_pb = match millis_diff {
            Some(d) => d < 0,
            None => true,
        };
        if !is_new_pb {
            let new_pos = match prev_pos {
                Some(p) => p,
                None => 0,
            };
            return Ok(PbDiff { player_uid, millis_diff, prev_pos, new_pos, new_record: None, pos_gained: 0 });
        }
        let sectors = match remove_id(&mut self.run_sectors, player_uid) {
            Some(s) => s,
            None => Vec::new(),
        };
        assert forall|u: i32| #[trigger] self.sectors_view(u) == if u == player_uid { None } else { old(self).sectors_view(u) } by {}
        Err(NewPb { sectors, prev_pos, millis_diff })
    }

    /// The last step at the end of a run that improved the player's personal
    /// best: the new record, at map rank `new_pos`, is cached, and the diff
    /// tells how many ranks were gained: from the previous rank, or else from
    /// the number of records (one for the first record on the map).
    pub fn finish_end_run(&mut self, player_uid: i32, improved: NewPb, new_pos: usize, record: Record) -> (res: PbDiff)
        requires
            old(self).wf(),
            old(self).pb_view(player_uid) is None ==> old(self).nb_records < usize::MAX,
            improved.prev_pos matches Some(p) ==> new_pos <= p,
            improved.prev_pos is None && old(self).pb_view(player_uid) is None ==> (old(self).nb_records + 1 == 1 || new_pos <= old(self).nb_records + 1),
            improved.prev_pos is None && old(self).pb_view(player_uid) is Some ==> (old(self).nb_records == 1 || new_pos <= old(self).nb_records),
        ensures
            final(self).wf(),
            final(self).nb_records == old(self).nb_records + if old(self).pb_view(player_uid) is None { 1int } else { 0 },
            forall|u: i32| #[trigger] final(self).pb_view(u) == if u == player_uid && (old(self).pb_view(player_uid) is None
                || record.millis < old(self).pb_view(player_uid)->0.millis) {
                Some(record@)
            } else {
                old(self).pb_view(u)
            },
            forall|u: i32| #[trigger] final(self).sectors_view(u) == old(self).sectors_view(u),
            final(self).top_view() == top_after(old(self).top_view(), record@),
            res.player_uid == player_uid,
            res.millis_diff == improved.millis_diff,
            res.prev_pos == improved.prev_pos,
            res.new_pos == new_pos,
            res.new_record matches Some(r) && r@ == record@,
            res.pos_gained == match improved.prev_pos {
                Some(p) => p - new_pos,
                None => if final(self).nb_records == 1 { 1 } else { final(self).nb_records - new_pos },
            },
    {
        self.upsert_record(player_uid, &record);
        let pos_gained = match improved.prev_pos {
            Some(p) => p - new_pos,
            None => if self.nb_records == 1 { 1 } else { self.nb_records - new_pos },
        };
        PbDiff {
            player_uid,
            millis_diff: improved.millis_diff,
            new_pos,
            prev_pos: improved.prev_pos,
            pos_gained,
            new_record: Some(record),
        }
    }
}

/// The value stored for `k` by the last entry with that key.
pub open spec fn lookup_last<T>(s: Seq<(i32, T)>, k: i32) -> Option<T>
    decreases s.len(),
{
    if s.len() == 0 {
        None
    } else if s.last().0 == k {
        Some(s.last().1)
    } else {
        lookup_last(s.drop_last(), k)
    }
}

/// Whether records are sorted from fastest to slowest.
pub open spec fn sorted_by_time(s: Seq<RecordView>) -> bool {
    forall|i: int, j: int| 0 <= i < j < s.len() ==> s[i].millis <= s[j].millis
}

proof fn lemma_first_slower_min(s: Seq<RecordView>, millis: i32, i: int)
    requires
        0 <= i < s.len(),
        millis < s[i].millis,
    ensures
        first_slower(s, millis) matches Some(e) && 0 <= e <= i && millis < s[e].millis && forall|j: int|
            0 <= j < e ==> !(millis < s[j].millis),
    decreases i,
{
    if exists|j: int| 0 <= j < i && millis < s[j].millis {
        let j = choose|j: int| 0 <= j < i && millis < s[j].millis;
        lemma_first_slower_min(s, millis, j);
    } else {
        lemma_first_slower_unique(s, millis, i);
    }
}

proof fn lemma_first_of_login_min(s: Seq<RecordView>, login: Seq<char>, i: int)
    requires
        0 <= i < s.len(),
        s[i].player_login == login,
    ensures
        first_of_login(s, login) matches Some(k) && 0 <= k <= i && s[k].player_login == login,
    decreases i,
{
    if exists|j: int| 0 <= j < i && s[j].player_login == login {
        let j = choose|j: int| 0 <= j < i && s[j].player_login == login;
        lemma_first_of_login_min(s, login, j);
    } else {
        let c = choose|k: int|
            0 <= k < s.len() && s[k].player_login == login && forall|j: int| 0 <= j < k ==> s[j].player_login != login;
        assert(0 <= i < s.len() && s[i].player_login == login && forall|j: int| 0 <= j < i ==> s[j].player_login != login);
        if c < i {
        } else if i < c {
            assert(s[i].player_login != login);
        }
    }
}

proof fn lemma_remove_sorted(top: Seq<RecordView>, k: int)
    requires
        sorted_by_time(top),
        0 <= k < top.len(),
    ensures
        sorted_by_time(top.remove(k)),
{
    let t = top.remove(k);
    assert forall|i: int, j: int| 0 <= i < j < t.len() implies t[i].millis <= t[j].millis by {
        let a = if i < k { i } else { i + 1 };
        let b = if j < k { j } else { j + 1 };
        assert(t[i] == top[a]);
        assert(t[j] == top[b]);
        assert(top[a].millis <= top[b].millis);
    }
}

proof fn lemma_without_sorted(top: Seq<RecordView>, login: Seq<char>)
    requires
        sorted_by_time(top),
    ensures
        sorted_by_time(without_login(top, login)),
        without_login(top, login).len() <= top.len(),
{
    if exists|i: int| 0 <= i < top.len() && top[i].player_login == login {
        let w = choose|i: int| 0 <= i < top.len() && top[i].player_login == login;
        lemma_first_of_login_min(top, login, w);
        let k = first_of_login(top, login)->0;
        lemma_remove_sorted(top, k);
    }
}

proof fn lemma_insert_sorted(t: Seq<RecordView>, e: int, rec: RecordView)
    requires
        sorted_by_time(t),
        0 <= e <= t.len(),
        forall|j: int| 0 <= j < e ==> t[j].millis <= rec.millis,
        forall|j: int| e <= j < t.len() ==> rec.millis < t[j].millis,
    ensures
        sorted_by_time(t.insert(e, rec)),
{
    let u = t.insert(e, rec);
    assert forall|i: int, j: int| 0 <= i < j < u.len() implies u[i].millis <= u[j].millis by {
        if i < e && j < e {
            assert(u[i] == t[i] && u[j] == t[j]);
        } else if i < e && j == e {
            assert(u[i] == t[i]);
        } else if i < e {
            assert(u[i] == t[i] && u[j] == t[j - 1]);
        } else if i == e {
            assert(u[j] == t[j - 1]);
        } else {
            assert(u[i] == t[i - 1] && u[j] == t[j - 1]);
        }
    }
}

proof fn lemma_take_sorted(u: Seq<RecordView>, n: int)
    requires
        sorted_by_time(u),
        0 <= n <= u.len(),
    ensures
        sorted_by_time(u.take(n)),
{
    let v = u.take(n);
    assert forall|i: int, j: int| 0 <= i < j < v.len() implies v[i].millis <= v[j].millis by {
        assert(v[i] == u[i] && v[j] == u[j]);
    }
}

/// Where `entry_index` puts a record, the records before it are not slower and
/// those after it are slower.
proof fn lemma_entry_index_place(t: Seq<RecordView>, millis: i32)
    requires
        sorted_by_time(t),
    ensures
        entry_index(t, millis) matches Some(e) ==> {
            &&& 0 <= e <= t.len()
            &&& forall|j: int| 0 <= j < e ==> t[j].millis <= millis
            &&& forall|j: int| e <= j < t.len() ==> millis < t[j].millis
        },
{
    if exists|i: int| 0 <= i < t.len() && millis < t[i].millis {
        let w = choose|i: int| 0 <= i < t.len() && millis < t[i].millis;
        lemma_first_slower_min(t, millis, w);
    }
    match first_slower(t, millis) {
        Some(e) => {
            assert(0 <= e < t.len() && millis < t[e].millis);
            assert forall|j: int| e <= j < t.len() implies millis < t[j].millis by {
                if e < j {
                    assert(t[e].millis <= t[j].millis);
                }
            }
        },
        None => {},
    }
}

/// No two records are of the same player.
pub open spec fn distinct_players(s: Seq<RecordView>) -> bool {
    forall|i: int, j: int| 0 <= i < j < s.len() ==> (#[trigger] s[i]).player_login != (#[trigger] s[j]).player_login
}

proof fn lemma_remove_distinct(top: Seq<RecordView>, k: int, login: Seq<char>)
    requires
        distinct_players(top),
        0 <= k < top.len(),
        top[k].player_login == login,
    ensures
        distinct_players(top.remove(k)),
        forall|j: int| 0 <= j < top.remove(k).len() ==> top.remove(k)[j].player_login != login,
{
    let t = top.remove(k);
    assert forall|i: int, j: int| 0 <= i < j < t.len() implies (#[trigger] t[i]).player_login != (#[trigger] t[j]).player_login by {
        let a = if i < k { i } else { i + 1 };
        let b = if j < k { j } else { j + 1 };
        assert(t[i] == top[a] && t[j] == top[b]);
    }
    assert forall|j: int| 0 <= j < t.len() implies t[j].player_login != login by {
        let b = if j < k { j } else { j + 1 };
        assert(t[j] == top[b]);
        if b < k {
            assert(top[b].player_login != top[k].player_login);
        } else {
            assert(top[k].player_login != top[b].player_login);
        }
    }
}

proof fn lemma_insert_distinct(t: Seq<RecordView>, e: int, rec: RecordView)
    requires
        distinct_players(t),
        forall|j: int| 0 <= j < t.len() ==> t[j].player_login != rec.player_login,
        0 <= e <= t.len(),
    ensures
        distinct_players(t.insert(e, rec)),
{
    let u = t.insert(e, rec);
    assert forall|i: int, j: int| 0 <= i < j < u.len() implies (#[trigger] u[i]).player_login != (#[trigger] u[j]).player_login by {
        if i < e && j < e {
            assert(u[i] == t[i] && u[j] == t[j]);
        } else if i < e && j == e {
            assert(u[i] == t[i]);
        } else if i < e {
            assert(u[i] == t[i] && u[j] == t[j - 1]);
        } else if i == e {
            assert(u[j] == t[j - 1]);
        } else {
            assert(u[i] == t[i - 1] && u[j] == t[j - 1]);
        }
    }
}

proof fn lemma_take_distinct(u: Seq<RecordView>, n: int)
    requires
        distinct_players(u),
        0 <= n <= u.len(),
    ensures
        distinct_players(u.take(n)),
{
    let v = u.take(n);
    assert forall|i: int, j: int| 0 <= i < j < v.len() implies (#[trigger] v[i]).player_login != (#[trigger] v[j]).player_login by {
        assert(v[i] == u[i] && v[j] == u[j]);
    }
}

proof fn lemma_top_after_distinct(top: Seq<RecordView>, rec: RecordView)
    requires
        distinct_players(top),
        sorted_by_time(top),
    ensures
        distinct_players(top_after(top, rec)),
{
    let login = rec.player_login;
    let t = without_login(top, login);
    if exists|i: int| 0 <= i < top.len() && top[i].player_login == login {
        let w = choose|i: int| 0 <= i < top.len() && top[i].player_login == login;
        lemma_first_of_login_min(top, login, w);
        lemma_remove_distinct(top, first_of_login(top, login)->0, login);
    }
    lemma_without_sorted(top, login);
    lemma_entry_index_place(t, rec.millis);
    if let Some(e) = entry_index(t, rec.millis) {
        lemma_insert_distinct(t, e, rec);
        let u = t.insert(e, rec);
        if u.len() > MAX_DISPLAYED_MAP_RANKS {
            lemma_take_distinct(u, MAX_DISPLAYED_MAP_RANKS as int);
        }
    }
}

/// The records that `playing_pbs` yields are the personal bests of connected
/// players, one for each player with a personal best. Once a player is
/// removed (`remove_player`), they have no personal best, and none of the
/// records yielded belongs to their UID.
pub proof fn law_removed_player_has_no_pb(s0: RecordsState, s1: RecordsState, uid: i32)
    requires
        s0.wf(),
        s1.wf(),
        forall|u: i32| #[trigger] s1.pb_view(u) == if u == uid { None } else { s0.pb_view(u) },
    ensures
        s1.pb_view(uid) is None,
        forall|i: int| 0 <= i < s1.pbs@.len() ==> (#[trigger] s1.pbs@[i]).0 != uid && s1.pb_view(s1.pbs@[i].0)
            == Some(s1.pbs@[i].1@),
        forall|u: i32| #[trigger] s1.pb_view(u) is Some ==> exists|i: int| 0 <= i < s1.pbs@.len() && s1.pbs@[i].0 == u,
{
    assert(s1.pb_view(uid) is None);
    assert forall|i: int| 0 <= i < s1.pbs@.len() implies (#[trigger] s1.pbs@[i]).0 != uid && s1.pb_view(s1.pbs@[i].0)
        == Some(s1.pbs@[i].1@) by {
        lemma_lookup_at(s1.pbs@, s1.pbs@[i].0, i);
    }
}

/// The first of the records, if any.
pub open spec fn first_record(s: Seq<RecordView>) -> Option<RecordView> {
    if s.len() > 0 {
        Some(s[0])
    } else {
        None
    }
}

/// The top record stays the first of the top records when a player sets a
/// new personal best (faster than any record of theirs among the top
/// records): it becomes the new record if that enters first, and is
/// unchanged otherwise.
pub proof fn law_top_record_stays_first(top: Seq<RecordView>, rec: RecordView)
    requires
        sorted_by_time(top),
        top.len() <= MAX_DISPLAYED_MAP_RANKS,
        forall|i: int| 0 <= i < top.len() && top[i].player_login == rec.player_login ==> rec.millis < top[i].millis,
    ensures
        first_record(top_after(top, rec)) == if entry_index(without_login(top, rec.player_login), rec.millis) == Some(0int) {
            Some(rec)
        } else {
            first_record(top)
        },
{
    let login = rec.player_login;
    let t = without_login(top, login);
    lemma_without_sorted(top, login);
    let has = exists|i: int| 0 <= i < top.len() && top[i].player_login == login;
    let mut k: int = -1;
    if has {
        let w = choose|i: int| 0 <= i < top.len() && top[i].player_login == login;
        lemma_first_of_login_min(top, login, w);
        k = first_of_login(top, login)->0;
        assert(t == top.remove(k));
    } else {
        assert(t == top);
    }
    if has && k == 0 {
        // The leader improved: the record is faster than every other.
        if t.len() > 0 {
            assert(t[0] == top[1]);
            assert(top[0].millis <= top[1].millis);
            lemma_first_slower_min(t, rec.millis, 0);
        }
        assert(entry_index(t, rec.millis) == Some(0int));
    }
    match entry_index(t, rec.millis) {
        Some(e) => {
            lemma_entry_index_place(t, rec.millis);
            let u = t.insert(e, rec);
            assert(u[0] == if e == 0 { rec } else { t[0] });
            if u.len() > MAX_DISPLAYED_MAP_RANKS {
                assert(u.take(MAX_DISPLAYED_MAP_RANKS as int)[0] == u[0]);
            }
            if e != 0 {
                assert(t[0] == top[0]);
            }
        },
        None => {
            if t.len() > 0 {
                assert(t[0] == top[0]);
            } else {
                assert(t.len() < MAX_DISPLAYED_MAP_RANKS);
            }
        },
    }
}

/// The top records stay sorted from fastest to slowest, at most
/// `MAX_DISPLAYED_MAP_RANKS` of them are kept, and no player holds two of
/// them, whatever record is set.
pub proof fn law_top_records_stay_sorted(top: Seq<RecordView>, rec: RecordView)
    requires
        sorted_by_time(top),
        top.len() <= MAX_DISPLAYED_MAP_RANKS,
    ensures
        sorted_by_time(top_after(top, rec)),
        top_after(top, rec).len() <= MAX_DISPLAYED_MAP_RANKS,
        distinct_players(top) ==> distinct_players(top_after(top, rec)),
{
    if distinct_players(top) {
        lemma_top_after_distinct(top, rec);
    }
    let t = without_login(top, rec.player_login);
    lemma_without_sorted(top, rec.player_login);
    lemma_entry_index_place(t, rec.millis);
    match entry_index(t, rec.millis) {
        Some(e) => {
            let u = t.insert(e, rec);
            lemma_insert_sorted(t, e, rec);
            if u.len() > MAX_DISPLAYED_MAP_RANKS {
                lemma_take_sorted(u, MAX_DISPLAYED_MAP_RANKS as int);
            }
        },
        None => {},
    }
}

} // verus!
