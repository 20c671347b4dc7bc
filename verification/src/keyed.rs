//! Lists of values keyed by player UIDs or logins, in which no key occurs
//! twice, and lists of UIDs used as sets.

use vstd::prelude::*;

use crate::text::str_eq;

verus! {

/// No key occurs twice.
pub open spec fn unique_ids<T>(s: Seq<(i32, T)>) -> bool {
    forall|a: int, b: int| 0 <= a < b < s.len() ==> (#[trigger] s[a]).0 != (#[trigger] s[b]).0
}

/// The value stored for `k`, if any.
pub open spec fn lookup<T>(s: Seq<(i32, T)>, k: i32) -> Option<T> {
    if exists|i: int| 0 <= i < s.len() && s[i].0 == k {
        Some(s[choose|i: int| 0 <= i < s.len() && s[i].0 == k].1)
    } else {
        None
    }
}

/// In a list without repeated keys, the entry with key `k` is the one looked up.
pub proof fn lemma_lookup_at<T>(s: Seq<(i32, T)>, k: i32, p: int)
    requires
        unique_ids(s),
        0 <= p < s.len(),
        s[p].0 == k,
    ensures
        lookup(s, k) == Some(s[p].1),
{
    let q = choose|i: int| 0 <= i < s.len() && s[i].0 == k;
    if q < p {
        assert(s[q].0 != s[p].0);
    } else if p < q {
        assert(s[p].0 != s[q].0);
    }
}

/// The position of the entry with key `k`.
pub fn position_of_id<T>(v: &Vec<(i32, T)>, k: i32) -> (res: Option<usize>)
    ensures
        match res {
            Some(i) => i < v@.len() && v@[i as int].0 == k,
            None => forall|i: int| 0 <= i < v@.len() ==> v@[i].0 != k,
        },
{
    let mut i: usize = 0;
    while i < v.len()
        invariant
            i <= v@.len(),
            forall|j: int| 0 <= j < i ==> v@[j].0 != k,
        decreases v@.len() - i,
    {
        if v[i].0 == k {
            return Some(i);
        }
        i = i + 1;
    }
    None
}

/// The value stored for `k`.
pub fn get_id<T>(v: &Vec<(i32, T)>, k: i32) -> (res: Option<&T>)
    requires
        unique_ids(v@),
    ensures
        match res {
            Some(r) => lookup(v@, k) == Some(*r),
            None => lookup(v@, k) is None,
        },
{
    match position_of_id(v, k) {
        Some(i) => {
            proof {
                lemma_lookup_at(v@, k, i as int);
            }
            Some(&v[i].1)
        },
        None => None,
    }
}

/// Stores `val` for `k`, in place of a value stored before.
pub fn upsert_id<T>(v: &mut Vec<(i32, T)>, k: i32, val: T)
    requires
        unique_ids(old(v)@),
    ensures
        unique_ids(final(v)@),
        forall|u: i32| #[trigger] lookup(final(v)@, u) == if u == k { Some(val) } else { lookup(old(v)@, u) },
{
    let ghost val_g = val;
    match position_of_id(v, k) {
        Some(i) => {
            v.set(i, (k, val));
            proof {
                let s = v@;
                assert(s == old(v)@.update(i as int, (k, val_g)));
                assert forall|u: i32| #[trigger] lookup(s, u) == if u == k { Some(val_g) } else { lookup(old(v)@, u) } by {
                    if u == k {
                        lemma_lookup_at(s, k, i as int);
                    } else if exists|j: int| 0 <= j < s.len() && s[j].0 == u {
                        let j = choose|j: int| 0 <= j < s.len() && s[j].0 == u;
                        lemma_lookup_at(s, u, j);
                        lemma_lookup_at(old(v)@, u, j);
                    } else {
                        assert forall|j: int| 0 <= j < old(v)@.len() implies old(v)@[j].0 != u by {
                            assert(s[j].0 == old(v)@[j].0 || j == i);
                        }
                    }
                }
            }
        },
        None => {
            v.push((k, val));
            proof {
                let s = v@;
                assert forall|u: i32| #[trigger] lookup(s, u) == if u == k { Some(val_g) } else { lookup(old(v)@, u) } by {
                    if u == k {
                        lemma_lookup_at(s, k, s.len() - 1);
                    } else if exists|j: int| 0 <= j < s.len() && s[j].0 == u {
                        let j = choose|j: int| 0 <= j < s.len() && s[j].0 == u;
                        lemma_lookup_at(s, u, j);
                        lemma_lookup_at(old(v)@, u, j);
                    } else {
                        assert forall|j: int| 0 <= j < old(v)@.len() implies old(v)@[j].0 != u by {
                            assert(s[j] == old(v)@[j]);
                        }
                    }
                }
            }
        },
    }
}

/// Removes the value stored for `k`, and returns it.
pub fn remove_id<T>(v: &mut Vec<(i32, T)>, k: i32) -> (res: Option<T>)
    requires
        unique_ids(old(v)@),
    ensures
        unique_ids(final(v)@),
        res == lookup(old(v)@, k),
        res is None ==> final(v)@ == old(v)@,
        forall|u: i32| #[trigger] lookup(final(v)@, u) == if u == k { None } else { lookup(old(v)@, u) },
{
    match position_of_id(v, k) {
        Some(i) => {
            proof {
                lemma_lookup_at(old(v)@, k, i as int);
            }
            let (_, val) = v.remove(i);
            proof {
                let s = v@;
                let o = old(v)@;
                assert(s == o.remove(i as int));
                assert forall|a: int, b: int| 0 <= a < b < s.len() implies (#[trigger] s[a]).0 != (#[trigger] s[b]).0 by {
                    let oa = if a < i { a } else { a + 1 };
                    let ob = if b < i { b } else { b + 1 };
                    assert(s[a] == o[oa] && s[b] == o[ob]);
                }
                assert forall|u: i32| #[trigger] lookup(s, u) == if u == k { None } else { lookup(o, u) } by {
                    if exists|j: int| 0 <= j < s.len() && s[j].0 == u {
                        let j = choose|j: int| 0 <= j < s.len() && s[j].0 == u;
                        let oj = if j < i { j } else { j + 1 };
                        assert(s[j] == o[oj]);
                        if u == k {
                            assert(o[oj].0 == o[i as int].0);
                        } else {
                            lemma_lookup_at(s, u, j);
                            lemma_lookup_at(o, u, oj);
                        }
                    } else if u != k {
                        assert forall|j: int| 0 <= j < o.len() implies o[j].0 != u by {
                            if j < i {
                                assert(s[j] == o[j]);
                            } else if j > i {
                                assert(s[j - 1] == o[j]);
                            }
                        }
                    }
                }
            }
            Some(val)
        },
        None => None,
    }
}


/// No login occurs twice.
pub open spec fn unique_logins<T>(s: Seq<(String, T)>) -> bool {
    forall|a: int, b: int| 0 <= a < b < s.len() ==> (#[trigger] s[a]).0@ != (#[trigger] s[b]).0@
}

/// The value stored for `login`, if any.
pub open spec fn lookup_login<T>(s: Seq<(String, T)>, login: Seq<char>) -> Option<T> {
    if exists|i: int| 0 <= i < s.len() && s[i].0@ == login {
        Some(s[choose|i: int| 0 <= i < s.len() && s[i].0@ == login].1)
    } else {
        None
    }
}

/// In a list without repeated logins, the entry with `login` is the one looked up.
pub proof fn lemma_lookup_login_at<T>(s: Seq<(String, T)>, login: Seq<char>, p: int)
    requires
        unique_logins(s),
        0 <= p < s.len(),
        s[p].0@ == login,
    ensures
        lookup_login(s, login) == Some(s[p].1),
{
    let q = choose|i: int| 0 <= i < s.len() && s[i].0@ == login;
    if q < p {
        assert(s[q].0@ != s[p].0@);
    } else if p < q {
        assert(s[p].0@ != s[q].0@);
    }
}

/// The position of the entry with `login`.
pub fn position_of_login<T>(v: &Vec<(String, T)>, login: &str) -> (res: Option<usize>)
    ensures
        match res {
            Some(i) => i < v@.len() && v@[i as int].0@ == login@,
            None => forall|i: int| 0 <= i < v@.len() ==> v@[i].0@ != login@,
        },
{
    let mut i: usize = 0;
    while i < v.len()
        invariant
            i <= v@.len(),
            forall|j: int| 0 <= j < i ==> v@[j].0@ != login@,
        decreases v@.len() - i,
    {
        if str_eq(v[i].0.as_str(), login) {
            return Some(i);
        }
        i = i + 1;
    }
    None
}

/// The value stored for `login`.
pub fn get_login<'a, T>(v: &'a Vec<(String, T)>, login: &str) -> (res: Option<&'a T>)
    requires
        unique_logins(v@),
    ensures
        match res {
            Some(r) => lookup_login(v@, login@) == Some(*r),
            None => lookup_login(v@, login@) is None,
        },
{
    match position_of_login(v, login) {
        Some(i) => {
            proof {
                lemma_lookup_login_at(v@, login@, i as int);
            }
            Some(&v[i].1)
        },
        None => None,
    }
}

/// Stores `val` for `login`, in place of a value stored before.
pub fn upsert_login<T>(v: &mut Vec<(String, T)>, login: String, val: T)
    requires
        unique_logins(old(v)@),
    ensures
        unique_logins(final(v)@),
        forall|l: Seq<char>| #[trigger] lookup_login(final(v)@, l) == if l == login@ { Some(val) } else { lookup_login(old(v)@, l) },
{
    let ghost val_g = val;
    let ghost lv = login@;
    match position_of_login(v, login.as_str()) {
        Some(i) => {
            v.set(i, (login, val));
            proof {
                let s = v@;
                assert forall|l: Seq<char>| #[trigger] lookup_login(s, l) == if l == lv { Some(val_g) } else { lookup_login(old(v)@, l) } by {
                    if l == lv {
                        lemma_lookup_login_at(s, lv, i as int);
                    } else if exists|j: int| 0 <= j < s.len() && s[j].0@ == l {
                        let j = choose|j: int| 0 <= j < s.len() && s[j].0@ == l;
                        lemma_lookup_login_at(s, l, j);
                        lemma_lookup_login_at(old(v)@, l, j);
                    } else {
                        assert forall|j: int| 0 <= j < old(v)@.len() implies old(v)@[j].0@ != l by {
                            assert(s[j].0@ == old(v)@[j].0@ || j == i);
                        }
                    }
                }
            }
        },
        None => {
            v.push((login, val));
            proof {
                let s = v@;
                assert forall|l: Seq<char>| #[trigger] lookup_login(s, l) == if l == lv { Some(val_g) } else { lookup_login(old(v)@, l) } by {
                    if l == lv {
                        lemma_lookup_login_at(s, lv, s.len() - 1);
                    } else if exists|j: int| 0 <= j < s.len() && s[j].0@ == l {
                        let j = choose|j: int| 0 <= j < s.len() && s[j].0@ == l;
                        lemma_lookup_login_at(s, l, j);
                        lemma_lookup_login_at(old(v)@, l, j);
                    } else {
                        assert forall|j: int| 0 <= j < old(v)@.len() implies old(v)@[j].0@ != l by {
                            assert(s[j] == old(v)@[j]);
                        }
                    }
                }
            }
        },
    }
}

/// Removes the value stored for `login`, and returns it.
pub fn remove_login<T>(v: &mut Vec<(String, T)>, login: &str) -> (res: Option<T>)
    requires
        unique_logins(old(v)@),
    ensures
        unique_logins(final(v)@),
        res == lookup_login(old(v)@, login@),
        res is None ==> final(v)@ == old(v)@,
        forall|l: Seq<char>| #[trigger] lookup_login(final(v)@, l) == if l == login@ { None } else { lookup_login(old(v)@, l) },
{
    match position_of_login(v, login) {
        Some(i) => {
            proof {
                lemma_lookup_login_at(old(v)@, login@, i as int);
            }
            let (_, val) = v.remove(i);
            proof {
                let s = v@;
                let o = old(v)@;
                assert(s == o.remove(i as int));
                assert forall|a: int, b: int| 0 <= a < b < s.len() implies (#[trigger] s[a]).0@ != (#[trigger] s[b]).0@ by {
                    let oa = if a < i { a } else { a + 1 };
                    let ob = if b < i { b } else { b + 1 };
                    assert(s[a] == o[oa] && s[b] == o[ob]);
                }
                assert forall|l: Seq<char>| #[trigger] lookup_login(s, l) == if l == login@ { None } else { lookup_login(o, l) } by {
                    if exists|j: int| 0 <= j < s.len() && s[j].0@ == l {
                        let j = choose|j: int| 0 <= j < s.len() && s[j].0@ == l;
                        let oj = if j < i { j } else { j + 1 };
                        assert(s[j] == o[oj]);
                        if l == login@ {
                            assert(o[oj].0@ == o[i as int].0@);
                        } else {
                            lemma_lookup_login_at(s, l, j);
                            lemma_lookup_login_at(o, l, oj);
                        }
                    } else if l != login@ {
                        assert forall|j: int| 0 <= j < o.len() implies o[j].0@ != l by {
                            if j < i {
                                assert(s[j] == o[j]);
                            } else if j > i {
                                assert(s[j - 1] == o[j]);
                            }
                        }
                    }
                }
            }
            Some(val)
        },
        None => None,
    }
}

/// Adds `x` to a set of UIDs; `true` if it was not in it before.
pub fn set_insert(v: &mut Vec<i32>, x: i32) -> (res: bool)
    requires
        old(v)@.no_duplicates(),
    ensures
        final(v)@.no_duplicates(),
        res == !old(v)@.contains(x),
        !res ==> final(v)@ == old(v)@,
        forall|y: i32| #[trigger] final(v)@.contains(y) == (y == x || old(v)@.contains(y)),
{
    let mut i: usize = 0;
    while i < v.len()
        invariant
            i <= v@.len(),
            v@ == old(v)@,
            old(v)@.no_duplicates(),
            forall|j: int| 0 <= j < i ==> v@[j] != x,
        decreases v@.len() - i,
    {
        if v[i] == x {
            return false;
        }
        i = i + 1;
    }
    v.push(x);
    proof {
        assert forall|y: i32| #[trigger] v@.contains(y) == (y == x || old(v)@.contains(y)) by {
            if v@.contains(y) {
                let j = choose|j: int| 0 <= j < v@.len() && v@[j] == y;
                if j < old(v)@.len() {
                    assert(old(v)@[j] == y);
                }
            }
            if old(v)@.contains(y) {
                let j = choose|j: int| 0 <= j < old(v)@.len() && old(v)@[j] == y;
                assert(v@[j] == y);
            }
            if y == x {
                assert(v@[v@.len() - 1] == x);
            }
        }
    }
    true
}

/// Removes `x` from a set of UIDs; `true` if it was in it.
pub fn set_remove(v: &mut Vec<i32>, x: i32) -> (res: bool)
    requires
        old(v)@.no_duplicates(),
    ensures
        final(v)@.no_duplicates(),
        res == old(v)@.contains(x),
        !res ==> final(v)@ == old(v)@,
        forall|y: i32| #[trigger] final(v)@.contains(y) == (y != x && old(v)@.contains(y)),
{
    let mut i: usize = 0;
    while i < v.len()
        invariant
            i <= v@.len(),
            v@ == old(v)@,
            old(v)@.no_duplicates(),
            forall|j: int| 0 <= j < i ==> v@[j] != x,
        decreases v@.len() - i,
    {
        if v[i] == x {
            v.remove(i);
            proof {
                let o = old(v)@;
                assert(v@ == o.remove(i as int));
                assert forall|y: i32| #[trigger] v@.contains(y) == (y != x && o.contains(y)) by {
                    if v@.contains(y) {
                        let j = choose|j: int| 0 <= j < v@.len() && v@[j] == y;
                        let oj = if j < i { j } else { j + 1 };
                        assert(o[oj] == y);
                        assert(oj != i as int);
                    }
                    if y != x && o.contains(y) {
                        let j = choose|j: int| 0 <= j < o.len() && o[j] == y;
                        if j < i {
                            assert(v@[j] == y);
                        } else {
                            assert(v@[j - 1] == y);
                        }
                    }
                }
                assert forall|a: int, b: int| 0 <= a < b < v@.len() implies v@[a] != v@[b] by {
                    let oa = if a < i { a } else { a + 1 };
                    let ob = if b < i { b } else { b + 1 };
                    assert(v@[a] == o[oa] && v@[b] == o[ob]);
                }
            }
            return true;
        }
        i = i + 1;
    }
    false
}


/// Entries that belong to one player and one map.
pub trait PlayerMapKeyed {
    /// The player UID and the map UID of the entry.
    spec fn key_view(&self) -> (i32, Seq<char>);

    fn key_uid(&self) -> (res: i32)
        ensures
            res == self.key_view().0,
    ;

    fn key_map(&self) -> (res: &str)
        ensures
            res@ == self.key_view().1,
    ;
}

/// No player and map occur twice.
pub open spec fn unique_keys<T: PlayerMapKeyed>(s: Seq<T>) -> bool {
    forall|a: int, b: int| 0 <= a < b < s.len() ==> (#[trigger] s[a]).key_view() != (#[trigger] s[b]).key_view()
}

/// The entry for a player and a map, if any.
pub open spec fn lookup_key<T: PlayerMapKeyed>(s: Seq<T>, k: (i32, Seq<char>)) -> Option<T> {
    if exists|i: int| 0 <= i < s.len() && s[i].key_view() == k {
        Some(s[choose|i: int| 0 <= i < s.len() && s[i].key_view() == k])
    } else {
        None
    }
}

pub proof fn lemma_lookup_key_at<T: PlayerMapKeyed>(s: Seq<T>, k: (i32, Seq<char>), p: int)
    requires
        unique_keys(s),
        0 <= p < s.len(),
        s[p].key_view() == k,
    ensures
        lookup_key(s, k) == Some(s[p]),
{
    let q = choose|i: int| 0 <= i < s.len() && s[i].key_view() == k;
    if q < p {
        assert(s[q].key_view() != s[p].key_view());
    } else if p < q {
        assert(s[p].key_view() != s[q].key_view());
    }
}

/// The position of the entry for a player and a map.
pub fn position_of_key<T: PlayerMapKeyed>(v: &Vec<T>, uid: i32, map_uid: &str) -> (res: Option<usize>)
    ensures
        match res {
            Some(i) => i < v@.len() && v@[i as int].key_view() == (uid, map_uid@),
            None => forall|i: int| 0 <= i < v@.len() ==> v@[i].key_view() != (uid, map_uid@),
        },
{
    let mut i: usize = 0;
    while i < v.len()
        invariant
            i <= v@.len(),
            forall|j: int| 0 <= j < i ==> v@[j].key_view() != (uid, map_uid@),
        decreases v@.len() - i,
    {
        if v[i].key_uid() == uid && str_eq(v[i].key_map(), map_uid) {
            return Some(i);
        }
        i = i + 1;
    }
    None
}

/// The entry for a player and a map.
pub fn get_key<'a, T: PlayerMapKeyed>(v: &'a Vec<T>, uid: i32, map_uid: &str) -> (res: Option<&'a T>)
    requires
        unique_keys(v@),
    ensures
        match res {
            Some(r) => lookup_key(v@, (uid, map_uid@)) == Some(*r),
            None => lookup_key(v@, (uid, map_uid@)) is None,
        },
{
    match position_of_key(v, uid, map_uid) {
        Some(i) => {
            proof {
                lemma_lookup_key_at(v@, (uid, map_uid@), i as int);
            }
            Some(&v[i])
        },
        None => None,
    }
}

/// The position of the entry for a player and a map, if any.
pub open spec fn key_pos<T: PlayerMapKeyed>(s: Seq<T>, k: (i32, Seq<char>)) -> Option<int> {
    if exists|i: int| 0 <= i < s.len() && s[i].key_view() == k {
        Some(choose|i: int| 0 <= i < s.len() && s[i].key_view() == k)
    } else {
        None
    }
}

/// Stores `val` under its own key, in place of an entry stored before.
pub fn upsert_key<T: PlayerMapKeyed>(v: &mut Vec<T>, val: T)
    requires
        unique_keys(old(v)@),
    ensures
        unique_keys(final(v)@),
        forall|k: (i32, Seq<char>)| #[trigger] lookup_key(final(v)@, k) == if k == val.key_view() { Some(val) } else { lookup_key(old(v)@, k) },
        final(v)@ == match key_pos(old(v)@, val.key_view()) {
            Some(i) => old(v)@.update(i, val),
            None => old(v)@.push(val),
        },
{
    let ghost val_g = val;
    let ghost kv = val.key_view();
    let uid = val.key_uid();
    let pos = position_of_key(v, uid, val.key_map());
    match pos {
        Some(i) => {
            proof {
                let o = old(v)@;
                let q = choose|j: int| 0 <= j < o.len() && o[j].key_view() == kv;
                assert(0 <= q < o.len() && o[q].key_view() == kv);
                if q < i as int {
                    assert(o[q].key_view() != o[i as int].key_view());
                } else if i < q {
                    assert(o[i as int].key_view() != o[q].key_view());
                }
                assert(key_pos(o, kv) == Some(i as int));
            }
            v.set(i, val);
            proof {
                let s = v@;
                assert forall|k: (i32, Seq<char>)| #[trigger] lookup_key(s, k) == if k == kv { Some(val_g) } else { lookup_key(old(v)@, k) } by {
                    if k == kv {
                        lemma_lookup_key_at(s, kv, i as int);
                    } else if exists|j: int| 0 <= j < s.len() && s[j].key_view() == k {
                        let j = choose|j: int| 0 <= j < s.len() && s[j].key_view() == k;
                        lemma_lookup_key_at(s, k, j);
                        lemma_lookup_key_at(old(v)@, k, j);
                    } else {
                        assert forall|j: int| 0 <= j < old(v)@.len() implies old(v)@[j].key_view() != k by {
                            assert(s[j] == old(v)@[j] || j == i);
                        }
                    }
                }
            }
        },
        None => {
            v.push(val);
            proof {
                let s = v@;
                assert forall|k: (i32, Seq<char>)| #[trigger] lookup_key(s, k) == if k == kv { Some(val_g) } else { lookup_key(old(v)@, k) } by {
                    if k == kv {
                        lemma_lookup_key_at(s, kv, s.len() - 1);
                    } else if exists|j: int| 0 <= j < s.len() && s[j].key_view() == k {
                        let j = choose|j: int| 0 <= j < s.len() && s[j].key_view() == k;
                        lemma_lookup_key_at(s, k, j);
                        lemma_lookup_key_at(old(v)@, k, j);
                    } else {
                        assert forall|j: int| 0 <= j < old(v)@.len() implies old(v)@[j].key_view() != k by {
                            assert(s[j] == old(v)@[j]);
                        }
                    }
                }
            }
        },
    }
}

/// Removes the entry for a player and a map.
pub fn remove_key<T: PlayerMapKeyed>(v: &mut Vec<T>, uid: i32, map_uid: &str)
    requires
        unique_keys(old(v)@),
    ensures
        unique_keys(final(v)@),
        forall|k: (i32, Seq<char>)| #[trigger] lookup_key(final(v)@, k) == if k == (uid, map_uid@) { None } else { lookup_key(old(v)@, k) },
{
    retain_keys(v, uid, map_uid, 0);
}

/// Whether an entry with key `k` survives a removal of kind `kind`: kind 0
/// removes the one key `(uid, map)`, kind 1 every key of the player `uid`,
/// kind 2 every key of the map `map`.
pub open spec fn survives(k: (i32, Seq<char>), uid: i32, map: Seq<char>, kind: u8) -> bool {
    if kind == 0 {
        k != (uid, map)
    } else if kind == 1 {
        k.0 != uid
    } else {
        k.1 != map
    }
}

/// Keeps the entries whose key survives a removal of kind `kind`, in order.
pub fn retain_keys<T: PlayerMapKeyed>(v: &mut Vec<T>, uid: i32, map_uid: &str, kind: u8)
    requires
        unique_keys(old(v)@),
    ensures
        unique_keys(final(v)@),
        forall|k: (i32, Seq<char>)| #[trigger] lookup_key(final(v)@, k) == if survives(k, uid, map_uid@, kind) { lookup_key(old(v)@, k) } else { None },
        forall|i: int| 0 <= i < final(v)@.len() ==> survives(#[trigger] final(v)@[i].key_view(), uid, map_uid@, kind),
        forall|i: int| 0 <= i < old(v)@.len() && survives(#[trigger] old(v)@[i].key_view(), uid, map_uid@, kind) ==> final(v)@.contains(old(v)@[i]),
        final(v)@.len() <= old(v)@.len(),
{
    let ghost orig = v@;
    let mut rest: Vec<T> = Vec::new();
    std::mem::swap(v, &mut rest);
    let len = rest.len();
    let mut i: usize = 0;
    while i < len
        invariant
            len == orig.len(),
            i <= len,
            unique_keys(orig),
            rest@ == orig.skip(i as int),
            unique_keys(v@),
            v@.len() <= i,
            forall|j: int| 0 <= j < v@.len() ==> survives(#[trigger] v@[j].key_view(), uid, map_uid@, kind),
            forall|j: int| 0 <= j < v@.len() ==> exists|o: int| 0 <= o < i && #[trigger] v@[j] == orig[o],
            forall|o: int| 0 <= o < i && survives(#[trigger] orig[o].key_view(), uid, map_uid@, kind) ==> v@.contains(orig[o]),
        decreases len - i,
    {
        let ghost old_rest = rest@;
        let e = rest.remove(0);
        proof {
            assert(old_rest[0] == orig[i as int]);
            assert(rest@ =~= orig.skip(i + 1));
        }
        let k = e.key_uid();
        let survive = if kind == 0 {
            !(k == uid && str_eq(e.key_map(), map_uid))
        } else if kind == 1 {
            k != uid
        } else {
            !str_eq(e.key_map(), map_uid)
        };
        if survive {
            let ghost before = v@;
            v.push(e);
            proof {
                assert forall|a: int, b: int| 0 <= a < b < v@.len() implies (#[trigger] v@[a]).key_view() != (#[trigger] v@[b]).key_view() by {
                    if b == v@.len() - 1 {
                        let oa = choose|o: int| 0 <= o < i && before[a] == orig[o];
                        assert(v@[a] == orig[oa]);
                        assert(orig[oa].key_view() != orig[i as int].key_view());
                    } else {
                        assert(v@[a] == before[a] && v@[b] == before[b]);
                    }
                }
                assert forall|j: int| 0 <= j < v@.len() implies exists|o: int| 0 <= o < i + 1 && #[trigger] v@[j] == orig[o] by {
                    if j < before.len() {
                        let o = choose|o: int| 0 <= o < i && before[j] == orig[o];
                        assert(v@[j] == orig[o]);
                    } else {
                        assert(v@[j] == orig[i as int]);
                    }
                }
                assert forall|o: int| 0 <= o < i + 1 && survives(#[trigger] orig[o].key_view(), uid, map_uid@, kind) implies v@.contains(orig[o]) by {
                    if o < i {
                        let j = choose|j: int| 0 <= j < before.len() && before[j] == orig[o];
                        assert(v@[j] == orig[o]);
                    } else {
                        assert(v@[v@.len() - 1] == orig[o]);
                    }
                }
            }
        }
        i = i + 1;
    }
    proof {
        assert forall|k: (i32, Seq<char>)| #[trigger] lookup_key(v@, k) == if survives(k, uid, map_uid@, kind) { lookup_key(orig, k) } else { None } by {
            if exists|j: int| 0 <= j < v@.len() && v@[j].key_view() == k {
                let j = choose|j: int| 0 <= j < v@.len() && v@[j].key_view() == k;
                let o = choose|o: int| 0 <= o < len && v@[j] == orig[o];
                lemma_lookup_key_at(v@, k, j);
                lemma_lookup_key_at(orig, k, o);
            } else if survives(k, uid, map_uid@, kind) && exists|o: int| 0 <= o < orig.len() && orig[o].key_view() == k {
                let o = choose|o: int| 0 <= o < orig.len() && orig[o].key_view() == k;
                assert(v@.contains(orig[o]));
                let j = choose|j: int| 0 <= j < v@.len() && v@[j] == orig[o];
                assert(v@[j].key_view() == k);
            }
        }
    }
}

} // verus!
