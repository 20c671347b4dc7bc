//! Startup checks of what the server runs, and the match settings fix-up.

use vstd::prelude::*;

use crate::controller::playlist::MapEntry;
use crate::text::{matches_at, str_eq, str_starts_with};

verus! {

/// The name that a mode script has when it was set by this controller.
pub const CUSTOM_SCRIPT: &'static str = "<in-development>";

/// The file name of the Time Attack script.
pub const TA_SCRIPT: &'static str = "TimeAttack.Script.txt";

/// The map type that Time Attack plays.
pub const TA_MAP_TYPE: &'static str = "Race";

/// The Time Attack version that this controller was developed with.
pub const TA_KNOWN_VERSION: &'static str = "2018-05-14";

/// The server name that this controller was developed with.
pub const SERVER_KNOWN_NAME: &'static str = "ManiaPlanet";

/// The server version that this controller was developed with.
pub const SERVER_KNOWN_VERSION: &'static str = "3.3.0";

/// The server build that this controller was developed with.
pub const SERVER_KNOWN_BUILD: &'static str = "2019-10-23_20_00";

/// What the server check finds; all but `Known` are worth a warning.
#[derive(Clone, Copy, Debug, PartialEq, Eq, Structural)]
pub enum ServerCompat {
    /// The server is not a ManiaPlanet server.
    NotManiaPlanet,
    /// The server is a ManiaPlanet server with another version or build.
    UnexpectedBuild,
    /// The server's title is not a Nadeo Trackmania title.
    NotNadeoTitle,
    /// The server is the one this controller was developed on.
    Known,
}

/// Whether `s` ends with `pat`.
pub open spec fn ends_with(s: Seq<char>, pat: Seq<char>) -> bool {
    pat.len() <= s.len() && s.skip(s.len() - pat.len()) == pat
}

/// What the server check finds for a server's name, version, build and title.
/// The first failing check decides.
pub open spec fn server_compat(
    name: Seq<char>,
    version: Seq<char>,
    build: Seq<char>,
    title_id: Seq<char>,
) -> ServerCompat {
    if name != SERVER_KNOWN_NAME@ {
        ServerCompat::NotManiaPlanet
    } else if version != SERVER_KNOWN_VERSION@ || build != SERVER_KNOWN_BUILD@ {
        ServerCompat::UnexpectedBuild
    } else if !"TM"@.is_prefix_of(title_id) || !ends_with(title_id, "@nadeo"@) {
        ServerCompat::NotNadeoTitle
    } else {
        ServerCompat::Known
    }
}

/// Whether `s` ends with `pat`.
pub fn str_ends_with(s: &str, pat: &str) -> (res: bool)
    ensures
        res == ends_with(s@, pat@),
{
    let n = s.unicode_len();
    let m = pat.unicode_len();
    if m > n {
        return false;
    }
    let r = matches_at(s, pat, n - m);
    proof {
        assert(s@.subrange((n - m) as int, (n - m) + m) =~= s@.skip(n - m));
    }
    r
}

/// Checks the server's name, version, build and title against those this
/// controller was developed on. Newer builds should still work, but it is
/// good to know of them.
pub fn check_server_compat(name: &str, version: &str, build: &str, title_id: &str) -> (res:
    ServerCompat)
    ensures
        res == server_compat(name@, version@, build@, title_id@),
{
    if !str_eq(name, SERVER_KNOWN_NAME) {
        return ServerCompat::NotManiaPlanet;
    }
    if !str_eq(version, SERVER_KNOWN_VERSION) || !str_eq(build, SERVER_KNOWN_BUILD) {
        return ServerCompat::UnexpectedBuild;
    }
    if !str_starts_with(title_id, "TM") || !str_ends_with(title_id, "@nadeo") {
        return ServerCompat::NotNadeoTitle;
    }
    ServerCompat::Known
}

/// What the game mode check finds.
#[derive(Clone, Copy, Debug, PartialEq, Eq, Structural)]
pub enum ModeCompat {
    /// The mode is not Time Attack: it has to be replaced.
    NotTimeAttack,
    /// The mode does not play the `Race` map type: it has to be replaced.
    NoRaceMapType,
    /// A Time Attack mode of another version: it is kept, with a warning.
    OtherVersion,
    /// The Time Attack version this controller was developed with.
    Known,
}

impl ModeCompat {
    /// Whether the mode can be kept.
    pub fn is_compatible(&self) -> (res: bool)
        ensures
            res == (*self == ModeCompat::OtherVersion || *self == ModeCompat::Known),
    {
        match self {
            ModeCompat::OtherVersion | ModeCompat::Known => true,
            _ => false,
        }
    }
}

/// Whether one of the comma-separated pieces of `list` is `piece`.
pub open spec fn has_piece(list: Seq<char>, piece: Seq<char>) -> bool {
    exists|i: int|
        #![trigger list.subrange(i, i + piece.len())]
        0 <= i && i + piece.len() <= list.len() && list.subrange(i, i + piece.len()) == piece
            && (i == 0 || list[i - 1] == ',') && (i + piece.len() == list.len() || list[i
            + piece.len()] == ',')
}

/// Whether one of the comma-separated pieces of `list` is `piece`.
pub fn has_comma_piece(list: &str, piece: &str) -> (res: bool)
    ensures
        res == has_piece(list@, piece@),
{
    let n = list.unicode_len();
    let m = piece.unicode_len();
    if m > n {
        return false;
    }
    let last = n - m;
    let mut i: usize = 0;
    loop
        invariant
            n == list@.len(),
            m == piece@.len(),
            m <= n,
            last == n - m,
            i <= last,
            forall|j: int|
                0 <= j < i ==> !(#[trigger] list@.subrange(j, j + m) == piece@ && (j == 0
                    || list@[j - 1] == ',') && (j + m == n || list@[j + m] == ',')),
        ensures
            forall|j: int|
                0 <= j <= last ==> !(#[trigger] list@.subrange(j, j + m) == piece@ && (j == 0
                    || list@[j - 1] == ',') && (j + m == n || list@[j + m] == ',')),
        decreases last - i,
    {
        if matches_at(list, piece, i) {
            let before = i == 0 || list.get_char(i - 1) == ',';
            let after = i + m == n || list.get_char(i + m) == ',';
            if before && after {
                return true;
            }
        }
        if i == last {
            break;
        }
        i = i + 1;
    }
    proof {
        assert forall|j: int|
            0 <= j && j + m <= n && #[trigger] list@.subrange(j, j + m) == piece@ && (j == 0
                || list@[j - 1] == ',') && (j + m == n || list@[j + m] == ',') implies false by {
            assert(0 <= j <= last);
        }
    }
    false
}

/// What the game mode check finds for a mode's script file name, its
/// comma-separated compatible map types, and its version. The first
/// failing check decides.
pub open spec fn mode_compat(file_name: Seq<char>, map_types: Seq<char>, version: Seq<char>) -> ModeCompat {
    if file_name != TA_SCRIPT@ && file_name != CUSTOM_SCRIPT@ {
        ModeCompat::NotTimeAttack
    } else if !has_piece(map_types, TA_MAP_TYPE@) {
        ModeCompat::NoRaceMapType
    } else if version != TA_KNOWN_VERSION@ {
        ModeCompat::OtherVersion
    } else {
        ModeCompat::Known
    }
}

/// Checks whether the server's game mode is compatible with this controller:
/// Time Attack (or the script this controller set) that plays the `Race`
/// map type. Another version is compatible, and worth a warning.
pub fn check_mode_compat(file_name: &str, compatible_map_types: &str, version: &str) -> (res:
    ModeCompat)
    ensures
        res == mode_compat(file_name@, compatible_map_types@, version@),
{
    if !str_eq(file_name, TA_SCRIPT) && !str_eq(file_name, CUSTOM_SCRIPT) {
        return ModeCompat::NotTimeAttack;
    }
    if !has_comma_piece(compatible_map_types, TA_MAP_TYPE) {
        return ModeCompat::NoRaceMapType;
    }
    if !str_eq(version, TA_KNOWN_VERSION) {
        return ModeCompat::OtherVersion;
    }
    ModeCompat::Known
}

/// Which of the known maps has to be put into the playlist at startup, so
/// that it is not empty. There must be a map: with none, nothing can be
/// played.
pub fn map_to_enable(db_maps: &Vec<MapEntry>) -> (res: Option<usize>)
    requires
        db_maps@.len() > 0,
    ensures
        res == (if forall|i: int| 0 <= i < db_maps@.len() ==> !(#[trigger] db_maps@[i]).in_playlist {
            Some(0usize)
        } else {
            None::<usize>
        }),
{
    let mut i: usize = 0;
    while i < db_maps.len()
        invariant
            i <= db_maps@.len(),
            forall|k: int| 0 <= k < i ==> !(#[trigger] db_maps@[k]).in_playlist,
        decreases db_maps@.len() - i,
    {
        if db_maps[i].in_playlist {
            return None;
        }
        i = i + 1;
    }
    Some(0)
}

/// `s` with every non-overlapping occurrence of the non-empty `from`,
/// searched from the left, replaced by `to` (`str::replace`).
pub open spec fn replace_all(s: Seq<char>, from: Seq<char>, to: Seq<char>) -> Seq<char>
    decreases s.len(),
{
    if s.len() == 0 {
        s
    } else if from.len() > 0 && from.is_prefix_of(s) {
        to + replace_all(s.skip(from.len() as int), from, to)
    } else {
        seq![s[0]] + replace_all(s.skip(1), from, to)
    }
}

/// The first `n` characters of `s` all differ from `c`.
pub open spec fn none_is(s: Seq<char>, c: char, n: int) -> bool
    decreases n,
{
    n <= 0 || (s[n - 1] != c && none_is(s, c, n - 1))
}

proof fn lemma_none_is(s: Seq<char>, c: char, n: int, i: int)
    requires
        none_is(s, c, n),
        0 <= i < n,
    ensures
        s[i] != c,
    decreases n,
{
    if i < n - 1 {
        lemma_none_is(s, c, n - 1, i);
    }
}

/// The start of a replacement keeps the characters of the text, unless a
/// replacement begins before the end of that start.
proof fn lemma_replace_start(t: Seq<char>, from: Seq<char>, to: Seq<char>, k: int)
    requires
        from.len() > 0,
        to.len() > 0,
        0 <= k <= replace_all(t, from, to).len(),
    ensures
        (k <= t.len() && replace_all(t, from, to).take(k) == t.take(k)) || exists|j: int|
            0 <= j < k && #[trigger] replace_all(t, from, to)[j] == to[0],
    decreases t.len(),
{
    let r = replace_all(t, from, to);
    if k == 0 {
        assert(r.take(0) =~= t.take(0));
    } else if from.is_prefix_of(t) {
        assert(r[0] == to[0]);
    } else {
        let r1 = replace_all(t.skip(1), from, to);
        assert(r == seq![t[0]] + r1);
        lemma_replace_start(t.skip(1), from, to, k - 1);
        if k - 1 <= t.skip(1).len() && r1.take(k - 1) == t.skip(1).take(k - 1) {
            assert forall|q: int| 0 <= q < k implies r.take(k)[q] == t.take(k)[q] by {
                if q > 0 {
                    assert(r[q] == r1[q - 1]);
                    assert(r1.take(k - 1)[q - 1] == t.skip(1).take(k - 1)[q - 1]);
                }
            }
            assert(r.take(k) =~= t.take(k));
        } else {
            let j = choose|j: int| 0 <= j < k - 1 && #[trigger] r1[j] == to[0];
            assert(r[j + 1] == to[0]);
        }
    }
}

/// Where the text to replace cannot start inside the replacement, and the
/// replacement cannot continue it, no occurrence is left after replacing.
proof fn lemma_replace_leaves_none(s: Seq<char>, from: Seq<char>, to: Seq<char>, i: int)
    requires
        from.len() > 0,
        to.len() > 0,
        forall|j: int| 0 <= j < to.len() ==> to[j] != from[0],
        forall|j: int| 0 <= j < from.len() ==> from[j] != to[0],
        0 <= i,
        i + from.len() <= replace_all(s, from, to).len(),
    ensures
        replace_all(s, from, to).subrange(i, i + from.len()) != from,
    decreases s.len(),
{
    let r = replace_all(s, from, to);
    let m = from.len() as int;
    if r.subrange(i, i + m) == from {
        assert(r[i] == from[0]);
        if from.is_prefix_of(s) {
            let r1 = replace_all(s.skip(m as int), from, to);
            assert(r == to + r1);
            if i < to.len() {
                assert(r[i] == to[i]);
            } else {
                assert(r1.subrange(i - to.len(), i - to.len() + m) =~= r.subrange(i, i + m));
                lemma_replace_leaves_none(s.skip(m as int), from, to, i - to.len());
            }
        } else {
            let r1 = replace_all(s.skip(1), from, to);
            assert(r == seq![s[0]] + r1);
            if i >= 1 {
                assert(r1.subrange(i - 1, i - 1 + m) =~= r.subrange(i, i + m));
                lemma_replace_leaves_none(s.skip(1), from, to, i - 1);
            } else {
                lemma_replace_start(s.skip(1), from, to, m - 1);
                if m - 1 <= s.skip(1).len() && r1.take(m - 1) == s.skip(1).take(m - 1) {
                    assert(from =~= s.take(m as int)) by {
                        assert forall|j: int| 0 <= j < m implies from[j] == s[j] by {
                            assert(r.subrange(0, m)[j] == r[j]);
                            if j > 0 {
                                assert(r[j] == r1[j - 1]);
                                assert(r1.take(m - 1)[j - 1] == s.skip(1).take(m - 1)[j - 1]);
                            }
                        }
                    }
                    assert(from.is_prefix_of(s));
                } else {
                    let j = choose|j: int| 0 <= j < m - 1 && #[trigger] r1[j] == to[0];
                    assert(r[j + 1] == r1[j]);
                    assert(r.subrange(0, m)[j + 1] == from[j + 1]);
                }
            }
        }
    }
}

/// The fixed match settings name no script as `<in-development>`, so the
/// server can be restarted with them.
pub proof fn law_no_custom_script_left(xml: Seq<char>, i: int)
    requires
        0 <= i,
        i + CUSTOM_SCRIPT@.len() <= replace_all(xml, CUSTOM_SCRIPT@, TA_SCRIPT@).len(),
    ensures
        replace_all(xml, CUSTOM_SCRIPT@, TA_SCRIPT@).subrange(i, i + CUSTOM_SCRIPT@.len()) != CUSTOM_SCRIPT@,
{
    reveal_strlit("<in-development>");
    reveal_strlit("TimeAttack.Script.txt");
    let (from, to) = (CUSTOM_SCRIPT@, TA_SCRIPT@);
    assert(none_is(to, from[0], to.len() as int)) by {
        reveal_with_fuel(none_is, 22);
    }
    assert(none_is(from, to[0], from.len() as int)) by {
        reveal_with_fuel(none_is, 17);
    }
    assert forall|j: int| 0 <= j < to.len() implies to[j] != from[0] by {
        lemma_none_is(to, from[0], to.len() as int, j);
    }
    assert forall|j: int| 0 <= j < from.len() implies from[j] != to[0] by {
        lemma_none_is(from, to[0], from.len() as int, j);
    }
    lemma_replace_leaves_none(xml, from, to, i);
}

/// The match settings with the name this controller gives its own script
/// replaced by the Time Attack script's, so that the server can be
/// restarted with them.
pub fn fix_match_settings(xml: &str) -> (res: String)
    ensures
        res@ == replace_all(xml@, CUSTOM_SCRIPT@, TA_SCRIPT@),
{
    let n = xml.unicode_len();
    let m = CUSTOM_SCRIPT.unicode_len();
    proof {
        reveal_strlit("<in-development>");
    }
    let mut out = String::new();
    let mut i: usize = 0;
    proof {
        assert(xml@.skip(0) =~= xml@);
        assert(out@ + replace_all(xml@, CUSTOM_SCRIPT@, TA_SCRIPT@) =~= replace_all(xml@, CUSTOM_SCRIPT@, TA_SCRIPT@));
    }
    while i < n
        invariant
            n == xml@.len(),
            m == CUSTOM_SCRIPT@.len(),
            m > 0,
            i <= n,
            out@ + replace_all(xml@.skip(i as int), CUSTOM_SCRIPT@, TA_SCRIPT@) == replace_all(
                xml@,
                CUSTOM_SCRIPT@,
                TA_SCRIPT@,
            ),
        decreases n - i,
    {
        let ghost rest = xml@.skip(i as int);
        if matches_at(xml, CUSTOM_SCRIPT, i) {
            proof {
                assert(CUSTOM_SCRIPT@.is_prefix_of(rest)) by {
                    assert forall|k: int| 0 <= k < m implies CUSTOM_SCRIPT@[k] == rest[k] by {
                        assert(xml@.subrange(i as int, i + m)[k] == xml@[i + k]);
                    }
                }
                assert(rest.skip(m as int) =~= xml@.skip(i + m));
            }
            out.append(TA_SCRIPT);
            i = i + m;
            assert(out@ + replace_all(xml@.skip(i as int), CUSTOM_SCRIPT@, TA_SCRIPT@) =~= replace_all(
                xml@,
                CUSTOM_SCRIPT@,
                TA_SCRIPT@,
            ));
        } else {
            proof {
                if CUSTOM_SCRIPT@.is_prefix_of(rest) {
                    assert(xml@.subrange(i as int, i + m) =~= CUSTOM_SCRIPT@);
                }
                assert(rest.skip(1) =~= xml@.skip(i + 1));
            }
            let c = xml.get_char(i);
            crate::text::push_char(&mut out, c);
            i = i + 1;
            assert(out@ + replace_all(xml@.skip(i as int), CUSTOM_SCRIPT@, TA_SCRIPT@) =~= replace_all(
                xml@,
                CUSTOM_SCRIPT@,
                TA_SCRIPT@,
            ));
        }
    }
    proof {
        assert(xml@.skip(n as int) =~= Seq::<char>::empty());
        assert(out@ + Seq::<char>::empty() =~= out@);
    }
    out
}

} // verus!
