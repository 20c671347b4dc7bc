//! The header of `*.Map.Gbx` files.
//!
//! Layout (all integers little-endian):
//! - bytes 0..3: the magic `GBX`, 3..5: the header version (6),
//!   9..13: the class id of maps, 13..17: the header size, 17..21: the number of chunks
//! - from byte 21: for each chunk its id and size (with the top bit cleared), eight bytes each
//! - then the chunks' contents, in the same order
//!
//! Strings are stored as their byte length (with the top bit cleared) followed by UTF-8.
//! "Lookback" strings are indices into the strings read before in the same chunk.

use byteorder::{ByteOrder, LittleEndian};
use vstd::prelude::*;
use vstd::utf8::{decode_utf8, valid_utf8};

use crate::gbx::structs::DisplayString;

verus! {

/// Selected information stored in the header of a `*.Map.Gbx` file.
#[derive(Debug)]
pub struct MapFileHeader {
    pub uid: String,
    pub name: DisplayString,
    pub millis_bronze: i32,
    pub millis_silver: i32,
    pub millis_gold: i32,
    pub millis_author: i32,
    pub is_multilap: bool,
    pub author_login: String,
    pub author_display_name: DisplayString,
}

/// The contents of a map file header as plain values.
pub struct SpecMapFileHeader {
    pub uid: Seq<char>,
    pub name: Seq<char>,
    pub millis_bronze: i32,
    pub millis_silver: i32,
    pub millis_gold: i32,
    pub millis_author: i32,
    pub is_multilap: bool,
    pub author_login: Seq<char>,
    pub author_display_name: Seq<char>,
}

impl MapFileHeader {
    pub open spec fn view(&self) -> SpecMapFileHeader {
        SpecMapFileHeader {
            uid: self.uid@,
            name: self.name.formatted@,
            millis_bronze: self.millis_bronze,
            millis_silver: self.millis_silver,
            millis_gold: self.millis_gold,
            millis_author: self.millis_author,
            is_multilap: self.is_multilap,
            author_login: self.author_login@,
            author_display_name: self.author_display_name.formatted@,
        }
    }
}

/// Reasons why a file is not a readable map file.
#[derive(Clone, Copy, Debug, PartialEq, Eq, Structural)]
pub enum MapFileError {
    /// A string is not valid UTF-8.
    InvalidUtf8,
    /// The file does not start with `GBX`.
    NoMagicHeader,
    /// The header version is not 6.
    UnknownHeaderVersion,
    /// The class id is not the one of maps.
    NotAMapFile,
    /// A chunk has an id other than the known header chunks.
    UnexpectedChunkId,
    /// The header size does not match the chunks.
    SizeMismatch,
    /// The info, string or author chunk is missing.
    MissingChunk,
    /// The info chunk's version is below 13.
    InfoChunkVersion,
    /// The string chunk's version is below 11.
    StringChunkVersion,
    /// The lookback strings' version is not 3.
    UnknownLookbackVersion,
    /// A lookback string refers to an unknown external string.
    UnknownExternalReference,
    /// The author chunk's version is not 1.
    UnknownAuthorChunkVersion,
}

/// The outcome of reading a part of the file: a value, an error, or `Abort`
/// where reading would leave the file (or overflow, or refer to a lookback
/// string that was not read).
pub enum Step<T> {
    Done(T),
    Fail(MapFileError),
    Abort,
}

pub const GBX_CHALLENGE_TMF: i32 = 0x03043000;
pub const CHUNK_INFO: i32 = 0x03043002;
pub const CHUNK_STRING: i32 = 0x03043003;
pub const CHUNK_VERSION: i32 = 0x03043004;
pub const CHUNK_XML: i32 = 0x03043005;
pub const CHUNK_THUMBNAIL: i32 = 0x03043007;
pub const CHUNK_AUTHOR: i32 = 0x03043008;

/// The byte where the chunk table starts.
pub const CHUNK_START: usize = 21;

/// The unsigned 32-bit little-endian integer at `i`.
pub open spec fn le_u32(b: Seq<u8>, i: int) -> u32 {
    (b[i] as u32) | ((b[i + 1] as u32) << 8u32) | ((b[i + 2] as u32) << 16u32) | ((b[i + 3] as u32)
        << 24u32)
}

/// The signed 32-bit little-endian integer at `i`.
pub open spec fn le_i32(b: Seq<u8>, i: int) -> i32 {
    le_u32(b, i) as i32
}

/// The signed 16-bit little-endian integer at `i`.
pub open spec fn le_i16(b: Seq<u8>, i: int) -> i16 {
    ((b[i] as u16) | ((b[i + 1] as u16) << 8u16)) as i16
}

/// Reads a signed 32-bit little-endian integer from the first four bytes.
#[verifier::external_body]
fn read_i32_le(buf: &[u8]) -> (v: i32)
    requires
        buf@.len() >= 4,
    ensures
        v == le_i32(buf@, 0),
{
    LittleEndian::read_i32(buf)
}

/// Reads a signed 16-bit little-endian integer from the first two bytes.
#[verifier::external_body]
fn read_i16_le(buf: &[u8]) -> (v: i16)
    requires
        buf@.len() >= 2,
    ensures
        v == le_i16(buf@, 0),
{
    LittleEndian::read_i16(buf)
}

/// Decodes UTF-8 bytes, or `None` if they are not valid UTF-8.
#[verifier::external_body]
pub(crate) fn utf8_to_string(bytes: &[u8]) -> (res: Option<String>)
    ensures
        match res {
            Some(s) => valid_utf8(bytes@) && s@ == decode_utf8(bytes@),
            None => !valid_utf8(bytes@),
        },
{
    match std::str::from_utf8(bytes) {
        Ok(s) => Some(s.to_string()),
        Err(_) => None,
    }
}

fn i32_at(b: &[u8], i: usize) -> (v: i32)
    requires
        i + 4 <= b@.len(),
    ensures
        v == le_i32(b@, i as int),
{
    let len = b.len();
    let s = &b[i..i + 4];
    let v = read_i32_le(s);
    assert(s@ =~= b@.subrange(i as int, i + 4));
    assert(le_i32(s@, 0) == le_i32(b@, i as int));
    v
}

/// The byte length of a string with the given length field.
pub open spec fn spec_strlen(v: i32) -> int {
    ((v as usize) & 0x7FFF_FFFFusize) as int
}

/// Reads a length-prefixed UTF-8 string at `i`.
pub open spec fn rd_str(b: Seq<u8>, i: int) -> Step<(Seq<char>, int)> {
    if i + 4 > b.len() {
        Step::Abort
    } else {
        let n = spec_strlen(le_i32(b, i));
        let j = i + 4;
        if j + n > b.len() {
            Step::Abort
        } else if !valid_utf8(b.subrange(j, j + n)) {
            Step::Fail(MapFileError::InvalidUtf8)
        } else {
            Step::Done((decode_utf8(b.subrange(j, j + n)), j + n))
        }
    }
}

/// The only known external reference string.
pub open spec fn stadium() -> Seq<char> {
    seq!['S', 't', 'a', 'd', 'i', 'u', 'm']
}

/// Reads a lookback string at `i`, given the lookback strings `lb` read
/// before in the same chunk. Returns the string, the position after it, and
/// the lookback strings after it.
pub open spec fn rd_lookback(b: Seq<u8>, i: int, lb: Seq<Seq<char>>) -> Step<(Seq<char>, int, Seq<Seq<char>>)> {
    let start: Step<int> = if lb.len() == 0 {
        if i + 4 > b.len() {
            Step::Abort
        } else if le_i32(b, i) != 3 {
            Step::Fail(MapFileError::UnknownLookbackVersion)
        } else {
            Step::Done(i + 4)
        }
    } else {
        Step::Done(i)
    };
    match start {
        Step::Abort => Step::Abort,
        Step::Fail(e) => Step::Fail(e),
        Step::Done(i1) => {
            if i1 + 4 > b.len() {
                Step::Abort
            } else {
                let index = le_i32(b, i1);
                let i2 = i1 + 4;
                if index == -1 {
                    Step::Done((Seq::empty(), i2, lb))
                } else if (index as u32) & 0xC000_0000u32 == 0 {
                    if index == 26 {
                        Step::Done((stadium(), i2, lb))
                    } else {
                        Step::Fail(MapFileError::UnknownExternalReference)
                    }
                } else if index & 0x3FFF_FFFFi32 == 0 {
                    match rd_str(b, i2) {
                        Step::Abort => Step::Abort,
                        Step::Fail(e) => Step::Fail(e),
                        Step::Done((s, i3)) => Step::Done((s, i3, lb.push(s))),
                    }
                } else {
                    let k = (index & 0x3FFF_FFFFi32) - 1;
                    if k < lb.len() {
                        Step::Done((lb[k], i2, lb))
                    } else {
                        Step::Abort
                    }
                }
            }
        },
    }
}

/// Skips a lookback string.
pub open spec fn skip_lookback(b: Seq<u8>, st: Step<(int, Seq<Seq<char>>)>) -> Step<(int, Seq<Seq<char>>)> {
    match st {
        Step::Abort => Step::Abort,
        Step::Fail(e) => Step::Fail(e),
        Step::Done((i, lb)) => match rd_lookback(b, i, lb) {
            Step::Abort => Step::Abort,
            Step::Fail(e) => Step::Fail(e),
            Step::Done((_s, j, lb2)) => Step::Done((j, lb2)),
        },
    }
}

/// Skips a length-prefixed string.
pub open spec fn skip_str(b: Seq<u8>, st: Step<(int, Seq<Seq<char>>)>) -> Step<(int, Seq<Seq<char>>)> {
    match st {
        Step::Abort => Step::Abort,
        Step::Fail(e) => Step::Fail(e),
        Step::Done((i, lb)) => match rd_str(b, i) {
            Step::Abort => Step::Abort,
            Step::Fail(e) => Step::Fail(e),
            Step::Done((_s, j)) => Step::Done((j, lb)),
        },
    }
}

/// Skips `n` bytes.
pub open spec fn skip_bytes(b: Seq<u8>, st: Step<(int, Seq<Seq<char>>)>, n: int) -> Step<(int, Seq<Seq<char>>)> {
    match st {
        Step::Abort => Step::Abort,
        Step::Fail(e) => Step::Fail(e),
        Step::Done((i, lb)) => if i + n > b.len() {
            Step::Abort
        } else {
            Step::Done((i + n, lb))
        },
    }
}

/// What follows the map name in the string chunk: kind and locked (5 bytes),
/// password, mood, environment background, author background, map target and
/// origin and an unknown int128 (32 bytes), type, style, lightmap cache uid
/// and lightmap (9 bytes), title uid.
#[verifier::opaque]
pub open spec fn string_chunk_tail(b: Seq<u8>, i: int, lb: Seq<Seq<char>>) -> Step<(int, Seq<Seq<char>>)> {
    let s1 = skip_bytes(b, Step::Done((i, lb)), 5);
    let s2 = skip_str(b, s1);
    let s3 = skip_lookback(b, skip_lookback(b, skip_lookback(b, s2)));
    let s4 = skip_bytes(b, s3, 32);
    let s5 = skip_str(b, skip_str(b, s4));
    let s6 = skip_bytes(b, s5, 9);
    skip_lookback(b, s6)
}

/// The string chunk at offset `o`: the map uid and the map name.
#[verifier::opaque]
pub open spec fn string_chunk(b: Seq<u8>, o: int) -> Step<(Seq<char>, Seq<char>)> {
    if o + 1 > b.len() {
        Step::Abort
    } else if (b[o] as i8) < 11 {
        Step::Fail(MapFileError::StringChunkVersion)
    } else {
        match rd_lookback(b, o + 1, Seq::empty()) {
            Step::Abort => Step::Abort,
            Step::Fail(e) => Step::Fail(e),
            Step::Done((uid, i1, lb1)) => match skip_lookback(b, skip_lookback(b, Step::Done((i1, lb1)))) {
                Step::Abort => Step::Abort,
                Step::Fail(e) => Step::Fail(e),
                Step::Done((i3, lb3)) => match rd_str(b, i3) {
                    Step::Abort => Step::Abort,
                    Step::Fail(e) => Step::Fail(e),
                    Step::Done((name, i4)) => match string_chunk_tail(b, i4, lb3) {
                        Step::Abort => Step::Abort,
                        Step::Fail(e) => Step::Fail(e),
                        Step::Done(_) => Step::Done((uid, name)),
                    },
                },
            },
        }
    }
}

/// The times of the info chunk at offset `o`: bronze, silver, gold, author,
/// and whether the map has multiple laps.
#[verifier::opaque]
pub open spec fn info_chunk(b: Seq<u8>, o: int) -> Step<(i32, i32, i32, i32, bool)> {
    if o + 4 > b.len() {
        Step::Abort
    } else if le_i32(b, o) < 13 {
        Step::Fail(MapFileError::InfoChunkVersion)
    } else if o + 56 > b.len() {
        Step::Abort
    } else {
        Step::Done(
            (le_i32(b, o + 8), le_i32(b, o + 12), le_i32(b, o + 16), le_i32(b, o + 20), le_i32(b, o + 28) != 0),
        )
    }
}

/// The author chunk at offset `o`: the author's login and display name.
#[verifier::opaque]
pub open spec fn author_chunk(b: Seq<u8>, o: int) -> Step<(Seq<char>, Seq<char>)> {
    if o + 4 > b.len() {
        Step::Abort
    } else if le_i32(b, o) != 1 {
        Step::Fail(MapFileError::UnknownAuthorChunkVersion)
    } else if o + 8 > b.len() {
        Step::Abort
    } else {
        match rd_str(b, o + 8) {
            Step::Abort => Step::Abort,
            Step::Fail(e) => Step::Fail(e),
            Step::Done((login, i1)) => match rd_str(b, i1) {
                Step::Abort => Step::Abort,
                Step::Fail(e) => Step::Fail(e),
                Step::Done((display_name, i2)) => match skip_str(b, skip_str(b, Step::Done((i2, Seq::empty())))) {
                    Step::Abort => Step::Abort,
                    Step::Fail(e) => Step::Fail(e),
                    Step::Done(_) => Step::Done((login, display_name)),
                },
            },
        }
    }
}

/// The offsets of the info, string and author chunks that the table names.
pub struct ChunkOffsets {
    pub info: Option<usize>,
    pub string: Option<usize>,
    pub author: Option<usize>,
}

/// A chunk id of a header chunk.
pub open spec fn is_known_chunk(id: i32) -> bool {
    id == CHUNK_INFO || id == CHUNK_STRING || id == CHUNK_VERSION || id == CHUNK_XML || id
        == CHUNK_THUMBNAIL || id == CHUNK_AUTHOR
}

/// Records that the chunk with the given id starts at `offset`; a later entry
/// for the same chunk replaces an earlier one.
pub open spec fn record_chunk(t: (Option<int>, Option<int>, Option<int>), id: i32, offset: int) -> (
    Option<int>,
    Option<int>,
    Option<int>,
) {
    if id == CHUNK_INFO {
        (Some(offset), t.1, t.2)
    } else if id == CHUNK_STRING {
        (t.0, Some(offset), t.2)
    } else if id == CHUNK_AUTHOR {
        (t.0, t.1, Some(offset))
    } else {
        t
    }
}

/// Reads the chunk table entries `k..n`, where the chunk contents read so far
/// end at `offset`. Returns where the last chunk ends, and the offsets of the
/// info, string and author chunks.
pub open spec fn chunk_table(
    b: Seq<u8>,
    n: int,
    k: int,
    offset: int,
    t: (Option<int>, Option<int>, Option<int>),
) -> Step<(int, (Option<int>, Option<int>, Option<int>))>
    decreases n - k,
{
    if k >= n {
        Step::Done((offset, t))
    } else {
        let at = CHUNK_START + 8 * k;
        if at + 8 > b.len() {
            Step::Abort
        } else {
            let id = le_i32(b, at);
            let size = ((le_i32(b, at + 4) & 0x7FFF_FFFFi32) as usize) as int;
            if !is_known_chunk(id) {
                Step::Fail(MapFileError::UnexpectedChunkId)
            } else if offset + size > usize::MAX {
                Step::Abort
            } else {
                chunk_table(b, n, k + 1, offset + size, record_chunk(t, id, offset))
            }
        }
    }
}

proof fn lemma_chunk_table_end(
    b: Seq<u8>,
    n: int,
    k: int,
    offset: int,
    t: (Option<int>, Option<int>, Option<int>),
)
    requires
        offset <= usize::MAX,
    ensures
        chunk_table(b, n, k, offset, t) matches Step::Done((end, _)) ==> offset <= end <= usize::MAX,
    decreases n - k,
{
    if k < n {
        let at = CHUNK_START + 8 * k;
        if at + 8 <= b.len() {
            let size = ((le_i32(b, at + 4) & 0x7FFF_FFFFi32) as usize) as int;
            let id = le_i32(b, at);
            if offset + size <= usize::MAX {
                lemma_chunk_table_end(b, n, k + 1, offset + size, record_chunk(t, id, offset));
            }
        }
    }
}

/// The header of a map file, read from its bytes.
pub open spec fn spec_parse_map_header(b: Seq<u8>) -> Step<SpecMapFileHeader> {
    if b.len() < 3 {
        Step::Abort
    } else if !valid_utf8(b.take(3)) {
        Step::Fail(MapFileError::InvalidUtf8)
    } else if decode_utf8(b.take(3)) != seq!['G', 'B', 'X'] {
        Step::Fail(MapFileError::NoMagicHeader)
    } else if b.len() < 5 {
        Step::Abort
    } else if le_i16(b, 3) != 6 {
        Step::Fail(MapFileError::UnknownHeaderVersion)
    } else if b.len() < 13 {
        Step::Abort
    } else if le_i32(b, 9) != GBX_CHALLENGE_TMF {
        Step::Fail(MapFileError::NotAMapFile)
    } else if b.len() < 21 {
        Step::Abort
    } else {
        let n = le_i32(b, 17);
        if n < 0 || CHUNK_START + 8 * n > usize::MAX {
            Step::Abort
        } else {
            match chunk_table(b, n as int, 0, CHUNK_START + 8 * n, (None, None, None)) {
                Step::Abort => Step::Abort,
                Step::Fail(e) => Step::Fail(e),
                Step::Done((end, t)) => {
                    if (le_i32(b, 13) as usize) as int != end - CHUNK_START + 4 {
                        Step::Fail(MapFileError::SizeMismatch)
                    } else {
                        match t.0 {
                            None => Step::Fail(MapFileError::MissingChunk),
                            Some(io) => match info_chunk(b, io) {
                                Step::Abort => Step::Abort,
                                Step::Fail(e) => Step::Fail(e),
                                Step::Done(times) => match t.1 {
                                    None => Step::Fail(MapFileError::MissingChunk),
                                    Some(so) => match string_chunk(b, so) {
                                        Step::Abort => Step::Abort,
                                        Step::Fail(e) => Step::Fail(e),
                                        Step::Done((uid, name)) => match t.2 {
                                            None => Step::Fail(MapFileError::MissingChunk),
                                            Some(ao) => match author_chunk(b, ao) {
                                                Step::Abort => Step::Abort,
                                                Step::Fail(e) => Step::Fail(e),
                                                Step::Done((login, display_name)) => Step::Done(
                                                    SpecMapFileHeader {
                                                        uid,
                                                        name,
                                                        millis_bronze: times.0,
                                                        millis_silver: times.1,
                                                        millis_gold: times.2,
                                                        millis_author: times.3,
                                                        is_multilap: times.4,
                                                        author_login: login,
                                                        author_display_name: display_name,
                                                    },
                                                ),
                                            },
                                        },
                                    },
                                },
                            },
                        }
                    }
                },
            }
        }
    }
}

/// The views of lookback strings.
pub open spec fn views(lb: Seq<String>) -> Seq<Seq<char>> {
    lb.map_values(|s: String| s@)
}

fn exec_rd_str(b: &[u8], i: usize) -> (r: Step<(String, usize)>)
    ensures
        match (r, rd_str(b@, i as int)) {
            (Step::Done((s, j)), Step::Done((ss, jj))) => s@ == ss && j == jj,
            (Step::Fail(e), Step::Fail(ee)) => e == ee,
            (Step::Abort, Step::Abort) => true,
            _ => false,
        },
{
    let len = b.len();
    if i > len || len - i < 4 {
        return Step::Abort;
    }
    let v = i32_at(b, i);
    let n = (v as usize) & 0x7FFF_FFFFusize;
    let j = i + 4;
    if n > len - j {
        return Step::Abort;
    }
    let bytes = &b[j..j + n];
    match utf8_to_string(bytes) {
        Some(s) => Step::Done((s, j + n)),
        None => Step::Fail(MapFileError::InvalidUtf8),
    }
}

fn clone_string(s: &String) -> (res: String)
    ensures
        res@ == s@,
{
    s.clone()
}

fn exec_rd_lookback(b: &[u8], i: usize, lb: &mut Vec<String>) -> (r: Step<(String, usize)>)
    ensures
        match (r, rd_lookback(b@, i as int, views(old(lb)@))) {
            (Step::Done((s, j)), Step::Done((ss, jj, lb2))) => s@ == ss && j == jj && views(final(lb)@)
                == lb2,
            (Step::Fail(e), Step::Fail(ee)) => e == ee,
            (Step::Abort, Step::Abort) => true,
            _ => false,
        },
{
    let len = b.len();
    let mut i1 = i;
    if lb.len() == 0 {
        if i > len || len - i < 4 {
            return Step::Abort;
        }
        let version = i32_at(b, i);
        if version != 3 {
            return Step::Fail(MapFileError::UnknownLookbackVersion);
        }
        i1 = i + 4;
    }
    if i1 > len || len - i1 < 4 {
        return Step::Abort;
    }
    let index = i32_at(b, i1);
    let i2 = i1 + 4;
    if index == -1 {
        Step::Done((String::new(), i2))
    } else if (index as u32) & 0xC000_0000u32 == 0 {
        if index == 26 {
            let s = String::from_str("Stadium");
            proof {
                reveal_strlit("Stadium");
                assert(s@ =~= stadium());
            }
            Step::Done((s, i2))
        } else {
            Step::Fail(MapFileError::UnknownExternalReference)
        }
    } else if index & 0x3FFF_FFFFi32 == 0 {
        // the low 30 bits are zero: a new string follows
        match exec_rd_str(b, i2) {
            Step::Abort => Step::Abort,
            Step::Fail(e) => Step::Fail(e),
            Step::Done((s, i3)) => {
                let ghost before = lb@;
                lb.push(clone_string(&s));
                proof {
                    assert(views(lb@) =~= views(before).push(s@));
                }
                Step::Done((s, i3))
            },
        }
    } else {
        let low = index & 0x3FFF_FFFFi32;
        assert(low >= 1) by (bit_vector)
            requires
                low == index & 0x3FFF_FFFFi32,
                low != 0,
                (index as u32) & 0xC000_0000u32 != 0,
        ;
        let k = (low - 1) as usize;
        if k < lb.len() {
            let s = clone_string(&lb[k]);
            Step::Done((s, i2))
        } else {
            Step::Abort
        }
    }
}

fn exec_skip_lookback(b: &[u8], st: Step<usize>, lb: &mut Vec<String>) -> (r: Step<usize>)
    ensures
        match (
            r,
            skip_lookback(
                b@,
                match st {
                    Step::Done(i) => Step::Done((i as int, views(old(lb)@))),
                    Step::Fail(e) => Step::Fail(e),
                    Step::Abort => Step::Abort,
                },
            ),
        ) {
            (Step::Done(j), Step::Done((jj, lb2))) => j == jj && views(final(lb)@) == lb2,
            (Step::Fail(e), Step::Fail(ee)) => e == ee,
            (Step::Abort, Step::Abort) => true,
            _ => false,
        },
{
    match st {
        Step::Abort => Step::Abort,
        Step::Fail(e) => Step::Fail(e),
        Step::Done(i) => match exec_rd_lookback(b, i, lb) {
            Step::Abort => Step::Abort,
            Step::Fail(e) => Step::Fail(e),
            Step::Done((_s, j)) => Step::Done(j),
        },
    }
}

fn exec_skip_str(b: &[u8], st: Step<usize>, Ghost(lb): Ghost<Seq<Seq<char>>>) -> (r: Step<usize>)
    ensures
        match (
            r,
            skip_str(
                b@,
                match st {
                    Step::Done(i) => Step::Done((i as int, lb)),
                    Step::Fail(e) => Step::Fail(e),
                    Step::Abort => Step::Abort,
                },
            ),
        ) {
            (Step::Done(j), Step::Done((jj, lb2))) => j == jj && lb2 == lb,
            (Step::Fail(e), Step::Fail(ee)) => e == ee,
            (Step::Abort, Step::Abort) => true,
            _ => false,
        },
{
    match st {
        Step::Abort => Step::Abort,
        Step::Fail(e) => Step::Fail(e),
        Step::Done(i) => match exec_rd_str(b, i) {
            Step::Abort => Step::Abort,
            Step::Fail(e) => Step::Fail(e),
            Step::Done((_s, j)) => Step::Done(j),
        },
    }
}

fn exec_skip_bytes(b: &[u8], st: Step<usize>, n: usize, Ghost(lb): Ghost<Seq<Seq<char>>>) -> (r: Step<usize>)
    ensures
        match (
            r,
            skip_bytes(
                b@,
                match st {
                    Step::Done(i) => Step::Done((i as int, lb)),
                    Step::Fail(e) => Step::Fail(e),
                    Step::Abort => Step::Abort,
                },
                n as int,
            ),
        ) {
            (Step::Done(j), Step::Done((jj, lb2))) => j == jj && lb2 == lb,
            (Step::Fail(e), Step::Fail(ee)) => e == ee,
            (Step::Abort, Step::Abort) => true,
            _ => false,
        },
{
    match st {
        Step::Abort => Step::Abort,
        Step::Fail(e) => Step::Fail(e),
        Step::Done(i) => {
            let len = b.len();
            if i > len || len - i < n {
                Step::Abort
            } else {
                Step::Done(i + n)
            }
        },
    }
}

fn exec_string_chunk_tail(b: &[u8], i4: usize, lb: &mut Vec<String>) -> (r: Step<usize>)
    ensures
        match (r, string_chunk_tail(b@, i4 as int, views(old(lb)@))) {
            (Step::Done(j), Step::Done((jj, lb2))) => j == jj && views(final(lb)@) == lb2,
            (Step::Fail(e), Step::Fail(ee)) => e == ee,
            (Step::Abort, Step::Abort) => true,
            _ => false,
        },
{
    reveal(string_chunk_tail);
    let ghost lb3 = views(lb@);
    let t1 = exec_skip_bytes(b, Step::Done(i4), 5, Ghost(lb3));
    let t2 = exec_skip_str(b, t1, Ghost(lb3));
    let t3 = exec_skip_lookback(b, t2, lb);
    let t4 = exec_skip_lookback(b, t3, lb);
    let t5 = exec_skip_lookback(b, t4, lb);
    let ghost lb5 = views(lb@);
    let t6 = exec_skip_bytes(b, t5, 32, Ghost(lb5));
    let t7 = exec_skip_str(b, t6, Ghost(lb5));
    let t8 = exec_skip_str(b, t7, Ghost(lb5));
    let t9 = exec_skip_bytes(b, t8, 9, Ghost(lb5));
    exec_skip_lookback(b, t9, lb)
}

fn exec_string_chunk(b: &[u8], o: usize) -> (r: Step<(String, String)>)
    ensures
        match (r, string_chunk(b@, o as int)) {
            (Step::Done((u, n)), Step::Done((uu, nn))) => u@ == uu && n@ == nn,
            (Step::Fail(e), Step::Fail(ee)) => e == ee,
            (Step::Abort, Step::Abort) => true,
            _ => false,
        },
{
    reveal(string_chunk);
    let len = b.len();
    if o >= len {
        return Step::Abort;
    }
    let version = b[o] as i8;
    if version < 11 {
        return Step::Fail(MapFileError::StringChunkVersion);
    }
    let mut lb: Vec<String> = Vec::new();
    assert(views(lb@) =~= Seq::<Seq<char>>::empty());
    match exec_rd_lookback(b, o + 1, &mut lb) {
        Step::Abort => { return Step::Abort; },
        Step::Fail(e) => { return Step::Fail(e); },
        Step::Done((uid, i1)) => {
            let s2 = exec_skip_lookback(b, Step::Done(i1), &mut lb);
            let s3 = exec_skip_lookback(b, s2, &mut lb);
            match s3 {
                Step::Abort => { return Step::Abort; },
                Step::Fail(e) => { return Step::Fail(e); },
                Step::Done(i3) => {
                    match exec_rd_str(b, i3) {
                        Step::Abort => { return Step::Abort; },
                        Step::Fail(e) => { return Step::Fail(e); },
                        Step::Done((name, i4)) => {
                            match exec_string_chunk_tail(b, i4, &mut lb) {
                                Step::Abort => { return Step::Abort; },
                                Step::Fail(e) => { return Step::Fail(e); },
                                Step::Done(_) => { return Step::Done((uid, name)); },
                            }
                        },
                    }
                },
            }
        },
    }
}

fn exec_info_chunk(b: &[u8], o: usize) -> (r: Step<(i32, i32, i32, i32, bool)>)
    ensures
        match (r, info_chunk(b@, o as int)) {
            (Step::Done(x), Step::Done(y)) => x == y,
            (Step::Fail(e), Step::Fail(ee)) => e == ee,
            (Step::Abort, Step::Abort) => true,
            _ => false,
        },
{
    reveal(info_chunk);
    let len = b.len();
    if o > len || len - o < 4 {
        return Step::Abort;
    }
    let version = i32_at(b, o);
    if version < 13 {
        return Step::Fail(MapFileError::InfoChunkVersion);
    }
    if len - o < 56 {
        return Step::Abort;
    }
    let bronze = i32_at(b, o + 8);
    let silver = i32_at(b, o + 12);
    let gold = i32_at(b, o + 16);
    let author = i32_at(b, o + 20);
    let multilap = i32_at(b, o + 28);
    Step::Done((bronze, silver, gold, author, multilap != 0))
}

fn exec_author_chunk(b: &[u8], o: usize) -> (r: Step<(String, String)>)
    ensures
        match (r, author_chunk(b@, o as int)) {
            (Step::Done((l, d)), Step::Done((ll, dd))) => l@ == ll && d@ == dd,
            (Step::Fail(e), Step::Fail(ee)) => e == ee,
            (Step::Abort, Step::Abort) => true,
            _ => false,
        },
{
    reveal(author_chunk);
    let len = b.len();
    if o > len || len - o < 4 {
        return Step::Abort;
    }
    let version = i32_at(b, o);
    if version != 1 {
        return Step::Fail(MapFileError::UnknownAuthorChunkVersion);
    }
    if len - o < 8 {
        return Step::Abort;
    }
    match exec_rd_str(b, o + 8) {
        Step::Abort => Step::Abort,
        Step::Fail(e) => Step::Fail(e),
        Step::Done((login, i1)) => match exec_rd_str(b, i1) {
            Step::Abort => Step::Abort,
            Step::Fail(e) => Step::Fail(e),
            Step::Done((display_name, i2)) => {
                let ghost empty = Seq::<Seq<char>>::empty();
                let t1 = exec_skip_str(b, Step::Done(i2), Ghost(empty));
                let t2 = exec_skip_str(b, t1, Ghost(empty));
                match t2 {
                    Step::Abort => Step::Abort,
                    Step::Fail(e) => Step::Fail(e),
                    Step::Done(_) => Step::Done((login, display_name)),
                }
            },
        },
    }
}

/// The offsets as plain values.
pub open spec fn offsets_view(t: ChunkOffsets) -> (Option<int>, Option<int>, Option<int>) {
    (
        match t.info { Some(x) => Some(x as int), None => None },
        match t.string { Some(x) => Some(x as int), None => None },
        match t.author { Some(x) => Some(x as int), None => None },
    )
}

fn exec_chunk_table(b: &[u8], n: usize, start_offset: usize) -> (r: Step<(usize, ChunkOffsets)>)
    requires
        CHUNK_START + 8 * n <= usize::MAX,
    ensures
        match (r, chunk_table(b@, n as int, 0, start_offset as int, (None, None, None))) {
            (Step::Done((end, t)), Step::Done((end2, t2))) => end == end2 && offsets_view(t) == t2,
            (Step::Fail(e), Step::Fail(ee)) => e == ee,
            (Step::Abort, Step::Abort) => true,
            _ => false,
        },
{
    let len = b.len();
    let mut offset = start_offset;
    let mut t = ChunkOffsets { info: None, string: None, author: None };
    let mut k: usize = 0;
    while k < n
        invariant
            k <= n,
            len == b@.len(),
            CHUNK_START + 8 * n <= usize::MAX,
            chunk_table(b@, n as int, 0, start_offset as int, (None, None, None))
                == chunk_table(b@, n as int, k as int, offset as int, offsets_view(t)),
        decreases n - k,
    {
        let at = CHUNK_START + 8 * k;
        if at > len || len - at < 8 {
            return Step::Abort;
        }
        let id = i32_at(b, at);
        let raw_size = i32_at(b, at + 4);
        let size = (raw_size & 0x7FFF_FFFFi32) as usize;
        if !(id == CHUNK_INFO || id == CHUNK_STRING || id == CHUNK_VERSION || id == CHUNK_XML || id
            == CHUNK_THUMBNAIL || id == CHUNK_AUTHOR) {
            return Step::Fail(MapFileError::UnexpectedChunkId);
        }
        if size > usize::MAX - offset {
            return Step::Abort;
        }
        if id == CHUNK_INFO {
            t.info = Some(offset);
        } else if id == CHUNK_STRING {
            t.string = Some(offset);
        } else if id == CHUNK_AUTHOR {
            t.author = Some(offset);
        }
        offset = offset + size;
        k = k + 1;
    }
    Step::Done((offset, t))
}

/// Reads the header of a map file, or `None` for the inputs on which the
/// reading leaves the file, overflows, or refers to a lookback string that
/// was not read.
pub fn try_parse_map_header(b: &[u8]) -> (res: Option<Result<MapFileHeader, MapFileError>>)
    ensures
        match spec_parse_map_header(b@) {
            Step::Abort => res is None,
            Step::Fail(e) => res == Some(Err::<MapFileHeader, MapFileError>(e)),
            Step::Done(h) => res matches Some(Ok(x)) && x.view() == h,
        },
{
    let len = b.len();
    if len < 3 {
        return None;
    }
    let magic = match utf8_to_string(&b[0..3]) {
        Some(s) => s,
        None => {
            assert(b@.subrange(0, 3) =~= b@.take(3));
            return Some(Err(MapFileError::InvalidUtf8));
        },
    };
    assert(b@.subrange(0, 3) =~= b@.take(3));
    let m = magic.as_str();
    if !(m.unicode_len() == 3 && m.get_char(0) == 'G' && m.get_char(1) == 'B' && m.get_char(2) == 'X') {
        proof {
            if magic@.len() == 3 {
                assert(!(magic@ =~= seq!['G', 'B', 'X']));
            }
        }
        return Some(Err(MapFileError::NoMagicHeader));
    }
    assert(magic@ =~= seq!['G', 'B', 'X']);
    if len < 5 {
        return None;
    }
    let version = read_i16_le(&b[3..5]);
    proof {
        let s = b@.subrange(3, 5);
        assert(le_i16(s, 0) == le_i16(b@, 3));
    }
    if version != 6 {
        return Some(Err(MapFileError::UnknownHeaderVersion));
    }
    if len < 13 {
        return None;
    }
    let class_id = i32_at(b, 9);
    if class_id != GBX_CHALLENGE_TMF {
        return Some(Err(MapFileError::NotAMapFile));
    }
    if len < 21 {
        return None;
    }
    let header_size = i32_at(b, 13);
    let num_chunks = i32_at(b, 17);
    if num_chunks < 0 {
        return None;
    }
    let n = num_chunks as usize;
    if n > (usize::MAX - CHUNK_START) / 8 {
        return None;
    }
    let start_offset = CHUNK_START + n * 8;
    let (end, t) = match exec_chunk_table(b, n, start_offset) {
        Step::Abort => { return None; },
        Step::Fail(e) => { return Some(Err(e)); },
        Step::Done(x) => x,
    };
    proof {
        lemma_chunk_table_end(b@, n as int, 0, start_offset as int, (None, None, None));
    }
    if header_size as usize != end - CHUNK_START + 4 {
        return Some(Err(MapFileError::SizeMismatch));
    }
    let io = match t.info {
        None => { return Some(Err(MapFileError::MissingChunk)); },
        Some(io) => io,
    };
    let times = match exec_info_chunk(b, io) {
        Step::Abort => { return None; },
        Step::Fail(e) => { return Some(Err(e)); },
        Step::Done(x) => x,
    };
    let so = match t.string {
        None => { return Some(Err(MapFileError::MissingChunk)); },
        Some(so) => so,
    };
    let (uid, name) = match exec_string_chunk(b, so) {
        Step::Abort => { return None; },
        Step::Fail(e) => { return Some(Err(e)); },
        Step::Done(x) => x,
    };
    let ao = match t.author {
        None => { return Some(Err(MapFileError::MissingChunk)); },
        Some(ao) => ao,
    };
    let (author_login, author_display_name) = match exec_author_chunk(b, ao) {
        Step::Abort => { return None; },
        Step::Fail(e) => { return Some(Err(e)); },
        Step::Done(x) => x,
    };
    Some(Ok(MapFileHeader {
        uid,
        name: DisplayString::from(name),
        millis_bronze: times.0,
        millis_silver: times.1,
        millis_gold: times.2,
        millis_author: times.3,
        is_multilap: times.4,
        author_login,
        author_display_name: DisplayString::from(author_display_name),
    }))
}

/// `true` if reading the header of these bytes stays within them: no read
/// leaves the file, no offset overflows, and every lookback string refers
/// to a string read before.
pub open spec fn map_header_readable(b: Seq<u8>) -> bool {
    !(spec_parse_map_header(b) is Abort)
}

/// Parses the header of a map file.
pub fn parse_map_header(b: &[u8]) -> (res: Result<MapFileHeader, MapFileError>)
    requires
        map_header_readable(b@),
    ensures
        match spec_parse_map_header(b@) {
            Step::Fail(e) => res == Err::<MapFileHeader, MapFileError>(e),
            Step::Done(h) => res matches Ok(x) && x.view() == h,
            Step::Abort => false,
        },
{
    match try_parse_map_header(b) {
        Some(r) => r,
        None => {
            assert(false);
            Err(MapFileError::MissingChunk)
        },
    }
}

} // verus!
