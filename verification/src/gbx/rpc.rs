//! XML-RPC messages: method calls, responses and their values, read from
//! the tokens of an XML document and written as XML text.

use quick_xml::events::Event;
use quick_xml::Reader;
use vstd::prelude::*;

use crate::gbx::xml::{
    base64_bytes, base64_encode, base64_text, escape_char, escape_xml, escaped, try_base64_decode,
    without_spaces, wrap_lines, Fault,
};
use crate::chat::command::reference::{str_lt, text_lt};
use crate::text::{
    all_digits, decimal, digits_value, lemma_decimal_digits, lemma_decimal_value, lemma_digits_value_grows, push_signed,
    push_str, signed_decimal, str_eq,
};

verus! {

/// A token of an XML document, as the reader sees it with empty elements
/// expanded and surrounding whitespace trimmed from text.
pub enum XmlToken {
    /// The `<?xml ...?>` declaration.
    Decl,
    /// A start tag, by its name.
    Start(String),
    /// An end tag, by its name.
    End(String),
    /// Text, with its entities replaced; `None` where that failed.
    Text(Option<String>),
    /// A comment, a CDATA section, a processing instruction or a doctype.
    Other,
    /// The document is not well-formed here; nothing follows.
    Error,
}

/// A token as the library reasons about it; `Eof` past the last one.
pub enum Tok {
    Decl,
    Start(Seq<char>),
    End(Seq<char>),
    Text(Option<Seq<char>>),
    Other,
    Error,
    Eof,
}

impl View for XmlToken {
    type V = Tok;

    open spec fn view(&self) -> Tok {
        match self {
            XmlToken::Decl => Tok::Decl,
            XmlToken::Start(n) => Tok::Start(n@),
            XmlToken::End(n) => Tok::End(n@),
            XmlToken::Text(t) => Tok::Text(
                match t {
                    Some(s) => Some(s@),
                    None => None,
                },
            ),
            XmlToken::Other => Tok::Other,
            XmlToken::Error => Tok::Error,
        }
    }
}

/// The tokens of a list as the library reasons about them.
pub open spec fn toks(v: Seq<XmlToken>) -> Seq<Tok> {
    v.map_values(|t: XmlToken| t@)
}

/// The tokens that quick-xml reads from a text, up to the end of the text
/// or the first error.
pub uninterp spec fn xml_tokens_of(input: Seq<char>) -> Seq<Tok>;

/// Reads the tokens of an XML text with `quick_xml::Reader` (empty elements
/// expanded, text trimmed; text unescaped with `unescape_and_decode`), up to
/// its end or to its first error, which ends the list. The tokens are named
/// by `xml_tokens_of`: they depend on the text alone.
#[verifier::external_body]
fn xml_tokens(input: &str) -> (res: Vec<XmlToken>)
    ensures
        toks(res@) == xml_tokens_of(input@),
{
    let mut reader = Reader::from_str(input);
    reader.expand_empty_elements(true).trim_text(true);
    let (mut buf, mut out) = (Vec::new(), Vec::new());
    loop {
        out.push(match reader.read_event(&mut buf) {
            Ok(Event::Start(e)) => XmlToken::Start(String::from_utf8_lossy(e.name()).into_owned()),
            Ok(Event::End(e)) => XmlToken::End(String::from_utf8_lossy(e.name()).into_owned()),
            Ok(Event::Text(t)) => XmlToken::Text(t.unescape_and_decode(&reader).ok()),
            Ok(Event::Decl(_)) => XmlToken::Decl,
            Ok(Event::Eof) => return out,
            Err(_) => XmlToken::Error,
            _ => XmlToken::Other,
        });
        buf.clear();
    }
}

/// The token at `p`, or `Eof` past the end.
pub open spec fn tok(ts: Seq<Tok>, p: int) -> Tok {
    if 0 <= p < ts.len() {
        ts[p]
    } else {
        Tok::Eof
    }
}

/// The position after the end tag `name` that closes the element entered
/// `depth` levels of `name` ago, skipping everything else; `None` where the
/// tokens end or fail first.
pub open spec fn skip_to_end(ts: Seq<Tok>, name: Seq<char>, p: int, depth: nat) -> Option<int>
    decreases ts.len() - p,
{
    if p < 0 || p >= ts.len() {
        None
    } else {
        match ts[p] {
            Tok::End(n) => if n == name {
                if depth == 0 {
                    Some(p + 1)
                } else {
                    skip_to_end(ts, name, p + 1, (depth - 1) as nat)
                }
            } else {
                skip_to_end(ts, name, p + 1, depth)
            },
            Tok::Start(n) => if n == name {
                skip_to_end(ts, name, p + 1, depth + 1)
            } else {
                skip_to_end(ts, name, p + 1, depth)
            },
            Tok::Error => None,
            _ => skip_to_end(ts, name, p + 1, depth),
        }
    }
}

/// The optional text of the element `name` entered before `p`, and the
/// position after its end tag.
pub open spec fn text_of(ts: Seq<Tok>, name: Seq<char>, p: int) -> Option<(Seq<char>, int)> {
    match tok(ts, p) {
        Tok::Text(Some(t)) => match skip_to_end(ts, name, p + 1, 0) {
            Some(q) => Some((t, q)),
            None => None,
        },
        Tok::End(n) => if n == name {
            Some((Seq::empty(), p + 1))
        } else {
            None
        },
        _ => None,
    }
}

/// Whether the token at `p` starts the element `name`.
pub open spec fn starts(ts: Seq<Tok>, name: Seq<char>, p: int) -> bool {
    tok(ts, p) == Tok::Start(name)
}

/// Whether the token at `p` ends the element `name`.
pub open spec fn ends(ts: Seq<Tok>, name: Seq<char>, p: int) -> bool {
    tok(ts, p) == Tok::End(name)
}

proof fn lemma_skip_advances(ts: Seq<Tok>, name: Seq<char>, p: int, depth: nat)
    ensures
        skip_to_end(ts, name, p, depth) matches Some(q) ==> p < q <= ts.len(),
    decreases ts.len() - p,
{
    if 0 <= p < ts.len() {
        match ts[p] {
            Tok::End(n) => {
                if n == name && depth > 0 {
                    lemma_skip_advances(ts, name, p + 1, (depth - 1) as nat);
                } else if n != name {
                    lemma_skip_advances(ts, name, p + 1, depth);
                }
            },
            Tok::Start(n) => {
                if n == name {
                    lemma_skip_advances(ts, name, p + 1, depth + 1);
                } else {
                    lemma_skip_advances(ts, name, p + 1, depth);
                }
            },
            Tok::Error => {},
            _ => {
                lemma_skip_advances(ts, name, p + 1, depth);
            },
        }
    }
}

/// Whether the token at `p` starts the element `name`.
fn is_start(ts: &Vec<XmlToken>, name: &str, p: usize) -> (res: bool)
    ensures
        res == starts(toks(ts@), name@, p as int),
{
    if p < ts.len() {
        match &ts[p] {
            XmlToken::Start(n) => str_eq(n.as_str(), name),
            _ => false,
        }
    } else {
        false
    }
}

/// Whether the token at `p` ends the element `name`.
fn is_end(ts: &Vec<XmlToken>, name: &str, p: usize) -> (res: bool)
    ensures
        res == ends(toks(ts@), name@, p as int),
{
    if p < ts.len() {
        match &ts[p] {
            XmlToken::End(n) => str_eq(n.as_str(), name),
            _ => false,
        }
    } else {
        false
    }
}

/// Skips to the position after the end tag `name` that closes the element
/// entered before `p`.
fn read_to_end(ts: &Vec<XmlToken>, name: &str, p: usize) -> (res: Option<usize>)
    ensures
        match res {
            Some(q) => skip_to_end(toks(ts@), name@, p as int, 0) == Some(q as int),
            None => skip_to_end(toks(ts@), name@, p as int, 0) is None,
        },
{
    let ghost t = toks(ts@);
    let mut q = p;
    let mut depth: usize = 0;
    while q < ts.len()
        invariant
            t == toks(ts@),
            t.len() == ts@.len(),
            p <= q,
            depth <= q - p,
            skip_to_end(t, name@, p as int, 0) == skip_to_end(t, name@, q as int, depth as nat),
        decreases ts@.len() - q,
    {
        assert(t[q as int] == ts@[q as int]@);
        match &ts[q] {
            XmlToken::End(n) => {
                if str_eq(n.as_str(), name) {
                    if depth == 0 {
                        return Some(q + 1);
                    }
                    depth = depth - 1;
                }
            },
            XmlToken::Start(n) => {
                if str_eq(n.as_str(), name) {
                    depth = depth + 1;
                }
            },
            XmlToken::Error => {
                return None;
            },
            _ => {},
        }
        q = q + 1;
    }
    None
}

/// Reads the optional text of the element `name` entered before `p`, and
/// the position after its end tag.
fn read_text(ts: &Vec<XmlToken>, name: &str, p: usize) -> (res: Option<(String, usize)>)
    ensures
        match res {
            Some((s, q)) => text_of(toks(ts@), name@, p as int) == Some((s@, q as int)),
            None => text_of(toks(ts@), name@, p as int) is None,
        },
{
    let ghost t = toks(ts@);
    if p >= ts.len() {
        return None;
    }
    assert(t[p as int] == ts@[p as int]@);
    match &ts[p] {
        XmlToken::Text(Some(s)) => match read_to_end(ts, name, p + 1) {
            Some(q) => Some((s.clone(), q)),
            None => None,
        },
        XmlToken::End(n) => {
            if str_eq(n.as_str(), name) {
                Some((String::new(), p + 1))
            } else {
                None
            }
        },
        _ => None,
    }
}

/// An XML-RPC value.
#[derive(Debug, PartialEq)]
pub enum Value {
    /// A 32-bit signed integer (`<i4>` or `<int>`).
    Int(i32),
    /// A boolean (`<boolean>`, 0 or 1).
    Bool(bool),
    /// A string (`<string>`).
    String(String),
    /// A floating-point number (`<double>`), as its decimal text.
    Double(String),
    /// Bytes (`<base64>`).
    Base64(Vec<u8>),
    /// Named members (`<struct>`), sorted by name, each name once.
    Struct(Vec<(String, Value)>),
    /// A list of values (`<array>`).
    Array(Vec<Value>),
}

/// An XML-RPC value as the library reasons about it.
pub enum ValueView {
    Int(i32),
    Bool(bool),
    String(Seq<char>),
    Double(Seq<char>),
    Base64(Seq<u8>),
    Struct(Seq<(Seq<char>, ValueView)>),
    Array(Seq<ValueView>),
}

/// The view of a value.
pub open spec fn value_view(v: Value) -> ValueView
    decreases v,
{
    match v {
        Value::Int(i) => ValueView::Int(i),
        Value::Bool(b) => ValueView::Bool(b),
        Value::String(s) => ValueView::String(s@),
        Value::Double(s) => ValueView::Double(s@),
        Value::Base64(b) => ValueView::Base64(b@),
        Value::Struct(ms) => ValueView::Struct(member_views(ms@)),
        Value::Array(vs) => ValueView::Array(value_views(vs@)),
    }
}

/// The views of a list of values.
pub open spec fn value_views(vs: Seq<Value>) -> Seq<ValueView>
    decreases vs,
{
    if vs.len() == 0 {
        Seq::empty()
    } else {
        value_views(vs.subrange(0, vs.len() - 1)).push(value_view(vs[vs.len() - 1]))
    }
}

/// The views of a list of struct members.
pub open spec fn member_views(ms: Seq<(String, Value)>) -> Seq<(Seq<char>, ValueView)>
    decreases ms,
{
    if ms.len() == 0 {
        Seq::empty()
    } else {
        member_views(ms.subrange(0, ms.len() - 1)).push(
            (ms[ms.len() - 1].0@, value_view(ms[ms.len() - 1].1)),
        )
    }
}

proof fn lemma_value_views_push(vs: Seq<Value>, v: Value)
    ensures
        value_views(vs.push(v)) == value_views(vs).push(value_view(v)),
{
    assert(vs.push(v).subrange(0, vs.len() as int) =~= vs);
}

proof fn lemma_member_views_index(ms: Seq<(String, Value)>)
    ensures
        member_views(ms).len() == ms.len(),
        forall|i: int| 0 <= i < ms.len() ==> #[trigger] member_views(ms)[i] == (ms[i].0@, value_view(ms[i].1)),
    decreases ms.len(),
{
    if ms.len() > 0 {
        let init = ms.subrange(0, ms.len() - 1);
        lemma_member_views_index(init);
        assert forall|i: int| 0 <= i < ms.len() implies #[trigger] member_views(ms)[i] == (ms[i].0@, value_view(ms[i].1)) by {
            if i < ms.len() - 1 {
                assert(init[i] == ms[i]);
            }
        }
    }
}

/// What `i32::from_str` accepts: an optional sign, then at least one ASCII
/// digit, of a value that fits; and the value.
pub open spec fn spec_parse_i32(s: Seq<char>) -> Option<i32> {
    if s.len() > 0 && s[0] == '-' {
        let d = s.drop_first();
        if d.len() > 0 && all_digits(d) && digits_value(d) <= 0x8000_0000 {
            Some((-digits_value(d)) as i32)
        } else {
            None
        }
    } else {
        let d = if s.len() > 0 && s[0] == '+' { s.drop_first() } else { s };
        if d.len() > 0 && all_digits(d) && digits_value(d) <= 0x7fff_ffff {
            Some(digits_value(d) as i32)
        } else {
            None
        }
    }
}

/// Parses a decimal number as `i32::from_str` does.
pub fn parse_i32(s: &str) -> (res: Option<i32>)
    ensures
        res == spec_parse_i32(s@),
{
    let n = s.unicode_len();
    let negative = n > 0 && s.get_char(0) == '-';
    let start: usize = if n > 0 && (s.get_char(0) == '-' || s.get_char(0) == '+') { 1 } else { 0 };
    let ghost d = s@.skip(start as int);
    proof {
        if start == 1 {
            assert(d =~= s@.drop_first());
        } else {
            assert(d =~= s@);
        }
    }
    if start == n {
        return None;
    }
    let bound: i64 = if negative { 0x8000_0000 } else { 0x7fff_ffff };
    let mut value: i64 = 0;
    let mut i: usize = start;
    while i < n
        invariant
            n == s@.len(),
            start <= i <= n,
            start < n,
            d == s@.skip(start as int),
            negative == (s@.len() > 0 && s@[0] == '-'),
            start == (if s@.len() > 0 && (s@[0] == '-' || s@[0] == '+') { 1usize } else { 0usize }),
            d == (if s@.len() > 0 && (s@[0] == '-' || s@[0] == '+') { s@.drop_first() } else { s@ }),
            bound == (if negative { 0x8000_0000i64 } else { 0x7fff_ffffi64 }),
            all_digits(d.take(i - start)),
            value == digits_value(d.take(i - start)),
            0 <= value <= bound,
        decreases n - i,
    {
        let c = s.get_char(i);
        let ghost k = (i - start) as int;
        proof {
            assert(d.take(k + 1).drop_last() =~= d.take(k));
            assert(d.take(k + 1).last() == c);
            assert(d[k] == c);
        }
        if !('0' <= c && c <= '9') {
            proof {
                assert(!all_digits(d));
            }
            return None;
        }
        let digit = (c as u32 - '0' as u32) as i64;
        value = value * 10 + digit;
        proof {
            assert(all_digits(d.take(k + 1)));
        }
        if value > bound {
            proof {
                if all_digits(d) {
                    lemma_digits_value_grows(d, k + 1);
                }
            }
            return None;
        }
        i = i + 1;
    }
    assert(d.take(n - start) =~= d);
    if negative {
        Some((-value) as i32)
    } else {
        Some(value as i32)
    }
}

/// `ms`, sorted by name with each name once, with the member `name` set to
/// `v`: replaced where it is, else inserted in order (as a `BTreeMap` does).
pub open spec fn insert_member(ms: Seq<(Seq<char>, ValueView)>, name: Seq<char>, v: ValueView) -> Seq<(Seq<char>, ValueView)>
    decreases ms.len(),
{
    if ms.len() == 0 {
        seq![(name, v)]
    } else if ms.last().0 == name {
        ms.drop_last().push((name, v))
    } else if text_lt(name, ms.last().0) {
        insert_member(ms.drop_last(), name, v).push(ms.last())
    } else {
        ms.push((name, v))
    }
}

/// The value of the member `name`, if there is one.
pub open spec fn member(ms: Seq<(Seq<char>, ValueView)>, name: Seq<char>) -> Option<ValueView>
    decreases ms.len(),
{
    if ms.len() == 0 {
        None
    } else if ms.last().0 == name {
        Some(ms.last().1)
    } else {
        member(ms.drop_last(), name)
    }
}

/// The value in the element `<value>` entered before `p`, and the position
/// after its end tag.
pub open spec fn value_at(ts: Seq<Tok>, p: int) -> Option<(ValueView, int)>
    decreases ts.len() - p, 0int,
{
    if p < 0 || p >= ts.len() {
        None
    } else {
        let inner: Option<(ValueView, int)> = match ts[p] {
            Tok::Start(n) => if n == "i4"@ || n == "int"@ {
                match text_of(ts, n, p + 1) {
                    Some((t, q)) => match spec_parse_i32(t) {
                        Some(i) => Some((ValueView::Int(i), q)),
                        None => None,
                    },
                    None => None,
                }
            } else if n == "double"@ {
                match text_of(ts, n, p + 1) {
                    Some((t, q)) => Some((ValueView::Double(t), q)),
                    None => None,
                }
            } else if n == "boolean"@ {
                match text_of(ts, n, p + 1) {
                    Some((t, q)) => if t == "0"@ {
                        Some((ValueView::Bool(false), q))
                    } else if t == "1"@ {
                        Some((ValueView::Bool(true), q))
                    } else {
                        None
                    },
                    None => None,
                }
            } else if n == "string"@ {
                match text_of(ts, n, p + 1) {
                    Some((t, q)) => Some((ValueView::String(t), q)),
                    None => None,
                }
            } else if n == "base64"@ {
                match text_of(ts, n, p + 1) {
                    Some((t, q)) => match base64_bytes(without_spaces(t)) {
                        Some(b) => Some((ValueView::Base64(b), q)),
                        None => None,
                    },
                    None => None,
                }
            } else if n == "array"@ {
                array_at(ts, p + 1)
            } else if n == "struct"@ {
                struct_at(ts, p + 1, Seq::empty())
            } else {
                None
            },
            _ => None,
        };
        match inner {
            Some((v, q)) => match skip_to_end(ts, "value"@, q, 0) {
                Some(r) => Some((v, r)),
                None => None,
            },
            None => None,
        }
    }
}

/// The array in the element `<array>` entered before `p`, and the position
/// after its end tag.
pub open spec fn array_at(ts: Seq<Tok>, p: int) -> Option<(ValueView, int)>
    decreases ts.len() - p, 1int,
{
    if 0 <= p < ts.len() && starts(ts, "data"@, p) {
        match items_at(ts, p + 1, Seq::empty()) {
            Some((vs, q)) => match skip_to_end(ts, "array"@, q, 0) {
                Some(r) => Some((ValueView::Array(vs), r)),
                None => None,
            },
            None => None,
        }
    } else {
        None
    }
}

/// The values of `<data>` from `p` on, after `acc`, and the position after
/// `</data>`.
pub open spec fn items_at(ts: Seq<Tok>, p: int, acc: Seq<ValueView>) -> Option<(Seq<ValueView>, int)>
    decreases ts.len() - p, 2int,
{
    if 0 <= p < ts.len() && starts(ts, "value"@, p) {
        match value_at(ts, p + 1) {
            Some((v, q)) => if p < q <= ts.len() {
                items_at(ts, q, acc.push(v))
            } else {
                None
            },
            None => None,
        }
    } else if ends(ts, "data"@, p) {
        Some((acc, p + 1))
    } else {
        None
    }
}

/// The members of `<struct>` from `p` on, set into `acc` in turn, and the
/// position after `</struct>`.
pub open spec fn struct_at(ts: Seq<Tok>, p: int, acc: Seq<(Seq<char>, ValueView)>) -> Option<(ValueView, int)>
    decreases ts.len() - p, 2int,
{
    if 0 <= p < ts.len() && starts(ts, "member"@, p) {
        if starts(ts, "name"@, p + 1) {
            match text_of(ts, "name"@, p + 2) {
                Some((nm, q)) => if p < q < ts.len() && starts(ts, "value"@, q) {
                    match value_at(ts, q + 1) {
                        Some((v, r)) => match skip_to_end(ts, "member"@, r, 0) {
                            Some(e) => if p < e <= ts.len() {
                                struct_at(ts, e, insert_member(acc, nm, v))
                            } else {
                                None
                            },
                            None => None,
                        },
                        None => None,
                    }
                } else {
                    None
                },
                None => None,
            }
        } else {
            None
        }
    } else if ends(ts, "struct"@, p) {
        Some((ValueView::Struct(acc), p + 1))
    } else {
        None
    }
}

/// The values of `<params>` from `p` on, after `acc`, and the position after
/// `</params>`.
pub open spec fn params_at(ts: Seq<Tok>, p: int, acc: Seq<ValueView>) -> Option<(Seq<ValueView>, int)>
    decreases ts.len() - p,
{
    if 0 <= p < ts.len() && starts(ts, "param"@, p) {
        if starts(ts, "value"@, p + 1) {
            match value_at(ts, p + 2) {
                Some((v, q)) => match skip_to_end(ts, "param"@, q, 0) {
                    Some(r) => if p < r <= ts.len() {
                        params_at(ts, r, acc.push(v))
                    } else {
                        None
                    },
                    None => None,
                },
                None => None,
            }
        } else {
            None
        }
    } else if ends(ts, "params"@, p) {
        Some((acc, p + 1))
    } else {
        None
    }
}

proof fn lemma_text_advances(ts: Seq<Tok>, name: Seq<char>, p: int)
    ensures
        text_of(ts, name, p) matches Some((t, q)) ==> p < q <= ts.len(),
{
    if let Tok::Text(Some(_)) = tok(ts, p) {
        lemma_skip_advances(ts, name, p + 1, 0);
    }
}

/// Sets the member `name` to `v`: replaced where it is, else inserted in
/// order of names.
fn set_member(ms: &mut Vec<(String, Value)>, name: String, v: Value)
    ensures
        member_views(final(ms)@) == insert_member(member_views(old(ms)@), name@, value_view(v)),
{
    let ghost t = member_views(ms@);
    let ghost x = (name@, value_view(v));
    proof {
        lemma_member_views_index(ms@);
    }
    let mut j: usize = ms.len();
    assert(t.take(j as int) =~= t);
    assert(insert_member(t, x.0, x.1) + t.skip(j as int) =~= insert_member(t, x.0, x.1));
    while j > 0 && !str_eq(ms[j - 1].0.as_str(), name.as_str()) && str_lt(name.as_str(), ms[j - 1].0.as_str())
        invariant
            j <= ms@.len(),
            t == member_views(ms@),
            t.len() == ms@.len(),
            forall|i: int| 0 <= i < ms@.len() ==> #[trigger] t[i] == (ms@[i].0@, value_view(ms@[i].1)),
            x == (name@, value_view(v)),
            insert_member(t, x.0, x.1) == insert_member(t.take(j as int), x.0, x.1) + t.skip(j as int),
        decreases j,
    {
        proof {
            let tj = t.take(j as int);
            assert(tj.last() == t[j - 1]);
            assert(tj.drop_last() =~= t.take(j - 1));
            assert(insert_member(tj, x.0, x.1) == insert_member(t.take(j - 1), x.0, x.1).push(tj.last()));
            assert(insert_member(t.take(j - 1), x.0, x.1).push(tj.last()) + t.skip(j as int)
                =~= insert_member(t.take(j - 1), x.0, x.1) + t.skip(j - 1));
        }
        j = j - 1;
    }
    if j > 0 && str_eq(ms[j - 1].0.as_str(), name.as_str()) {
        proof {
            let tj = t.take(j as int);
            assert(tj.last() == t[j - 1]);
            assert(tj.drop_last() =~= t.take(j - 1));
        }
        ms.set(j - 1, (name, v));
        proof {
            lemma_member_views_index(ms@);
            assert(member_views(ms@) =~= t.take(j - 1).push(x) + t.skip(j as int));
        }
    } else {
        proof {
            let tj = t.take(j as int);
            if j > 0 {
                assert(tj.last() == t[j - 1]);
            }
            assert(insert_member(tj, x.0, x.1) =~= tj.push(x));
        }
        ms.insert(j, (name, v));
        proof {
            lemma_member_views_index(ms@);
            assert(member_views(ms@) =~= t.take(j as int).push(x) + t.skip(j as int));
        }
    }
}

/// Reads the value in the element `<value>` entered before `p`, and the
/// position after its end tag.
fn read_value(ts: &Vec<XmlToken>, p: usize) -> (res: Option<(Value, usize)>)
    requires
        p <= ts@.len(),
    ensures
        match res {
            Some((v, r)) => value_at(toks(ts@), p as int) == Some((value_view(v), r as int)) && p < r
                <= ts@.len(),
            None => value_at(toks(ts@), p as int) is None,
        },
    decreases ts@.len() - p, 0int,
{
    let ghost t = toks(ts@);
    if p >= ts.len() {
        return None;
    }
    assert(t[p as int] == ts@[p as int]@);
    let inner: Option<(Value, usize)> = match &ts[p] {
        XmlToken::Start(n) => {
            let nm = n.as_str();
            proof {
                lemma_text_advances(t, nm@, p + 1);
            }
            if str_eq(nm, "i4") || str_eq(nm, "int") {
                match read_text(ts, nm, p + 1) {
                    Some((text, q)) => match parse_i32(text.as_str()) {
                        Some(i) => Some((Value::Int(i), q)),
                        None => None,
                    },
                    None => None,
                }
            } else if str_eq(nm, "double") {
                match read_text(ts, nm, p + 1) {
                    Some((text, q)) => Some((Value::Double(text), q)),
                    None => None,
                }
            } else if str_eq(nm, "boolean") {
                match read_text(ts, nm, p + 1) {
                    Some((text, q)) => {
                        if str_eq(text.as_str(), "0") {
                            Some((Value::Bool(false), q))
                        } else if str_eq(text.as_str(), "1") {
                            Some((Value::Bool(true), q))
                        } else {
                            None
                        }
                    },
                    None => None,
                }
            } else if str_eq(nm, "string") {
                match read_text(ts, nm, p + 1) {
                    Some((text, q)) => Some((Value::String(text), q)),
                    None => None,
                }
            } else if str_eq(nm, "base64") {
                match read_text(ts, nm, p + 1) {
                    Some((text, q)) => match try_base64_decode(text.as_str()) {
                        Some(b) => Some((Value::Base64(b), q)),
                        None => None,
                    },
                    None => None,
                }
            } else if str_eq(nm, "array") {
                read_array(ts, p + 1)
            } else if str_eq(nm, "struct") {
                read_struct(ts, p + 1)
            } else {
                None
            }
        },
        _ => None,
    };
    match inner {
        Some((v, q)) => match read_to_end(ts, "value", q) {
            Some(r) => {
                proof {
                    lemma_skip_advances(t, "value"@, q as int, 0);
                }
                Some((v, r))
            },
            None => None,
        },
        None => None,
    }
}

/// Reads the array in the element `<array>` entered before `p`, and the
/// position after its end tag.
fn read_array(ts: &Vec<XmlToken>, p: usize) -> (res: Option<(Value, usize)>)
    requires
        p <= ts@.len(),
    ensures
        match res {
            Some((v, r)) => array_at(toks(ts@), p as int) == Some((value_view(v), r as int)) && p < r
                <= ts@.len(),
            None => array_at(toks(ts@), p as int) is None,
        },
    decreases ts@.len() - p, 1int,
{
    let ghost t = toks(ts@);
    if !(p < ts.len() && is_start(ts, "data", p)) {
        return None;
    }
    let mut vs: Vec<Value> = Vec::new();
    let mut q: usize = p + 1;
    while q < ts.len() && is_start(ts, "value", q)
        invariant
            t == toks(ts@),
            p < q <= ts@.len(),
            p < ts@.len(),
            starts(t, "data"@, p as int),
            items_at(t, p + 1, Seq::empty()) == items_at(t, q as int, value_views(vs@)),
        decreases ts@.len() - q,
    {
        match read_value(ts, q + 1) {
            Some((v, r)) => {
                proof {
                    lemma_value_views_push(vs@, v);
                }
                vs.push(v);
                q = r;
            },
            None => {
                return None;
            },
        }
    }
    if !is_end(ts, "data", q) {
        return None;
    }
    match read_to_end(ts, "array", q + 1) {
        Some(r) => {
            proof {
                lemma_skip_advances(t, "array"@, q + 1, 0);
            }
            Some((Value::Array(vs), r))
        },
        None => None,
    }
}

/// Reads the struct in the element `<struct>` entered before `p`, and the
/// position after its end tag.
fn read_struct(ts: &Vec<XmlToken>, p: usize) -> (res: Option<(Value, usize)>)
    requires
        p <= ts@.len(),
    ensures
        match res {
            Some((v, r)) => struct_at(toks(ts@), p as int, Seq::empty()) == Some((value_view(v), r as int))
                && p < r <= ts@.len(),
            None => struct_at(toks(ts@), p as int, Seq::empty()) is None,
        },
    decreases ts@.len() - p, 1int,
{
    let ghost t = toks(ts@);
    let mut ms: Vec<(String, Value)> = Vec::new();
    let mut q: usize = p;
    while q < ts.len() && is_start(ts, "member", q)
        invariant
            t == toks(ts@),
            p <= q <= ts@.len(),
            struct_at(t, p as int, Seq::empty()) == struct_at(t, q as int, member_views(ms@)),
        decreases ts@.len() - q,
    {
        if !is_start(ts, "name", q + 1) {
            return None;
        }
        proof {
            lemma_text_advances(t, "name"@, q + 2);
        }
        match read_text(ts, "name", q + 2) {
            Some((nm, a)) => {
                if !(a < ts.len() && is_start(ts, "value", a)) {
                    return None;
                }
                match read_value(ts, a + 1) {
                    Some((v, b)) => match read_to_end(ts, "member", b) {
                        Some(e) => {
                            proof {
                                lemma_skip_advances(t, "member"@, b as int, 0);
                            }
                            set_member(&mut ms, nm, v);
                            q = e;
                        },
                        None => {
                            return None;
                        },
                    },
                    None => {
                        return None;
                    },
                }
            },
            None => {
                return None;
            },
        }
    }
    if is_end(ts, "struct", q) {
        Some((Value::Struct(ms), q + 1))
    } else {
        None
    }
}

/// Reads the values of `<params>` from `p` on, and the position after
/// `</params>`.
fn read_params(ts: &Vec<XmlToken>, p: usize) -> (res: Option<(Vec<Value>, usize)>)
    requires
        p <= ts@.len(),
    ensures
        match res {
            Some((vs, r)) => params_at(toks(ts@), p as int, Seq::empty()) == Some((value_views(vs@), r as int))
                && p < r <= ts@.len(),
            None => params_at(toks(ts@), p as int, Seq::empty()) is None,
        },
{
    let ghost t = toks(ts@);
    let mut vs: Vec<Value> = Vec::new();
    let mut q: usize = p;
    while q < ts.len() && is_start(ts, "param", q)
        invariant
            t == toks(ts@),
            p <= q <= ts@.len(),
            params_at(t, p as int, Seq::empty()) == params_at(t, q as int, value_views(vs@)),
        decreases ts@.len() - q,
    {
        if !is_start(ts, "value", q + 1) {
            return None;
        }
        match read_value(ts, q + 2) {
            Some((v, a)) => match read_to_end(ts, "param", a) {
                Some(e) => {
                    proof {
                        lemma_skip_advances(t, "param"@, a as int, 0);
                        lemma_value_views_push(vs@, v);
                    }
                    vs.push(v);
                    q = e;
                },
                None => {
                    return None;
                },
            },
            None => {
                return None;
            },
        }
    }
    if is_end(ts, "params", q) {
        Some((vs, q + 1))
    } else {
        None
    }
}

/// An XML-RPC method call (`<methodCall>`).
#[derive(Debug, PartialEq)]
pub struct Call {
    pub name: String,
    pub args: Vec<Value>,
}

/// The name and arguments of the method call in the tokens, if they hold
/// one: the declaration, `<methodCall>`, `<methodName>` with the name, then
/// `<params>` with the arguments, up to `</methodCall>`.
pub open spec fn call_of(ts: Seq<Tok>) -> Option<(Seq<char>, Seq<ValueView>)> {
    if tok(ts, 0) == Tok::Decl && starts(ts, "methodCall"@, 1) && starts(ts, "methodName"@, 2) {
        match text_of(ts, "methodName"@, 3) {
            Some((name, q)) => if starts(ts, "params"@, q) {
                match params_at(ts, q + 1, Seq::empty()) {
                    Some((args, r)) => match skip_to_end(ts, "methodCall"@, r, 0) {
                        Some(_) => Some((name, args)),
                        None => None,
                    },
                    None => None,
                }
            } else {
                None
            },
            None => None,
        }
    } else {
        None
    }
}

/// The method response in the tokens, if they hold one: the first of its
/// `<params>`, or the code and message of its `<fault>`.
pub open spec fn response_of(ts: Seq<Tok>) -> Option<Result<ValueView, (i32, Seq<char>)>> {
    if tok(ts, 0) == Tok::Decl && starts(ts, "methodResponse"@, 1) {
        if starts(ts, "params"@, 2) {
            match params_at(ts, 3, Seq::empty()) {
                Some((vals, q)) => match skip_to_end(ts, "methodResponse"@, q, 0) {
                    Some(_) => if vals.len() > 0 {
                        Some(Ok(vals[0]))
                    } else {
                        None
                    },
                    None => None,
                },
                None => None,
            }
        } else if starts(ts, "fault"@, 2) && starts(ts, "value"@, 3) {
            match value_at(ts, 4) {
                Some((ValueView::Struct(ms), _)) => match (member(ms, "faultCode"@), member(ms, "faultString"@)) {
                    (Some(ValueView::Int(code)), Some(ValueView::String(msg))) => Some(Err((code, msg))),
                    _ => None,
                },
                _ => None,
            }
        } else {
            None
        }
    } else {
        None
    }
}

/// Reads the method call of an XML text; `None` where the text holds none.
pub fn read_method_call(input: &str) -> (res: Option<Call>)
    ensures
        match res {
            Some(c) => call_of(xml_tokens_of(input@)) == Some((c.name@, value_views(c.args@))),
            None => call_of(xml_tokens_of(input@)) is None,
        },
{
    let ts = xml_tokens(input);
    let ghost t = toks(ts@);
    if !(ts.len() > 0 && matches!(ts[0], XmlToken::Decl) && is_start(&ts, "methodCall", 1)
        && is_start(&ts, "methodName", 2)) {
        proof {
            if ts@.len() > 0 {
                assert(t[0] == ts@[0]@);
            }
        }
        return None;
    }
    assert(t[0] == ts@[0]@);
    let (name, q) = match read_text(&ts, "methodName", 3) {
        Some(x) => x,
        None => {
            return None;
        },
    };
    proof {
        lemma_text_advances(t, "methodName"@, 3);
    }
    if !is_start(&ts, "params", q) {
        return None;
    }
    let (args, r) = match read_params(&ts, q + 1) {
        Some(x) => x,
        None => {
            return None;
        },
    };
    match read_to_end(&ts, "methodCall", r) {
        Some(_) => Some(Call { name, args }),
        None => None,
    }
}

/// The value of a member of a struct, if it has one.
pub(crate) fn get_member<'a>(ms: &'a Vec<(String, Value)>, name: &str) -> (res: Option<&'a Value>)
    ensures
        match res {
            Some(v) => member(member_views(ms@), name@) == Some(value_view(*v)),
            None => member(member_views(ms@), name@) is None,
        },
{
    let ghost t = member_views(ms@);
    proof {
        lemma_member_views_index(ms@);
    }
    let mut j: usize = ms.len();
    assert(t.take(j as int) =~= t);
    while j > 0
        invariant
            j <= ms@.len(),
            t == member_views(ms@),
            t.len() == ms@.len(),
            forall|i: int| 0 <= i < ms@.len() ==> #[trigger] t[i] == (ms@[i].0@, value_view(ms@[i].1)),
            member(t, name@) == member(t.take(j as int), name@),
        decreases j,
    {
        let tj = Ghost(t.take(j as int));
        assert(tj@.last() == t[j - 1]);
        assert(tj@.drop_last() =~= t.take(j - 1));
        if str_eq(ms[j - 1].0.as_str(), name) {
            return Some(&ms[j - 1].1);
        }
        j = j - 1;
    }
    None
}

/// Reads the method response of an XML text: the value it answers with, or
/// the fault; `None` where the text holds no response.
pub fn read_method_response(input: &str) -> (res: Option<Result<Value, Fault>>)
    ensures
        match res {
            Some(Ok(v)) => response_of(xml_tokens_of(input@)) == Some(Ok::<ValueView, (i32, Seq<char>)>(value_view(v))),
            Some(Err(f)) => response_of(xml_tokens_of(input@)) == Some(Err::<ValueView, (i32, Seq<char>)>((f.code, f.msg@))),
            None => response_of(xml_tokens_of(input@)) is None,
        },
{
    let ts = xml_tokens(input);
    let ghost t = toks(ts@);
    if !(ts.len() > 0 && matches!(ts[0], XmlToken::Decl) && is_start(&ts, "methodResponse", 1)) {
        proof {
            if ts@.len() > 0 {
                assert(t[0] == ts@[0]@);
            }
        }
        return None;
    }
    assert(t[0] == ts@[0]@);
    if is_start(&ts, "params", 2) {
        match read_params(&ts, 3) {
            Some((vals, q)) => match read_to_end(&ts, "methodResponse", q) {
                Some(_) => {
                    let mut vals = vals;
                    if vals.len() > 0 {
                        proof {
                            lemma_value_views_index(vals@);
                        }
                        Some(Ok(vals.swap_remove(0)))
                    } else {
                        None
                    }
                },
                None => None,
            },
            None => None,
        }
    } else if is_start(&ts, "fault", 2) && is_start(&ts, "value", 3) {
        match read_value(&ts, 4) {
            Some((Value::Struct(ms), _)) => {
                let code = match get_member(&ms, "faultCode") {
                    Some(Value::Int(c)) => *c,
                    _ => {
                        return None;
                    },
                };
                match get_member(&ms, "faultString") {
                    Some(Value::String(m)) => Some(Err(Fault { code, msg: m.clone() })),
                    _ => None,
                }
            },
            _ => None,
        }
    } else {
        None
    }
}

pub(crate) proof fn lemma_value_views_index(vs: Seq<Value>)
    ensures
        value_views(vs).len() == vs.len(),
        forall|i: int| 0 <= i < vs.len() ==> #[trigger] value_views(vs)[i] == value_view(vs[i]),
    decreases vs.len(),
{
    if vs.len() > 0 {
        let init = vs.subrange(0, vs.len() - 1);
        lemma_value_views_index(init);
        assert forall|i: int| 0 <= i < vs.len() implies #[trigger] value_views(vs)[i] == value_view(vs[i]) by {
            if i < vs.len() - 1 {
                assert(init[i] == vs[i]);
            }
        }
    }
}

/// An element: its start tag, its content, its end tag.
pub open spec fn element(name: Seq<char>, content: Seq<char>) -> Seq<char> {
    "<"@ + name + ">"@ + content + "</"@ + name + ">"@
}

/// How a token is written in XML text: a start tag, an end tag, or its text
/// with markup characters escaped.
pub open spec fn token_text(t: Tok) -> Seq<char> {
    match t {
        Tok::Start(n) => "<"@ + n + ">"@,
        Tok::End(n) => "</"@ + n + ">"@,
        Tok::Text(Some(x)) => escaped(x),
        Tok::Decl => "<?xml version=\"1.0\" encoding=\"utf-8\"?>"@,
        _ => Seq::empty(),
    }
}

/// How a list of tokens is written: one after the other.
pub open spec fn tokens_text(ts: Seq<Tok>) -> Seq<char>
    decreases ts.len(),
{
    if ts.len() == 0 {
        Seq::empty()
    } else {
        tokens_text(ts.drop_last()) + token_text(ts.last())
    }
}

/// The tokens of a `<value>` that holds an element `kind` with the text `text`.
pub open spec fn scalar_tokens(kind: Seq<char>, text: Seq<char>) -> Seq<Tok> {
    seq![Tok::Start("value"@), Tok::Start(kind), Tok::Text(Some(text)), Tok::End(kind), Tok::End("value"@)]
}

/// Whether a text holds none of the characters that XML escapes.
pub open spec fn no_markup(t: Seq<char>) -> bool {
    forall|i: int| 0 <= i < t.len() ==> escape_char(#[trigger] t[i]) == seq![t[i]]
}

proof fn lemma_escaped_plain(t: Seq<char>)
    requires
        no_markup(t),
    ensures
        escaped(t) == t,
    decreases t.len(),
{
    if t.len() > 0 {
        assert(no_markup(t.drop_last()));
        lemma_escaped_plain(t.drop_last());
        assert(escape_char(t[t.len() - 1]) == seq![t[t.len() - 1]]);
        assert(t.drop_last().push(t.last()) =~= t);
    }
}

/// The decimal text of an integer holds no markup, and reads back as it.
proof fn lemma_signed_decimal_reads_back(i: i32)
    ensures
        no_markup(signed_decimal(i as int)),
        spec_parse_i32(signed_decimal(i as int)) == Some(i),
{
    let s = signed_decimal(i as int);
    if i < 0 {
        let n = (-(i as int)) as nat;
        lemma_decimal_digits(n);
        lemma_decimal_value(n);
        let d = decimal(n);
        assert(s.drop_first() =~= d);
        assert forall|k: int| 0 <= k < s.len() implies escape_char(#[trigger] s[k]) == seq![s[k]] by {
            if k > 0 {
                assert(s[k] == d[k - 1]);
            }
        }
    } else {
        let n = i as nat;
        lemma_decimal_digits(n);
        lemma_decimal_value(n);
        assert(s[0] == decimal(n)[0]);
        assert('0' <= s[0] <= '9');
        assert forall|k: int| 0 <= k < s.len() implies escape_char(#[trigger] s[k]) == seq![s[k]] by {
            assert('0' <= s[k] <= '9');
        }
    }
}

/// The text of a scalar `<value>` is the text of its tokens.
proof fn lemma_scalar_text(kind: Seq<char>, text: Seq<char>)
    ensures
        tokens_text(scalar_tokens(kind, text)) == element("value"@, element(kind, escaped(text))),
{
    let ts = scalar_tokens(kind, text);
    let t1 = ts.take(1);
    let t2 = ts.take(2);
    let t3 = ts.take(3);
    let t4 = ts.take(4);
    assert(t1.drop_last() =~= Seq::<Tok>::empty());
    assert(t2.drop_last() =~= t1);
    assert(t3.drop_last() =~= t2);
    assert(t4.drop_last() =~= t3);
    assert(ts.drop_last() =~= t4);
    assert(tokens_text(Seq::<Tok>::empty()) == Seq::<char>::empty());
    assert(t1.last() == ts[0] && t2.last() == ts[1] && t3.last() == ts[2] && t4.last() == ts[3]);
    assert(tokens_text(t1) =~= token_text(ts[0]));
    assert(tokens_text(t2) == tokens_text(t1) + token_text(ts[1]));
    assert(tokens_text(t3) == tokens_text(t2) + token_text(ts[2]));
    assert(tokens_text(t4) == tokens_text(t3) + token_text(ts[3]));
    assert(tokens_text(ts) == tokens_text(t4) + token_text(ts[4]));
    assert(tokens_text(ts) =~= element("value"@, element(kind, escaped(text))));
}

/// Scalar values survive being written: a boolean, an integer, a double and
/// a string without markup characters are each written as the text of a
/// `<value>` holding one element of their kind with their text (`1` or `0`
/// for a boolean, the decimal digits of an integer), and the reader takes
/// those tokens back to the same value. (Turning the text into tokens is
/// quick-xml's work, named by `xml_tokens_of`.)
pub proof fn law_scalar_values_read_back(b: bool, i: i32, d: Seq<char>, t: Seq<char>)
    requires
        d.len() > 0,
        t.len() > 0,
        no_markup(t),
    ensures
        value_xml(ValueView::Bool(b)) == tokens_text(scalar_tokens("boolean"@, if b { "1"@ } else { "0"@ })),
        value_at(scalar_tokens("boolean"@, if b { "1"@ } else { "0"@ }), 1) == Some((ValueView::Bool(b), 5int)),
        value_xml(ValueView::Int(i)) == tokens_text(scalar_tokens("i4"@, signed_decimal(i as int))),
        value_at(scalar_tokens("i4"@, signed_decimal(i as int)), 1) == Some((ValueView::Int(i), 5int)),
        value_xml(ValueView::Double(d)) == tokens_text(scalar_tokens("double"@, d)),
        value_at(scalar_tokens("double"@, d), 1) == Some((ValueView::Double(d), 5int)),
        value_xml(ValueView::String(t)) == tokens_text(scalar_tokens("string"@, t)),
        value_at(scalar_tokens("string"@, t), 1) == Some((ValueView::String(t), 5int)),
{
    reveal_strlit("value");
    reveal_strlit("boolean");
    reveal_strlit("i4");
    reveal_strlit("int");
    reveal_strlit("double");
    reveal_strlit("string");
    reveal_strlit("base64");
    reveal_strlit("array");
    reveal_strlit("struct");
    reveal_strlit("0");
    reveal_strlit("1");
    let bt: Seq<char> = if b { "1"@ } else { "0"@ };
    assert(no_markup(bt));
    lemma_escaped_plain(bt);
    lemma_scalar_text("boolean"@, bt);
    lemma_signed_decimal_reads_back(i);
    lemma_escaped_plain(signed_decimal(i as int));
    lemma_scalar_text("i4"@, signed_decimal(i as int));
    lemma_scalar_text("double"@, d);
    lemma_escaped_plain(t);
    lemma_scalar_text("string"@, t);
    let tb = scalar_tokens("boolean"@, bt);
    assert(skip_to_end(tb, "boolean"@, 3, 0) == Some(4int));
    assert(skip_to_end(tb, "value"@, 4, 0) == Some(5int));
    let ti = scalar_tokens("i4"@, signed_decimal(i as int));
    assert(skip_to_end(ti, "i4"@, 3, 0) == Some(4int));
    assert(skip_to_end(ti, "value"@, 4, 0) == Some(5int));
    let td = scalar_tokens("double"@, d);
    assert(skip_to_end(td, "double"@, 3, 0) == Some(4int));
    assert(skip_to_end(td, "value"@, 4, 0) == Some(5int));
    let tt = scalar_tokens("string"@, t);
    assert(skip_to_end(tt, "string"@, 3, 0) == Some(4int));
    assert(skip_to_end(tt, "value"@, 4, 0) == Some(5int));
    assert(text_of(tt, "string"@, 2) == Some((t, 4int)));
    assert("string"@[0] != "double"@[0]);
}

/// Whether a value is a boolean, an integer, a double with text, or a string
/// with text and without markup characters.
pub open spec fn is_scalar(v: ValueView) -> bool {
    match v {
        ValueView::Bool(_) => true,
        ValueView::Int(_) => true,
        ValueView::Double(d) => d.len() > 0,
        ValueView::String(t) => t.len() > 0 && no_markup(t),
        _ => false,
    }
}

/// The element name and text of a scalar value.
pub open spec fn scalar_parts(v: ValueView) -> (Seq<char>, Seq<char>) {
    match v {
        ValueView::Bool(b) => ("boolean"@, if b { "1"@ } else { "0"@ }),
        ValueView::Int(i) => ("i4"@, signed_decimal(i as int)),
        ValueView::Double(d) => ("double"@, d),
        ValueView::String(t) => ("string"@, t),
        _ => (Seq::empty(), Seq::empty()),
    }
}

/// The tokens of a scalar argument: a `<param>` holding its `<value>`.
pub open spec fn param_tokens(v: ValueView) -> Seq<Tok> {
    seq![Tok::Start("param"@)] + scalar_tokens(scalar_parts(v).0, scalar_parts(v).1) + seq![Tok::End("param"@)]
}

/// The tokens of a list of scalar arguments, one `<param>` after the other.
pub open spec fn params_tokens(args: Seq<ValueView>) -> Seq<Tok>
    decreases args.len(),
{
    if args.len() == 0 {
        Seq::empty()
    } else {
        params_tokens(args.drop_last()) + param_tokens(args.last())
    }
}

/// The tokens of a method call with scalar arguments.
pub open spec fn call_tokens(name: Seq<char>, args: Seq<ValueView>) -> Seq<Tok> {
    seq![
        Tok::Decl,
        Tok::Start("methodCall"@),
        Tok::Start("methodName"@),
        Tok::Text(Some(name)),
        Tok::End("methodName"@),
        Tok::Start("params"@),
    ] + params_tokens(args) + seq![Tok::End("params"@), Tok::End("methodCall"@)]
}

/// Writing tokens one list after the other writes their texts one after the other.
proof fn lemma_tokens_text_concat(a: Seq<Tok>, b: Seq<Tok>)
    ensures
        tokens_text(a + b) == tokens_text(a) + tokens_text(b),
    decreases b.len(),
{
    if b.len() == 0 {
        assert(a + b =~= a);
        assert(tokens_text(b) == Seq::<char>::empty());
        assert(tokens_text(a) + tokens_text(b) =~= tokens_text(a));
    } else {
        lemma_tokens_text_concat(a, b.drop_last());
        assert((a + b).drop_last() =~= a + b.drop_last());
        assert((a + b).last() == b.last());
        assert(tokens_text(a + b) =~= tokens_text(a) + tokens_text(b));
    }
}

proof fn lemma_tokens_text_one(t: Tok)
    ensures
        tokens_text(seq![t]) == token_text(t),
{
    assert(seq![t].drop_last() =~= Seq::<Tok>::empty());
    assert(seq![t].last() == t);
    assert(tokens_text(Seq::<Tok>::empty()) == Seq::<char>::empty());
    assert(tokens_text(seq![t]) =~= token_text(t));
}

/// A scalar value is written as the text of its tokens.
proof fn lemma_scalar_value_text(v: ValueView)
    requires
        is_scalar(v),
    ensures
        value_xml(v) == tokens_text(scalar_tokens(scalar_parts(v).0, scalar_parts(v).1)),
        tokens_text(param_tokens(v)) == element("param"@, value_xml(v)),
        param_tokens(v).len() == 7,
{
    reveal_strlit("x");
    assert(no_markup("x"@));
    match v {
        ValueView::Bool(b) => {
            law_scalar_values_read_back(b, 0, "x"@, "x"@);
        },
        ValueView::Int(i) => {
            law_scalar_values_read_back(false, i, "x"@, "x"@);
        },
        ValueView::Double(d) => {
            law_scalar_values_read_back(false, 0, d, "x"@);
        },
        ValueView::String(t) => {
            law_scalar_values_read_back(false, 0, "x"@, t);
        },
        _ => {},
    }
    let st = scalar_tokens(scalar_parts(v).0, scalar_parts(v).1);
    lemma_tokens_text_concat(seq![Tok::Start("param"@)], st);
    lemma_tokens_text_concat(seq![Tok::Start("param"@)] + st, seq![Tok::End("param"@)]);
    lemma_tokens_text_one(Tok::Start("param"@));
    lemma_tokens_text_one(Tok::End("param"@));
    assert(tokens_text(param_tokens(v)) =~= element("param"@, value_xml(v)));
}

/// How a value is written: in `<value>`, the element of its kind. Text is
/// escaped, but for strings and member names, which are written as they are.
/// Bytes are written as a `<string>` of their wrapped base64 text.
pub open spec fn value_xml(v: ValueView) -> Seq<char>
    decreases v,
{
    element(
        "value"@,
        match v {
            ValueView::Int(i) => element("i4"@, escaped(signed_decimal(i as int))),
            ValueView::Double(t) => element("double"@, escaped(t)),
            ValueView::Bool(b) => element("boolean"@, if b { "1"@ } else { "0"@ }),
            ValueView::String(t) => element("string"@, t),
            ValueView::Base64(b) => element("string"@, escaped(wrap_lines(base64_text(b)))),
            ValueView::Array(vs) => element("array"@, element("data"@, values_xml(vs))),
            ValueView::Struct(ms) => element("struct"@, members_xml(ms)),
        },
    )
}

/// How a list of values is written: one after the other.
pub open spec fn values_xml(vs: Seq<ValueView>) -> Seq<char>
    decreases vs,
{
    if vs.len() == 0 {
        Seq::empty()
    } else {
        values_xml(vs.subrange(0, vs.len() - 1)) + value_xml(vs[vs.len() - 1])
    }
}

/// How struct members are written: each a `<member>` with its name and value.
pub open spec fn members_xml(ms: Seq<(Seq<char>, ValueView)>) -> Seq<char>
    decreases ms,
{
    if ms.len() == 0 {
        Seq::empty()
    } else {
        members_xml(ms.subrange(0, ms.len() - 1)) + element(
            "member"@,
            element("name"@, ms[ms.len() - 1].0) + value_xml(ms[ms.len() - 1].1),
        )
    }
}

/// Whether every byte string in the value is small enough to be encoded.
pub open spec fn blobs_fit(v: ValueView) -> bool
    decreases v,
{
    match v {
        ValueView::Base64(b) => b.len() <= usize::MAX / 2,
        ValueView::Array(vs) => blobs_fit_all(vs),
        ValueView::Struct(ms) => blobs_fit_members(ms),
        _ => true,
    }
}

pub open spec fn blobs_fit_all(vs: Seq<ValueView>) -> bool
    decreases vs,
{
    vs.len() > 0 ==> blobs_fit_all(vs.subrange(0, vs.len() - 1)) && blobs_fit(vs[vs.len() - 1])
}

pub open spec fn blobs_fit_members(ms: Seq<(Seq<char>, ValueView)>) -> bool
    decreases ms,
{
    ms.len() > 0 ==> blobs_fit_members(ms.subrange(0, ms.len() - 1)) && blobs_fit(ms[ms.len() - 1].1)
}

fn push_start(out: &mut String, name: &str)
    ensures
        final(out)@ == old(out)@ + "<"@ + name@ + ">"@,
{
    push_str(out, "<");
    push_str(out, name);
    push_str(out, ">");
    assert(out@ =~= old(out)@ + "<"@ + name@ + ">"@);
}

fn push_end(out: &mut String, name: &str)
    ensures
        final(out)@ == old(out)@ + "</"@ + name@ + ">"@,
{
    push_str(out, "</");
    push_str(out, name);
    push_str(out, ">");
    assert(out@ =~= old(out)@ + "</"@ + name@ + ">"@);
}

fn push_element(out: &mut String, name: &str, content: &str)
    ensures
        final(out)@ == old(out)@ + element(name@, content@),
{
    push_start(out, name);
    push_str(out, content);
    push_end(out, name);
    assert(out@ =~= old(out)@ + element(name@, content@));
}

proof fn lemma_values_xml_push(vs: Seq<ValueView>, v: ValueView)
    ensures
        values_xml(vs.push(v)) == values_xml(vs) + value_xml(v),
{
    assert(vs.push(v).subrange(0, vs.len() as int) =~= vs);
}

proof fn lemma_blobs_fit_index(vs: Seq<ValueView>, i: int)
    requires
        blobs_fit_all(vs),
        0 <= i < vs.len(),
    ensures
        blobs_fit(vs[i]),
    decreases vs.len(),
{
    if i < vs.len() - 1 {
        let init = vs.subrange(0, vs.len() - 1);
        lemma_blobs_fit_index(init, i);
        assert(init[i] == vs[i]);
    }
}

proof fn lemma_blobs_fit_member(ms: Seq<(Seq<char>, ValueView)>, i: int)
    requires
        blobs_fit_members(ms),
        0 <= i < ms.len(),
    ensures
        blobs_fit(ms[i].1),
    decreases ms.len(),
{
    if i < ms.len() - 1 {
        let init = ms.subrange(0, ms.len() - 1);
        lemma_blobs_fit_member(init, i);
        assert(init[i] == ms[i]);
    }
}

/// Writes a value.
#[verifier::spinoff_prover]
#[verifier::rlimit(80)]
fn write_value(v: &Value, out: &mut String)
    requires
        blobs_fit(value_view(*v)),
    ensures
        final(out)@ == old(out)@ + value_xml(value_view(*v)),
    decreases v,
{
    let ghost start = out@;
    push_start(out, "value");
    let ghost inner_start = out@;
    match v {
        Value::Int(i) => {
            let mut digits = String::new();
            push_signed(&mut digits, *i as i64);
            let text = escape_xml(digits.as_str());
            push_element(out, "i4", text.as_str());
        },
        Value::Double(t) => {
            let text = escape_xml(t.as_str());
            push_element(out, "double", text.as_str());
        },
        Value::Bool(b) => {
            push_element(out, "boolean", if *b { "1" } else { "0" });
        },
        Value::String(t) => {
            push_element(out, "string", t.as_str());
        },
        Value::Base64(b) => {
            let text = escape_xml(base64_encode(b.as_slice()).as_str());
            push_element(out, "string", text.as_str());
        },
        Value::Array(vs) => {
            push_start(out, "array");
            push_start(out, "data");
            write_values(vs, out);
            push_end(out, "data");
            push_end(out, "array");
            assert(out@ =~= inner_start + element("array"@, element("data"@, values_xml(value_views(vs@)))));
        },
        Value::Struct(ms) => {
            push_start(out, "struct");
            write_members(ms, out);
            push_end(out, "struct");
            assert(out@ =~= inner_start + element("struct"@, members_xml(member_views(ms@))));
        },
    }
    push_end(out, "value");
    assert(out@ =~= start + value_xml(value_view(*v)));
}

/// Writes values one after the other.
fn write_values(vs: &Vec<Value>, out: &mut String)
    requires
        blobs_fit_all(value_views(vs@)),
    ensures
        final(out)@ == old(out)@ + values_xml(value_views(vs@)),
    decreases vs,
{
    let ghost mid = out@;
    proof {
        lemma_value_views_index(vs@);
    }
    let mut i: usize = 0;
    while i < vs.len()
        invariant
            i <= vs@.len(),
            value_views(vs@).len() == vs@.len(),
            forall|k: int| 0 <= k < vs@.len() ==> #[trigger] value_views(vs@)[k] == value_view(vs@[k]),
            blobs_fit_all(value_views(vs@)),
            out@ == mid + values_xml(value_views(vs@).take(i as int)),
        decreases vs@.len() - i,
    {
        proof {
            lemma_blobs_fit_index(value_views(vs@), i as int);
            assert(value_views(vs@).take(i + 1) =~= value_views(vs@).take(i as int).push(value_view(vs@[i as int])));
            lemma_values_xml_push(value_views(vs@).take(i as int), value_view(vs@[i as int]));
            assert(decreases_to!(vs => vs@));
            assert(decreases_to!(vs@ => vs@[i as int]));
        }
        write_value(&vs[i], out);
        i = i + 1;
    }
    assert(value_views(vs@).take(vs@.len() as int) =~= value_views(vs@));
}

/// Writes struct members one after the other.
fn write_members(ms: &Vec<(String, Value)>, out: &mut String)
    requires
        blobs_fit_members(member_views(ms@)),
    ensures
        final(out)@ == old(out)@ + members_xml(member_views(ms@)),
    decreases ms,
{
    let ghost mid = out@;
    proof {
        lemma_member_views_index(ms@);
    }
    let mut i: usize = 0;
    while i < ms.len()
        invariant
            i <= ms@.len(),
            member_views(ms@).len() == ms@.len(),
            forall|k: int| 0 <= k < ms@.len() ==> #[trigger] member_views(ms@)[k] == (ms@[k].0@, value_view(ms@[k].1)),
            blobs_fit_members(member_views(ms@)),
            out@ == mid + members_xml(member_views(ms@).take(i as int)),
        decreases ms@.len() - i,
    {
        let ghost before = out@;
        let ghost mv = member_views(ms@);
        proof {
            lemma_blobs_fit_member(mv, i as int);
            assert(mv.take(i + 1).subrange(0, i as int) =~= mv.take(i as int));
            assert(mv.take(i + 1)[i as int] == mv[i as int]);
            assert(decreases_to!(ms => ms@));
            assert(decreases_to!(ms@ => ms@[i as int]));
            assert(decreases_to!(ms@[i as int] => ms@[i as int].1));
        }
        push_start(out, "member");
        push_element(out, "name", ms[i].0.as_str());
        write_value(&ms[i].1, out);
        push_end(out, "member");
        assert(out@ =~= before + element("member"@, element("name"@, mv[i as int].0) + value_xml(mv[i as int].1)));
        i = i + 1;
    }
    assert(member_views(ms@).take(ms@.len() as int) =~= member_views(ms@));
}

/// How a method call is written: the declaration, then `<methodCall>` with
/// the escaped name in `<methodName>`, and each argument in a `<param>`.
pub open spec fn call_xml(name: Seq<char>, args: Seq<ValueView>) -> Seq<char> {
    "<?xml version=\"1.0\" encoding=\"utf-8\"?>"@ + element(
        "methodCall"@,
        element("methodName"@, escaped(name)) + element("params"@, params_xml(args)),
    )
}

/// How arguments are written: each in a `<param>`.
pub open spec fn params_xml(args: Seq<ValueView>) -> Seq<char>
    decreases args.len(),
{
    if args.len() == 0 {
        Seq::empty()
    } else {
        params_xml(args.drop_last()) + element("param"@, value_xml(args.last()))
    }
}

/// Writes a method call as XML text.
#[verifier::rlimit(40)]
pub fn write_method_call(call: &Call) -> (res: String)
    requires
        blobs_fit_all(value_views(call.args@)),
    ensures
        res@ == call_xml(call.name@, value_views(call.args@)),
{
    let mut out = String::new();
    push_str(&mut out, "<?xml version=\"1.0\" encoding=\"utf-8\"?>");
    push_start(&mut out, "methodCall");
    let name = escape_xml(call.name.as_str());
    push_element(&mut out, "methodName", name.as_str());
    push_start(&mut out, "params");
    let ghost mid = out@;
    let ghost args = value_views(call.args@);
    proof {
        lemma_value_views_index(call.args@);
    }
    let mut i: usize = 0;
    while i < call.args.len()
        invariant
            i <= call.args@.len(),
            args == value_views(call.args@),
            args.len() == call.args@.len(),
            forall|k: int| 0 <= k < call.args@.len() ==> #[trigger] args[k] == value_view(call.args@[k]),
            blobs_fit_all(args),
            out@ == mid + params_xml(args.take(i as int)),
        decreases call.args@.len() - i,
    {
        let ghost before = out@;
        proof {
            lemma_blobs_fit_index(args, i as int);
            assert(args.take(i + 1).drop_last() =~= args.take(i as int));
            assert(args.take(i + 1).last() == args[i as int]);
        }
        push_start(&mut out, "param");
        write_value(&call.args[i], &mut out);
        push_end(&mut out, "param");
        assert(out@ =~= before + element("param"@, value_xml(args[i as int])));
        i = i + 1;
    }
    assert(args.take(args.len() as int) =~= args);
    push_end(&mut out, "params");
    push_end(&mut out, "methodCall");
    assert(out@ =~= call_xml(call.name@, args));
    out
}

proof fn lemma_params_tokens_len(args: Seq<ValueView>)
    ensures
        params_tokens(args).len() == 7 * args.len(),
    decreases args.len(),
{
    if args.len() > 0 {
        lemma_params_tokens_len(args.drop_last());
    }
}

/// The tokens of the arguments, read from the front: the first argument's,
/// then those of the others.
proof fn lemma_params_tokens_front(args: Seq<ValueView>)
    requires
        args.len() > 0,
    ensures
        params_tokens(args) == param_tokens(args[0]) + params_tokens(args.drop_first()),
    decreases args.len(),
{
    if args.len() == 1 {
        assert(args.drop_last() =~= Seq::<ValueView>::empty());
        assert(args.drop_first() =~= Seq::<ValueView>::empty());
        assert(params_tokens(args) =~= param_tokens(args[0]) + params_tokens(args.drop_first()));
    } else {
        lemma_params_tokens_front(args.drop_last());
        assert(args.drop_last().drop_first() =~= args.drop_first().drop_last());
        assert(args.drop_first().last() == args.last());
        assert(args.drop_last()[0] == args[0]);
        assert(params_tokens(args) =~= param_tokens(args[0]) + params_tokens(args.drop_first()));
    }
}

/// Scalar arguments are written as the text of their tokens.
proof fn lemma_params_text(args: Seq<ValueView>)
    requires
        forall|i: int| 0 <= i < args.len() ==> is_scalar(#[trigger] args[i]),
    ensures
        tokens_text(params_tokens(args)) == params_xml(args),
    decreases args.len(),
{
    if args.len() == 0 {
        assert(tokens_text(Seq::<Tok>::empty()) == Seq::<char>::empty());
    } else {
        lemma_params_text(args.drop_last());
        assert(is_scalar(args[args.len() - 1]));
        lemma_scalar_value_text(args.last());
        lemma_tokens_text_concat(params_tokens(args.drop_last()), param_tokens(args.last()));
    }
}

/// A scalar `<param>` at `p` is read as its value, and reading goes on after it.
proof fn lemma_param_read(ts: Seq<Tok>, p: int, v: ValueView, acc: Seq<ValueView>)
    requires
        is_scalar(v),
        0 <= p,
        p + 7 <= ts.len(),
        ts.subrange(p, p + 7) == param_tokens(v),
    ensures
        params_at(ts, p, acc) == params_at(ts, p + 7, acc.push(v)),
{
    reveal_strlit("value");
    reveal_strlit("param");
    reveal_strlit("boolean");
    reveal_strlit("i4");
    reveal_strlit("int");
    reveal_strlit("double");
    reveal_strlit("string");
    reveal_strlit("0");
    reveal_strlit("1");
    let (kind, text) = scalar_parts(v);
    let pt = param_tokens(v);
    assert(pt =~= seq![
        Tok::Start("param"@),
        Tok::Start("value"@),
        Tok::Start(kind),
        Tok::Text(Some(text)),
        Tok::End(kind),
        Tok::End("value"@),
        Tok::End("param"@),
    ]);
    assert forall|k: int| 0 <= k < 7 implies ts[p + k] == #[trigger] pt[k] by {
        assert(ts.subrange(p, p + 7)[k] == ts[p + k]);
    }
    assert(ts[p] == Tok::Start("param"@));
    assert(ts[p + 1] == Tok::Start("value"@));
    assert(ts[p + 2] == Tok::Start(kind));
    assert(ts[p + 3] == Tok::Text(Some(text)));
    assert(ts[p + 4] == Tok::End(kind));
    assert(ts[p + 5] == Tok::End("value"@));
    assert(ts[p + 6] == Tok::End("param"@));
    assert(skip_to_end(ts, kind, p + 4, 0) == Some(p + 5));
    assert(text_of(ts, kind, p + 3) == Some((text, p + 5)));
    assert(skip_to_end(ts, "value"@, p + 5, 0) == Some(p + 6));
    assert(skip_to_end(ts, "param"@, p + 6, 0) == Some(p + 7));
    match v {
        ValueView::Int(i) => {
            lemma_signed_decimal_reads_back(i);
            assert(value_at(ts, p + 2) == Some((v, p + 6)));
        },
        ValueView::String(t) => {
            assert("string"@[0] != "double"@[0]);
            assert(value_at(ts, p + 2) == Some((v, p + 6)));
        },
        ValueView::Bool(b) => {
            assert(kind == "boolean"@);
            assert(ts[p + 2] == Tok::Start("boolean"@));
            assert("boolean"@[0] != "i4"@[0] && "boolean"@[0] != "double"@[0]);
            assert(text_of(ts, "boolean"@, p + 3) == Some((text, p + 5)));
            assert(text == "0"@ || text == "1"@);
            assert(value_at(ts, p + 2) == Some((v, p + 6)));
        },
        ValueView::Double(d) => {
            assert(kind == "double"@);
            assert("double"@ != "i4"@ && "double"@ != "int"@);
            assert(value_at(ts, p + 2) == Some((v, p + 6)));
        },
        _ => {},
    }
}

/// Scalar `<param>`s from `p` on, up to `</params>`, are read as the arguments.
proof fn lemma_params_read(ts: Seq<Tok>, p: int, args: Seq<ValueView>, acc: Seq<ValueView>)
    requires
        forall|i: int| 0 <= i < args.len() ==> is_scalar(#[trigger] args[i]),
        0 <= p,
        p + 7 * args.len() < ts.len(),
        ts.subrange(p, p + 7 * args.len()) == params_tokens(args),
        ts[p + 7 * args.len()] == Tok::End("params"@),
    ensures
        params_at(ts, p, acc) == Some((acc + args, p + 7 * args.len() + 1)),
    decreases args.len(),
{
    reveal_strlit("param");
    reveal_strlit("params");
    if args.len() == 0 {
        assert(acc + args =~= acc);
    } else {
        lemma_params_tokens_front(args);
        lemma_params_tokens_len(args.drop_first());
        let rest = args.drop_first();
        assert(ts.subrange(p, p + 7) =~= param_tokens(args[0])) by {
            assert forall|k: int| 0 <= k < 7 implies ts.subrange(p, p + 7)[k] == param_tokens(args[0])[k] by {
                assert(ts.subrange(p, p + 7 * args.len())[k] == params_tokens(args)[k]);
            }
        }
        assert(ts.subrange(p + 7, p + 7 + 7 * rest.len()) =~= params_tokens(rest)) by {
            assert forall|k: int| 0 <= k < 7 * rest.len() implies ts.subrange(p + 7, p + 7 + 7 * rest.len())[k]
                == params_tokens(rest)[k] by {
                assert(ts.subrange(p, p + 7 * args.len())[k + 7] == params_tokens(args)[k + 7]);
            }
        }
        assert(is_scalar(args[0]));
        lemma_param_read(ts, p, args[0], acc);
        assert forall|i: int| 0 <= i < rest.len() implies is_scalar(#[trigger] rest[i]) by {
            assert(rest[i] == args[i + 1]);
        }
        lemma_params_read(ts, p + 7, rest, acc.push(args[0]));
        assert(acc.push(args[0]) + rest =~= acc + args);
    }
}

proof fn lemma_element_parts(n: Seq<char>, c: Seq<char>)
    ensures
        element(n, c) == token_text(Tok::Start(n)) + c + token_text(Tok::End(n)),
{
    assert(element(n, c) =~= token_text(Tok::Start(n)) + c + token_text(Tok::End(n)));
}

proof fn lemma_regroup(
    x0: Seq<char>,
    t1: Seq<char>,
    t2: Seq<char>,
    x3: Seq<char>,
    t4: Seq<char>,
    t5: Seq<char>,
    p: Seq<char>,
    t6: Seq<char>,
    t7: Seq<char>,
)
    ensures
        x0 + t1 + t2 + x3 + t4 + t5 + p + t6 + t7 == x0 + (t1 + ((t2 + x3 + t4) + (t5 + p + t6)) + t7),
{
    assert(x0 + t1 + t2 + x3 + t4 + t5 + p + t6 + t7 =~= x0 + (t1 + ((t2 + x3 + t4) + (t5 + p + t6)) + t7));
}

proof fn lemma_call_text(name: Seq<char>, args: Seq<ValueView>)
    requires
        forall|i: int| 0 <= i < args.len() ==> is_scalar(#[trigger] args[i]),
    ensures
        call_xml(name, args) == tokens_text(call_tokens(name, args)),
{
    let t0 = Tok::Decl;
    let t1 = Tok::Start("methodCall"@);
    let t2 = Tok::Start("methodName"@);
    let t3 = Tok::Text(Some(name));
    let t4 = Tok::End("methodName"@);
    let t5 = Tok::Start("params"@);
    let t6 = Tok::End("params"@);
    let t7 = Tok::End("methodCall"@);
    let pt = params_tokens(args);
    lemma_params_text(args);
    lemma_tokens_text_one(t0);
    lemma_tokens_text_one(t1);
    lemma_tokens_text_one(t2);
    lemma_tokens_text_one(t3);
    lemma_tokens_text_one(t4);
    lemma_tokens_text_one(t5);
    lemma_tokens_text_one(t6);
    lemma_tokens_text_one(t7);
    let a1 = seq![t0] + seq![t1];
    let a2 = a1 + seq![t2];
    let a3 = a2 + seq![t3];
    let a4 = a3 + seq![t4];
    let a5 = a4 + seq![t5];
    let a6 = a5 + pt;
    let a7 = a6 + seq![t6];
    let a8 = a7 + seq![t7];
    lemma_tokens_text_concat(seq![t0], seq![t1]);
    lemma_tokens_text_concat(a1, seq![t2]);
    lemma_tokens_text_concat(a2, seq![t3]);
    lemma_tokens_text_concat(a3, seq![t4]);
    lemma_tokens_text_concat(a4, seq![t5]);
    lemma_tokens_text_concat(a5, pt);
    lemma_tokens_text_concat(a6, seq![t6]);
    lemma_tokens_text_concat(a7, seq![t7]);
    assert(a8 =~= call_tokens(name, args));
    let x0 = token_text(t0);
    let x3 = escaped(name);
    let px = params_xml(args);
    assert(tokens_text(a8) == x0 + token_text(t1) + token_text(t2) + x3 + token_text(t4) + token_text(t5) + px
        + token_text(t6) + token_text(t7));
    lemma_regroup(x0, token_text(t1), token_text(t2), x3, token_text(t4), token_text(t5), px, token_text(t6), token_text(t7));
    lemma_element_parts("methodName"@, x3);
    lemma_element_parts("params"@, px);
    lemma_element_parts("methodCall"@, element("methodName"@, x3) + element("params"@, px));
    assert(x0 == "<?xml version=\"1.0\" encoding=\"utf-8\"?>"@);
}

/// A method call survives being written, for a name with text and
/// arguments that are booleans, integers, doubles with text or strings
/// with text and without markup characters: its text is the text of the
/// call's tokens (the declaration, `<methodCall>`, `<methodName>` with the
/// name, and `<params>` with one `<param>` per argument in order), and the
/// reader takes those tokens back to the same name and arguments. (Turning
/// the text into tokens is quick-xml's work, named by `xml_tokens_of`.)
pub proof fn law_method_call_reads_back(name: Seq<char>, args: Seq<ValueView>)
    requires
        name.len() > 0,
        forall|i: int| 0 <= i < args.len() ==> is_scalar(#[trigger] args[i]),
    ensures
        call_xml(name, args) == tokens_text(call_tokens(name, args)),
        call_of(call_tokens(name, args)) == Some((name, args)),
{
    reveal_strlit("methodCall");
    reveal_strlit("methodName");
    reveal_strlit("params");
    lemma_call_text(name, args);
    let pt = params_tokens(args);
    let ts = call_tokens(name, args);
    lemma_params_tokens_len(args);
    // The reading.
    let n: int = 7 * (args.len() as int);
    assert(ts.len() == 6 + n + 2);
    assert(ts.subrange(6, 6 + n) =~= pt);
    assert(ts[6 + n] == Tok::End("params"@));
    assert(ts[6 + n + 1] == Tok::End("methodCall"@));
    lemma_params_read(ts, 6, args, Seq::empty());
    assert(Seq::<ValueView>::empty() + args =~= args);
    assert(skip_to_end(ts, "methodName"@, 4, 0) == Some(5int));
    assert(text_of(ts, "methodName"@, 3) == Some((name, 5int)));
    assert(skip_to_end(ts, "methodCall"@, 6 + n + 1, 0) == Some(6 + n + 2));
}

} // verus!
