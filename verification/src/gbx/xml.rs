//! What XML-RPC calls need of text: escaping, the ids of prompted
//! callbacks, and the faults that calls answer with.

use vstd::prelude::*;

use crate::text::{decimal, lemma_decimal_value, push_char, push_decimal, push_str};

verus! {

/// The error that the server answers a failed call with. An empty message
/// leaves the cause to be deduced from the call and its context.
#[derive(Clone, Debug, PartialEq)]
pub struct Fault {
    pub code: i32,
    pub msg: String,
}

/// A value that cannot be turned into an XML-RPC value, with the reason.
#[derive(Debug)]
pub struct Error(pub String);

/// The escaped form of one character.
pub open spec fn escape_char(c: char) -> Seq<char> {
    if c == '&' {
        "&amp;"@
    } else if c == '<' {
        "&lt;"@
    } else if c == '>' {
        "&gt;"@
    } else if c == '\'' {
        "&apos;"@
    } else if c == '"' {
        "&quot;"@
    } else {
        seq![c]
    }
}

/// `s` with each of `& < > ' "` replaced by its XML entity.
pub open spec fn escaped(s: Seq<char>) -> Seq<char>
    decreases s.len(),
{
    if s.len() == 0 {
        Seq::empty()
    } else {
        escaped(s.drop_last()) + escape_char(s.last())
    }
}

/// Escapes a string so that it can be included in an XML-RPC call.
pub fn escape_xml(input: &str) -> (res: String)
    ensures
        res@ == escaped(input@),
{
    let n = input.unicode_len();
    let mut result = String::new();
    let mut i: usize = 0;
    while i < n
        invariant
            n == input@.len(),
            i <= n,
            result@ == escaped(input@.take(i as int)),
        decreases n - i,
    {
        let c = input.get_char(i);
        proof {
            assert(input@.take(i + 1).drop_last() =~= input@.take(i as int));
        }
        if c == '&' {
            push_str(&mut result, "&amp;");
        } else if c == '<' {
            push_str(&mut result, "&lt;");
        } else if c == '>' {
            push_str(&mut result, "&gt;");
        } else if c == '\'' {
            push_str(&mut result, "&apos;");
        } else if c == '"' {
            push_str(&mut result, "&quot;");
        } else {
            push_char(&mut result, c);
            assert(result@ =~= escaped(input@.take(i as int)) + seq![c]);
        }
        i = i + 1;
    }
    assert(input@.take(n as int) =~= input@);
    result
}

/// Generates a unique id for a prompted callback: the decimal form of the
/// counter, which then advances by one, wrapping around after its maximum.
pub fn gen_response_id(counter: &mut usize) -> (res: String)
    ensures
        res@ == decimal(*old(counter) as nat),
        *final(counter) == if *old(counter) == usize::MAX {
            0
        } else {
            (*old(counter) + 1) as usize
        },
{
    let id = *counter;
    *counter = if id == usize::MAX {
        0
    } else {
        id + 1
    };
    let mut s = String::new();
    push_decimal(&mut s, id as u64);
    s
}

/// Response ids are unique: two calls of `gen_response_id` with different
/// counters, such as two consecutive calls (which differ unless the counter
/// wrapped around), give different ids.
pub proof fn law_response_ids_differ(a: usize, b: usize)
    requires
        a != b,
    ensures
        decimal(a as nat) != decimal(b as nat),
{
    lemma_decimal_value(a as nat);
    lemma_decimal_value(b as nat);
}

/// Escaped text holds no markup: no `<`, `>`, `'` or `"` is left in it.
pub proof fn law_escaped_has_no_markup(s: Seq<char>)
    ensures
        forall|i: int|
            0 <= i < escaped(s).len() ==> #[trigger] escaped(s)[i] != '<' && escaped(s)[i] != '>'
                && escaped(s)[i] != '\'' && escaped(s)[i] != '"',
    decreases s.len(),
{
    reveal_strlit("&amp;");
    reveal_strlit("&lt;");
    reveal_strlit("&gt;");
    reveal_strlit("&apos;");
    reveal_strlit("&quot;");
    if s.len() > 0 {
        law_escaped_has_no_markup(s.drop_last());
        let a = escaped(s.drop_last());
        let b = escape_char(s.last());
        assert forall|i: int| 0 <= i < b.len() implies #[trigger] b[i] != '<' && b[i] != '>' && b[i]
            != '\'' && b[i] != '"' by {}
        assert forall|i: int| 0 <= i < escaped(s).len() implies #[trigger] escaped(s)[i] != '<'
            && escaped(s)[i] != '>' && escaped(s)[i] != '\'' && escaped(s)[i] != '"' by {
            if i < a.len() {
                assert(escaped(s)[i] == a[i]);
            } else {
                assert(escaped(s)[i] == b[i - a.len()]);
            }
        }
    }
}

/// A character of the standard base64 alphabet, or its padding.
pub open spec fn is_base64_char(c: char) -> bool {
    ('A' <= c <= 'Z') || ('a' <= c <= 'z') || ('0' <= c <= '9') || c == '+' || c == '/' || c == '='
}

/// The text that the base64 crate encodes these bytes into.
pub uninterp spec fn base64_text(bytes: Seq<u8>) -> Seq<char>;

/// The bytes that the base64 crate decodes this text into; `None` where it
/// refuses the text.
pub uninterp spec fn base64_bytes(text: Seq<char>) -> Option<Seq<u8>>;

/// Encodes bytes with `base64::encode` (the standard alphabet, padded).
/// The text is named by `base64_text`; it consists of characters of the
/// standard alphabet and padding, and `base64::decode` gives the bytes back.
/// The crate panics where the length of the text would not fit in a `usize`.
#[verifier::external_body]
fn b64_encode(bytes: &[u8]) -> (res: String)
    requires
        bytes@.len() <= usize::MAX / 2,
    ensures
        res@ == base64_text(bytes@),
        base64_bytes(res@) == Some(bytes@),
        forall|i: int| 0 <= i < res@.len() ==> is_base64_char(#[trigger] res@[i]),
{
    base64::encode(bytes)
}

/// Decodes a text with `base64::decode`; `None` where the crate refuses it.
/// The bytes are named by `base64_bytes`.
#[verifier::external_body]
fn b64_decode(text: &str) -> (res: Option<Vec<u8>>)
    ensures
        match res {
            Some(v) => base64_bytes(text@) == Some(v@),
            None => base64_bytes(text@) is None,
        },
{
    base64::decode(text).ok()
}

/// The most characters in a line of encoded data (as MIME has it).
pub const BASE64_LINE_LENGTH: usize = 76;

/// `s` broken into lines of `BASE64_LINE_LENGTH` characters, each but the
/// last followed by `\r\n`, as the dedicated server wraps base64 data.
pub open spec fn wrap_lines(s: Seq<char>) -> Seq<char>
    decreases s.len(),
{
    if s.len() <= BASE64_LINE_LENGTH {
        s
    } else {
        s.take(BASE64_LINE_LENGTH as int) + seq!['\r', '\n'] + wrap_lines(s.skip(BASE64_LINE_LENGTH as int))
    }
}

/// Whether the base64 decoder skips this character: its low byte is a
/// space, a tab, a line or form feed, a vertical tab or a carriage return.
pub open spec fn is_base64_space(c: char) -> bool {
    let b = (c as u32) % 256;
    b == 0x20 || b == 0x0a || b == 0x09 || b == 0x0d || b == 0x0b || b == 0x0c
}

/// `s` without the characters that the decoder skips.
pub open spec fn without_spaces(s: Seq<char>) -> Seq<char>
    decreases s.len(),
{
    if s.len() == 0 {
        s
    } else if is_base64_space(s.last()) {
        without_spaces(s.drop_last())
    } else {
        without_spaces(s.drop_last()).push(s.last())
    }
}

/// Encodes bytes as base64, wrapped in lines as the dedicated server wraps it.
pub fn base64_encode(bytes: &[u8]) -> (res: String)
    requires
        bytes@.len() <= usize::MAX / 2,
    ensures
        res@ == wrap_lines(base64_text(bytes@)),
{
    let text = b64_encode(bytes);
    let t = text.as_str();
    let n = t.unicode_len();
    let mut out = String::new();
    let mut i: usize = 0;
    proof {
        assert(t@.skip(0) =~= t@);
        assert(out@ + wrap_lines(t@) =~= wrap_lines(t@));
    }
    while i < n
        invariant
            n == t@.len(),
            i <= n,
            out@ + wrap_lines(t@.skip(i as int)) == wrap_lines(t@),
        decreases n - i,
    {
        let rest = Ghost(t@.skip(i as int));
        if n - i <= BASE64_LINE_LENGTH {
            out.append(t.substring_char(i, n));
            proof {
                assert(t@.subrange(i as int, n as int) =~= rest@);
                assert(t@.skip(n as int) =~= Seq::<char>::empty());
            }
            i = n;
        } else {
            out.append(t.substring_char(i, i + BASE64_LINE_LENGTH));
            crate::text::push_char(&mut out, '\r');
            crate::text::push_char(&mut out, '\n');
            proof {
                assert(t@.subrange(i as int, i + BASE64_LINE_LENGTH) =~= rest@.take(BASE64_LINE_LENGTH as int));
                assert(rest@.skip(BASE64_LINE_LENGTH as int) =~= t@.skip(i + BASE64_LINE_LENGTH));
            }
            i = i + BASE64_LINE_LENGTH;
        }
        assert(out@ + wrap_lines(t@.skip(i as int)) =~= wrap_lines(t@));
    }
    proof {
        assert(t@.skip(n as int) =~= Seq::<char>::empty());
        assert(out@ =~= out@ + wrap_lines(t@.skip(n as int)));
    }
    out
}

/// `b64` without the characters that the decoder skips.
fn strip_base64_spaces(b64: &str) -> (res: String)
    ensures
        res@ == without_spaces(b64@),
{
    let n = b64.unicode_len();
    let mut out = String::new();
    let mut i: usize = 0;
    while i < n
        invariant
            n == b64@.len(),
            i <= n,
            out@ == without_spaces(b64@.take(i as int)),
        decreases n - i,
    {
        let c = b64.get_char(i);
        proof {
            assert(b64@.take(i + 1).drop_last() =~= b64@.take(i as int));
            assert(b64@.take(i + 1).last() == c);
        }
        let b = (c as u32) % 256;
        if !(b == 0x20 || b == 0x0a || b == 0x09 || b == 0x0d || b == 0x0b || b == 0x0c) {
            crate::text::push_char(&mut out, c);
        }
        i = i + 1;
    }
    assert(b64@.take(n as int) =~= b64@);
    out
}

/// Decodes base64 data that may be wrapped in lines. The data must be valid.
pub fn base64_decode(b64: &str) -> (res: Vec<u8>)
    requires
        base64_bytes(without_spaces(b64@)) is Some,
    ensures
        base64_bytes(without_spaces(b64@)) == Some(res@),
{
    let text = strip_base64_spaces(b64);
    match b64_decode(text.as_str()) {
        Some(v) => v,
        None => {
            assert(false);
            Vec::new()
        },
    }
}

/// Decodes base64 data that may be wrapped in lines; `None` where it is not
/// valid base64.
pub fn try_base64_decode(b64: &str) -> (res: Option<Vec<u8>>)
    ensures
        match res {
            Some(v) => base64_bytes(without_spaces(b64@)) == Some(v@),
            None => base64_bytes(without_spaces(b64@)) is None,
        },
{
    let text = strip_base64_spaces(b64);
    match b64_decode(text.as_str()) {
        Some(_) => Some(base64_decode(b64)),
        None => None,
    }
}

proof fn lemma_without_spaces_concat(a: Seq<char>, b: Seq<char>)
    ensures
        without_spaces(a + b) == without_spaces(a) + without_spaces(b),
    decreases b.len(),
{
    if b.len() == 0 {
        assert(a + b =~= a);
        assert(without_spaces(a) + without_spaces(b) =~= without_spaces(a));
    } else {
        assert((a + b).drop_last() =~= a + b.drop_last());
        assert((a + b).last() == b.last());
        lemma_without_spaces_concat(a, b.drop_last());
        if !is_base64_space(b.last()) {
            assert(without_spaces(a) + without_spaces(b.drop_last()).push(b.last())
                =~= (without_spaces(a) + without_spaces(b.drop_last())).push(b.last()));
        }
    }
}

proof fn lemma_without_spaces_keeps(s: Seq<char>)
    requires
        forall|i: int| 0 <= i < s.len() ==> is_base64_char(#[trigger] s[i]),
    ensures
        without_spaces(s) == s,
    decreases s.len(),
{
    if s.len() > 0 {
        assert(is_base64_char(s[s.len() - 1]));
        lemma_without_spaces_keeps(s.drop_last());
        assert(s.drop_last().push(s.last()) =~= s);
    }
}

proof fn lemma_unwrap_lines(s: Seq<char>)
    requires
        forall|i: int| 0 <= i < s.len() ==> is_base64_char(#[trigger] s[i]),
    ensures
        without_spaces(wrap_lines(s)) == s,
    decreases s.len(),
{
    if s.len() <= BASE64_LINE_LENGTH {
        lemma_without_spaces_keeps(s);
    } else {
        let head = s.take(BASE64_LINE_LENGTH as int);
        let tail = s.skip(BASE64_LINE_LENGTH as int);
        assert forall|i: int| 0 <= i < head.len() implies is_base64_char(#[trigger] head[i]) by {
            assert(head[i] == s[i]);
        }
        assert forall|i: int| 0 <= i < tail.len() implies is_base64_char(#[trigger] tail[i]) by {
            assert(tail[i] == s[i + BASE64_LINE_LENGTH]);
        }
        lemma_unwrap_lines(tail);
        lemma_without_spaces_keeps(head);
        let crlf = seq!['\r', '\n'];
        assert(without_spaces(crlf) =~= Seq::<char>::empty()) by {
            assert(('\r' as u32) == 13);
            assert(('\n' as u32) == 10);
            assert(is_base64_space('\r'));
            assert(is_base64_space('\n'));
            assert(crlf.last() == '\n');
            assert(crlf.drop_last() =~= seq!['\r']);
            assert(seq!['\r'].last() == '\r');
            assert(seq!['\r'].drop_last() =~= Seq::<char>::empty());
            assert(without_spaces(Seq::<char>::empty()) =~= Seq::<char>::empty());
            assert(without_spaces(seq!['\r']) =~= Seq::<char>::empty());
            assert(without_spaces(crlf) == without_spaces(seq!['\r']));
        }
        lemma_without_spaces_concat(head, crlf);
        lemma_without_spaces_concat(head + crlf, wrap_lines(tail));
        assert(head + Seq::<char>::empty() =~= head);
        assert(head + tail =~= s);
    }
}

/// Decoding gives back what was encoded: the wrapped text of encoded bytes
/// decodes to those bytes.
pub proof fn law_base64_roundtrip(bytes: Seq<u8>, text: Seq<char>)
    requires
        text == base64_text(bytes),
        base64_bytes(text) == Some(bytes),
        forall|i: int| 0 <= i < text.len() ==> is_base64_char(#[trigger] text[i]),
    ensures
        base64_bytes(without_spaces(wrap_lines(text))) == Some(bytes),
{
    lemma_unwrap_lines(text);
}

} // verus!
