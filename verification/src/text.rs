//! Text building blocks: decimal numbers, padding, prefixes and suffixes,
//! whitespace splitting.

use vstd::prelude::*;
use vstd::string::*;

verus! {

/// The ASCII digit for `d`, which must be below ten.
pub open spec fn digit_char(d: nat) -> char {
    if d == 0 { '0' }
    else if d == 1 { '1' }
    else if d == 2 { '2' }
    else if d == 3 { '3' }
    else if d == 4 { '4' }
    else if d == 5 { '5' }
    else if d == 6 { '6' }
    else if d == 7 { '7' }
    else if d == 8 { '8' }
    else { '9' }
}

/// The decimal representation of `n` without leading zeros ("0" for zero).
pub open spec fn decimal(n: nat) -> Seq<char>
    decreases n,
{
    if n < 10 {
        seq![digit_char(n)]
    } else {
        decimal(n / 10).push(digit_char(n % 10))
    }
}

/// `s`, with zeros added on the left until it is at least `width` long.
pub open spec fn zero_pad(s: Seq<char>, width: nat) -> Seq<char> {
    if s.len() >= width {
        s
    } else {
        Seq::new((width - s.len()) as nat, |i: int| '0') + s
    }
}

/// Appends one character to a string.
#[verifier::external_body]
pub(crate) fn push_char(s: &mut String, c: char)
    ensures
        final(s)@ == old(s)@.push(c),
{
    s.push(c);
}

fn digit(d: u64) -> (c: char)
    requires
        d < 10,
    ensures
        c == digit_char(d as nat),
{
    if d == 0 { '0' }
    else if d == 1 { '1' }
    else if d == 2 { '2' }
    else if d == 3 { '3' }
    else if d == 4 { '4' }
    else if d == 5 { '5' }
    else if d == 6 { '6' }
    else if d == 7 { '7' }
    else if d == 8 { '8' }
    else { '9' }
}

/// Appends the decimal representation of `n`.
pub fn push_decimal(s: &mut String, n: u64)
    ensures
        final(s)@ == old(s)@ + decimal(n as nat),
    decreases n,
{
    if n >= 10 {
        push_decimal(s, n / 10);
    }
    push_char(s, digit(n % 10));
    proof {
        if n >= 10 {
            assert(decimal(n as nat) == decimal((n / 10) as nat).push(digit_char((n % 10) as nat)));
        }
    }
}

/// The decimal representation of `n`.
pub fn to_decimal(n: u64) -> (res: String)
    ensures
        res@ == decimal(n as nat),
{
    let mut s = String::new();
    push_decimal(&mut s, n);
    s
}

/// Appends the decimal representation of `n`, with zeros added on the left
/// until it is `width` characters long.
pub fn push_zero_padded(s: &mut String, n: u64, width: usize)
    ensures
        final(s)@ == old(s)@ + zero_pad(decimal(n as nat), width as nat),
{
    let digits = to_decimal(n);
    let len = digits.as_str().unicode_len();
    let ghost start = s@;
    if len < width {
        let mut i: usize = 0;
        while i < width - len
            invariant
                i <= width - len,
                len < width,
                s@ == start + Seq::new(i as nat, |k: int| '0'),
            decreases width - len - i,
        {
            push_char(s, '0');
            i = i + 1;
            assert(s@ =~= start + Seq::new(i as nat, |k: int| '0'));
        }
    }
    s.append(digits.as_str());
    assert(s@ =~= start + zero_pad(decimal(n as nat), width as nat));
}


/// `s` without every leading repetition of the non-empty `pat`.
pub open spec fn trim_start(s: Seq<char>, pat: Seq<char>) -> Seq<char>
    decreases s.len(),
{
    if pat.len() > 0 && pat.is_prefix_of(s) {
        trim_start(s.skip(pat.len() as int), pat)
    } else {
        s
    }
}

/// `s` without every trailing repetition of the non-empty `pat`.
pub open spec fn trim_end(s: Seq<char>, pat: Seq<char>) -> Seq<char>
    decreases s.len(),
{
    if pat.len() > 0 && pat.len() <= s.len() && s.skip(s.len() - pat.len()) == pat {
        trim_end(s.take(s.len() - pat.len()), pat)
    } else {
        s
    }
}

/// Whether `s` holds `pat` from character `at` on.
pub(crate) fn matches_at(s: &str, pat: &str, at: usize) -> (res: bool)
    requires
        at <= s@.len(),
    ensures
        res == (at + pat@.len() <= s@.len() && s@.subrange(at as int, at + pat@.len()) == pat@),
{
    let n = s.unicode_len();
    let m = pat.unicode_len();
    if m > n - at {
        return false;
    }
    let mut i: usize = 0;
    while i < m
        invariant
            n == s@.len(),
            m == pat@.len(),
            at + m <= n,
            i <= m,
            forall|k: int| 0 <= k < i ==> s@[at + k] == pat@[k],
        decreases m - i,
    {
        if s.get_char(at + i) != pat.get_char(i) {
            assert(s@.subrange(at as int, at + m)[i as int] != pat@[i as int]);
            return false;
        }
        i = i + 1;
    }
    assert(s@.subrange(at as int, at + m) =~= pat@);
    true
}

/// Whether `s` starts with `pat`.
pub fn str_starts_with(s: &str, pat: &str) -> (res: bool)
    ensures
        res == pat@.is_prefix_of(s@),
{
    let r = matches_at(s, pat, 0);
    proof {
        if r {
            assert forall|k: int| 0 <= k < pat@.len() implies pat@[k] == s@[k] by {
                assert(s@.subrange(0, pat@.len() as int)[k] == s@[k]);
            }
        } else if pat@.is_prefix_of(s@) {
            assert(s@.subrange(0, pat@.len() as int) =~= pat@);
        }
    }
    r
}

/// Whether `a` and `b` hold the same characters.
pub fn str_eq(a: &str, b: &str) -> (res: bool)
    ensures
        res == (a@ == b@),
{
    let r = a.unicode_len() == b.unicode_len() && str_starts_with(a, b);
    proof {
        if r {
            assert(a@ =~= b@);
        }
    }
    r
}

/// `s` without every leading repetition of `pat` (`str::trim_start_matches`
/// for a non-empty pattern).
pub fn trim_start_matches<'a>(s: &'a str, pat: &str) -> (res: &'a str)
    requires
        pat@.len() > 0,
    ensures
        res@ == trim_start(s@, pat@),
{
    let n = s.unicode_len();
    let m = pat.unicode_len();
    let mut at: usize = 0;
    assert(s@.skip(0) =~= s@);
    while matches_at(s, pat, at)
        invariant
            n == s@.len(),
            m == pat@.len(),
            m > 0,
            at <= n,
            trim_start(s@.skip(at as int), pat@) == trim_start(s@, pat@),
        decreases n - at,
    {
        proof {
            let t = s@.skip(at as int);
            assert(pat@.is_prefix_of(t)) by {
                assert forall|k: int| 0 <= k < m implies pat@[k] == t[k] by {
                    assert(s@.subrange(at as int, at + m)[k] == s@[at + k]);
                }
            }
            assert(t.skip(m as int) =~= s@.skip(at + m));
        }
        at = at + m;
    }
    proof {
        let t = s@.skip(at as int);
        if pat@.is_prefix_of(t) {
            assert(s@.subrange(at as int, at + m) =~= pat@);
        }
        assert(t =~= s@.subrange(at as int, n as int));
    }
    s.substring_char(at, n)
}

/// `s` without every trailing repetition of `pat` (`str::trim_end_matches`
/// for a non-empty pattern).
pub fn trim_end_matches<'a>(s: &'a str, pat: &str) -> (res: &'a str)
    requires
        pat@.len() > 0,
    ensures
        res@ == trim_end(s@, pat@),
{
    let n = s.unicode_len();
    let m = pat.unicode_len();
    let mut end: usize = n;
    assert(s@.take(n as int) =~= s@);
    while end >= m && matches_at(s, pat, end - m)
        invariant
            n == s@.len(),
            m == pat@.len(),
            m > 0,
            end <= n,
            trim_end(s@.take(end as int), pat@) == trim_end(s@, pat@),
        decreases end,
    {
        proof {
            let t = s@.take(end as int);
            assert(t.skip(t.len() - m) =~= pat@) by {
                assert(t.skip(t.len() - m) =~= s@.subrange(end - m, end as int));
            }
            assert(t.take(t.len() - m) =~= s@.take(end - m));
        }
        end = end - m;
    }
    proof {
        let t = s@.take(end as int);
        if end >= m && t.skip(t.len() - m) == pat@ {
            assert(s@.subrange(end - m, end as int) =~= t.skip(t.len() - m));
        }
        assert(t =~= s@.subrange(0, end as int));
    }
    s.substring_char(0, end)
}


/// Whether `c` has the Unicode `White_Space` property (`char::is_whitespace`).
pub open spec fn is_ws(c: char) -> bool {
    ||| '\u{9}' <= c <= '\u{d}'
    ||| c == ' '
    ||| c == '\u{85}'
    ||| c == '\u{a0}'
    ||| c == '\u{1680}'
    ||| '\u{2000}' <= c <= '\u{200a}'
    ||| c == '\u{2028}'
    ||| c == '\u{2029}'
    ||| c == '\u{202f}'
    ||| c == '\u{205f}'
    ||| c == '\u{3000}'
}

/// Whether `c` has the Unicode `White_Space` property.
pub fn char_is_whitespace(c: char) -> (res: bool)
    ensures
        res == is_ws(c),
{
    ('\u{9}' <= c && c <= '\u{d}') || c == ' ' || c == '\u{85}' || c == '\u{a0}' || c == '\u{1680}'
        || ('\u{2000}' <= c && c <= '\u{200a}') || c == '\u{2028}' || c == '\u{2029}' || c == '\u{202f}'
        || c == '\u{205f}' || c == '\u{3000}'
}

/// The words completed in the first `n` characters of `s`, and the start of
/// the word that is still open after them.
pub open spec fn scan_words(s: Seq<char>, n: int) -> (Seq<Seq<char>>, Option<int>)
    decreases n,
{
    if n <= 0 {
        (Seq::empty(), None)
    } else {
        let (words, open) = scan_words(s, n - 1);
        if is_ws(s[n - 1]) {
            match open {
                Some(start) => (words.push(s.subrange(start, n - 1)), None),
                None => (words, None),
            }
        } else {
            match open {
                Some(start) => (words, Some(start)),
                None => (words, Some(n - 1)),
            }
        }
    }
}

/// The maximal runs of non-whitespace characters of `s`, in order
/// (`str::split_whitespace`).
pub open spec fn split_ws(s: Seq<char>) -> Seq<Seq<char>> {
    let (words, open) = scan_words(s, s.len() as int);
    match open {
        Some(start) => words.push(s.subrange(start, s.len() as int)),
        None => words,
    }
}

proof fn lemma_scan_open_bound(s: Seq<char>, n: int)
    requires
        0 <= n <= s.len(),
    ensures
        scan_words(s, n).1 matches Some(start) ==> 0 <= start < n,
    decreases n,
{
    if n > 0 {
        lemma_scan_open_bound(s, n - 1);
    }
}

/// The words of `s`: its maximal runs of non-whitespace characters.
pub fn split_whitespace(s: &str) -> (res: Vec<&str>)
    ensures
        res@.len() == split_ws(s@).len(),
        forall|i: int| 0 <= i < res@.len() ==> (#[trigger] res@[i])@ == split_ws(s@)[i],
{
    let n = s.unicode_len();
    let mut words: Vec<&str> = Vec::new();
    let mut open: Option<usize> = None;
    let mut i: usize = 0;
    while i < n
        invariant
            n == s@.len(),
            i <= n,
            words@.len() == scan_words(s@, i as int).0.len(),
            forall|k: int| 0 <= k < words@.len() ==> (#[trigger] words@[k])@ == scan_words(s@, i as int).0[k],
            match open {
                Some(st) => scan_words(s@, i as int).1 == Some(st as int),
                None => scan_words(s@, i as int).1 is None,
            },
        decreases n - i,
    {
        proof {
            lemma_scan_open_bound(s@, i as int);
        }
        let c = s.get_char(i);
        if char_is_whitespace(c) {
            match open {
                Some(st) => {
                    let w = s.substring_char(st, i);
                    words.push(w);
                },
                None => {},
            }
            open = None;
        } else {
            match open {
                Some(_) => {},
                None => {
                    open = Some(i);
                },
            }
        }
        i = i + 1;
    }
    proof {
        lemma_scan_open_bound(s@, n as int);
    }
    match open {
        Some(st) => {
            let w = s.substring_char(st, n);
            words.push(w);
        },
        None => {},
    }
    words
}

/// The value of a string of ASCII digits.
pub open spec fn digits_value(s: Seq<char>) -> int
    decreases s.len(),
{
    if s.len() == 0 {
        0
    } else {
        digits_value(s.drop_last()) * 10 + (s.last() as int - '0' as int)
    }
}

/// All characters are ASCII digits.
pub open spec fn all_digits(s: Seq<char>) -> bool {
    forall|i: int| 0 <= i < s.len() ==> '0' <= #[trigger] s[i] <= '9'
}

/// What `u64::from_str` accepts: an optional `+`, then at least one ASCII
/// digit, of a value that fits; and the value.
pub open spec fn spec_parse_u64(s: Seq<char>) -> Option<u64> {
    let digits = if s.len() > 0 && s[0] == '+' { s.drop_first() } else { s };
    if digits.len() > 0 && all_digits(digits) && digits_value(digits) <= u64::MAX {
        Some(digits_value(digits) as u64)
    } else {
        None
    }
}

pub proof fn lemma_digits_value_nonneg(s: Seq<char>)
    requires
        all_digits(s),
    ensures
        digits_value(s) >= 0,
    decreases s.len(),
{
    if s.len() > 0 {
        assert(all_digits(s.drop_last()));
        lemma_digits_value_nonneg(s.drop_last());
    }
}

/// The decimal form of a number is a non-empty run of digits.
pub proof fn lemma_decimal_digits(n: nat)
    ensures
        all_digits(decimal(n)),
        decimal(n).len() > 0,
    decreases n,
{
    if n >= 10 {
        lemma_decimal_digits(n / 10);
        let d = decimal(n / 10).push(digit_char(n % 10));
        assert(decimal(n) == d);
        assert forall|i: int| 0 <= i < d.len() implies '0' <= #[trigger] d[i] <= '9' by {
            if i < d.len() - 1 {
                assert(d[i] == decimal(n / 10)[i]);
            }
        }
    }
}

/// Reading the decimal form of `n` as digits gives `n` back.
pub proof fn lemma_decimal_value(n: nat)
    ensures
        digits_value(decimal(n)) == n,
    decreases n,
{
    lemma_digit_char_value(n % 10);
    if n >= 10 {
        lemma_decimal_value(n / 10);
        let d = decimal(n / 10).push(digit_char(n % 10));
        assert(d.drop_last() =~= decimal(n / 10));
        assert(d.last() == digit_char(n % 10));
        assert(decimal(n) == d);
        assert(digits_value(d) == digits_value(decimal(n / 10)) * 10 + (digit_char(n % 10) as int - '0' as int));
        assert(n == (n / 10) * 10 + n % 10);
    } else {
        let d = seq![digit_char(n)];
        assert(d.drop_last() =~= Seq::<char>::empty());
        assert(decimal(n) == d);
        assert(digits_value(d) == digits_value(d.drop_last()) * 10 + (d.last() as int - '0' as int));
    }
}

proof fn lemma_digit_char_value(d: nat)
    requires
        d < 10,
    ensures
        digit_char(d) as int - '0' as int == d,
{
}

pub(crate) proof fn lemma_digits_value_grows(s: Seq<char>, n: int)
    requires
        all_digits(s),
        0 <= n <= s.len(),
    ensures
        digits_value(s.take(n)) <= digits_value(s),
    decreases s.len() - n,
{
    if n < s.len() {
        lemma_digits_value_grows(s, n + 1);
        let t = s.take(n + 1);
        assert(t.drop_last() =~= s.take(n));
        assert(all_digits(s.take(n)));
        lemma_digits_value_nonneg(s.take(n));
    } else {
        assert(s.take(n) =~= s);
    }
}

/// Parses a decimal number as `u64::from_str` does.
pub fn parse_u64(s: &str) -> (res: Option<u64>)
    ensures
        res == spec_parse_u64(s@),
{
    let n = s.unicode_len();
    let mut start: usize = 0;
    if n > 0 && s.get_char(0) == '+' {
        start = 1;
    }
    let ghost digits = if s@.len() > 0 && s@[0] == '+' { s@.drop_first() } else { s@ };
    assert(digits =~= s@.skip(start as int));
    if start == n {
        return None;
    }
    let mut value: u64 = 0;
    let mut i: usize = start;
    while i < n
        invariant
            n == s@.len(),
            start <= i <= n,
            start < n,
            digits =~= s@.skip(start as int),
            digits == (if s@.len() > 0 && s@[0] == '+' { s@.drop_first() } else { s@ }),
            all_digits(digits.take(i - start)),
            value == digits_value(digits.take(i - start)),
        decreases n - i,
    {
        let c = s.get_char(i);
        let ghost k = (i - start) as int;
        proof {
            assert(digits.take(k + 1).drop_last() =~= digits.take(k));
            assert(digits.take(k + 1).last() == c);
        }
        proof {
            assert(digits[k] == c);
        }
        if !('0' <= c && c <= '9') {
            proof {
                assert(!('0' <= digits[k] <= '9'));
                assert(!all_digits(digits));
            }
            return None;
        }
        let d = (c as u32 - '0' as u32) as u64;
        assert(d == c as int - '0' as int);
        assert(digits_value(digits.take(k + 1)) == value * 10 + d);
        if value > (u64::MAX - d) / 10 {
            proof {
                assert(all_digits(digits.take(k + 1)));
                assert(digits_value(digits.take(k + 1)) > u64::MAX) by (nonlinear_arith)
                    requires
                        digits_value(digits.take(k + 1)) == value * 10 + d,
                        value > (u64::MAX - d) / 10,
                        d <= 9,
                ;
                if all_digits(digits) {
                    lemma_digits_value_grows(digits, k + 1);
                }
            }
            return None;
        }
        proof {
            assert(value * 10 + d <= u64::MAX) by (nonlinear_arith)
                requires
                    value <= (u64::MAX - d) / 10,
                    d <= 9,
            ;
            assert(all_digits(digits.take(k + 1)));
        }
        value = value * 10 + d;
        i = i + 1;
    }
    assert(digits.take(n - start) =~= digits);
    Some(value)
}


/// The number of leading whitespace characters of `s`.
pub open spec fn lead_ws(s: Seq<char>) -> int
    decreases s.len(),
{
    if s.len() == 0 || !is_ws(s[0]) {
        0
    } else {
        1 + lead_ws(s.drop_first())
    }
}

/// The number of trailing whitespace characters of `s`.
pub open spec fn trail_ws(s: Seq<char>) -> int
    decreases s.len(),
{
    if s.len() == 0 || !is_ws(s.last()) {
        0
    } else {
        1 + trail_ws(s.drop_last())
    }
}

/// `s` without leading and trailing whitespace (`str::trim`).
pub open spec fn spec_trim(s: Seq<char>) -> Seq<char> {
    if lead_ws(s) >= s.len() {
        Seq::empty()
    } else {
        s.subrange(lead_ws(s), s.len() - trail_ws(s))
    }
}

proof fn lemma_lead_ws_skip(s: Seq<char>, k: int)
    requires
        0 <= k <= s.len(),
        forall|j: int| 0 <= j < k ==> is_ws(#[trigger] s[j]),
    ensures
        lead_ws(s) == k + lead_ws(s.skip(k)),
    decreases k,
{
    if k > 0 {
        assert(s.drop_first().skip(k - 1) =~= s.skip(k));
        assert forall|j: int| 0 <= j < k - 1 implies is_ws(#[trigger] s.drop_first()[j]) by {
            assert(s.drop_first()[j] == s[j + 1]);
        }
        lemma_lead_ws_skip(s.drop_first(), k - 1);
    } else {
        assert(s.skip(0) =~= s);
    }
}

proof fn lemma_trail_ws_take(s: Seq<char>, k: int)
    requires
        0 <= k <= s.len(),
        forall|j: int| k <= j < s.len() ==> is_ws(#[trigger] s[j]),
    ensures
        trail_ws(s) == (s.len() - k) + trail_ws(s.take(k)),
    decreases s.len() - k,
{
    if k < s.len() {
        assert(s.drop_last().take(k) =~= s.take(k));
        assert forall|j: int| k <= j < s.len() - 1 implies is_ws(#[trigger] s.drop_last()[j]) by {
            assert(s.drop_last()[j] == s[j]);
        }
        lemma_trail_ws_take(s.drop_last(), k);
    } else {
        assert(s.take(k) =~= s);
    }
}

/// `s` without leading and trailing whitespace.
pub fn trim_ws(s: &str) -> (res: &str)
    ensures
        res@ == spec_trim(s@),
{
    let n = s.unicode_len();
    let mut a: usize = 0;
    while a < n && char_is_whitespace(s.get_char(a))
        invariant
            n == s@.len(),
            a <= n,
            forall|j: int| 0 <= j < a ==> is_ws(#[trigger] s@[j]),
        decreases n - a,
    {
        a = a + 1;
    }
    proof {
        lemma_lead_ws_skip(s@, a as int);
        if a < n {
            assert(!is_ws(s@.skip(a as int)[0]));
        }
    }
    if a == n {
        return s.substring_char(0, 0);
    }
    let mut b: usize = n;
    while b > a && char_is_whitespace(s.get_char(b - 1))
        invariant
            n == s@.len(),
            a < n,
            !is_ws(s@[a as int]),
            a <= b <= n,
            forall|j: int| b <= j < n ==> is_ws(#[trigger] s@[j]),
        decreases b,
    {
        b = b - 1;
    }
    proof {
        lemma_trail_ws_take(s@, b as int);
        assert(b > a);
        assert(!is_ws(s@.take(b as int).last()));
    }
    s.substring_char(a, b)
}


/// The decimal representation of an integer, with a minus sign if it is negative.
pub open spec fn signed_decimal(n: int) -> Seq<char> {
    if n < 0 {
        seq!['-'] + decimal((-n) as nat)
    } else {
        decimal(n as nat)
    }
}

/// Appends the decimal representation of `n`, with a minus sign if it is negative.
pub fn push_signed(s: &mut String, n: i64)
    ensures
        final(s)@ == old(s)@ + signed_decimal(n as int),
{
    if n < 0 {
        push_char(s, '-');
        let m: i128 = -(n as i128);
        push_decimal(s, m as u64);
        assert(final(s)@ =~= old(s)@ + signed_decimal(n as int));
    } else {
        push_decimal(s, n as u64);
    }
}

/// Appends a text.
pub fn push_str(s: &mut String, t: &str)
    ensures
        final(s)@ == old(s)@ + t@,
{
    s.append(t);
}

/// The lines of `s` (`str::lines`): the pieces between line feeds, each
/// without a carriage return that ends it before its line feed; a final line
/// feed ends the last line instead of starting an empty one.
pub open spec fn spec_lines(s: Seq<char>) -> Seq<Seq<char>> {
    let (lines, start) = scan_lines(s, s.len() as int);
    if start < s.len() {
        lines.push(s.subrange(start, s.len() as int))
    } else {
        lines
    }
}

/// The lines ended by a line feed in the first `n` characters of `s`, and the
/// start of the line after them.
pub open spec fn scan_lines(s: Seq<char>, n: int) -> (Seq<Seq<char>>, int)
    decreases n,
{
    if n <= 0 {
        (Seq::empty(), 0)
    } else {
        let (lines, start) = scan_lines(s, n - 1);
        if s[n - 1] == '\n' {
            let line = s.subrange(start, n - 1);
            let line = if line.len() > 0 && line.last() == '\r' { line.drop_last() } else { line };
            (lines.push(line), n)
        } else {
            (lines, start)
        }
    }
}

proof fn lemma_scan_lines_start(s: Seq<char>, n: int)
    requires
        0 <= n <= s.len(),
    ensures
        0 <= scan_lines(s, n).1 <= n,
    decreases n,
{
    if n > 0 {
        lemma_scan_lines_start(s, n - 1);
    }
}

/// The lines of a text.
pub fn lines(s: &str) -> (res: Vec<&str>)
    ensures
        res@.len() == spec_lines(s@).len(),
        forall|i: int| 0 <= i < res@.len() ==> (#[trigger] res@[i])@ == spec_lines(s@)[i],
{
    let n = s.unicode_len();
    let mut res: Vec<&str> = Vec::new();
    let mut start: usize = 0;
    let mut i: usize = 0;
    while i < n
        invariant
            n == s@.len(),
            i <= n,
            start as int == scan_lines(s@, i as int).1,
            res@.len() == scan_lines(s@, i as int).0.len(),
            forall|k: int| 0 <= k < res@.len() ==> (#[trigger] res@[k])@ == scan_lines(s@, i as int).0[k],
        decreases n - i,
    {
        proof {
            lemma_scan_lines_start(s@, i as int);
        }
        if s.get_char(i) == '\n' {
            let end = if i > start && s.get_char(i - 1) == '\r' { i - 1 } else { i };
            let line = s.substring_char(start, end);
            proof {
                let full = s@.subrange(start as int, i as int);
                if i > start && s@[i - 1] == '\r' {
                    assert(full.last() == '\r');
                    assert(line@ =~= full.drop_last());
                } else {
                    assert(line@ =~= full);
                }
            }
            res.push(line);
            start = i + 1;
        }
        i = i + 1;
    }
    proof {
        lemma_scan_lines_start(s@, n as int);
    }
    if start < n {
        let last = s.substring_char(start, n);
        res.push(last);
    }
    res
}

} // verus!
