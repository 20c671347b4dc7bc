//! Tables and column fitting for chat output.

use vstd::prelude::*;
use vstd::string::*;

verus! {

/// The text of a borderless table with the given titles and rows, as the
/// prettytable crate renders it.
pub uninterp spec fn table_text(titles: Seq<Seq<char>>, rows: Seq<Seq<Seq<char>>>) -> Seq<char>;

/// The views of a list of strings.
pub open spec fn string_views(s: Seq<String>) -> Seq<Seq<char>> {
    s.map_values(|t: String| t@)
}

/// The views of a list of rows of strings.
pub open spec fn row_views(rows: Seq<Vec<String>>) -> Seq<Seq<Seq<char>>> {
    rows.map_values(|r: Vec<String>| string_views(r@))
}

/// Renders a table with `prettytable::Table` in the format
/// `FORMAT_NO_BORDER_LINE_SEPARATOR` (a column separator and a line under the
/// titles), one cell per string. The text is named by `table_text`: it
/// depends on the titles and rows alone.
#[verifier::external_body]
pub(crate) fn render_table(titles: &Vec<String>, rows: &Vec<Vec<String>>) -> (res: String)
    ensures
        res@ == table_text(string_views(titles@), row_views(rows@)),
{
    let mut table = prettytable::Table::new();
    table.set_format(*prettytable::format::consts::FORMAT_NO_BORDER_LINE_SEPARATOR);
    table.set_titles(titles.iter().collect());
    for row in rows {
        table.add_row(row.iter().collect());
    }
    table.to_string()
}

/// The upper case of a text, as `str::to_uppercase` maps it.
pub uninterp spec fn uppercase(s: Seq<char>) -> Seq<char>;

/// The upper case of a text (`str::to_uppercase`); named by `uppercase`.
#[verifier::external_body]
pub(crate) fn to_uppercase(s: &str) -> (res: String)
    ensures
        res@ == uppercase(s@),
{
    s.to_uppercase()
}

/// `text`, shortened to `columns - 1` characters and an ellipsis if it holds
/// more than `columns` characters.
pub open spec fn spec_truncate(text: Seq<char>, columns: nat) -> Seq<char> {
    if text.len() > columns {
        text.take(columns - 1) + seq!['…']
    } else {
        text
    }
}

/// `text` like `spec_truncate`, or, if it is not too long, with a space added
/// on the right for each character it lacks to fill `columns`.
pub open spec fn spec_fill(text: Seq<char>, columns: nat) -> Seq<char> {
    if text.len() > columns {
        spec_truncate(text, columns)
    } else {
        text + Seq::new((columns - text.len()) as nat, |i: int| ' ')
    }
}

/// A truncated text takes at most `columns` characters, is the text itself
/// when that fits, and else keeps the text's beginning and ends in an
/// ellipsis. A filled text takes exactly `columns` characters: the text, or
/// its truncation, followed by nothing but spaces.
pub proof fn law_fill_and_truncate_fit(text: Seq<char>, columns: nat)
    requires
        columns > 0,
    ensures
        spec_truncate(text, columns).len() <= columns,
        text.len() <= columns ==> spec_truncate(text, columns) == text,
        text.len() > columns ==> {
            &&& spec_truncate(text, columns).len() == columns
            &&& spec_truncate(text, columns).last() == '…'
            &&& spec_truncate(text, columns).take(columns - 1) == text.take(columns - 1)
        },
        spec_fill(text, columns).len() == columns,
        text.len() <= columns ==> spec_fill(text, columns).take(text.len() as int) == text,
        forall|i: int| text.len() <= i < columns ==> #[trigger] spec_fill(text, columns)[i] == ' ',
{
    if text.len() > columns {
        let t = spec_truncate(text, columns);
        assert(t.take(columns - 1) =~= text.take(columns - 1));
    } else {
        let f = spec_fill(text, columns);
        assert(f.take(text.len() as int) =~= text);
    }
}

/// Truncates a text to not exceed the specified number of columns
/// (characters), replacing its end with an ellipsis.
pub fn truncate(text: &str, columns: usize) -> (res: String)
    requires
        columns > 0,
    ensures
        res@ == spec_truncate(text@, columns as nat),
{
    let n = text.unicode_len();
    if n > columns {
        let mut out = String::from_str(text.substring_char(0, columns - 1));
        crate::text::push_char(&mut out, '…');
        assert(out@ =~= text@.take(columns - 1) + seq!['…']);
        out
    } else {
        String::from_str(text)
    }
}

/// Trims a text, or adds spaces to the right, to fill the specified number
/// of columns (characters).
pub fn fill(text: &str, columns: usize) -> (res: String)
    requires
        columns > 0,
    ensures
        res@ == spec_fill(text@, columns as nat),
{
    let len = text.unicode_len();
    if len > columns {
        truncate(text, columns)
    } else {
        let mut out = String::from_str(text);
        let ghost start = out@;
        let mut i: usize = 0;
        while i < columns - len
            invariant
                len <= columns,
                i <= columns - len,
                out@ == start + Seq::new(i as nat, |k: int| ' '),
            decreases columns - len - i,
        {
            crate::text::push_char(&mut out, ' ');
            i = i + 1;
            assert(out@ =~= start + Seq::new(i as nat, |k: int| ' '));
        }
        assert(out@ =~= text@ + Seq::new((columns - text@.len()) as nat, |k: int| ' '));
        out
    }
}

} // verus!
