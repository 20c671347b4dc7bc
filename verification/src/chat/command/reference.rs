//! The command reference: every command with its usage and explanation,
//! grouped by whether, and why not, it can be used in a context.

use vstd::prelude::*;

use crate::chat::command::from_admin::{AdminCommand, admin_all_views, admin_reference, spec_check_admin};
use crate::chat::command::from_player::PlayerCommand;
use crate::chat::command::from_super_admin::{SuperAdminCommand, super_admin_all_views, super_admin_reference};
use crate::chat::command::{BadCommandContext, CommandContext, PlayerRole, role_rank};
use crate::chat::table::{render_table, row_views, string_views, table_text, to_uppercase, uppercase};
use crate::gbx::structs::{ModeScript, mode_name};

verus! {

/// The section in which a command is listed: 0 if it can be used, else by
/// why not: 1 only during warmups, 2 only in a mode, 3 only in other modes,
/// 4 no permission.
pub open spec fn section_of(e: Option<BadCommandContext>) -> int {
    match e {
        None => 0,
        Some(BadCommandContext::DuringWarmup) => 1,
        Some(BadCommandContext::InMode(_)) => 2,
        Some(BadCommandContext::InOtherModes) => 3,
        Some(BadCommandContext::NoPermission) => 4,
    }
}

/// Every command of the reference in the context, with its section, usage
/// and explanation: the player, admin and super admin commands in turn.
pub open spec fn all_entries(ctxt: CommandContext) -> Seq<(int, (Seq<char>, Seq<char>))> {
    seq![(0int, ("/info"@, "Display server & controller information"@))] + admin_all_views().map_values(
        |c: crate::chat::command::from_admin::AdminCommandView| (section_of(spec_check_admin(c, ctxt)), admin_reference(c)),
    ) + super_admin_all_views().map_values(
        |c: crate::chat::command::from_super_admin::DangerousCommandView| (
            if role_rank(ctxt.player_role) < role_rank(PlayerRole::SuperAdmin) { 4int } else { 0int },
            super_admin_reference(c),
        ),
    )
}

/// The entries of a section, in order.
pub open spec fn section_entries(e: Seq<(int, (Seq<char>, Seq<char>))>, s: int) -> Seq<(Seq<char>, Seq<char>)>
    decreases e.len(),
{
    if e.len() == 0 {
        Seq::empty()
    } else if e.last().0 == s {
        section_entries(e.drop_last(), s).push(e.last().1)
    } else {
        section_entries(e.drop_last(), s)
    }
}

/// `a` comes before `b` in lexicographic order of their characters (the
/// order of `str`, since UTF-8 keeps the order of code points).
pub open spec fn text_lt(a: Seq<char>, b: Seq<char>) -> bool
    decreases a.len(),
{
    if b.len() == 0 {
        false
    } else if a.len() == 0 {
        true
    } else if a[0] != b[0] {
        a[0] < b[0]
    } else {
        text_lt(a.drop_first(), b.drop_first())
    }
}

/// `x` put into `t` after every entry whose usage is not greater.
pub open spec fn insert_sorted(t: Seq<(Seq<char>, Seq<char>)>, x: (Seq<char>, Seq<char>)) -> Seq<(Seq<char>, Seq<char>)>
    decreases t.len(),
{
    if t.len() == 0 {
        seq![x]
    } else if text_lt(x.0, t.last().0) {
        insert_sorted(t.drop_last(), x).push(t.last())
    } else {
        t.push(x)
    }
}

/// The entries sorted by usage, stably.
pub open spec fn sort_by_usage(s: Seq<(Seq<char>, Seq<char>)>) -> Seq<(Seq<char>, Seq<char>)>
    decreases s.len(),
{
    if s.len() == 0 {
        s
    } else {
        insert_sorted(sort_by_usage(s.drop_last()), s.last())
    }
}

/// The notice above a section of commands that cannot be used.
pub open spec fn section_notice(s: int) -> Seq<char> {
    if s == 1 {
        uppercase("during warmup"@)
    } else if s == 2 {
        uppercase("in "@ + mode_name(ModeScript::TimeAttack) + " mode"@)
    } else if s == 3 {
        uppercase("in other modes"@)
    } else {
        uppercase("no permission"@)
    }
}

/// A row of two cells.
pub open spec fn row2(a: Seq<char>, b: Seq<char>) -> Seq<Seq<char>> {
    seq![a, b]
}

/// The rows of section `s`: a notice if it lists commands that cannot be
/// used, then its entries sorted by usage.
pub open spec fn one_section(e: Seq<(int, (Seq<char>, Seq<char>))>, s: int) -> Seq<Seq<Seq<char>>> {
    let refs = sort_by_usage(section_entries(e, s));
    let head = if refs.len() == 0 || s == 0 {
        Seq::<Seq<Seq<char>>>::empty()
    } else {
        seq![row2(""@, ""@), row2(""@, section_notice(s))]
    };
    head + refs.map_values(|r: (Seq<char>, Seq<char>)| row2(r.0, r.1))
}

/// The rows of the sections below `n`, in order.
pub open spec fn rows_below(e: Seq<(int, (Seq<char>, Seq<char>))>, n: int) -> Seq<Seq<Seq<char>>>
    decreases n,
{
    if n <= 0 {
        Seq::empty()
    } else {
        rows_below(e, n - 1) + one_section(e, n - 1)
    }
}

/// The rows of the command reference in the context.
pub open spec fn reference_rows(ctxt: CommandContext) -> Seq<Seq<Seq<char>>> {
    seq![row2("/help"@, "Display this list"@), row2(""@, ""@)] + rows_below(all_entries(ctxt), 5)
}

/// The command reference in the context, as a table.
pub open spec fn spec_reference(ctxt: CommandContext) -> Seq<char> {
    table_text(seq!["Command"@, "Explanation"@], reference_rows(ctxt))
}

/// Whether `a` comes before `b`.
pub(crate) fn str_lt(a: &str, b: &str) -> (res: bool)
    ensures
        res == text_lt(a@, b@),
    decreases a@.len(),
{
    let m = a.unicode_len();
    let n = b.unicode_len();
    let mut i: usize = 0;
    assert(a@.skip(0) =~= a@);
    assert(b@.skip(0) =~= b@);
    while i < m && i < n
        invariant
            m == a@.len(),
            n == b@.len(),
            i <= m,
            i <= n,
            text_lt(a@, b@) == text_lt(a@.skip(i as int), b@.skip(i as int)),
        decreases m - i,
    {
        let x = a.get_char(i);
        let y = b.get_char(i);
        proof {
            assert(a@.skip(i as int)[0] == x);
            assert(b@.skip(i as int)[0] == y);
            assert(a@.skip(i as int).drop_first() =~= a@.skip(i + 1));
            assert(b@.skip(i as int).drop_first() =~= b@.skip(i + 1));
        }
        if x != y {
            return x < y;
        }
        i = i + 1;
    }
    i == m && i < n
}

/// A reference entry with its section, as numbers and texts.
pub open spec fn entry_of(x: (u8, (&str, &str))) -> (int, (Seq<char>, Seq<char>)) {
    (x.0 as int, (x.1.0@, x.1.1@))
}

/// A reference entry as two texts.
pub open spec fn entry_view(r: (&str, &str)) -> (Seq<char>, Seq<char>) {
    (r.0@, r.1@)
}

/// Sorts the entries by usage, stably.
fn sort_entries(v: Vec<(&'static str, &'static str)>) -> (res: Vec<(&'static str, &'static str)>)
    ensures
        res@.map_values(|r: (&'static str, &'static str)| entry_view(r)) == sort_by_usage(v@.map_values(|r: (&'static str, &'static str)| entry_view(r))),
{
    let ghost views = v@.map_values(|r: (&'static str, &'static str)| entry_view(r));
    let mut sorted: Vec<(&'static str, &'static str)> = Vec::new();
    let mut i: usize = 0;
    while i < v.len()
        invariant
            i <= v@.len(),
            views == v@.map_values(|r: (&'static str, &'static str)| entry_view(r)),
            sorted@.map_values(|r: (&'static str, &'static str)| entry_view(r)) == sort_by_usage(views.take(i as int)),
        decreases v@.len() - i,
    {
        let x = v[i];
        proof {
            assert(views.take(i + 1).drop_last() =~= views.take(i as int));
            assert(views.take(i + 1).last() == entry_view(x));
        }
        // Find the place: after every entry whose usage is not greater.
        let mut j: usize = sorted.len();
        let ghost t = sorted@.map_values(|r: (&'static str, &'static str)| entry_view(r));
        assert(t.take(j as int) =~= t);
        assert(t.skip(j as int) =~= Seq::<(Seq<char>, Seq<char>)>::empty());
        assert(insert_sorted(t, entry_view(x)) + t.skip(j as int) =~= insert_sorted(t, entry_view(x)));
        while j > 0 && str_lt(x.0, sorted[j - 1].0)
            invariant
                j <= sorted@.len(),
                t == sorted@.map_values(|r: (&'static str, &'static str)| entry_view(r)),
                insert_sorted(t, entry_view(x)) == insert_sorted(t.take(j as int), entry_view(x)) + t.skip(j as int),
            decreases j,
        {
            proof {
                let tj = t.take(j as int);
                assert(tj.last() == entry_view(sorted@[j - 1]));
                assert(tj.drop_last() =~= t.take(j - 1));
                assert(seq![tj.last()] + t.skip(j as int) =~= t.skip(j - 1));
                assert(insert_sorted(tj, entry_view(x)) == insert_sorted(t.take(j - 1), entry_view(x)).push(tj.last()));
                assert(insert_sorted(t.take(j - 1), entry_view(x)).push(tj.last()) + t.skip(j as int)
                    =~= insert_sorted(t.take(j - 1), entry_view(x)) + t.skip(j - 1));
            }
            j = j - 1;
        }
        proof {
            let tj = t.take(j as int);
            if j > 0 {
                assert(tj.last() == entry_view(sorted@[j - 1]));
                assert(!text_lt(entry_view(x).0, tj.last().0));
            }
            assert(insert_sorted(tj, entry_view(x)) =~= tj.push(entry_view(x)));
        }
        sorted.insert(j, x);
        proof {
            assert(sorted@.map_values(|r: (&'static str, &'static str)| entry_view(r)) =~= t.take(j as int).push(entry_view(x)) + t.skip(j as int));
        }
        i = i + 1;
    }
    proof {
        assert(views.take(v@.len() as int) =~= views);
    }
    sorted
}

impl<'a> CommandContext<'a> {
    /// The section in which a command is listed, by its check result.
    fn section(e: &Result<(), BadCommandContext>) -> (res: u8)
        ensures
            res == section_of(match e {
                Ok(()) => None,
                Err(b) => Some(*b),
            }),
    {
        match e {
            Ok(()) => 0,
            Err(BadCommandContext::DuringWarmup) => 1,
            Err(BadCommandContext::InMode(_)) => 2,
            Err(BadCommandContext::InOtherModes) => 3,
            Err(BadCommandContext::NoPermission) => 4,
        }
    }

    /// The command reference for this context, in tabular form: `/help`, then
    /// the commands that can be used, then those that cannot, grouped by why,
    /// each group sorted by usage.
    pub fn reference(&self) -> (res: String)
        ensures
            res@ == spec_reference(*self),
    {
        let ghost all = all_entries(*self);
        let mut entries: Vec<(u8, (&'static str, &'static str))> = Vec::new();
        let r = PlayerCommand::Info.reference();
        entries.push((0, (r.usage, r.doc)));
        assert(entries@.map_values(|x: (u8, (&'static str, &'static str))| entry_of(x)) =~= all.take(1));
        let admins = AdminCommand::all();
        let mut i: usize = 0;
        while i < admins.len()
            invariant
                admins@.len() == 14,
                admins@.map_values(|c: AdminCommand<'static>| c@) == admin_all_views(),
                all == all_entries(*self),
                i <= 14,
                entries@.map_values(|x: (u8, (&'static str, &'static str))| entry_of(x)) == all.take(1 + i),
            decreases 14 - i,
        {
            let c = admins[i];
            let e = c.check(*self);
            let sec = Self::section(&e);
            let r = c.reference();
            let ghost before = entries@;
            entries.push((sec, (r.usage, r.doc)));
            proof {
                assert(admin_all_views()[i as int] == c@);
                assert(all[1 + i] == (section_of(spec_check_admin(c@, *self)), admin_reference(c@)));
                assert(entry_of((sec, (r.usage, r.doc))) == all[1 + i]);
                assert(entries@ == before.push((sec, (r.usage, r.doc))));
                assert(all.take(1 + i + 1) =~= all.take(1 + i).push(all[1 + i]));
                assert(entries@.map_values(|x: (u8, (&'static str, &'static str))| entry_of(x)) =~= all.take(1 + i + 1));
            }
            i = i + 1;
        }
        let supers = SuperAdminCommand::all();
        let mut k: usize = 0;
        while k < supers.len()
            invariant
                supers@.map_values(|c: SuperAdminCommand<'static>| c@) == super_admin_all_views(),
                supers@.len() == 3,
                all == all_entries(*self),
                k <= 3,
                entries@.map_values(|x: (u8, (&'static str, &'static str))| entry_of(x)) == all.take(15 + k),
            decreases 3 - k,
        {
            let c = supers[k];
            let e = c.check(*self);
            let sec = Self::section(&e);
            let r = c.reference();
            let ghost before = entries@;
            entries.push((sec, (r.usage, r.doc)));
            proof {
                assert(super_admin_all_views()[k as int] == c@);
                assert(all[15 + k] == (if role_rank(self.player_role) < role_rank(PlayerRole::SuperAdmin) { 4int } else { 0int }, super_admin_reference(c@)));
                assert(entry_of((sec, (r.usage, r.doc))) == all[15 + k]);
                assert(entries@ == before.push((sec, (r.usage, r.doc))));
                assert(all.take(15 + k + 1) =~= all.take(15 + k).push(all[15 + k]));
                assert(entries@.map_values(|x: (u8, (&'static str, &'static str))| entry_of(x)) =~= all.take(15 + k + 1));
            }
            k = k + 1;
        }
        assert(all.take(18) =~= all);
        let ghost ev = entries@.map_values(|x: (u8, (&'static str, &'static str))| entry_of(x));

        let titles = vec![String::from_str("Command"), String::from_str("Explanation")];
        let mut rows: Vec<Vec<String>> = Vec::new();
        rows.push(vec![String::from_str("/help"), String::from_str("Display this list")]);
        rows.push(vec![String::from_str(""), String::from_str("")]);
        let ghost head = seq![row2("/help"@, "Display this list"@), row2(""@, ""@)];
        proof {
            assert(string_views(rows@[0]@) =~= row2("/help"@, "Display this list"@));
            assert(string_views(rows@[1]@) =~= row2(""@, ""@));
            assert(row_views(rows@) =~= head + rows_below(ev, 0));
        }
        let mut sec: u8 = 0;
        while sec < 5
            invariant
                sec <= 5,
                ev == entries@.map_values(|x: (u8, (&'static str, &'static str))| entry_of(x)),
                row_views(rows@) == head + rows_below(ev, sec as int),
            decreases 5 - sec,
        {
            let mut refs: Vec<(&'static str, &'static str)> = Vec::new();
            let mut j: usize = 0;
            while j < entries.len()
                invariant
                    j <= entries@.len(),
                    ev == entries@.map_values(|x: (u8, (&'static str, &'static str))| entry_of(x)),
                    refs@.map_values(|r: (&'static str, &'static str)| entry_view(r)) == section_entries(ev.take(j as int), sec as int),
                decreases entries@.len() - j,
            {
                proof {
                    assert(ev.take(j + 1).drop_last() =~= ev.take(j as int));
                    assert(ev.take(j + 1).last() == entry_of(entries@[j as int]));
                }
                if entries[j].0 == sec {
                    refs.push(entries[j].1);
                    assert(refs@.map_values(|r: (&'static str, &'static str)| entry_view(r))
                        =~= section_entries(ev.take(j + 1), sec as int));
                }
                j = j + 1;
            }
            assert(ev.take(entries@.len() as int) =~= ev);
            let sorted = sort_entries(refs);
            let ghost before = row_views(rows@);
            let ghost sv = sorted@.map_values(|r: (&'static str, &'static str)| entry_view(r));
            if sorted.len() > 0 && sec > 0 {
                rows.push(vec![String::from_str(""), String::from_str("")]);
                let notice_text = if sec == 1 {
                    String::from_str("during warmup")
                } else if sec == 2 {
                    let mut t = String::from_str("in ");
                    t.append(ModeScript::TimeAttack.name());
                    t.append(" mode");
                    t
                } else if sec == 3 {
                    String::from_str("in other modes")
                } else {
                    String::from_str("no permission")
                };
                let notice = to_uppercase(notice_text.as_str());
                rows.push(vec![String::from_str(""), notice]);
                proof {
                    if sec == 2 {
                        assert(notice_text@ =~= "in "@ + mode_name(ModeScript::TimeAttack) + " mode"@);
                    }
                    assert(string_views(rows@[rows@.len() - 2]@) =~= row2(""@, ""@));
                    assert(string_views(rows@[rows@.len() - 1]@) =~= row2(""@, section_notice(sec as int)));
                    assert(row_views(rows@) =~= before + seq![row2(""@, ""@), row2(""@, section_notice(sec as int))]);
                }
            }
            let ghost mid = row_views(rows@);
            let mut m: usize = 0;
            while m < sorted.len()
                invariant
                    m <= sorted@.len(),
                    sv == sorted@.map_values(|r: (&'static str, &'static str)| entry_view(r)),
                    row_views(rows@) == mid + sv.take(m as int).map_values(|r: (Seq<char>, Seq<char>)| row2(r.0, r.1)),
                decreases sorted@.len() - m,
            {
                let (u, d) = sorted[m];
                let ghost before_rows = rows@;
                rows.push(vec![String::from_str(u), String::from_str(d)]);
                proof {
                    assert(rows@ == before_rows.push(rows@[rows@.len() - 1]));
                    assert(sv.take(m + 1) =~= sv.take(m as int).push(sv[m as int]));
                    assert(row_views(rows@) =~= row_views(before_rows).push(string_views(rows@[rows@.len() - 1]@)));
                    assert(sv.take(m + 1).map_values(|r: (Seq<char>, Seq<char>)| row2(r.0, r.1))
                        =~= sv.take(m as int).map_values(|r: (Seq<char>, Seq<char>)| row2(r.0, r.1)).push(row2(u@, d@)));
                    assert(string_views(rows@[rows@.len() - 1]@) =~= row2(u@, d@));
                    assert(sv[m as int] == (u@, d@));
                    assert(row_views(rows@) =~= mid + sv.take(m + 1).map_values(|r: (Seq<char>, Seq<char>)| row2(r.0, r.1)));
                }
                m = m + 1;
            }
            proof {
                assert(sv.take(sorted@.len() as int) =~= sv);
                assert(row_views(rows@) =~= head + rows_below(ev, sec as int) + one_section(ev, sec as int));
                assert(rows_below(ev, sec + 1) == rows_below(ev, sec as int) + one_section(ev, sec as int));
            }
            sec = sec + 1;
        }
        proof {
            assert(titles@.len() == 2);
            assert(string_views(titles@) =~= seq!["Command"@, "Explanation"@]);
        }
        render_table(&titles, &rows)
    }
}

} // verus!
