//! Texts shared by the command responses: denied commands, invalid configs,
//! map and player lists, and the controller information.

use vstd::prelude::*;

use crate::chat::command::reference::spec_reference;
use crate::chat::command::{BadCommandContext, CommandContext, CommandDeniedError};
use crate::chat::table::{
    fill, render_table, row_views, spec_fill, spec_truncate, string_views, table_text, to_uppercase, truncate,
    uppercase,
};
use crate::controller::playlist::MapEntry;
use crate::gbx::structs::{DisplayString, PlayerInfo, ServerBuildInfo, ServerNetStats, mode_name, spec_plain, trunc_div};
use crate::text::{lines, push_signed, push_str, signed_decimal, spec_lines};

verus! {

/// The answer to a command that was denied, followed by the command reference.
pub open spec fn denied_text(cmd: Seq<char>, e: CommandDeniedError, reference: Seq<char>) -> Seq<char> {
    let first = match e {
        CommandDeniedError::NotAvailable(BadCommandContext::DuringWarmup) => "The '"@ + cmd + "' command only works during warmups\n"@,
        CommandDeniedError::NotAvailable(BadCommandContext::InMode(script)) => "The '"@ + cmd + "' command is for the '"@
            + mode_name(script) + "' mode only\n"@,
        CommandDeniedError::NotAvailable(BadCommandContext::InOtherModes) => "You cannot use '"@ + cmd + "' in this game mode\n"@,
        CommandDeniedError::NotAvailable(BadCommandContext::NoPermission) => "You are not permitted to use the '"@ + cmd
            + "' command\n"@,
        CommandDeniedError::NoSuchCommand => "'"@ + cmd + "' is not a valid command\n"@,
    };
    first + "\n"@ + reference
}

/// The answer to a command that was denied in the context.
pub fn denied(ctxt: &CommandContext, e: &CommandDeniedError) -> (res: String)
    ensures
        res@ == denied_text(ctxt.cmd@, *e, spec_reference(*ctxt)),
{
    let mut s = String::new();
    match e {
        CommandDeniedError::NotAvailable(BadCommandContext::DuringWarmup) => {
            push_str(&mut s, "The '");
            push_str(&mut s, ctxt.cmd);
            push_str(&mut s, "' command only works during warmups\n");
        },
        CommandDeniedError::NotAvailable(BadCommandContext::InMode(script)) => {
            push_str(&mut s, "The '");
            push_str(&mut s, ctxt.cmd);
            push_str(&mut s, "' command is for the '");
            push_str(&mut s, script.name());
            push_str(&mut s, "' mode only\n");
        },
        CommandDeniedError::NotAvailable(BadCommandContext::InOtherModes) => {
            push_str(&mut s, "You cannot use '");
            push_str(&mut s, ctxt.cmd);
            push_str(&mut s, "' in this game mode\n");
        },
        CommandDeniedError::NotAvailable(BadCommandContext::NoPermission) => {
            push_str(&mut s, "You are not permitted to use the '");
            push_str(&mut s, ctxt.cmd);
            push_str(&mut s, "' command\n");
        },
        CommandDeniedError::NoSuchCommand => {
            push_str(&mut s, "'");
            push_str(&mut s, ctxt.cmd);
            push_str(&mut s, "' is not a valid command\n");
        },
    }
    push_str(&mut s, "\n");
    let r = ctxt.reference();
    push_str(&mut s, r.as_str());
    s
}

/// Each line as a comment: `# ` before and a line feed after it.
pub open spec fn commented(ls: Seq<Seq<char>>) -> Seq<char>
    decreases ls.len(),
{
    if ls.len() == 0 {
        Seq::empty()
    } else {
        commented(ls.drop_last()) + "# "@ + ls.last() + "\n"@
    }
}

/// The answer to a config that could not be read: the error as comments,
/// then the config as it was entered.
pub open spec fn invalid_config_text(tried_repr: Seq<char>, error_msg: Seq<char>) -> Seq<char> {
    "# The config you entered is invalid:\n"@ + commented(spec_lines(error_msg)) + "\n"@ + tried_repr
}

/// The answer to a config that could not be read.
pub fn invalid_config(tried_repr: &str, error_msg: &str) -> (res: String)
    ensures
        res@ == invalid_config_text(tried_repr@, error_msg@),
{
    let mut s = String::new();
    push_str(&mut s, "# The config you entered is invalid:\n");
    let ls = lines(error_msg);
    let ghost base = s@;
    let ghost spec_ls = spec_lines(error_msg@);
    let mut i: usize = 0;
    while i < ls.len()
        invariant
            i <= ls@.len(),
            ls@.len() == spec_ls.len(),
            forall|k: int| 0 <= k < ls@.len() ==> (#[trigger] ls@[k])@ == spec_ls[k],
            s@ == base + commented(spec_ls.take(i as int)),
        decreases ls@.len() - i,
    {
        push_str(&mut s, "# ");
        push_str(&mut s, ls[i]);
        push_str(&mut s, "\n");
        proof {
            assert(spec_ls.take(i + 1).drop_last() =~= spec_ls.take(i as int));
            assert(s@ =~= base + commented(spec_ls.take(i + 1)));
        }
        i = i + 1;
    }
    assert(spec_ls.take(ls@.len() as int) =~= spec_ls);
    push_str(&mut s, "\n");
    push_str(&mut s, tried_repr);
    s
}

/// The link to a map on Trackmania.Exchange, if it was imported from there.
pub open spec fn exchange_link(id: Option<i32>) -> Seq<char> {
    match id {
        Some(id) => "trackmania.exchange/maps/"@ + signed_decimal(id as int),
        None => ""@,
    }
}

/// A row of the map list: the plain name fitted to 20 columns (filled with
/// spaces if `fill_name`, else only truncated), the UID, and the link.
pub open spec fn map_row(m: MapEntry, fill_name: bool) -> Option<Seq<Seq<char>>> {
    match spec_plain(m.name.formatted@) {
        Some(p) => Some(seq![
            if fill_name { spec_fill(p, 20) } else { spec_truncate(p, 20) },
            m.uid@,
            exchange_link(m.exchange_id),
        ]),
        None => None,
    }
}

/// The rows of the map list, if every name could be made plain.
pub open spec fn map_rows(ms: Seq<MapEntry>, fill_name: bool) -> Option<Seq<Seq<Seq<char>>>>
    decreases ms.len(),
{
    if ms.len() == 0 {
        Some(Seq::empty())
    } else {
        match (map_rows(ms.drop_last(), fill_name), map_row(ms.last(), fill_name)) {
            (Some(rows), Some(row)) => Some(rows.push(row)),
            _ => None,
        }
    }
}

/// The maps behind a list of references.
pub open spec fn deref_maps(v: Seq<&MapEntry>) -> Seq<MapEntry> {
    v.map_values(|m: &MapEntry| *m)
}

/// The players behind a list of references.
pub open spec fn deref_players(v: Seq<&PlayerInfo>) -> Seq<PlayerInfo> {
    v.map_values(|p: &PlayerInfo| *p)
}

/// Adds a row of map information for each map.
fn push_map_rows(rows: &mut Vec<Vec<String>>, maps: &Vec<&MapEntry>, fill_name: bool) -> (ok: bool)
    ensures
        match map_rows(deref_maps(maps@), fill_name) {
            Some(r) => ok && row_views(final(rows)@) == row_views(old(rows)@) + r,
            None => !ok,
        },
{
    let ghost ms = deref_maps(maps@);
    let ghost base = row_views(rows@);
    let mut i: usize = 0;
    while i < maps.len()
        invariant
            i <= maps@.len(),
            ms == deref_maps(maps@),
            map_rows(ms.take(i as int), fill_name) matches Some(r) && row_views(rows@) == base + r,
        decreases maps@.len() - i,
    {
        let m = maps[i];
        proof {
            assert(ms.take(i + 1).drop_last() =~= ms.take(i as int));
            assert(ms.take(i + 1).last() == *m);
        }
        let plain = match m.name.plain() {
            Some(p) => p,
            None => {
                proof {
                    lemma_map_rows_none(ms, i + 1, fill_name);
                }
                return false;
            },
        };
        let name = if fill_name {
            fill(plain.as_str(), 20)
        } else {
            truncate(plain.as_str(), 20)
        };
        let link = match m.exchange_id {
            Some(id) => {
                let mut link = String::from_str("trackmania.exchange/maps/");
                push_signed(&mut link, id as i64);
                link
            },
            None => String::from_str(""),
        };
        let ghost before = rows@;
        proof {
            assert(spec_plain(m.name.formatted@) == Some(plain@));
            assert(link@ =~= exchange_link(m.exchange_id));
            assert(name@ == (if fill_name { spec_fill(plain@, 20) } else { spec_truncate(plain@, 20) }));
        }
        let uid = m.uid.clone();
        rows.push(vec![name, uid, link]);
        proof {
            assert(rows@[rows@.len() - 1]@[0]@ == (if fill_name { spec_fill(plain@, 20) } else { spec_truncate(plain@, 20) }));
            assert(string_views(rows@[rows@.len() - 1]@) =~= map_row(*m, fill_name)->0);
            assert(row_views(rows@) =~= row_views(before).push(string_views(rows@[rows@.len() - 1]@)));
        }
        i = i + 1;
    }
    assert(ms.take(maps@.len() as int) =~= ms);
    true
}

/// Once a prefix has no rows, the whole list has none.
proof fn lemma_map_rows_none(ms: Seq<MapEntry>, n: int, fill_name: bool)
    requires
        0 <= n <= ms.len(),
        map_rows(ms.take(n), fill_name) is None,
    ensures
        map_rows(ms, fill_name) is None,
    decreases ms.len() - n,
{
    if n < ms.len() {
        assert(ms.take(n + 1).drop_last() =~= ms.take(n));
        lemma_map_rows_none(ms, n + 1, fill_name);
    } else {
        assert(ms.take(n) =~= ms);
    }
}

/// The map list: the maps in the playlist, then a section with those that
/// are not; `with_empty_section` keeps the section even if it has no maps.
pub open spec fn map_list_text(in_playlist: Seq<MapEntry>, not_in_playlist: Seq<MapEntry>, fill_name: bool, with_empty_section: bool) -> Option<Seq<char>> {
    match (map_rows(in_playlist, fill_name), map_rows(not_in_playlist, fill_name)) {
        (Some(a), Some(b)) => Some(table_text(
            seq!["Name"@, "UID"@, "Link"@],
            if not_in_playlist.len() == 0 && !with_empty_section {
                a
            } else {
                a + seq![seq![""@, ""@, ""@], seq![uppercase("not in playlist"@), ""@, ""@]] + b
            },
        )),
        _ => None,
    }
}

/// The map list.
pub fn map_list(in_playlist: &Vec<&MapEntry>, not_in_playlist: &Vec<&MapEntry>, fill_name: bool, with_empty_section: bool) -> (res: Option<String>)
    ensures
        match res {
            Some(t) => map_list_text(deref_maps(in_playlist@), deref_maps(not_in_playlist@), fill_name, with_empty_section) == Some(t@),
            None => map_list_text(deref_maps(in_playlist@), deref_maps(not_in_playlist@), fill_name, with_empty_section) is None,
        },
{
    let titles = vec![String::from_str("Name"), String::from_str("UID"), String::from_str("Link")];
    assert(string_views(titles@) =~= seq!["Name"@, "UID"@, "Link"@]);
    let mut rows: Vec<Vec<String>> = Vec::new();
    assert(row_views(rows@) =~= Seq::<Seq<Seq<char>>>::empty());
    if !push_map_rows(&mut rows, in_playlist, fill_name) {
        return None;
    }
    let ghost a = row_views(rows@);
    let with_section = !(not_in_playlist.len() == 0 && !with_empty_section);
    if with_section {
        rows.push(vec![String::from_str(""), String::from_str(""), String::from_str("")]);
        let upper = to_uppercase("not in playlist");
        rows.push(vec![upper, String::from_str(""), String::from_str("")]);
        proof {
            assert(string_views(rows@[rows@.len() - 2]@) =~= seq![""@, ""@, ""@]);
            assert(string_views(rows@[rows@.len() - 1]@) =~= seq![uppercase("not in playlist"@), ""@, ""@]);
            assert(row_views(rows@) =~= a + seq![seq![""@, ""@, ""@], seq![uppercase("not in playlist"@), ""@, ""@]]);
        }
    }
    let ghost mid = row_views(rows@);
    if !push_map_rows(&mut rows, not_in_playlist, fill_name) {
        return None;
    }
    proof {
        if !with_section {
            assert(deref_maps(not_in_playlist@) =~= Seq::<MapEntry>::empty());
            assert(row_views(rows@) =~= a);
        }
    }
    Some(render_table(&titles, &rows))
}


/// The rows of the player list: the plain display name fitted to 30 columns
/// (filled with spaces if `fill_name`, else only truncated), and the login.
pub open spec fn player_rows(ps: Seq<PlayerInfo>, fill_name: bool) -> Option<Seq<Seq<Seq<char>>>>
    decreases ps.len(),
{
    if ps.len() == 0 {
        Some(Seq::empty())
    } else {
        match (player_rows(ps.drop_last(), fill_name), spec_plain(ps.last().display_name.formatted@)) {
            (Some(rows), Some(p)) => Some(rows.push(seq![
                if fill_name { spec_fill(p, 30) } else { spec_truncate(p, 30) },
                ps.last().login@,
            ])),
            _ => None,
        }
    }
}

proof fn lemma_player_rows_none(ps: Seq<PlayerInfo>, n: int, fill_name: bool)
    requires
        0 <= n <= ps.len(),
        player_rows(ps.take(n), fill_name) is None,
    ensures
        player_rows(ps, fill_name) is None,
    decreases ps.len() - n,
{
    if n < ps.len() {
        assert(ps.take(n + 1).drop_last() =~= ps.take(n));
        lemma_player_rows_none(ps, n + 1, fill_name);
    } else {
        assert(ps.take(n) =~= ps);
    }
}

/// The list of connected players.
pub open spec fn player_list_text(ps: Seq<PlayerInfo>, fill_name: bool) -> Option<Seq<char>> {
    match player_rows(ps, fill_name) {
        Some(rows) => Some(table_text(seq!["Nickname"@, "Login"@], rows)),
        None => None,
    }
}

/// The list of connected players.
pub fn player_list(players: &Vec<&PlayerInfo>, fill_name: bool) -> (res: Option<String>)
    ensures
        match res {
            Some(t) => player_list_text(deref_players(players@), fill_name) == Some(t@),
            None => player_list_text(deref_players(players@), fill_name) is None,
        },
{
    let titles = vec![String::from_str("Nickname"), String::from_str("Login")];
    assert(string_views(titles@) =~= seq!["Nickname"@, "Login"@]);
    let ghost ps = deref_players(players@);
    let mut rows: Vec<Vec<String>> = Vec::new();
    let mut i: usize = 0;
    while i < players.len()
        invariant
            i <= players@.len(),
            ps == deref_players(players@),
            player_rows(ps.take(i as int), fill_name) matches Some(r) && row_views(rows@) == r,
        decreases players@.len() - i,
    {
        let p = players[i];
        proof {
            assert(ps.take(i + 1).drop_last() =~= ps.take(i as int));
            assert(ps.take(i + 1).last() == *p);
        }
        let plain = match p.display_name.plain() {
            Some(t) => t,
            None => {
                proof {
                    lemma_player_rows_none(ps, i + 1, fill_name);
                }
                return None;
            },
        };
        let name = if fill_name {
            fill(plain.as_str(), 30)
        } else {
            truncate(plain.as_str(), 30)
        };
        let login = p.login.clone();
        let ghost before = rows@;
        rows.push(vec![name, login]);
        proof {
            assert(string_views(rows@[rows@.len() - 1]@) =~= seq![
                if fill_name { spec_fill(plain@, 30) } else { spec_truncate(plain@, 30) },
                p.login@,
            ]);
            assert(row_views(rows@) =~= row_views(before).push(string_views(rows@[rows@.len() - 1]@)));
        }
        i = i + 1;
    }
    assert(ps.take(players@.len() as int) =~= ps);
    Some(render_table(&titles, &rows))
}

/// A text as `{:?}` shows it: quoted, with special characters escaped.
pub uninterp spec fn debug_quoted(s: Seq<char>) -> Seq<char>;

/// `format!("{:?}", s)` (the `Debug` of `str`); named by `debug_quoted`.
#[verifier::external_body]
pub(crate) fn quote_debug(s: &str) -> (res: String)
    ensures
        res@ == debug_quoted(s@),
{
    format!("{:?}", s)
}

/// The server build information as `{:#?}` shows it.
pub open spec fn server_info_pretty(i: ServerBuildInfo) -> Seq<char> {
    "ServerBuildInfo {\n    name: "@ + debug_quoted(i.name@) + ",\n    version: "@ + debug_quoted(i.version@)
        + ",\n    version_date: "@ + debug_quoted(i.version_date@) + ",\n}"@
}

/// The plain names joined by `, `, if every name could be made plain.
pub open spec fn joined_plain(names: Seq<DisplayString>) -> Option<Seq<char>>
    decreases names.len(),
{
    if names.len() == 0 {
        Some(Seq::empty())
    } else {
        match (joined_plain(names.drop_last()), spec_plain(names.last().formatted@)) {
            (Some(rest), Some(p)) => Some(if names.len() == 1 { p } else { rest + ", "@ + p }),
            _ => None,
        }
    }
}

proof fn lemma_joined_none(names: Seq<DisplayString>, n: int)
    requires
        0 <= n <= names.len(),
        joined_plain(names.take(n)) is None,
    ensures
        joined_plain(names) is None,
    decreases names.len() - n,
{
    if n < names.len() {
        assert(names.take(n + 1).drop_last() =~= names.take(n));
        lemma_joined_none(names, n + 1);
    } else {
        assert(names.take(n) =~= names);
    }
}

/// Information about server & controller.
pub open spec fn info_text(
    controller_version: Seq<char>,
    most_recent_controller_version: Seq<char>,
    mode_config: Seq<char>,
    server_info: ServerBuildInfo,
    net_stats: ServerNetStats,
    admins: Seq<DisplayString>,
) -> Option<Seq<char>> {
    match joined_plain(admins) {
        Some(names) => Some(
            "This server uses the 'Steward' controller (https://github.com/timwie/steward)\n"@ + "\n"@
                + "Controller version: "@ + controller_version + "\n"@ + "Most recent version: "@
                + most_recent_controller_version + "\n"@ + "\n"@ + "Uptime: "@ + signed_decimal(
                trunc_div(trunc_div(net_stats.uptime_secs as int, 60), 60),
            ) + " hours\n"@ + server_info_pretty(server_info) + "\n"@ + "\n"@ + "Config:\n"@ + mode_config
                + "\n"@ + "Admins: "@ + names + "\n"@,
        ),
        None => None,
    }
}

/// Information about server & controller.
pub fn info(
    controller_version: &str,
    most_recent_controller_version: &str,
    mode_config: &str,
    server_info: &ServerBuildInfo,
    net_stats: &ServerNetStats,
    admins: &Vec<DisplayString>,
) -> (res: Option<String>)
    ensures
        match res {
            Some(t) => info_text(controller_version@, most_recent_controller_version@, mode_config@, *server_info, *net_stats, admins@) == Some(t@),
            None => info_text(controller_version@, most_recent_controller_version@, mode_config@, *server_info, *net_stats, admins@) is None,
        },
{
    let mut names = String::new();
    let mut i: usize = 0;
    while i < admins.len()
        invariant
            i <= admins@.len(),
            joined_plain(admins@.take(i as int)) == Some(names@),
        decreases admins@.len() - i,
    {
        proof {
            assert(admins@.take(i + 1).drop_last() =~= admins@.take(i as int));
            assert(admins@.take(i + 1).last() == admins@[i as int]);
        }
        let p = match admins[i].plain() {
            Some(p) => p,
            None => {
                proof {
                    lemma_joined_none(admins@, i + 1);
                }
                return None;
            },
        };
        if i > 0 {
            push_str(&mut names, ", ");
        }
        push_str(&mut names, p.as_str());
        i = i + 1;
    }
    assert(admins@.take(admins@.len() as int) =~= admins@);
    let mut s = String::new();
    push_str(&mut s, "This server uses the 'Steward' controller (https://github.com/timwie/steward)\n");
    push_str(&mut s, "\n");
    push_str(&mut s, "Controller version: ");
    push_str(&mut s, controller_version);
    push_str(&mut s, "\n");
    push_str(&mut s, "Most recent version: ");
    push_str(&mut s, most_recent_controller_version);
    push_str(&mut s, "\n");
    push_str(&mut s, "\n");
    push_str(&mut s, "Uptime: ");
    push_signed(&mut s, (net_stats.uptime_secs / 60 / 60) as i64);
    push_str(&mut s, " hours\n");
    push_str(&mut s, "ServerBuildInfo {\n    name: ");
    push_str(&mut s, quote_debug(server_info.name.as_str()).as_str());
    push_str(&mut s, ",\n    version: ");
    push_str(&mut s, quote_debug(server_info.version.as_str()).as_str());
    push_str(&mut s, ",\n    version_date: ");
    push_str(&mut s, quote_debug(server_info.version_date.as_str()).as_str());
    push_str(&mut s, ",\n}");
    push_str(&mut s, "\n");
    push_str(&mut s, "\n");
    push_str(&mut s, "Config:\n");
    push_str(&mut s, mode_config);
    push_str(&mut s, "\n");
    push_str(&mut s, "Admins: ");
    push_str(&mut s, names.as_str());
    push_str(&mut s, "\n");
    assert(s@ =~= info_text(controller_version@, most_recent_controller_version@, mode_config@, *server_info, *net_stats, admins@)->0);
    Some(s)
}

} // verus!
