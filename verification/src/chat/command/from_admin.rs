//! Chat commands that can only be executed by admins.

use vstd::prelude::*;

use crate::chat::command::{BadCommandContext, CommandContext, CommandReference, PlayerRole, role_rank};
use crate::gbx::structs::ModeScript;
use crate::text::{
    decimal, lemma_decimal_digits, lemma_decimal_value, parse_u64, spec_parse_u64, split_whitespace, split_ws, str_eq,
};

verus! {

/// Chat commands that can only be executed by admins.
#[derive(Debug, Copy, Clone)]
pub enum AdminCommand<'a> {
    /// Open the config editor.
    ///
    /// Usage: `/config`
    EditConfig,
    /// List the server's maps and their UIDs, in- and outside of the playlist.
    ///
    /// Usage: `/maps`
    ListMaps,
    /// List the connected players with login and display names.
    ///
    /// Usage: `/players`
    ListPlayers,
    /// Add the map with the given UID to the playlist.
    ///
    /// Usage: `/playlist add <uid>`
    PlaylistAdd { uid: &'a str },
    /// Remove the map with the given UID from the playlist.
    ///
    /// Usage: `/playlist remove <uid>`
    PlaylistRemove { uid: &'a str },
    /// Import a map from `trackmania.exchange`, by its ID on the website (a
    /// number), or its UID (from inside the map file): download it, add it to
    /// the database & playlist, and queue it as the next map.
    ///
    /// Usage: `/map_import <id/uid>`
    ImportMap { id: &'a str },
    /// End the current race immediately.
    ///
    /// Usage `/skip`
    SkipCurrentMap,
    /// Restart the current map after the race.
    ///
    /// Usage `/restart`
    RestartCurrentMap,
    /// Set the map that will be played after the current one. Running this
    /// command multiple times will queue all maps in order.
    ///
    /// Usage `/queue <uid>`
    ForceQueue { uid: &'a str },
    /// Add a player to the server's blacklist, and kick them if they are
    /// currently connected.
    ///
    /// Usage: `/blacklist <login>`
    BlacklistAdd { login: &'a str },
    /// Remove a player from the server's blacklist.
    ///
    /// Usage: `/unblacklist <login>`
    BlacklistRemove { login: &'a str },
    /// Pause or unpause the match.
    ///
    /// Usage: `/pause`
    TogglePause,
    /// Extend the current warmup round.
    ///
    /// Usage: `/warmup add <seconds>`
    ExtendWarmup { secs: u64 },
    /// End the current warmup section.
    ///
    /// Usage: `/warmup skip`
    SkipWarmup,
}

/// An admin command with its arguments as character sequences.
pub enum AdminCommandView {
    EditConfig,
    ListMaps,
    ListPlayers,
    PlaylistAdd { uid: Seq<char> },
    PlaylistRemove { uid: Seq<char> },
    ImportMap { id: Seq<char> },
    SkipCurrentMap,
    RestartCurrentMap,
    ForceQueue { uid: Seq<char> },
    BlacklistAdd { login: Seq<char> },
    BlacklistRemove { login: Seq<char> },
    TogglePause,
    ExtendWarmup { secs: u64 },
    SkipWarmup,
}

impl<'a> View for AdminCommand<'a> {
    type V = AdminCommandView;

    open spec fn view(&self) -> AdminCommandView {
        match *self {
            AdminCommand::EditConfig => AdminCommandView::EditConfig,
            AdminCommand::ListMaps => AdminCommandView::ListMaps,
            AdminCommand::ListPlayers => AdminCommandView::ListPlayers,
            AdminCommand::PlaylistAdd { uid } => AdminCommandView::PlaylistAdd { uid: uid@ },
            AdminCommand::PlaylistRemove { uid } => AdminCommandView::PlaylistRemove { uid: uid@ },
            AdminCommand::ImportMap { id } => AdminCommandView::ImportMap { id: id@ },
            AdminCommand::SkipCurrentMap => AdminCommandView::SkipCurrentMap,
            AdminCommand::RestartCurrentMap => AdminCommandView::RestartCurrentMap,
            AdminCommand::ForceQueue { uid } => AdminCommandView::ForceQueue { uid: uid@ },
            AdminCommand::BlacklistAdd { login } => AdminCommandView::BlacklistAdd { login: login@ },
            AdminCommand::BlacklistRemove { login } => AdminCommandView::BlacklistRemove { login: login@ },
            AdminCommand::TogglePause => AdminCommandView::TogglePause,
            AdminCommand::ExtendWarmup { secs } => AdminCommandView::ExtendWarmup { secs },
            AdminCommand::SkipWarmup => AdminCommandView::SkipWarmup,
        }
    }
}

/// All admin commands, with empty arguments.
pub open spec fn admin_all_views() -> Seq<AdminCommandView> {
    seq![
    AdminCommandView::EditConfig,
    AdminCommandView::ListMaps,
    AdminCommandView::ListPlayers,
    AdminCommandView::PlaylistAdd { uid: ""@ },
    AdminCommandView::PlaylistRemove { uid: ""@ },
    AdminCommandView::ImportMap { id: ""@ },
    AdminCommandView::SkipCurrentMap,
    AdminCommandView::RestartCurrentMap,
    AdminCommandView::ForceQueue { uid: ""@ },
    AdminCommandView::BlacklistAdd { login: ""@ },
    AdminCommandView::BlacklistRemove { login: ""@ },
    AdminCommandView::TogglePause,
    AdminCommandView::ExtendWarmup { secs: 0 },
    AdminCommandView::SkipWarmup,
]
}

/// The admin command that the words of a chat message stand for.
pub open spec fn spec_parse_admin(w: Seq<Seq<char>>) -> Option<AdminCommandView> {
    if w.len() == 2 && w[0] == "/blacklist"@ {
        Some(AdminCommandView::BlacklistAdd { login: w[1] })
    } else if w.len() == 1 && w[0] == "/config"@ {
        Some(AdminCommandView::EditConfig)
    } else if w.len() == 2 && w[0] == "/map_import"@ {
        Some(AdminCommandView::ImportMap { id: w[1] })
    } else if w.len() == 1 && w[0] == "/maps"@ {
        Some(AdminCommandView::ListMaps)
    } else if w.len() == 1 && w[0] == "/pause"@ {
        Some(AdminCommandView::TogglePause)
    } else if w.len() == 1 && w[0] == "/players"@ {
        Some(AdminCommandView::ListPlayers)
    } else if w.len() == 3 && w[0] == "/playlist"@ && w[1] == "add"@ {
        Some(AdminCommandView::PlaylistAdd { uid: w[2] })
    } else if w.len() == 3 && w[0] == "/playlist"@ && w[1] == "remove"@ {
        Some(AdminCommandView::PlaylistRemove { uid: w[2] })
    } else if w.len() == 2 && w[0] == "/queue"@ {
        Some(AdminCommandView::ForceQueue { uid: w[1] })
    } else if w.len() == 1 && w[0] == "/restart"@ {
        Some(AdminCommandView::RestartCurrentMap)
    } else if w.len() == 1 && w[0] == "/skip"@ {
        Some(AdminCommandView::SkipCurrentMap)
    } else if w.len() == 2 && w[0] == "/unblacklist"@ {
        Some(AdminCommandView::BlacklistRemove { login: w[1] })
    } else if w.len() == 3 && w[0] == "/warmup"@ && w[1] == "add"@ {
        match spec_parse_u64(w[2]) {
            Some(secs) => Some(AdminCommandView::ExtendWarmup { secs }),
            None => None,
        }
    } else if w.len() == 2 && w[0] == "/warmup"@ && w[1] == "skip"@ {
        Some(AdminCommandView::SkipWarmup)
    } else {
        None
    }
}

/// Why an admin command cannot be executed in the context, if it cannot.
pub open spec fn spec_check_admin(c: AdminCommandView, ctxt: CommandContext) -> Option<BadCommandContext> {
    let warmup_cmd = c is ExtendWarmup || c is SkipWarmup;
    if role_rank(ctxt.player_role) < role_rank(PlayerRole::Admin) {
        Some(BadCommandContext::NoPermission)
    } else if warmup_cmd && !ctxt.warmup.available {
        Some(BadCommandContext::InOtherModes)
    } else if warmup_cmd && !ctxt.warmup.active {
        Some(BadCommandContext::DuringWarmup)
    } else if c is TogglePause && !ctxt.pause.available {
        Some(BadCommandContext::InOtherModes)
    } else if (c is ForceQueue || c is SkipCurrentMap || c is RestartCurrentMap) && !(*ctxt.mode is TimeAttack) {
        Some(BadCommandContext::InMode(ModeScript::TimeAttack))
    } else {
        None
    }
}

/// The usage and explanation of an admin command.
pub open spec fn admin_reference(c: AdminCommandView) -> (Seq<char>, Seq<char>) {
    match c {
        AdminCommandView::EditConfig => ("/config"@, "Open the config editor"@),
        AdminCommandView::ListMaps => ("/maps"@, "List maps in- and outside of the playlist"@),
        AdminCommandView::ListPlayers => ("/players"@, "List connected players' logins and names"@),
        AdminCommandView::PlaylistAdd { .. } => ("/playlist add <uid>"@, "Add a map to the playlist"@),
        AdminCommandView::PlaylistRemove { .. } => ("/playlist remove <uid>"@, "Remove a map from the playlist"@),
        AdminCommandView::ImportMap { .. } => ("/map_import <id/uid>"@, "Import the TMX map with the given id"@),
        AdminCommandView::SkipCurrentMap => ("/skip"@, "Start the next map immediately"@),
        AdminCommandView::RestartCurrentMap => ("/restart"@, "Restart the current map after this race"@),
        AdminCommandView::ForceQueue { .. } => ("/queue <uid>"@, "Select the next map"@),
        AdminCommandView::BlacklistAdd { .. } => ("/blacklist <login>"@, "Add a player to the blacklist"@),
        AdminCommandView::BlacklistRemove { .. } => ("/unblacklist <login>"@, "Remove a player from the blacklist"@),
        AdminCommandView::TogglePause => ("/pause"@, "Pause or unpause the current match"@),
        AdminCommandView::ExtendWarmup { .. } => ("/warmup add <seconds>"@, "Extend the current warmup round"@),
        AdminCommandView::SkipWarmup => ("/warmup skip"@, "End the current warmup section"@),
    }
}

/// Whether `s` begins with `p`.
pub open spec fn starts_with(s: Seq<char>, p: Seq<char>) -> bool {
    p.len() <= s.len() && s.take(p.len() as int) == p
}

/// The word that an admin command takes as its argument, if it takes one.
pub open spec fn admin_argument(c: AdminCommandView) -> Option<Seq<char>> {
    match c {
        AdminCommandView::PlaylistAdd { uid } => Some(uid),
        AdminCommandView::PlaylistRemove { uid } => Some(uid),
        AdminCommandView::ImportMap { id } => Some(id),
        AdminCommandView::ForceQueue { uid } => Some(uid),
        AdminCommandView::BlacklistAdd { login } => Some(login),
        AdminCommandView::BlacklistRemove { login } => Some(login),
        _ => None,
    }
}

/// The words of a message match the usage of the command parsed from it:
/// a message of one word is the usage itself; in a longer one, each word
/// but the last is the usage's word at that place, and the last is either
/// the usage's last word or stands for the usage's argument placeholder
/// (`<...>`), whose value the command holds.
pub open spec fn matches_usage(w: Seq<Seq<char>>, c: AdminCommandView) -> bool {
    let usage = admin_reference(c).0;
    &&& w.len() == 1 ==> usage == w[0]
    &&& w.len() == 2 ==> (usage == w[0] + " "@ + w[1] && admin_argument(c) is None) || (starts_with(
        usage,
        w[0] + " <"@,
    ) && admin_argument(c) == Some(w[1]))
    &&& w.len() == 3 ==> starts_with(usage, w[0] + " "@ + w[1] + " <"@)
    &&& (w.len() == 3 && c is ExtendWarmup) ==> spec_parse_u64(w[2]) == Some(c->secs)
    &&& (w.len() == 3 && !(c is ExtendWarmup)) ==> admin_argument(c) == Some(w[2])
    &&& 1 <= w.len() <= 3
}

/// The admin command parsed from a chat message is the one whose usage the
/// message follows: its first word is the command's name (so `/restart`
/// restarts the map and `/skip` skips it), further fixed words are the
/// usage's, and the argument is the word written in place of the usage's
/// placeholder.
pub proof fn law_admin_command_follows_its_usage(m: Seq<char>)
    ensures
        spec_parse_admin(split_ws(m)) matches Some(c) ==> matches_usage(split_ws(m), c),
{
    let w = split_ws(m);
    reveal_strlit("/blacklist");
    reveal_strlit("/blacklist <login>");
    reveal_strlit("/config");
    reveal_strlit("/map_import");
    reveal_strlit("/map_import <id/uid>");
    reveal_strlit("/maps");
    reveal_strlit("/pause");
    reveal_strlit("/players");
    reveal_strlit("/playlist");
    reveal_strlit("add");
    reveal_strlit("remove");
    reveal_strlit("/playlist add <uid>");
    reveal_strlit("/playlist remove <uid>");
    reveal_strlit("/queue");
    reveal_strlit("/queue <uid>");
    reveal_strlit("/restart");
    reveal_strlit("/skip");
    reveal_strlit("/unblacklist");
    reveal_strlit("/unblacklist <login>");
    reveal_strlit("/warmup");
    reveal_strlit("skip");
    reveal_strlit("/warmup add <seconds>");
    reveal_strlit("/warmup skip");
    reveal_strlit(" ");
    reveal_strlit(" <");
    if let Some(c) = spec_parse_admin(w) {
        let usage = admin_reference(c).0;
        if w.len() == 2 && w[0] == "/blacklist"@ {
            assert(usage.take((w[0] + " <"@).len() as int) =~= w[0] + " <"@);
        } else if w.len() == 1 && w[0] == "/config"@ {
        } else if w.len() == 2 && w[0] == "/map_import"@ {
            assert(usage.take((w[0] + " <"@).len() as int) =~= w[0] + " <"@);
        } else if w.len() == 1 && w[0] == "/maps"@ {
        } else if w.len() == 1 && w[0] == "/pause"@ {
        } else if w.len() == 1 && w[0] == "/players"@ {
        } else if w.len() == 3 && w[0] == "/playlist"@ && w[1] == "add"@ {
            assert(usage.take((w[0] + " "@ + w[1] + " <"@).len() as int) =~= w[0] + " "@ + w[1] + " <"@);
        } else if w.len() == 3 && w[0] == "/playlist"@ && w[1] == "remove"@ {
            assert(usage.take((w[0] + " "@ + w[1] + " <"@).len() as int) =~= w[0] + " "@ + w[1] + " <"@);
        } else if w.len() == 2 && w[0] == "/queue"@ {
            assert(usage.take((w[0] + " <"@).len() as int) =~= w[0] + " <"@);
        } else if w.len() == 1 && w[0] == "/restart"@ {
        } else if w.len() == 1 && w[0] == "/skip"@ {
        } else if w.len() == 2 && w[0] == "/unblacklist"@ {
            assert(usage.take((w[0] + " <"@).len() as int) =~= w[0] + " <"@);
        } else if w.len() == 3 && w[0] == "/warmup"@ && w[1] == "add"@ {
            assert(usage.take((w[0] + " "@ + w[1] + " <"@).len() as int) =~= w[0] + " "@ + w[1] + " <"@);
        } else {
            assert(w.len() == 2 && w[0] == "/warmup"@ && w[1] == "skip"@);
            assert(usage =~= w[0] + " "@ + w[1]);
        }
    }
}

/// The words of a message that follows the usage of a command, with its
/// argument (a number in decimal) in place of the placeholder.
pub open spec fn admin_words(c: AdminCommandView) -> Seq<Seq<char>> {
    match c {
        AdminCommandView::EditConfig => seq!["/config"@],
        AdminCommandView::ListMaps => seq!["/maps"@],
        AdminCommandView::ListPlayers => seq!["/players"@],
        AdminCommandView::PlaylistAdd { uid } => seq!["/playlist"@, "add"@, uid],
        AdminCommandView::PlaylistRemove { uid } => seq!["/playlist"@, "remove"@, uid],
        AdminCommandView::ImportMap { id } => seq!["/map_import"@, id],
        AdminCommandView::SkipCurrentMap => seq!["/skip"@],
        AdminCommandView::RestartCurrentMap => seq!["/restart"@],
        AdminCommandView::ForceQueue { uid } => seq!["/queue"@, uid],
        AdminCommandView::BlacklistAdd { login } => seq!["/blacklist"@, login],
        AdminCommandView::BlacklistRemove { login } => seq!["/unblacklist"@, login],
        AdminCommandView::TogglePause => seq!["/pause"@],
        AdminCommandView::ExtendWarmup { secs } => seq!["/warmup"@, "add"@, decimal(secs as nat)],
        AdminCommandView::SkipWarmup => seq!["/warmup"@, "skip"@],
    }
}

/// Every admin command is what a message that follows its usage parses to:
/// writing `/restart` restarts the map, `/skip` skips it, and `/queue <uid>`
/// queues that map; the words of such a message match the usage that the
/// command's reference shows.
pub proof fn law_admin_usage_parses(c: AdminCommandView)
    ensures
        matches_usage(admin_words(c), c),
        spec_parse_admin(admin_words(c)) == Some(c),
{
    reveal_strlit("/blacklist");
    reveal_strlit("/blacklist <login>");
    reveal_strlit("/config");
    reveal_strlit("/map_import");
    reveal_strlit("/map_import <id/uid>");
    reveal_strlit("/maps");
    reveal_strlit("/pause");
    reveal_strlit("/players");
    reveal_strlit("/playlist");
    reveal_strlit("add");
    reveal_strlit("remove");
    reveal_strlit("/playlist add <uid>");
    reveal_strlit("/playlist remove <uid>");
    reveal_strlit("/queue");
    reveal_strlit("/queue <uid>");
    reveal_strlit("/restart");
    reveal_strlit("/skip");
    reveal_strlit("/unblacklist");
    reveal_strlit("/unblacklist <login>");
    reveal_strlit("/warmup");
    reveal_strlit("skip");
    reveal_strlit("/warmup add <seconds>");
    reveal_strlit("/warmup skip");
    reveal_strlit(" ");
    reveal_strlit(" <");
    let w = admin_words(c);
    let usage = admin_reference(c).0;
    assert(w.len() >= 1 && w.len() <= 3);
    assert(w.len() >= 2 ==> w[0] == admin_words(c)[0] && w[1] == admin_words(c)[1]);
    match c {
        AdminCommandView::PlaylistAdd { uid } => {
            assert(w.len() == 3 && w[0] == "/playlist"@ && w[1] == "add"@ && w[2] == uid);
            assert(!(w.len() == 2) && !(w.len() == 1));
            assert(spec_parse_admin(w) == Some(AdminCommandView::PlaylistAdd { uid: w[2] }));
            assert(usage.take((w[0] + " "@ + w[1] + " <"@).len() as int) =~= w[0] + " "@ + w[1] + " <"@);
            assert(spec_parse_admin(w) == Some(c));
        },
        AdminCommandView::PlaylistRemove { uid } => {
            assert("/playlist"@[1] != "/map_import"@[1]);
            assert("remove"@.len() == 6 && "add"@.len() == 3);
            assert(usage.take((w[0] + " "@ + w[1] + " <"@).len() as int) =~= w[0] + " "@ + w[1] + " <"@);
            assert(spec_parse_admin(w) == Some(c));
        },
        AdminCommandView::ImportMap { id } => {
            assert(usage.take((w[0] + " <"@).len() as int) =~= w[0] + " <"@);
            assert(spec_parse_admin(w) == Some(c));
        },
        AdminCommandView::ForceQueue { uid } => {
            assert(usage.take((w[0] + " <"@).len() as int) =~= w[0] + " <"@);
            assert(spec_parse_admin(w) == Some(c));
        },
        AdminCommandView::BlacklistAdd { login } => {
            assert(usage.take((w[0] + " <"@).len() as int) =~= w[0] + " <"@);
            assert(spec_parse_admin(w) == Some(c));
        },
        AdminCommandView::BlacklistRemove { login } => {
            assert("/unblacklist"@[1] != "/blacklist"@[1]);
            assert(usage.take((w[0] + " <"@).len() as int) =~= w[0] + " <"@);
            assert(spec_parse_admin(w) == Some(c));
        },
        AdminCommandView::ExtendWarmup { secs } => {
            lemma_decimal_digits(secs as nat);
            lemma_decimal_value(secs as nat);
            assert(decimal(secs as nat)[0] != '+');
            assert(usage.take((w[0] + " "@ + w[1] + " <"@).len() as int) =~= w[0] + " "@ + w[1] + " <"@);
            assert(spec_parse_admin(w) == Some(c));
        },
        AdminCommandView::SkipWarmup => {
            assert(usage =~= w[0] + " "@ + w[1]);
            assert(spec_parse_admin(w) == Some(c));
        },
        _ => {
            assert("/skip"@[1] != "/maps"@[1]);
            assert("/restart"@[1] != "/players"@[1]);
            assert(spec_parse_admin(w) == Some(c));
        },
    }
}

/// Only admins and super admins may run admin commands; for them, the
/// warmup commands run only during an active warmup of a mode that has one,
/// `/pause` only where the mode can pause, and the queue commands (`/queue`,
/// `/skip`, `/restart`) only in Time Attack. Every other admin command runs
/// for every admin, whatever the mode, warmup or pause.
pub proof fn law_admin_commands_need_permission(c: AdminCommandView, ctxt: CommandContext)
    ensures
        ctxt.player_role == PlayerRole::Player ==> spec_check_admin(c, ctxt) == Some(BadCommandContext::NoPermission),
        ctxt.player_role != PlayerRole::Player ==> spec_check_admin(c, ctxt) != Some(BadCommandContext::NoPermission),
        ctxt.player_role != PlayerRole::Player && (c is ExtendWarmup || c is SkipWarmup) ==> (spec_check_admin(c, ctxt)
            is None <==> ctxt.warmup.available && ctxt.warmup.active),
        ctxt.player_role != PlayerRole::Player && c is TogglePause ==> (spec_check_admin(c, ctxt) is None
            <==> ctxt.pause.available),
        ctxt.player_role != PlayerRole::Player && (c is ForceQueue || c is SkipCurrentMap || c is RestartCurrentMap)
            ==> (spec_check_admin(c, ctxt) is None <==> *ctxt.mode is TimeAttack),
        ctxt.player_role != PlayerRole::Player && !(c is ExtendWarmup || c is SkipWarmup || c is TogglePause
            || c is ForceQueue || c is SkipCurrentMap || c is RestartCurrentMap) ==> spec_check_admin(c, ctxt) is None,
{
}

impl<'a> AdminCommand<'a> {
    /// All admin commands, with empty arguments.
    pub fn all() -> (res: Vec<AdminCommand<'static>>)
        ensures
            res@.len() == 14,
            res@.map_values(|c: AdminCommand<'static>| c@) == admin_all_views(),
    {
        let res = vec![
            AdminCommand::EditConfig,
            AdminCommand::ListMaps,
            AdminCommand::ListPlayers,
            AdminCommand::PlaylistAdd { uid: "" },
            AdminCommand::PlaylistRemove { uid: "" },
            AdminCommand::ImportMap { id: "" },
            AdminCommand::SkipCurrentMap,
            AdminCommand::RestartCurrentMap,
            AdminCommand::ForceQueue { uid: "" },
            AdminCommand::BlacklistAdd { login: "" },
            AdminCommand::BlacklistRemove { login: "" },
            AdminCommand::TogglePause,
            AdminCommand::ExtendWarmup { secs: 0 },
            AdminCommand::SkipWarmup,
        ];
        assert(res@.map_values(|c: AdminCommand<'static>| c@) =~= seq![
            AdminCommandView::EditConfig,
            AdminCommandView::ListMaps,
            AdminCommandView::ListPlayers,
            AdminCommandView::PlaylistAdd { uid: ""@ },
            AdminCommandView::PlaylistRemove { uid: ""@ },
            AdminCommandView::ImportMap { id: ""@ },
            AdminCommandView::SkipCurrentMap,
            AdminCommandView::RestartCurrentMap,
            AdminCommandView::ForceQueue { uid: ""@ },
            AdminCommandView::BlacklistAdd { login: ""@ },
            AdminCommandView::BlacklistRemove { login: ""@ },
            AdminCommandView::TogglePause,
            AdminCommandView::ExtendWarmup { secs: 0 },
            AdminCommandView::SkipWarmup,
        ]);
        res
    }

    /// The admin command in a chat message, if any.
    pub fn parse(chat_message: &'a str) -> (res: Option<AdminCommand<'a>>)
        ensures
            match res {
                Some(c) => spec_parse_admin(split_ws(chat_message@)) == Some(c@),
                None => spec_parse_admin(split_ws(chat_message@)) is None,
            },
    {
        let w = split_whitespace(chat_message);
        let n = w.len();
        if n == 2 && str_eq(w[0], "/blacklist") {
            Some(AdminCommand::BlacklistAdd { login: w[1] })
        } else if n == 1 && str_eq(w[0], "/config") {
            Some(AdminCommand::EditConfig)
        } else if n == 2 && str_eq(w[0], "/map_import") {
            Some(AdminCommand::ImportMap { id: w[1] })
        } else if n == 1 && str_eq(w[0], "/maps") {
            Some(AdminCommand::ListMaps)
        } else if n == 1 && str_eq(w[0], "/pause") {
            Some(AdminCommand::TogglePause)
        } else if n == 1 && str_eq(w[0], "/players") {
            Some(AdminCommand::ListPlayers)
        } else if n == 3 && str_eq(w[0], "/playlist") && str_eq(w[1], "add") {
            Some(AdminCommand::PlaylistAdd { uid: w[2] })
        } else if n == 3 && str_eq(w[0], "/playlist") && str_eq(w[1], "remove") {
            Some(AdminCommand::PlaylistRemove { uid: w[2] })
        } else if n == 2 && str_eq(w[0], "/queue") {
            Some(AdminCommand::ForceQueue { uid: w[1] })
        } else if n == 1 && str_eq(w[0], "/restart") {
            Some(AdminCommand::RestartCurrentMap)
        } else if n == 1 && str_eq(w[0], "/skip") {
            Some(AdminCommand::SkipCurrentMap)
        } else if n == 2 && str_eq(w[0], "/unblacklist") {
            Some(AdminCommand::BlacklistRemove { login: w[1] })
        } else if n == 3 && str_eq(w[0], "/warmup") && str_eq(w[1], "add") {
            match parse_u64(w[2]) {
                Some(secs) => Some(AdminCommand::ExtendWarmup { secs }),
                None => None,
            }
        } else if n == 2 && str_eq(w[0], "/warmup") && str_eq(w[1], "skip") {
            Some(AdminCommand::SkipWarmup)
        } else {
            None
        }
    }

    /// Whether this command can be executed in the context: only admins may,
    /// warmup commands only during warmups of modes that have them, pausing
    /// only in modes that allow it, and the queue commands only in TimeAttack.
    pub fn check(&self, ctxt: CommandContext) -> (res: Result<(), BadCommandContext>)
        ensures
            match spec_check_admin(self@, ctxt) {
                None => res is Ok,
                Some(e) => res matches Err(r) && r == e,
            },
    {
        let warmup_cmd = match self {
            AdminCommand::ExtendWarmup { .. } | AdminCommand::SkipWarmup => true,
            _ => false,
        };
        let queue_cmd = match self {
            AdminCommand::ForceQueue { .. } | AdminCommand::SkipCurrentMap | AdminCommand::RestartCurrentMap => true,
            _ => false,
        };
        let pause_cmd = match self {
            AdminCommand::TogglePause => true,
            _ => false,
        };
        if ctxt.player_role.rank() < PlayerRole::Admin.rank() {
            Err(BadCommandContext::NoPermission)
        } else if warmup_cmd && !ctxt.warmup.available {
            Err(BadCommandContext::InOtherModes)
        } else if warmup_cmd && !ctxt.warmup.active {
            Err(BadCommandContext::DuringWarmup)
        } else if pause_cmd && !ctxt.pause.available {
            Err(BadCommandContext::InOtherModes)
        } else if queue_cmd && !matches!(ctxt.mode, ModeScript::TimeAttack) {
            Err(BadCommandContext::InMode(ModeScript::TimeAttack))
        } else {
            Ok(())
        }
    }

    /// The usage and explanation of this command.
    pub fn reference(&self) -> (res: CommandReference<'static>)
        ensures
            (res.usage@, res.doc@) == admin_reference(self@),
    {
        match self {
            AdminCommand::EditConfig => CommandReference { usage: "/config", doc: "Open the config editor" },
            AdminCommand::ListMaps => CommandReference { usage: "/maps", doc: "List maps in- and outside of the playlist" },
            AdminCommand::ListPlayers => CommandReference { usage: "/players", doc: "List connected players' logins and names" },
            AdminCommand::PlaylistAdd { .. } => CommandReference { usage: "/playlist add <uid>", doc: "Add a map to the playlist" },
            AdminCommand::PlaylistRemove { .. } => CommandReference {
                usage: "/playlist remove <uid>",
                doc: "Remove a map from the playlist",
            },
            AdminCommand::ImportMap { .. } => CommandReference {
                usage: "/map_import <id/uid>",
                doc: "Import the TMX map with the given id",
            },
            AdminCommand::SkipCurrentMap => CommandReference { usage: "/skip", doc: "Start the next map immediately" },
            AdminCommand::RestartCurrentMap => CommandReference { usage: "/restart", doc: "Restart the current map after this race" },
            AdminCommand::ForceQueue { .. } => CommandReference { usage: "/queue <uid>", doc: "Select the next map" },
            AdminCommand::BlacklistAdd { .. } => CommandReference { usage: "/blacklist <login>", doc: "Add a player to the blacklist" },
            AdminCommand::BlacklistRemove { .. } => CommandReference {
                usage: "/unblacklist <login>",
                doc: "Remove a player from the blacklist",
            },
            AdminCommand::TogglePause => CommandReference { usage: "/pause", doc: "Pause or unpause the current match" },
            AdminCommand::ExtendWarmup { .. } => CommandReference { usage: "/warmup add <seconds>", doc: "Extend the current warmup round" },
            AdminCommand::SkipWarmup => CommandReference { usage: "/warmup skip", doc: "End the current warmup section" },
        }
    }
}

} // verus!
