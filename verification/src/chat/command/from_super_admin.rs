//! Chat commands that can only be executed by super admins.

use vstd::prelude::*;

use crate::chat::command::{BadCommandContext, CommandContext, CommandReference, PlayerRole, role_rank};
use crate::chat::command::from_admin::starts_with;
use crate::text::{split_whitespace, split_ws, str_eq};

verus! {

/// Chat commands that can only be executed by super admins.
#[derive(Debug, Clone, Copy)]
pub enum SuperAdminCommand<'a> {
    /// Prepare a dangerous command, that will only be executed after taking
    /// further action.
    ///
    /// Usage: see `DangerousCommand`
    Prepare(DangerousCommand<'a>),
}

/// Destructive chat commands that can only be executed by super admins,
/// after explicitly confirming them.
#[derive(Debug, Clone, Copy)]
pub enum DangerousCommand<'a> {
    /// Delete a map that is not in the playlist from the database.
    ///
    /// Usage: `/delete map <uid>`
    DeleteMap { uid: &'a str },
    /// Delete a blacklisted player from the database.
    ///
    /// Usage: `/delete player <login>`
    DeletePlayer { login: &'a str },
    /// Shutdown the server.
    ///
    /// Usage: `/shutdown`
    Shutdown,
}

/// A dangerous command with its arguments as character sequences.
pub enum DangerousCommandView {
    DeleteMap { uid: Seq<char> },
    DeletePlayer { login: Seq<char> },
    Shutdown,
}

impl<'a> View for DangerousCommand<'a> {
    type V = DangerousCommandView;

    open spec fn view(&self) -> DangerousCommandView {
        match *self {
            DangerousCommand::DeleteMap { uid } => DangerousCommandView::DeleteMap { uid: uid@ },
            DangerousCommand::DeletePlayer { login } => DangerousCommandView::DeletePlayer { login: login@ },
            DangerousCommand::Shutdown => DangerousCommandView::Shutdown,
        }
    }
}

impl<'a> View for SuperAdminCommand<'a> {
    type V = DangerousCommandView;

    open spec fn view(&self) -> DangerousCommandView {
        match *self {
            SuperAdminCommand::Prepare(d) => d@,
        }
    }
}

/// All super admin commands, with empty arguments.
pub open spec fn super_admin_all_views() -> Seq<DangerousCommandView> {
    seq![
    DangerousCommandView::DeleteMap { uid: ""@ },
    DangerousCommandView::DeletePlayer { login: ""@ },
    DangerousCommandView::Shutdown,
]
}

/// The super admin command that the words of a chat message stand for.
pub open spec fn spec_parse_super_admin(w: Seq<Seq<char>>) -> Option<DangerousCommandView> {
    if w.len() == 3 && w[0] == "/delete"@ && w[1] == "map"@ {
        Some(DangerousCommandView::DeleteMap { uid: w[2] })
    } else if w.len() == 3 && w[0] == "/delete"@ && w[1] == "player"@ {
        Some(DangerousCommandView::DeletePlayer { login: w[2] })
    } else if w.len() == 1 && w[0] == "/shutdown"@ {
        Some(DangerousCommandView::Shutdown)
    } else {
        None
    }
}

/// The usage and explanation of a super admin command.
pub open spec fn super_admin_reference(c: DangerousCommandView) -> (Seq<char>, Seq<char>) {
    match c {
        DangerousCommandView::DeleteMap { .. } => ("/delete map <uid>"@, "Delete a map from the database"@),
        DangerousCommandView::DeletePlayer { .. } => ("/delete player <login>"@, "Delete a player from the database"@),
        DangerousCommandView::Shutdown => ("/shutdown"@, "Shutdown the server."@),
    }
}

/// The words of the message that follows the usage of a super admin
/// command, with its argument in place of the placeholder.
pub open spec fn super_admin_words(c: DangerousCommandView) -> Seq<Seq<char>> {
    match c {
        DangerousCommandView::DeleteMap { uid } => seq!["/delete"@, "map"@, uid],
        DangerousCommandView::DeletePlayer { login } => seq!["/delete"@, "player"@, login],
        DangerousCommandView::Shutdown => seq!["/shutdown"@],
    }
}

/// A message parses to a super admin command exactly when its words are
/// those of the command's usage with the argument in place of the
/// placeholder: the fixed words are the usage's (`/delete map` deletes a
/// map, `/delete player` a player), and the last word is the argument.
pub proof fn law_super_admin_command_follows_its_usage(w: Seq<Seq<char>>, c: DangerousCommandView)
    ensures
        (spec_parse_super_admin(w) == Some(c)) == (w == super_admin_words(c)),
        c is Shutdown ==> super_admin_reference(c).0 == super_admin_words(c)[0],
        !(c is Shutdown) ==> starts_with(
            super_admin_reference(c).0,
            super_admin_words(c)[0] + " "@ + super_admin_words(c)[1] + " <"@,
        ),
{
    reveal_strlit("/delete");
    reveal_strlit("map");
    reveal_strlit("player");
    reveal_strlit("/shutdown");
    reveal_strlit("/delete map <uid>");
    reveal_strlit("/delete player <login>");
    reveal_strlit(" ");
    reveal_strlit(" <");
    let v = super_admin_words(c);
    let usage = super_admin_reference(c).0;
    if !(c is Shutdown) {
        assert(usage.take((v[0] + " "@ + v[1] + " <"@).len() as int) =~= v[0] + " "@ + v[1] + " <"@);
    }
    if spec_parse_super_admin(w) == Some(c) {
        assert(w =~= v);
    }
    if w == v {
        assert(w.len() == v.len());
        assert("map"@.len() != "player"@.len());
    }
}

impl<'a> SuperAdminCommand<'a> {
    /// All super admin commands, with empty arguments.
    pub fn all() -> (res: Vec<SuperAdminCommand<'static>>)
        ensures
            res@.map_values(|c: SuperAdminCommand<'static>| c@) == super_admin_all_views(),
    {
        let res = vec![
            SuperAdminCommand::Prepare(DangerousCommand::DeleteMap { uid: "" }),
            SuperAdminCommand::Prepare(DangerousCommand::DeletePlayer { login: "" }),
            SuperAdminCommand::Prepare(DangerousCommand::Shutdown),
        ];
        assert(res@.map_values(|c: SuperAdminCommand<'static>| c@) =~= seq![
            DangerousCommandView::DeleteMap { uid: ""@ },
            DangerousCommandView::DeletePlayer { login: ""@ },
            DangerousCommandView::Shutdown,
        ]);
        res
    }

    /// The super admin command in a chat message, if any.
    pub fn parse(chat_message: &'a str) -> (res: Option<SuperAdminCommand<'a>>)
        ensures
            match res {
                Some(c) => spec_parse_super_admin(split_ws(chat_message@)) == Some(c@),
                None => spec_parse_super_admin(split_ws(chat_message@)) is None,
            },
    {
        let w = split_whitespace(chat_message);
        let n = w.len();
        if n == 3 && str_eq(w[0], "/delete") && str_eq(w[1], "map") {
            Some(SuperAdminCommand::Prepare(DangerousCommand::DeleteMap { uid: w[2] }))
        } else if n == 3 && str_eq(w[0], "/delete") && str_eq(w[1], "player") {
            Some(SuperAdminCommand::Prepare(DangerousCommand::DeletePlayer { login: w[2] }))
        } else if n == 1 && str_eq(w[0], "/shutdown") {
            Some(SuperAdminCommand::Prepare(DangerousCommand::Shutdown))
        } else {
            None
        }
    }

    /// Only super admins may use these commands.
    pub fn check(&self, ctxt: CommandContext) -> (res: Result<(), BadCommandContext>)
        ensures
            role_rank(ctxt.player_role) < role_rank(PlayerRole::SuperAdmin) ==> res matches Err(BadCommandContext::NoPermission),
            role_rank(ctxt.player_role) >= role_rank(PlayerRole::SuperAdmin) ==> res is Ok,
    {
        if ctxt.player_role.rank() < PlayerRole::SuperAdmin.rank() {
            Err(BadCommandContext::NoPermission)
        } else {
            Ok(())
        }
    }

    /// The usage and explanation of this command.
    pub fn reference(&self) -> (res: CommandReference<'static>)
        ensures
            (res.usage@, res.doc@) == super_admin_reference(self@),
    {
        match self {
            SuperAdminCommand::Prepare(DangerousCommand::DeleteMap { .. }) => CommandReference {
                usage: "/delete map <uid>",
                doc: "Delete a map from the database",
            },
            SuperAdminCommand::Prepare(DangerousCommand::DeletePlayer { .. }) => CommandReference {
                usage: "/delete player <login>",
                doc: "Delete a player from the database",
            },
            SuperAdminCommand::Prepare(DangerousCommand::Shutdown) => CommandReference { usage: "/shutdown", doc: "Shutdown the server." },
        }
    }
}

} // verus!
