//! Which chat messages are commands, for whom, and the dangerous commands
//! that wait for a confirmation.

use vstd::prelude::*;

use crate::command::{
    AdminCommand, DangerousCommand, PlayerCommand, SuperAdminCommand, spec_admin_from,
    spec_player_from, spec_super_admin_from,
};
use crate::keyed::{lookup_login, remove_login, unique_logins, upsert_login};
use crate::text::split_ws;

verus! {

/// A chat command, with the login of the player that issued it.
pub enum ChatCommand<'a> {
    Player { cmd: PlayerCommand, from: &'a str },
    Admin { cmd: AdminCommand<'a>, from: &'a str },
    SuperAdmin { cmd: SuperAdminCommand, from: &'a str },
    /// A dangerous command that its super admin has confirmed.
    Dangerous { cmd: DangerousCommand, from: &'a str },
}

/// What becomes of a chat message.
pub enum ChatForward<'a> {
    /// It is no command: it is shown to all players.
    ToAll,
    /// It is this command.
    Command(ChatCommand<'a>),
    /// Nothing is shown or executed: the message was empty, or it prepared a
    /// dangerous command that waits for its confirmation.
    Nothing,
}

/// The dangerous commands of super admins that are yet to be confirmed, one
/// at most for each login.
pub struct ChatState {
    pub unconfirmed: Vec<(String, DangerousCommand)>,
}

/// Whether a chat message is meant as a command.
pub open spec fn is_command_message(message: Seq<char>) -> bool {
    message.len() > 0 && message[0] == '/'
}

/// Whether the words of a chat message are a super admin command.
pub open spec fn is_super_admin_command(w: Seq<Seq<char>>) -> bool {
    !spec_super_admin_from(w, None)
}

/// Whether the words of a chat message prepare a dangerous command.
pub open spec fn prepares_dangerous(w: Seq<Seq<char>>) -> bool {
    is_super_admin_command(w) && w != seq!["/confirm"@] && w != seq!["/help"@]
}

/// What becomes of a chat message, and of the commands that wait for a
/// confirmation: see [`ChatState::forward`].
pub open spec fn forwarded<'a>(
    before: ChatState,
    after: ChatState,
    message: Seq<char>,
    from_login: &'a str,
    is_super_admin: bool,
    is_admin: bool,
    res: ChatForward<'a>,
) -> bool {
    let w = split_ws(message);
    let from = from_login@;
    if !is_command_message(message) {
        &&& after.unconfirmed@ == before.unconfirmed@
        &&& res == if message.len() > 0 {
            ChatForward::ToAll
        } else {
            ChatForward::Nothing
        }
    } else {
        &&& !is_super_admin ==> after.unconfirmed@ == before.unconfirmed@
        &&& is_super_admin ==> forall|l: Seq<char>| l != from ==> #[trigger] after.pending(l) == before.pending(l)
        &&& is_super_admin && !prepares_dangerous(w) ==> after.pending(from) is None
        &&& is_super_admin && prepares_dangerous(w) ==> {
            &&& res == ChatForward::<'a>::Nothing
            &&& after.pending(from) matches Some(c)
            &&& spec_super_admin_from(w, Some(SuperAdminCommand::Unconfirmed(c)))
        }
        &&& is_super_admin && w == seq!["/confirm"@] ==> res == match before.pending(from) {
            Some(c) => ChatForward::Command(ChatCommand::Dangerous { cmd: c, from: from_login }),
            None => ChatForward::Command(
                ChatCommand::SuperAdmin { cmd: SuperAdminCommand::Confirm, from: from_login },
            ),
        }
        &&& is_super_admin && w == seq!["/help"@] ==> res == ChatForward::Command(
            ChatCommand::SuperAdmin { cmd: SuperAdminCommand::Help, from: from_login },
        )
        &&& !(is_super_admin && is_super_admin_command(w)) ==> if is_admin && !spec_admin_from(w, None) {
            &&& res matches ChatForward::Command(ChatCommand::Admin { cmd, from: f })
            &&& f == from_login
            &&& spec_admin_from(w, Some(cmd))
        } else if spec_player_from(w) is Some {
            res == ChatForward::Command(
                ChatCommand::Player { cmd: spec_player_from(w).unwrap(), from: from_login },
            )
        } else if is_super_admin {
            res == ChatForward::Command(
                ChatCommand::SuperAdmin { cmd: SuperAdminCommand::Help, from: from_login },
            )
        } else if is_admin {
            res == ChatForward::Command(ChatCommand::Admin { cmd: AdminCommand::Help, from: from_login })
        } else {
            res == ChatForward::Command(ChatCommand::Player { cmd: PlayerCommand::Help, from: from_login })
        }
    }
}

impl ChatState {
    /// Holds at most one waiting command for each login.
    pub open spec fn wf(&self) -> bool {
        unique_logins(self.unconfirmed@)
    }

    /// The command that waits for the confirmation of this login, if any.
    pub open spec fn pending(&self, login: Seq<char>) -> Option<DangerousCommand> {
        lookup_login(self.unconfirmed@, login)
    }

    /// No command waits for a confirmation.
    pub fn init() -> (res: Self)
        ensures
            res.wf(),
            forall|l: Seq<char>| #[trigger] res.pending(l) is None,
    {
        ChatState { unconfirmed: Vec::new() }
    }

    /// Takes out the command that waits for the confirmation of this login,
    /// to execute it or to cancel it.
    pub fn pop_unconfirmed_command(&mut self, login: &str) -> (res: Option<DangerousCommand>)
        requires
            old(self).wf(),
        ensures
            final(self).wf(),
            res == old(self).pending(login@),
            final(self).pending(login@) is None,
            forall|l: Seq<char>| l != login@ ==> #[trigger] final(self).pending(l) == old(self).pending(l),
    {
        remove_login(&mut self.unconfirmed, login)
    }

    /// Decides what becomes of a chat message by `from_login`, a super admin
    /// and an admin or not:
    /// - a message that is no `/command` is shown to all players, unless it
    ///   is empty;
    /// - every `/command` of a super admin takes out the dangerous command
    ///   that waited for their confirmation; `/confirm` then gives that
    ///   command, or `/confirm` itself where none waited; a dangerous command
    ///   waits for the next one, and gives nothing yet;
    /// - then an admin command of an admin, then a player command;
    /// - an unknown command gives the `/help` of the sender's role.
    pub fn forward<'a>(
        &mut self,
        message: &'a str,
        from_login: &'a str,
        is_super_admin: bool,
        is_admin: bool,
    ) -> (res: ChatForward<'a>)
        requires
            old(self).wf(),
        ensures
            final(self).wf(),
            forwarded(*old(self), *final(self), message@, from_login, is_super_admin, is_admin, res),
    {
        let n = message.unicode_len();
        if n == 0 {
            return ChatForward::Nothing;
        }
        if message.get_char(0) != '/' {
            return ChatForward::ToAll;
        }
        if is_super_admin {
            let maybe_unconfirmed = remove_login(&mut self.unconfirmed, from_login);
            match SuperAdminCommand::from(message) {
                None => {},
                Some(SuperAdminCommand::Confirm) => {
                    assert(split_ws(message@) =~= seq!["/confirm"@]);
                    return match maybe_unconfirmed {
                        Some(cmd) => ChatForward::Command(
                            ChatCommand::Dangerous { cmd, from: from_login },
                        ),
                        None => ChatForward::Command(
                            ChatCommand::SuperAdmin { cmd: SuperAdminCommand::Confirm, from: from_login },
                        ),
                    };
                },
                Some(SuperAdminCommand::Unconfirmed(cmd)) => {
                    proof {
                        reveal_strlit("/shutdown");
                        reveal_strlit("/confirm");
                        reveal_strlit("/help");
                        let w = split_ws(message@);
                        if w.len() == 1 {
                            assert(w[0] == "/shutdown"@);
                            assert("/shutdown"@.len() == 9);
                            assert(w[0] != "/confirm"@);
                            assert(w[0] != "/help"@);
                        }
                        assert(w != seq!["/confirm"@]);
                        assert(w != seq!["/help"@]);
                    }
                    upsert_login(&mut self.unconfirmed, String::from_str(from_login), cmd);
                    return ChatForward::Nothing;
                },
                Some(cmd) => {
                    proof {
                        reveal_strlit("/confirm");
                        reveal_strlit("/help");
                        assert(split_ws(message@) =~= seq!["/help"@]);
                        assert("/help"@.len() == 5);
                        assert(split_ws(message@) != seq!["/confirm"@]);
                    }
                    return ChatForward::Command(ChatCommand::SuperAdmin { cmd, from: from_login });
                },
            }
        }
        if is_admin {
            if let Some(cmd) = AdminCommand::from(message) {
                return ChatForward::Command(ChatCommand::Admin { cmd, from: from_login });
            }
        }
        if let Some(cmd) = PlayerCommand::from(message) {
            return ChatForward::Command(ChatCommand::Player { cmd, from: from_login });
        }
        if is_super_admin {
            ChatForward::Command(
                ChatCommand::SuperAdmin { cmd: SuperAdminCommand::Help, from: from_login },
            )
        } else if is_admin {
            ChatForward::Command(ChatCommand::Admin { cmd: AdminCommand::Help, from: from_login })
        } else {
            ChatForward::Command(ChatCommand::Player { cmd: PlayerCommand::Help, from: from_login })
        }
    }
}

/// A dangerous command waits for its super admin's next command: when that
/// is `/confirm`, it gives the command that was prepared, and preparing it
/// gave nothing.
pub proof fn law_confirm_gives_prepared<'a>(
    s0: ChatState,
    s1: ChatState,
    s2: ChatState,
    prepare: Seq<char>,
    confirm: Seq<char>,
    from_login: &'a str,
    is_admin: bool,
    r1: ChatForward<'a>,
    r2: ChatForward<'a>,
)
    requires
        is_command_message(prepare),
        prepares_dangerous(split_ws(prepare)),
        is_command_message(confirm),
        split_ws(confirm) == seq!["/confirm"@],
        forwarded(s0, s1, prepare, from_login, true, is_admin, r1),
        forwarded(s1, s2, confirm, from_login, true, is_admin, r2),
    ensures
        r1 == ChatForward::<'a>::Nothing,
        exists|c: DangerousCommand|
            spec_super_admin_from(split_ws(prepare), Some(SuperAdminCommand::Unconfirmed(c))) && r2
                == ChatForward::Command(ChatCommand::Dangerous { cmd: c, from: from_login }),
{
    let c = s1.pending(from_login@).unwrap();
    assert(spec_super_admin_from(split_ws(prepare), Some(SuperAdminCommand::Unconfirmed(c))));
}

} // verus!
