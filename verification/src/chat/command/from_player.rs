//! Chat commands for all players.

use vstd::prelude::*;

use crate::chat::command::{BadCommandContext, CommandContext, CommandReference};
use crate::text::{split_whitespace, split_ws, str_eq};

verus! {

/// Chat commands for all players.
#[derive(Debug, Copy, Clone, PartialEq, Eq, Structural)]
pub enum PlayerCommand {
    /// Print information about server & controller.
    ///
    /// Usage: `/info`
    Info,
}

/// The player command that the words of a chat message stand for.
pub open spec fn spec_parse_player(words: Seq<Seq<char>>) -> Option<PlayerCommand> {
    if words.len() == 1 && words[0] == "/info"@ {
        Some(PlayerCommand::Info)
    } else {
        None
    }
}

impl PlayerCommand {
    /// All player commands.
    pub fn all() -> (res: Vec<PlayerCommand>)
        ensures
            res@ == seq![PlayerCommand::Info],
    {
        let res = vec![PlayerCommand::Info];
        assert(res@ =~= seq![PlayerCommand::Info]);
        res
    }

    /// The player command in a chat message, if any.
    pub fn parse(chat_message: &str) -> (res: Option<PlayerCommand>)
        ensures
            res == spec_parse_player(split_ws(chat_message@)),
    {
        let parts = split_whitespace(chat_message);
        if parts.len() == 1 && str_eq(parts[0], "/info") {
            Some(PlayerCommand::Info)
        } else {
            None
        }
    }

    /// Every player may use player commands.
    pub fn check(&self, ctxt: CommandContext) -> (res: Result<(), BadCommandContext>)
        ensures
            res is Ok,
    {
        Ok(())
    }

    /// The usage and explanation of this command.
    pub fn reference(&self) -> (res: CommandReference<'static>)
        ensures
            res.usage@ == "/info"@,
            res.doc@ == "Display server & controller information"@,
    {
        CommandReference { usage: "/info", doc: "Display server & controller information" }
    }
}

/// A message is the `/info` command exactly when it is the one word that the
/// command's usage shows, `/info`.
pub proof fn law_info_is_its_usage(w: Seq<Seq<char>>)
    ensures
        (spec_parse_player(w) == Some(PlayerCommand::Info)) == (w == seq!["/info"@]),
{
    if w == seq!["/info"@] {
        assert(w.len() == 1 && w[0] == "/info"@);
    }
    if spec_parse_player(w) == Some(PlayerCommand::Info) {
        assert(w =~= seq!["/info"@]);
    }
}

} // verus!
