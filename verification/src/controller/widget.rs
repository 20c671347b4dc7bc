//! Which answers to sending a widget are acceptable.

use vstd::prelude::*;

use crate::gbx::xml::Fault;
use crate::text::str_eq;

verus! {

/// The fault that the server answers with when a widget is sent to a
/// player that has left.
pub const UNKNOWN_PLAYER_FAULT: &'static str = "PlayerUId unknown.";

/// Whether the answer to sending a widget is acceptable: it was sent, or
/// its player has left in the meantime. Any other fault is a failure.
pub fn check_send_res(res: &Result<(), Fault>) -> (ok: bool)
    ensures
        ok == match res {
            Ok(_) => true,
            Err(f) => f.msg@ == UNKNOWN_PLAYER_FAULT@,
        },
{
    match res {
        Ok(_) => true,
        Err(f) => str_eq(f.msg.as_str(), UNKNOWN_PLAYER_FAULT),
    }
}

} // verus!
