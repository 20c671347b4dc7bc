//! Actions that players trigger within widgets to interact with the
//! controller.

use vstd::prelude::*;

use crate::controller::preference::PreferenceValue;

verus! {

/// An action triggered within a widget, such as
/// `{ "action": "VoteRestart", "vote": true }` in its JSON form.
#[derive(Debug)]
pub enum Action<'a> {
    /// Update a player's map preference.
    SetPreference { map_uid: &'a str, preference: PreferenceValue },
    /// Update whether a player is for or against a restart of the current map.
    VoteRestart { vote: bool },
}

} // verus!
