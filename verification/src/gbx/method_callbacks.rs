//! Callbacks that the server sends as plain method calls, rather than as
//! script callbacks: chat messages, players that connect, change or leave,
//! Manialink answers, playlist changes and incoherent runs.

use vstd::prelude::*;
use vstd::utf8::{decode_utf8, valid_utf8};

use crate::gbx::callbacks::{Callback, PlayloopCallback};
use crate::gbx::map_file::utf8_to_string;
use crate::gbx::rpc::{get_member, lemma_value_views_index, member, member_views, value_view, value_views, Call, Value, ValueView};
use crate::gbx::structs::{team_id_from_number, DisplayString, PlayerInfo, PlayerManialinkEvent, TeamId};
use crate::text::str_eq;

verus! {

/// A method callback as plain values.
pub enum MethodCallbackView {
    PlayerChat { from_uid: i32, from_login: Seq<char>, message: Seq<char> },
    PlayerDisconnect { login: Seq<char> },
    PlayerInfoChanged {
        uid: i32,
        login: Seq<char>,
        display_name: Seq<char>,
        team_id: Option<TeamId>,
        flag_digit_mask: i32,
        spectator_digit_mask: i32,
    },
    PlayerAnswered { from_uid: i32, from_login: Seq<char>, answer: Seq<char>, entries: Seq<(Seq<char>, Seq<char>)> },
    PlaylistChanged { curr_idx: Option<i32>, next_idx: i32, playlist_modified: bool },
    Incoherence { login: Seq<char> },
}

/// What a method call from the server stands for: a callback, nothing that
/// is used, or a known callback with arguments it cannot have.
pub enum MethodOutcome {
    Forward(MethodCallbackView),
    Ignored,
    BadSignature,
}

/// The text of a value that is read as a string: a string, or bytes that are
/// valid UTF-8.
pub open spec fn text_value(v: ValueView) -> Option<Seq<char>> {
    match v {
        ValueView::String(s) => Some(s),
        ValueView::Base64(b) => if valid_utf8(b) {
            Some(decode_utf8(b))
        } else {
            None
        },
        _ => None,
    }
}

/// The integer member `name`, if the struct has one.
pub open spec fn int_member(ms: Seq<(Seq<char>, ValueView)>, name: Seq<char>) -> Option<i32> {
    match member(ms, name) {
        Some(ValueView::Int(i)) => Some(i),
        _ => None,
    }
}

/// The text member `name`, if the struct has one.
pub open spec fn text_member(ms: Seq<(Seq<char>, ValueView)>, name: Seq<char>) -> Option<Seq<char>> {
    match member(ms, name) {
        Some(v) => text_value(v),
        None => None,
    }
}

/// The team of a team number: -1 for none, 0 and 1 for the two teams.
pub open spec fn team_of(id: i32) -> Option<Option<TeamId>> {
    if id == -1 {
        Some(None)
    } else if id == 0 {
        Some(Some(TeamId::Blue))
    } else if id == 1 {
        Some(Some(TeamId::Red))
    } else {
        None
    }
}

/// The player info in a struct with the members `PlayerId`, `Login`,
/// `NickName`, `TeamId`, `Flags` and `SpectatorStatus`.
pub open spec fn player_info_view(ms: Seq<(Seq<char>, ValueView)>) -> Option<MethodCallbackView> {
    match (
        int_member(ms, "PlayerId"@),
        text_member(ms, "Login"@),
        text_member(ms, "NickName"@),
        int_member(ms, "TeamId"@),
        int_member(ms, "Flags"@),
        int_member(ms, "SpectatorStatus"@),
    ) {
        (Some(uid), Some(login), Some(display_name), Some(team), Some(flag_digit_mask), Some(spectator_digit_mask)) => {
            match team_of(team) {
                Some(team_id) => Some(
                    MethodCallbackView::PlayerInfoChanged {
                        uid,
                        login,
                        display_name,
                        team_id,
                        flag_digit_mask,
                        spectator_digit_mask,
                    },
                ),
                None => None,
            }
        },
        _ => None,
    }
}

/// A Manialink input: a struct with the text members `Name` and `Value`.
pub open spec fn entry_of(v: ValueView) -> Option<(Seq<char>, Seq<char>)> {
    match v {
        ValueView::Struct(ms) => match (text_member(ms, "Name"@), text_member(ms, "Value"@)) {
            (Some(n), Some(x)) => Some((n, x)),
            _ => None,
        },
        _ => None,
    }
}

/// The first position of the input `name`.
pub open spec fn name_index(es: Seq<(Seq<char>, Seq<char>)>, name: Seq<char>) -> Option<int>
    decreases es.len(),
{
    if es.len() == 0 {
        None
    } else {
        match name_index(es.drop_last(), name) {
            Some(i) => Some(i),
            None => if es.last().0 == name {
                Some(es.len() - 1)
            } else {
                None
            },
        }
    }
}

/// The inputs with `e` set: its value replaces the one of its name, or it
/// is added.
pub open spec fn set_entry(es: Seq<(Seq<char>, Seq<char>)>, e: (Seq<char>, Seq<char>)) -> Seq<(Seq<char>, Seq<char>)> {
    match name_index(es, e.0) {
        Some(i) => es.update(i, e),
        None => es.push(e),
    }
}

/// The inputs of a Manialink answer, each name once with its last value;
/// `None` if one of them is not an input.
pub open spec fn entries_of(vs: Seq<ValueView>) -> Option<Seq<(Seq<char>, Seq<char>)>>
    decreases vs.len(),
{
    if vs.len() == 0 {
        Some(Seq::empty())
    } else {
        match (entries_of(vs.drop_last()), entry_of(vs.last())) {
            (Some(es), Some(e)) => Some(set_entry(es, e)),
            _ => None,
        }
    }
}

/// What a method call from the server stands for, by its name and arguments;
/// calls of other names are not used.
pub open spec fn method_outcome(name: Seq<char>, args: Seq<ValueView>) -> MethodOutcome {
    if name == "ManiaPlanet.PlayerChat"@ {
        if args.len() == 4 {
            match (args[0], args[1], args[2], args[3]) {
                (ValueView::Int(uid), ValueView::String(login), ValueView::String(msg), ValueView::Bool(_)) => {
                    MethodOutcome::Forward(MethodCallbackView::PlayerChat { from_uid: uid, from_login: login, message: msg })
                },
                _ => MethodOutcome::BadSignature,
            }
        } else {
            MethodOutcome::BadSignature
        }
    } else if name == "ManiaPlanet.PlayerDisconnect"@ {
        if args.len() == 2 {
            match (args[0], args[1]) {
                (ValueView::String(login), ValueView::String(_)) => MethodOutcome::Forward(
                    MethodCallbackView::PlayerDisconnect { login },
                ),
                _ => MethodOutcome::BadSignature,
            }
        } else {
            MethodOutcome::BadSignature
        }
    } else if name == "ManiaPlanet.PlayerInfoChanged"@ {
        if args.len() == 1 {
            match args[0] {
                ValueView::Struct(ms) => match player_info_view(ms) {
                    Some(v) => MethodOutcome::Forward(v),
                    None => MethodOutcome::BadSignature,
                },
                _ => MethodOutcome::BadSignature,
            }
        } else {
            MethodOutcome::BadSignature
        }
    } else if name == "ManiaPlanet.PlayerManialinkPageAnswer"@ {
        if args.len() == 4 {
            match (args[0], args[1], args[2], args[3]) {
                (ValueView::Int(uid), ValueView::String(login), ValueView::String(answer), ValueView::Array(vs)) => {
                    match entries_of(vs) {
                        Some(entries) => MethodOutcome::Forward(
                            MethodCallbackView::PlayerAnswered { from_uid: uid, from_login: login, answer, entries },
                        ),
                        None => MethodOutcome::BadSignature,
                    }
                },
                _ => MethodOutcome::BadSignature,
            }
        } else {
            MethodOutcome::BadSignature
        }
    } else if name == "ManiaPlanet.MapListModified"@ {
        if args.len() == 3 {
            match (args[0], args[1], args[2]) {
                (ValueView::Int(curr), ValueView::Int(next), ValueView::Bool(modified)) => MethodOutcome::Forward(
                    MethodCallbackView::PlaylistChanged {
                        curr_idx: if curr >= 0 {
                            Some(curr)
                        } else {
                            None
                        },
                        next_idx: next,
                        playlist_modified: modified,
                    },
                ),
                _ => MethodOutcome::BadSignature,
            }
        } else {
            MethodOutcome::BadSignature
        }
    } else if name == "TrackMania.PlayerIncoherence"@ {
        if args.len() == 2 {
            match (args[0], args[1]) {
                (ValueView::Int(_), ValueView::String(login)) => MethodOutcome::Forward(
                    MethodCallbackView::Incoherence { login },
                ),
                _ => MethodOutcome::BadSignature,
            }
        } else {
            MethodOutcome::BadSignature
        }
    } else {
        MethodOutcome::Ignored
    }
}

/// The inputs as plain values.
pub open spec fn pairs_view(v: Seq<(String, String)>) -> Seq<(Seq<char>, Seq<char>)> {
    v.map_values(|e: (String, String)| (e.0@, e.1@))
}

/// A callback as a method callback, if it is one.
pub open spec fn method_view(cb: Callback) -> Option<MethodCallbackView> {
    match cb {
        Callback::PlayerChat { from_uid, from_login, message } => Some(
            MethodCallbackView::PlayerChat { from_uid, from_login: from_login@, message: message@ },
        ),
        Callback::PlayerDisconnect { login } => Some(MethodCallbackView::PlayerDisconnect { login: login@ }),
        Callback::PlayerInfoChanged(i) => Some(
            MethodCallbackView::PlayerInfoChanged {
                uid: i.uid,
                login: i.login@,
                display_name: i.display_name.formatted@,
                team_id: i.team_id,
                flag_digit_mask: i.flag_digit_mask,
                spectator_digit_mask: i.spectator_digit_mask,
            },
        ),
        Callback::PlayerAnswered { from_uid, from_login, answer } => Some(
            MethodCallbackView::PlayerAnswered {
                from_uid,
                from_login: from_login@,
                answer: answer.answer@,
                entries: pairs_view(answer.entries@),
            },
        ),
        Callback::PlaylistChanged { curr_idx, next_idx, playlist_modified } => Some(
            MethodCallbackView::PlaylistChanged { curr_idx, next_idx, playlist_modified },
        ),
        Callback::Playloop(PlayloopCallback::Incoherence { login }) => Some(
            MethodCallbackView::Incoherence { login: login@ },
        ),
        _ => None,
    }
}

/// The text of a value that is read as a string.
fn text_from(v: &Value) -> (res: Option<String>)
    ensures
        match res {
            Some(s) => text_value(value_view(*v)) == Some(s@),
            None => text_value(value_view(*v)) is None,
        },
{
    match v {
        Value::String(s) => Some(s.clone()),
        Value::Base64(b) => utf8_to_string(b.as_slice()),
        _ => None,
    }
}

/// The text member `name` of a struct.
fn text_member_of(ms: &Vec<(String, Value)>, name: &str) -> (res: Option<String>)
    ensures
        match res {
            Some(s) => text_member(member_views(ms@), name@) == Some(s@),
            None => text_member(member_views(ms@), name@) is None,
        },
{
    match get_member(ms, name) {
        Some(v) => text_from(v),
        None => None,
    }
}

/// The integer member `name` of a struct.
fn int_member_of(ms: &Vec<(String, Value)>, name: &str) -> (res: Option<i32>)
    ensures
        res == int_member(member_views(ms@), name@),
{
    match get_member(ms, name) {
        Some(Value::Int(i)) => Some(*i),
        _ => None,
    }
}

/// The player info of a struct.
fn player_info_from(ms: &Vec<(String, Value)>) -> (res: Option<PlayerInfo>)
    ensures
        match res {
            Some(i) => player_info_view(member_views(ms@)) == method_view(Callback::PlayerInfoChanged(i)),
            None => player_info_view(member_views(ms@)) is None,
        },
{
    proof {
        reveal_strlit("PlayerId");
        reveal_strlit("Login");
        reveal_strlit("NickName");
        reveal_strlit("TeamId");
        reveal_strlit("Flags");
        reveal_strlit("SpectatorStatus");
    }
    let uid = match int_member_of(ms, "PlayerId") {
        Some(u) => u,
        None => return None,
    };
    let login = match text_member_of(ms, "Login") {
        Some(l) => l,
        None => return None,
    };
    let display_name = match text_member_of(ms, "NickName") {
        Some(n) => n,
        None => return None,
    };
    let team = match int_member_of(ms, "TeamId") {
        Some(t) => t,
        None => return None,
    };
    let flag_digit_mask = match int_member_of(ms, "Flags") {
        Some(f) => f,
        None => return None,
    };
    let spectator_digit_mask = match int_member_of(ms, "SpectatorStatus") {
        Some(s) => s,
        None => return None,
    };
    let team_id = match team_id_from_number(team) {
        Ok(t) => t,
        Err(_) => return None,
    };
    Some(PlayerInfo { uid, login, display_name: DisplayString::from(display_name), team_id, flag_digit_mask, spectator_digit_mask })
}

/// Sets an input: its value replaces the one of its name, or it is added.
fn set_entry_in(es: &mut Vec<(String, String)>, name: String, value: String)
    ensures
        pairs_view(final(es)@) == set_entry(pairs_view(old(es)@), (name@, value@)),
{
    let ghost t = pairs_view(es@);
    let ghost e = (name@, value@);
    let mut i: usize = 0;
    while i < es.len()
        invariant
            i <= es@.len(),
            es@ == old(es)@,
            t == pairs_view(es@),
            t.len() == es@.len(),
            e == (name@, value@),
            forall|j: int| 0 <= j < i ==> t[j].0 != name@,
        decreases es@.len() - i,
    {
        if str_eq(es[i].0.as_str(), name.as_str()) {
            proof {
                lemma_name_index_first(t, name@, i as int);
            }
            es.set(i, (name, value));
            proof {
                assert(pairs_view(es@) =~= t.update(i as int, e));
            }
            return;
        }
        i = i + 1;
    }
    proof {
        lemma_name_index_none(t, name@);
    }
    es.push((name, value));
    assert(pairs_view(es@) =~= t.push(e));
}

proof fn lemma_name_index_first(es: Seq<(Seq<char>, Seq<char>)>, name: Seq<char>, i: int)
    requires
        0 <= i < es.len(),
        es[i].0 == name,
        forall|j: int| 0 <= j < i ==> es[j].0 != name,
    ensures
        name_index(es, name) == Some(i),
    decreases es.len(),
{
    if i < es.len() - 1 {
        lemma_name_index_first(es.drop_last(), name, i);
    } else {
        lemma_name_index_none(es.drop_last(), name);
    }
}

proof fn lemma_name_index_none(es: Seq<(Seq<char>, Seq<char>)>, name: Seq<char>)
    requires
        forall|j: int| 0 <= j < es.len() ==> es[j].0 != name,
    ensures
        name_index(es, name) is None,
    decreases es.len(),
{
    if es.len() > 0 {
        lemma_name_index_none(es.drop_last(), name);
    }
}

proof fn lemma_entries_prefix_none(vs: Seq<ValueView>, k: int)
    requires
        0 <= k <= vs.len(),
        entries_of(vs.take(k)) is None,
    ensures
        entries_of(vs) is None,
    decreases vs.len() - k,
{
    if k == vs.len() {
        assert(vs.take(k) =~= vs);
    } else {
        assert(vs.drop_last().take(k) =~= vs.take(k));
        lemma_entries_prefix_none(vs.drop_last(), k);
    }
}

/// The inputs of a Manialink answer.
fn entries_from(vs: &Vec<Value>) -> (res: Option<Vec<(String, String)>>)
    ensures
        match res {
            Some(es) => entries_of(value_views(vs@)) == Some(pairs_view(es@)),
            None => entries_of(value_views(vs@)) is None,
        },
{
    proof {
        lemma_value_views_index(vs@);
        reveal_strlit("Name");
        reveal_strlit("Value");
    }
    let ghost all = value_views(vs@);
    let mut es: Vec<(String, String)> = Vec::new();
    let mut i: usize = 0;
    assert(pairs_view(es@) =~= Seq::<(Seq<char>, Seq<char>)>::empty());
    assert(all.take(0) =~= Seq::<ValueView>::empty());
    while i < vs.len()
        invariant
            i <= vs@.len(),
            all == value_views(vs@),
            all.len() == vs@.len(),
            forall|j: int| 0 <= j < vs@.len() ==> #[trigger] all[j] == value_view(vs@[j]),
            entries_of(all.take(i as int)) == Some(pairs_view(es@)),
        decreases vs@.len() - i,
    {
        let ghost prefix = all.take(i + 1);
        proof {
            assert(prefix.drop_last() =~= all.take(i as int));
            assert(prefix.last() == value_view(vs@[i as int]));
        }
        let entry = match &vs[i] {
            Value::Struct(ms) => match (text_member_of(ms, "Name"), text_member_of(ms, "Value")) {
                (Some(n), Some(x)) => Some((n, x)),
                _ => None,
            },
            _ => None,
        };
        match entry {
            Some((n, x)) => {
                set_entry_in(&mut es, n, x);
            },
            None => {
                proof {
                    lemma_entries_prefix_none(all, i + 1);
                }
                return None;
            },
        }
        i = i + 1;
    }
    assert(all.take(i as int) =~= all);
    Some(es)
}

/// What a method call from the server stands for: `None` where it is a known
/// callback with arguments it cannot have; else the callback, if it is one
/// that is used.
pub fn try_method_callback(call: &Call) -> (res: Option<Option<Callback>>)
    ensures
        match method_outcome(call.name@, value_views(call.args@)) {
            MethodOutcome::Forward(v) => res matches Some(Some(cb)) && method_view(cb) == Some(v),
            MethodOutcome::Ignored => res matches Some(None),
            MethodOutcome::BadSignature => res is None,
        },
{
    proof {
        lemma_value_views_index(call.args@);
        reveal_strlit("ManiaPlanet.PlayerChat");
        reveal_strlit("ManiaPlanet.PlayerDisconnect");
        reveal_strlit("ManiaPlanet.PlayerInfoChanged");
        reveal_strlit("ManiaPlanet.PlayerManialinkPageAnswer");
        reveal_strlit("ManiaPlanet.MapListModified");
        reveal_strlit("TrackMania.PlayerIncoherence");
    }
    let name = call.name.as_str();
    let args = &call.args;
    if str_eq(name, "ManiaPlanet.PlayerChat") {
        if args.len() == 4 {
            if let (Value::Int(uid), Value::String(login), Value::String(msg), Value::Bool(_)) = (&args[0], &args[1], &args[2], &args[3]) {
                return Some(Some(Callback::PlayerChat { from_uid: *uid, from_login: login.clone(), message: msg.clone() }));
            }
        }
        None
    } else if str_eq(name, "ManiaPlanet.PlayerDisconnect") {
        if args.len() == 2 {
            if let (Value::String(login), Value::String(_)) = (&args[0], &args[1]) {
                return Some(Some(Callback::PlayerDisconnect { login: login.clone() }));
            }
        }
        None
    } else if str_eq(name, "ManiaPlanet.PlayerInfoChanged") {
        if args.len() == 1 {
            if let Value::Struct(ms) = &args[0] {
                return match player_info_from(ms) {
                    Some(info) => Some(Some(Callback::PlayerInfoChanged(info))),
                    None => None,
                };
            }
        }
        None
    } else if str_eq(name, "ManiaPlanet.PlayerManialinkPageAnswer") {
        if args.len() == 4 {
            if let (Value::Int(uid), Value::String(login), Value::String(answer), Value::Array(vs)) = (&args[0], &args[1], &args[2], &args[3]) {
                return match entries_from(vs) {
                    Some(entries) => Some(Some(Callback::PlayerAnswered {
                        from_uid: *uid,
                        from_login: login.clone(),
                        answer: PlayerManialinkEvent { answer: answer.clone(), entries },
                    })),
                    None => None,
                };
            }
        }
        None
    } else if str_eq(name, "ManiaPlanet.MapListModified") {
        if args.len() == 3 {
            if let (Value::Int(curr), Value::Int(next), Value::Bool(modified)) = (&args[0], &args[1], &args[2]) {
                let curr_idx = if *curr >= 0 { Some(*curr) } else { None };
                return Some(Some(Callback::PlaylistChanged { curr_idx, next_idx: *next, playlist_modified: *modified }));
            }
        }
        None
    } else if str_eq(name, "TrackMania.PlayerIncoherence") {
        if args.len() == 2 {
            if let (Value::Int(_), Value::String(login)) = (&args[0], &args[1]) {
                return Some(Some(Callback::Playloop(PlayloopCallback::Incoherence { login: login.clone() })));
            }
        }
        None
    } else {
        Some(None)
    }
}

/// The callback that a method call from the server stands for, if it is one
/// that is used. The call must have the arguments of its callback.
pub fn to_regular_callback(call: &Call) -> (res: Option<Callback>)
    requires
        !(method_outcome(call.name@, value_views(call.args@)) is BadSignature),
    ensures
        match method_outcome(call.name@, value_views(call.args@)) {
            MethodOutcome::Forward(v) => res matches Some(cb) && method_view(cb) == Some(v),
            _ => res is None,
        },
{
    match try_method_callback(call) {
        Some(res) => res,
        None => None,
    }
}

} // verus!
