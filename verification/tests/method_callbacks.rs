use steward::gbx::callbacks::{Callback, PlayloopCallback};
use steward::gbx::method_callbacks::{to_regular_callback, try_method_callback};
use steward::gbx::rpc::{Call, Value};
use steward::gbx::structs::TeamId;

fn call(name: &str, args: Vec<Value>) -> Call {
    Call { name: name.to_string(), args }
}

fn s(text: &str) -> Value {
    Value::String(text.to_string())
}

fn player_struct(team: i32, nick: Value) -> Value {
    // Members sorted by name, as a struct holds them.
    Value::Struct(vec![
        ("Flags".to_string(), Value::Int(101_000_000)),
        ("IsSpectator".to_string(), Value::Bool(false)),
        ("Login".to_string(), s("tim")),
        ("NickName".to_string(), nick),
        ("PlayerId".to_string(), Value::Int(7)),
        ("SpectatorStatus".to_string(), Value::Int(0)),
        ("TeamId".to_string(), Value::Int(team)),
    ])
}

fn entry(name: &str, value: &str) -> Value {
    Value::Struct(vec![("Name".to_string(), s(name)), ("Value".to_string(), s(value))])
}

#[test]
fn chat_and_disconnect_callbacks() {
    let chat = call("ManiaPlanet.PlayerChat", vec![Value::Int(3), s("tim"), s("/help"), Value::Bool(true)]);
    match to_regular_callback(&chat) {
        Some(Callback::PlayerChat { from_uid, from_login, message }) => {
            assert_eq!((from_uid, from_login.as_str(), message.as_str()), (3, "tim", "/help"));
        }
        _ => panic!("a chat message"),
    }
    let bad = call("ManiaPlanet.PlayerChat", vec![Value::Int(3), s("tim")]);
    assert!(try_method_callback(&bad).is_none());
    let gone = call("ManiaPlanet.PlayerDisconnect", vec![s("tim"), s("")]);
    assert!(matches!(to_regular_callback(&gone), Some(Callback::PlayerDisconnect { login }) if login == "tim"));
}

#[test]
fn player_info_callbacks() {
    let changed = call("ManiaPlanet.PlayerInfoChanged", vec![player_struct(1, s("$fffTim"))]);
    match to_regular_callback(&changed) {
        Some(Callback::PlayerInfoChanged(info)) => {
            assert_eq!((info.uid, info.login.as_str(), info.display_name.formatted.as_str()), (7, "tim", "$fffTim"));
            assert_eq!(info.team_id, Some(TeamId::Red));
            assert_eq!((info.flag_digit_mask, info.spectator_digit_mask), (101_000_000, 0));
        }
        _ => panic!("player info"),
    }
    // A name sent as bytes is read as text.
    let bytes = call("ManiaPlanet.PlayerInfoChanged", vec![player_struct(-1, Value::Base64(b"Tim".to_vec()))]);
    match to_regular_callback(&bytes) {
        Some(Callback::PlayerInfoChanged(info)) => {
            assert_eq!(info.display_name.formatted, "Tim");
            assert_eq!(info.team_id, None);
        }
        _ => panic!("player info"),
    }
    let bad_team = call("ManiaPlanet.PlayerInfoChanged", vec![player_struct(2, s("Tim"))]);
    assert!(try_method_callback(&bad_team).is_none());
}

#[test]
fn manialink_answer_callbacks() {
    let answer = call(
        "ManiaPlanet.PlayerManialinkPageAnswer",
        vec![
            Value::Int(3),
            s("tim"),
            s("{\"action\":\"Vote\"}"),
            Value::Array(vec![entry("a", "1"), entry("b", "2"), entry("a", "3")]),
        ],
    );
    match to_regular_callback(&answer) {
        Some(Callback::PlayerAnswered { from_uid, from_login, answer }) => {
            assert_eq!((from_uid, from_login.as_str()), (3, "tim"));
            assert_eq!(answer.answer, "{\"action\":\"Vote\"}");
            let entries: Vec<(&str, &str)> = answer.entries.iter().map(|(n, v)| (n.as_str(), v.as_str())).collect();
            assert_eq!(entries, vec![("a", "3"), ("b", "2")]);
        }
        _ => panic!("a Manialink answer"),
    }
    let bad = call(
        "ManiaPlanet.PlayerManialinkPageAnswer",
        vec![Value::Int(3), s("tim"), s(""), Value::Array(vec![s("not an entry")])],
    );
    assert!(try_method_callback(&bad).is_none());
}

#[test]
fn playlist_and_incoherence_callbacks() {
    let modified = call("ManiaPlanet.MapListModified", vec![Value::Int(-1), Value::Int(2), Value::Bool(true)]);
    assert!(matches!(
        to_regular_callback(&modified),
        Some(Callback::PlaylistChanged { curr_idx: None, next_idx: 2, playlist_modified: true })
    ));
    let current = call("ManiaPlanet.MapListModified", vec![Value::Int(0), Value::Int(1), Value::Bool(false)]);
    assert!(matches!(to_regular_callback(&current), Some(Callback::PlaylistChanged { curr_idx: Some(0), .. })));
    let incoherent = call("TrackMania.PlayerIncoherence", vec![Value::Int(3), s("tim")]);
    assert!(matches!(
        to_regular_callback(&incoherent),
        Some(Callback::Playloop(PlayloopCallback::Incoherence { login })) if login == "tim"
    ));
}

#[test]
fn unused_callbacks_are_ignored() {
    assert!(matches!(try_method_callback(&call("ManiaPlanet.BeginMap", vec![])), Some(None)));
    assert!(matches!(try_method_callback(&call("Some.Other", vec![Value::Int(1)])), Some(None)));
}
