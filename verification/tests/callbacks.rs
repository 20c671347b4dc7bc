use steward::gbx::callbacks::{
    forward_script_callback, script_callback_name, to_received, Callback, ModeScriptSectionCallback,
    PayloadKind, PlayloopCallback, ReceivedCallback, ScriptCallbackName, ScriptPayload,
};
use steward::gbx::structs::{CheckpointEvent, PauseStatus, Scores, ScoresSection};

fn checkpoint(login: &str, race_time_millis: i32) -> CheckpointEvent {
    CheckpointEvent {
        player_login: login.to_string(),
        race_time_millis,
        lap_time_millis: race_time_millis,
        race_cp_index: 0,
        lap_cp_index: 0,
        race_cp_millis: vec![],
        lap_cp_millis: vec![],
        is_finish: false,
        is_lap_finish: false,
        speed_bits: 0,
    }
}

fn scores(section: Option<ScoresSection>, response_id: Option<&str>) -> Scores {
    Scores { response_id: response_id.map(|s| s.to_string()), players: vec![], teams: vec![], section }
}

#[test]
fn names_of_script_callbacks() {
    assert_eq!(script_callback_name("Maniaplanet.StartMap_Start"), ScriptCallbackName::StartMapStart);
    assert_eq!(script_callback_name("Trackmania.Event.WayPoint"), ScriptCallbackName::WayPoint);
    assert_eq!(script_callback_name("Maniaplanet.Podium_End"), ScriptCallbackName::Ignored);
    assert_eq!(script_callback_name("Something.Else"), ScriptCallbackName::Unknown);
    assert_eq!(ScriptCallbackName::StartMapStart.payload_kind(), PayloadKind::Counted);
    assert_eq!(ScriptCallbackName::EndServerEnd.payload_kind(), PayloadKind::NoData);
    assert_eq!(ScriptCallbackName::Scores.payload_kind(), PayloadKind::Scores);
}

#[test]
fn counted_sections() {
    let cb = forward_script_callback(ScriptCallbackName::EndRoundStart, ScriptPayload::Counted { count: 3 });
    assert!(matches!(
        cb,
        Some(Callback::ModeScriptSection(ModeScriptSectionCallback::PreEndRound { nth_round_on_map: 3 }))
    ));
    let cb = forward_script_callback(ScriptCallbackName::EndMapEnd, ScriptPayload::Counted { count: 2 });
    assert!(matches!(
        cb,
        Some(Callback::ModeScriptSection(ModeScriptSectionCallback::PostEndMap { nth_map_in_match: 2 }))
    ));
}

#[test]
fn start_server_section() {
    let cb = forward_script_callback(
        ScriptCallbackName::StartServerStart,
        ScriptPayload::StartServer { restarted: true, mode_updated: false },
    );
    assert!(matches!(
        cb,
        Some(Callback::ModeScriptSection(ModeScriptSectionCallback::PreStartServer {
            restarted_script: true,
            changed_script: false
        }))
    ));
}

#[test]
fn scores_by_section() {
    let cb = forward_script_callback(ScriptCallbackName::Scores, ScriptPayload::Scores(scores(None, None)));
    assert!(matches!(cb, Some(Callback::Scores(_))));
    let cb = forward_script_callback(
        ScriptCallbackName::Scores,
        ScriptPayload::Scores(scores(Some(ScoresSection::EndMap), None)),
    );
    assert!(matches!(cb, Some(Callback::ModeScriptSection(ModeScriptSectionCallback::EndMapScores(_)))));
}

#[test]
fn waypoint_without_time_is_incoherent() {
    let cb = forward_script_callback(ScriptCallbackName::WayPoint, ScriptPayload::Checkpoint(checkpoint("tim", 0)));
    match cb {
        Some(Callback::Playloop(PlayloopCallback::Incoherence { login })) => assert_eq!(login, "tim"),
        _ => panic!("expected incoherence"),
    }
    let cb = forward_script_callback(ScriptCallbackName::WayPoint, ScriptPayload::Checkpoint(checkpoint("tim", 500)));
    assert!(matches!(cb, Some(Callback::Playloop(PlayloopCallback::Checkpoint(_)))));
}

#[test]
fn ignored_and_api_versions_give_nothing() {
    assert!(forward_script_callback(ScriptCallbackName::Ignored, ScriptPayload::NoData).is_none());
    assert!(forward_script_callback(
        ScriptCallbackName::AllApiVersions,
        ScriptPayload::ApiVersions { latest: "3.1.0".to_string() }
    )
    .is_none());
}

#[test]
fn prompted_callbacks_give_up_their_id() {
    match to_received(Some(Callback::Scores(scores(None, Some("7"))))) {
        ReceivedCallback::Prompted { callback: Callback::Scores(s), response_id } => {
            assert_eq!(response_id, "7");
            assert!(s.response_id.is_none());
        }
        _ => panic!("expected a prompted callback"),
    }
    let status = PauseStatus { response_id: None, available: true, active: false };
    assert!(matches!(to_received(Some(Callback::PauseStatus(status))), ReceivedCallback::Unprompted(_)));
    assert!(matches!(to_received(None), ReceivedCallback::Ignored));
}
