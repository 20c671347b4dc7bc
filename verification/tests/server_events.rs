use steward::controller::server_events::{on_server_callback, pause_step, warmup_step, Reaction};
use steward::gbx::callbacks::{Callback, ModeScriptSectionCallback, PlayloopCallback};
use steward::gbx::structs::WarmupRoundStatus;

fn section(s: ModeScriptSectionCallback) -> Vec<Reaction> {
    on_server_callback(Callback::ModeScriptSection(s))
}

#[test]
fn warmup_ends_after_its_last_round() {
    let last = section(ModeScriptSectionCallback::EndWarmupRound(WarmupRoundStatus { current_round: 2, nb_total_rounds: 2 }));
    assert!(matches!(last.as_slice(), [Reaction::EndWarmup]));
    let first = section(ModeScriptSectionCallback::EndWarmupRound(WarmupRoundStatus { current_round: 1, nb_total_rounds: 2 }));
    assert!(first.is_empty());
    let start = section(ModeScriptSectionCallback::StartWarmupRound(WarmupRoundStatus { current_round: 1, nb_total_rounds: 2 }));
    assert!(matches!(start.as_slice(), [Reaction::BeginWarmup]));
}

#[test]
fn map_sections_lead_through_intro_and_outro() {
    let restart = section(ModeScriptSectionCallback::PreLoadMap { is_restart: true });
    assert!(matches!(restart.as_slice(), [Reaction::EndOutro, Reaction::BeginIntro]));
    let load = section(ModeScriptSectionCallback::PreLoadMap { is_restart: false });
    assert!(matches!(load.as_slice(), [Reaction::BeginIntro]));
    let unload = section(ModeScriptSectionCallback::PreUnloadMap);
    assert!(matches!(unload.as_slice(), [Reaction::ChangeMap, Reaction::EndOutro]));
    assert!(matches!(section(ModeScriptSectionCallback::StartPlayloop).as_slice(), [Reaction::EndIntro]));
    assert!(matches!(section(ModeScriptSectionCallback::EndPlayloop).as_slice(), [Reaction::BeginOutro]));
    let kept = section(ModeScriptSectionCallback::PreStartServer { restarted_script: false, changed_script: false });
    assert!(kept.is_empty());
    let changed = section(ModeScriptSectionCallback::PreStartServer { restarted_script: false, changed_script: true });
    assert!(matches!(changed.as_slice(), [Reaction::ChangeMode]));
    assert!(section(ModeScriptSectionCallback::PostLoadMap).is_empty());
}

#[test]
fn runs_begin_after_a_countdown_when_given_up() {
    let give_up = on_server_callback(Callback::Playloop(PlayloopCallback::GiveUp { login: "tim".to_string() }));
    assert!(matches!(give_up.as_slice(), [Reaction::BeginRun { login, after_secs: 2 }] if login == "tim"));
    let start = on_server_callback(Callback::Playloop(PlayloopCallback::StartLine { login: "tim".to_string() }));
    assert!(matches!(start.as_slice(), [Reaction::BeginRun { after_secs: 0, .. }]));
}

#[test]
fn playlist_changes_set_the_index_and_save() {
    let changed = on_server_callback(Callback::PlaylistChanged { curr_idx: Some(3), next_idx: 4, playlist_modified: true });
    assert!(matches!(changed.as_slice(), [Reaction::SetPlaylistIndex(3), Reaction::SaveMatchSettings]));
    let none = on_server_callback(Callback::PlaylistChanged { curr_idx: None, next_idx: 0, playlist_modified: false });
    assert!(none.is_empty());
}

#[test]
fn pause_and_warmup_toggles() {
    assert!(matches!(pause_step(true, true), Some(Reaction::BeginPause)));
    assert!(matches!(pause_step(true, false), Some(Reaction::EndPause)));
    assert!(pause_step(false, true).is_none());
    assert!(matches!(warmup_step(true, false), Some(Reaction::EndWarmup)));
    assert!(warmup_step(false, false).is_none());
}
