use steward::command::{AdminCommand, DangerousCommand, PlayerCommand, SuperAdminCommand};
use steward::controller::chat::{ChatCommand, ChatForward, ChatState};

fn is_nothing(f: &ChatForward) -> bool {
    matches!(f, ChatForward::Nothing)
}

#[test]
fn plain_messages_go_to_all() {
    let mut state = ChatState::init();
    assert!(matches!(state.forward("hello", "p", false, false), ChatForward::ToAll));
    assert!(is_nothing(&state.forward("", "p", false, false)));
}

#[test]
fn player_commands_and_help() {
    let mut state = ChatState::init();
    match state.forward("/info", "p", false, false) {
        ChatForward::Command(ChatCommand::Player { cmd: PlayerCommand::Info, from }) => assert_eq!(from, "p"),
        _ => panic!("expected /info"),
    }
    match state.forward("/unknown", "p", false, false) {
        ChatForward::Command(ChatCommand::Player { cmd: PlayerCommand::Help, .. }) => {}
        _ => panic!("expected player help"),
    }
    match state.forward("/unknown", "a", false, true) {
        ChatForward::Command(ChatCommand::Admin { cmd: AdminCommand::Help, .. }) => {}
        _ => panic!("expected admin help"),
    }
    match state.forward("/unknown", "s", true, true) {
        ChatForward::Command(ChatCommand::SuperAdmin { cmd: SuperAdminCommand::Help, .. }) => {}
        _ => panic!("expected super admin help"),
    }
}

#[test]
fn admin_commands_only_for_admins() {
    let mut state = ChatState::init();
    match state.forward("/skip", "a", false, true) {
        ChatForward::Command(ChatCommand::Admin { cmd: AdminCommand::SkipCurrentMap, from }) => assert_eq!(from, "a"),
        _ => panic!("expected /skip"),
    }
    match state.forward("/skip", "p", false, false) {
        ChatForward::Command(ChatCommand::Player { cmd: PlayerCommand::Help, .. }) => {}
        _ => panic!("expected player help"),
    }
}

#[test]
fn dangerous_command_waits_for_confirmation() {
    let mut state = ChatState::init();
    assert!(is_nothing(&state.forward("/delete map uid1", "s", true, true)));
    match state.forward("/confirm", "s", true, true) {
        ChatForward::Command(ChatCommand::Dangerous { cmd: DangerousCommand::DeleteMap { uid }, from }) => {
            assert_eq!(uid, "uid1");
            assert_eq!(from, "s");
        }
        _ => panic!("expected the prepared command"),
    }
    // Nothing waits anymore: a second confirmation is the bare command.
    match state.forward("/confirm", "s", true, true) {
        ChatForward::Command(ChatCommand::SuperAdmin { cmd: SuperAdminCommand::Confirm, .. }) => {}
        _ => panic!("expected /confirm"),
    }
}

#[test]
fn other_command_cancels_waiting_one() {
    let mut state = ChatState::init();
    assert!(is_nothing(&state.forward("/shutdown", "s", true, true)));
    assert!(matches!(
        state.forward("/help", "s", true, true),
        ChatForward::Command(ChatCommand::SuperAdmin { cmd: SuperAdminCommand::Help, .. })
    ));
    assert!(state.pop_unconfirmed_command("s").is_none());
}

#[test]
fn waiting_command_is_per_login() {
    let mut state = ChatState::init();
    assert!(is_nothing(&state.forward("/delete player bob", "s1", true, true)));
    assert!(is_nothing(&state.forward("/shutdown", "s2", true, true)));
    match state.pop_unconfirmed_command("s1") {
        Some(DangerousCommand::DeletePlayer { login }) => assert_eq!(login, "bob"),
        _ => panic!("expected the waiting command of s1"),
    }
    assert!(matches!(state.pop_unconfirmed_command("s2"), Some(DangerousCommand::Shutdown)));
}
