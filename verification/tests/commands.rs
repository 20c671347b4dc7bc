use steward::chat::command::from_admin::AdminCommand;
use steward::chat::command::{BadCommandContext, Command, CommandContext, CommandDeniedError, PlayerRole};
use steward::command::{AdminCommand as LegacyAdminCommand, PlayerCommand, SuperAdminCommand};
use steward::gbx::structs::{DisplayString, ModeScript, PauseStatus, PlayerInfo, WarmupStatus};

fn info() -> PlayerInfo {
    PlayerInfo {
        uid: 1,
        login: "tim".to_string(),
        display_name: DisplayString::from("Tim".to_string()),
        team_id: None,
        flag_digit_mask: 101_000_000,
        spectator_digit_mask: 0,
    }
}

fn warmup(available: bool, active: bool) -> WarmupStatus {
    WarmupStatus { response_id: None, available, active }
}

fn pause(available: bool) -> PauseStatus {
    PauseStatus { response_id: None, available, active: false }
}

#[test]
fn help_and_unknown_commands() {
    let p = info();
    let (m, w, ps) = (ModeScript::TimeAttack, warmup(true, false), pause(false));
    let ctxt = |cmd: &'static str, role| CommandContext { cmd, player: &p, player_role: role, mode: &m, warmup: &w, pause: &ps };
    assert!(matches!(Command::try_from(ctxt("  /help ", PlayerRole::Player)), Ok(Command::Help)));
    assert!(matches!(Command::try_from(ctxt("/nope", PlayerRole::Player)), Err(CommandDeniedError::NoSuchCommand)));
}

#[test]
fn admin_commands_need_permission_and_mode() {
    let p = info();
    let (ta, rounds) = (ModeScript::TimeAttack, ModeScript::Rounds);
    let (w, ps) = (warmup(true, false), pause(false));
    let skip_as_player = CommandContext { cmd: "/skip", player: &p, player_role: PlayerRole::Player, mode: &ta, warmup: &w, pause: &ps };
    assert!(matches!(
        Command::try_from(skip_as_player),
        Err(CommandDeniedError::NotAvailable(BadCommandContext::NoPermission))
    ));
    let skip_as_admin = CommandContext { cmd: "/skip", player: &p, player_role: PlayerRole::Admin, mode: &ta, warmup: &w, pause: &ps };
    assert!(matches!(Command::try_from(skip_as_admin), Ok(Command::Admin(AdminCommand::SkipCurrentMap))));
    let skip_in_rounds = CommandContext { cmd: "/skip", player: &p, player_role: PlayerRole::SuperAdmin, mode: &rounds, warmup: &w, pause: &ps };
    assert!(matches!(
        Command::try_from(skip_in_rounds),
        Err(CommandDeniedError::NotAvailable(BadCommandContext::InMode(ModeScript::TimeAttack)))
    ));
    let warmup_inactive = CommandContext { cmd: "/warmup add 30", player: &p, player_role: PlayerRole::Admin, mode: &ta, warmup: &w, pause: &ps };
    assert!(matches!(
        Command::try_from(warmup_inactive),
        Err(CommandDeniedError::NotAvailable(BadCommandContext::DuringWarmup))
    ));
    let w2 = warmup(true, true);
    let warmup_active = CommandContext { cmd: "/warmup add 30", player: &p, player_role: PlayerRole::Admin, mode: &ta, warmup: &w2, pause: &ps };
    assert!(matches!(Command::try_from(warmup_active), Ok(Command::Admin(AdminCommand::ExtendWarmup { secs: 30 }))));
    let no_pause = CommandContext { cmd: "/pause", player: &p, player_role: PlayerRole::Admin, mode: &ta, warmup: &w, pause: &ps };
    assert!(matches!(
        Command::try_from(no_pause),
        Err(CommandDeniedError::NotAvailable(BadCommandContext::InOtherModes))
    ));
}

#[test]
fn admin_command_parsing() {
    assert!(matches!(AdminCommand::parse("/playlist add  uid1"), Some(AdminCommand::PlaylistAdd { uid: "uid1" })));
    assert!(matches!(AdminCommand::parse("/warmup add x"), None));
    assert!(matches!(AdminCommand::parse("/warmup add +7"), Some(AdminCommand::ExtendWarmup { secs: 7 })));
    assert!(AdminCommand::parse("/skip now").is_none());
}

#[test]
fn legacy_command_parsing() {
    assert_eq!(PlayerCommand::from(" /info "), Some(PlayerCommand::Info));
    assert_eq!(PlayerCommand::from("/info x"), None);
    assert!(matches!(SuperAdminCommand::from("/confirm"), Some(SuperAdminCommand::Confirm)));
    assert!(matches!(SuperAdminCommand::from("/help"), Some(SuperAdminCommand::Help)));
    assert!(SuperAdminCommand::from("/delete map").is_none());
    assert!(matches!(LegacyAdminCommand::from("/skip"), Some(LegacyAdminCommand::SkipCurrentMap)));
}

#[test]
fn reference_lists_usable_commands_first() {
    let p = info();
    let (m, w, ps) = (ModeScript::TimeAttack, warmup(true, false), pause(false));
    let ctxt = CommandContext { cmd: "/help", player: &p, player_role: PlayerRole::Player, mode: &m, warmup: &w, pause: &ps };
    let text = ctxt.reference();
    assert!(text.contains("/help"));
    assert!(text.contains("/info"));
    let info_at = text.find("/info").unwrap();
    let no_permission_at = text.find("NO PERMISSION").unwrap();
    assert!(info_at < no_permission_at);
}

#[test]
fn player_list_is_a_table_of_logins_and_names() {
    let p = info();
    let text = steward::chat::command::texts::player_list(&vec![&p], false).unwrap();
    assert!(text.contains("tim"));
    assert!(text.contains("Tim"));
}

#[test]
fn super_admin_reference_has_no_denied_section() {
    let p = info();
    let m = ModeScript::TimeAttack;
    let w = warmup(true, true);
    let ps = pause(true);
    let ctxt = CommandContext { cmd: "/help", player: &p, player_role: PlayerRole::SuperAdmin, mode: &m, warmup: &w, pause: &ps };
    let text = ctxt.reference();
    assert!(text.contains("/shutdown"));
    assert!(!text.contains("NO PERMISSION"));
}
