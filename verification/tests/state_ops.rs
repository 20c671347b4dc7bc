use std::collections::VecDeque;

use steward::chat::message::ServerMessage;
use steward::config::{Config, PublicConfig, PublicConfigError};
use steward::chat::command::from_super_admin::DangerousCommand;
use steward::chat::command::output::{CommandConfirmOutput, CommandErrorOutput, CommandOutput};
use steward::chat::command::from_admin::AdminCommand;
use steward::controller::admin::{admin_step, default_mode_named, match_settings_file, prepare_dangerous, settings_options, AdminStep};
use steward::controller::announce::{player_message, playlist_message};
use steward::controller::map_list::map_list_sections;
use steward::controller::player::{PlayerDiff, PlayersState};
use steward::chat::command::response::PlaylistCommandError;
use steward::controller::playlist::{MapEntry, PlaylistDiff, PlaylistState};
use steward::controller::preference::{
    ActivePreference, ActivePreferenceValue, History, PreferencesState,
};
use steward::controller::queue::{pref_sum, QueueEntry, QueuePriority, QueueState};
use steward::controller::race::RaceState;
use steward::controller::record::{Record, RecordEvidence, RecordSector, RecordsState};
use steward::controller::schedule::Schedule;
use steward::gbx::map_file::{parse_map_header, MapFileError};
use steward::gbx::structs::{
    DisplayString, ModeScript, PauseStatus, PlayerInfo, PlayerScore, PlaylistMap, Points, Scores, WarmupStatus,
};
use steward::keyed::remove_key;

fn racing(uid: i32, login: &str) -> PlayerInfo {
    PlayerInfo {
        uid,
        login: login.to_string(),
        display_name: DisplayString::from(login.to_uppercase()),
        team_id: None,
        flag_digit_mask: 101_000_000,
        spectator_digit_mask: 0,
    }
}

fn pure_spectator(uid: i32, login: &str) -> PlayerInfo {
    PlayerInfo { flag_digit_mask: 100_000_000, spectator_digit_mask: 2_551_011, ..racing(uid, login) }
}

fn entry(uid: &str) -> MapEntry {
    MapEntry {
        uid: uid.to_string(),
        file_name: format!("{}.Map.Gbx", uid),
        name: DisplayString::from(format!("Map {}", uid)),
        author_login: "author".to_string(),
        author_display_name: DisplayString::from("$fffAuthor".to_string()),
        author_millis: 30000,
        added_since_millis: 0,
        in_playlist: true,
        exchange_id: None,
    }
}

fn record(login: &str, rank: i64, millis: i32) -> Record {
    Record {
        map_uid: "map".to_string(),
        map_rank: rank,
        player_login: login.to_string(),
        player_nick_name: login.to_string(),
        timestamp_millis: 0,
        millis,
        sectors: vec![],
    }
}

fn evidence(login: &str, millis: i32) -> RecordEvidence {
    RecordEvidence {
        player_login: login.to_string(),
        map_uid: "map".to_string(),
        millis,
        timestamp_millis: 0,
        sectors: vec![],
    }
}

fn score(login: &str, pos: i32, best_time_millis: i32) -> PlayerScore {
    PlayerScore {
        login: login.to_string(),
        account_id: String::new(),
        display_name: DisplayString::from(format!("${}", login)),
        pos,
        best_time_millis,
        best_time_cp_millis: vec![],
        best_lap_time_millis: -1,
        best_lap_time_cp_millis: vec![],
        points: Points { round: None, map: None, match_: None },
    }
}

fn config() -> Config {
    Config {
        rpc_address: "127.0.0.1:5000".to_string(),
        rpc_login: "SuperAdmin".to_string(),
        rpc_password: "SuperAdmin".to_string(),
        postgres_connection: "host=localhost".to_string(),
        super_admin_whitelist: vec!["root".to_string()],
        admin_whitelist: vec![],
        time_limit_factor: 10,
        time_limit_max_secs: 900,
        time_limit_min_secs: 300,
        outro_duration_secs: 15,
    }
}

fn public_cfg(factor: u32, max: u32, min: u32) -> PublicConfig {
    PublicConfig { time_limit_factor: factor, time_limit_max_secs: max, time_limit_min_secs: min, outro_duration_secs: 20 }
}

#[test]
fn public_config_reads_back_what_was_written() {
    let mut cfg = config();
    assert_eq!(
        cfg.public(),
        PublicConfig { time_limit_factor: 10, time_limit_max_secs: 900, time_limit_min_secs: 300, outro_duration_secs: 15 }
    );
    cfg.set_public(public_cfg(8, 600, 120));
    assert_eq!(cfg.public(), public_cfg(8, 600, 120));
    assert_eq!(cfg.rpc_address, "127.0.0.1:5000");
    assert_eq!(cfg.super_admin_whitelist, vec!["root".to_string()]);
}

#[test]
fn public_config_checks() {
    assert_eq!(PublicConfig::validate(public_cfg(8, 600, 120)).ok(), Some(public_cfg(8, 600, 120)));
    let err = PublicConfig::validate(public_cfg(0, 0, 900)).unwrap_err();
    assert!(matches!(err, PublicConfigError::TimeLimitFactorCannotBeZero));
    assert_eq!(err.message(), "time_limit_factor must be greater than zero");
    let err = PublicConfig::validate(public_cfg(1, 0, 0)).unwrap_err();
    assert!(matches!(err, PublicConfigError::TimeLimitMaxCannotBeZero));
    assert_eq!(err.message(), "time_limit_max_secs must be greater than zero");
    let err = PublicConfig::validate(public_cfg(1, 300, 300)).unwrap_err();
    assert!(matches!(err, PublicConfigError::TimeLimitMinGreaterThanMax));
    assert_eq!(err.message(), "time_limit_max_secs must be greater than time_limit_min_secs");
    assert_eq!(PublicConfigError::ParseError("line 1".to_string()).message(), "Not a valid config");
}

#[test]
fn playlist_index_and_new_maps() {
    let mut playlist = PlaylistState::init(vec![entry("a"), entry("b")], None);
    assert!(playlist.current_map().is_none());
    playlist.set_index(1);
    assert_eq!(playlist.current_index, Some(1));
    assert_eq!(playlist.current_map().map(|m| m.uid.as_str()), Some("b"));
    let diff = playlist.append_new(entry("c"));
    assert!(matches!(&diff, PlaylistDiff::AppendNew(m) if m.uid == "c"));
    assert_eq!(playlist.maps.len(), 3);
    assert_eq!(playlist.current_index, Some(1));
    match playlist_message(&diff) {
        ServerMessage::NewMap { name, author } => {
            assert_eq!(name, "Map c");
            assert_eq!(author, "$fffAuthor");
        }
        _ => panic!("a new map is announced as new"),
    }
    let added = PlaylistDiff::Append(entry("d"));
    assert!(matches!(playlist_message(&added), ServerMessage::AddedMap { name: "Map d" }));
    let removed = PlaylistDiff::Remove { was_index: 0, map: entry("a") };
    assert!(matches!(playlist_message(&removed), ServerMessage::RemovedMap { name: "Map a" }));
}

#[test]
fn players_are_announced_when_they_join_and_leave() {
    let joined = PlayerDiff::AddSpectator(racing(1, "a"));
    assert!(matches!(player_message(&joined), Some(ServerMessage::Joining { display_name: "A" })));
    let left = PlayerDiff::RemovePureSpectator(racing(1, "a"));
    assert!(matches!(player_message(&left), Some(ServerMessage::Leaving { display_name: "A" })));
    let moved = PlayerDiff::MoveToPlayer(racing(1, "a"));
    assert!(player_message(&moved).is_none());
}

#[test]
fn players_by_uid() {
    let mut players = PlayersState::init();
    players.update_player(racing(1, "a"));
    players.update_player(pure_spectator(2, "b"));
    let mut all: Vec<i32> = players.uid_all().into_iter().collect();
    all.sort();
    assert_eq!(all, vec![1, 2]);
    assert_eq!(players.uid_info(2).map(|i| i.login.as_str()), Some("b"));
    assert!(players.uid_info(3).is_none());
}

#[test]
fn preference_weights_add_up() {
    let (auto, pick, veto) = (ActivePreferenceValue::AutoPick, ActivePreferenceValue::Pick, ActivePreferenceValue::Veto);
    assert_eq!(pref_sum(&vec![]), 0);
    assert_eq!(pref_sum(&vec![auto, pick, veto, ActivePreferenceValue::Remove, ActivePreferenceValue::Unset]), -1);
    assert_eq!(pref_sum(&vec![pick, pick, veto]), 1);
}

#[test]
fn forced_restart_queues_the_current_map_first() {
    let mut queue = QueueState::init(3);
    queue.force_queue(2);
    assert!(!queue.force_restart(None));
    assert_eq!(queue.force_queue.iter().copied().collect::<Vec<usize>>(), vec![2]);
    assert!(queue.force_restart(Some(1)));
    assert_eq!(queue.force_queue.iter().copied().collect::<Vec<usize>>(), vec![1, 2]);
    // A map that is already first is not queued twice.
    assert!(queue.force_restart(Some(1)));
    assert_eq!(queue.force_queue.iter().copied().collect::<Vec<usize>>(), vec![1, 2]);
}

#[test]
fn map_preferences_and_restart_votes() {
    let mut players = PlayersState::init();
    players.update_player(racing(1, "a"));
    players.update_player(racing(2, "b"));
    let mut prefs = PreferencesState::init();
    prefs.set_preference(ActivePreference { player_uid: 1, map_uid: "m".to_string(), value: ActivePreferenceValue::Pick });
    prefs.set_preference(ActivePreference { player_uid: 2, map_uid: "m".to_string(), value: ActivePreferenceValue::Veto });
    prefs.set_preference(ActivePreference { player_uid: 2, map_uid: "n".to_string(), value: ActivePreferenceValue::Pick });
    let mut for_m = prefs.map_prefs("m");
    for_m.sort_by_key(|v| format!("{:?}", v));
    assert_eq!(for_m, vec![ActivePreferenceValue::Pick, ActivePreferenceValue::Veto]);
    assert!(prefs.map_prefs("x").is_empty());
    prefs.set_restart_vote(1, true);
    prefs.set_restart_vote(2, true);
    assert_eq!(prefs.poll_restart(&players).len(), 2);
    prefs.reset_restart_votes();
    assert!(prefs.poll_restart(&players).is_empty());
    assert_eq!(prefs.pref(2, "n"), ActivePreferenceValue::Pick);
}

#[test]
fn playing_a_map_updates_the_history() {
    let mut players = PlayersState::init();
    players.update_player(racing(7, "p"));
    let mut prefs = PreferencesState::init();
    prefs.load_player(
        7,
        vec!["m1".to_string()],
        vec![],
        vec![History { player_login: "p".to_string(), map_uid: "m1".to_string(), last_played: Some(5), nb_maps_since: 2 }],
        &players,
    );
    prefs.add_new_map("m3", 3, &players);
    assert_eq!(prefs.pref(7, "m3"), ActivePreferenceValue::AutoPick);

    prefs.update_history(7, "m1", 100);
    assert_eq!(prefs.history(7, "m1").map(|h| (h.last_played, h.nb_maps_since)), Some((Some(100), 0)));
    // A map never played is not played more recently than any.
    assert_eq!(prefs.history(7, "m3").map(|h| (h.last_played, h.nb_maps_since)), Some((None, 3)));
    assert_eq!(prefs.pref(7, "m1"), ActivePreferenceValue::AutoPick);

    // The automatic pick of a new map ends once it was played.
    prefs.update_history(7, "m3", 200);
    assert_eq!(prefs.pref(7, "m3"), ActivePreferenceValue::Unset);
    assert_eq!(prefs.history(7, "m3").map(|h| (h.last_played, h.nb_maps_since)), Some((Some(200), 0)));
    // The first play of a map counts for every map played before.
    assert_eq!(prefs.history(7, "m1").map(|h| h.nb_maps_since), Some(1));
}

#[test]
fn removing_a_keyed_preference() {
    let mut v = vec![
        ActivePreference { player_uid: 1, map_uid: "m".to_string(), value: ActivePreferenceValue::Pick },
        ActivePreference { player_uid: 1, map_uid: "n".to_string(), value: ActivePreferenceValue::Veto },
        ActivePreference { player_uid: 2, map_uid: "m".to_string(), value: ActivePreferenceValue::Remove },
    ];
    remove_key(&mut v, 1, "m");
    let left: Vec<(i32, &str)> = v.iter().map(|p| (p.player_uid, p.map_uid.as_str())).collect();
    assert_eq!(left.len(), 2);
    assert!(left.contains(&(1, "n")));
    assert!(left.contains(&(2, "m")));
    remove_key(&mut v, 3, "m");
    assert_eq!(v.len(), 2);
}

#[test]
fn time_limits_follow_top_records() {
    let mut schedule = Schedule::init(vec![30000, 46000, 100000]);
    assert_eq!(schedule.set_time_limit(0, None), 300);
    assert_eq!(schedule.set_time_limit(1, Some(47000)), 480);
    assert_eq!(schedule.reference_millis, vec![30000, 47000, 100000]);
}

#[test]
fn time_until_a_map_is_played() {
    let schedule = Schedule::init(vec![30000, 46000, 100000]);
    let queue = QueueState {
        entries: vec![
            QueueEntry { pos: 0, playlist_idx: 2, priority: QueuePriority::Score(3) },
            QueueEntry { pos: 1, playlist_idx: 0, priority: QueuePriority::Score(1) },
            QueueEntry { pos: 2, playlist_idx: 1, priority: QueuePriority::NoRestart },
        ],
        times_skipped: vec![0, 0, 0],
        force_queue: VecDeque::new(),
        min_restart_vote_quarters: 2,
    };
    // The current map (limit 450 s) has 400 s left; then 10 s in between,
    // the first queued map (900 s), and another 10 s.
    assert_eq!(schedule.time_until_played(&queue, Some(0), Some(1), 50000, 10000), Some(1_320_000));
    assert_eq!(schedule.time_until_played(&queue, Some(2), Some(1), 50000, 10000), Some(410_000));
    assert_eq!(schedule.time_until_played(&queue, Some(1), Some(1), 50000, 10000), Some(0));
    assert_eq!(schedule.time_until_played(&queue, None, Some(1), 50000, 10000), None);
    // Without a current map, only the queue ahead counts.
    assert_eq!(schedule.time_until_played(&queue, Some(0), None, 0, 10000), Some(920_000));
}

#[test]
fn records_of_a_map() {
    let mut records = RecordsState::init();
    records.load_map(
        2,
        Some(record("a", 1, 10000)),
        vec![record("a", 1, 10000), record("b", 2, 20000)],
        vec![(1, record("a", 1, 10000)), (2, record("b", 2, 20000))],
    );
    assert_eq!(records.nb_records, 2);
    assert_eq!(records.pb(2).map(|r| r.millis), Some(20000));
    let pbs: Vec<i32> = records.playing_pbs().iter().map(|r| r.millis).collect();
    assert_eq!(pbs, vec![10000, 20000]);
    assert_eq!(records.pos_preview(&evidence("c", 5000)), Some(1));
    assert_eq!(records.pos_preview(&evidence("c", 15000)), Some(2));
    // Fewer records than the limit are all cached: a slower one comes last.
    assert_eq!(records.pos_preview(&evidence("c", 30000)), Some(3));
    records.insert_pb(3, record("c", 3, 40000));
    assert_eq!(records.pb(3).map(|r| r.millis), Some(40000));
    assert_eq!(records.top_records.len(), 2);
}

#[test]
fn ending_runs() {
    let mut records = RecordsState::init();
    records.load_map(
        2,
        Some(record("a", 1, 10000)),
        vec![record("a", 1, 10000), record("b", 2, 20000)],
        vec![(1, record("a", 1, 10000)), (2, record("b", 2, 20000))],
    );
    // A slower run leaves the personal best as it is.
    let diff = records.begin_end_run(2, 25000).expect("no improvement");
    assert_eq!((diff.millis_diff, diff.prev_pos, diff.new_pos, diff.pos_gained), (Some(5000), Some(2), 2, 0));
    assert!(diff.new_record.is_none());

    // A faster run hands out the run's sectors to be stored.
    records.push_sector(2, RecordSector { index: 0, cp_millis: 15000, cp_speed_bits: 0 });
    let improved = match records.begin_end_run(2, 15000) {
        Err(improved) => improved,
        Ok(_) => panic!("the run improved the personal best"),
    };
    assert_eq!((improved.prev_pos, improved.millis_diff, improved.sectors.len()), (Some(2), Some(-5000), 1));
    assert!(!records.has_run_sectors(2));
    let diff = records.finish_end_run(2, improved, 2, record("b", 2, 15000));
    assert_eq!((diff.new_pos, diff.pos_gained, diff.millis_diff), (2, 0, Some(-5000)));
    assert_eq!(records.pb(2).map(|r| r.millis), Some(15000));
    assert_eq!(records.nb_records, 2);

    // The first run of a new player adds a record.
    records.push_sector(3, RecordSector { index: 0, cp_millis: 5000, cp_speed_bits: 0 });
    let improved = match records.begin_end_run(3, 5000) {
        Err(improved) => improved,
        Ok(_) => panic!("a first run is a new personal best"),
    };
    assert_eq!((improved.prev_pos, improved.millis_diff), (None, None));
    let diff = records.finish_end_run(3, improved, 1, record("c", 1, 5000));
    assert_eq!(records.nb_records, 3);
    assert_eq!((diff.new_pos, diff.pos_gained), (1, 2));
    let tops: Vec<i32> = records.top_records.iter().map(|r| r.millis).collect();
    assert_eq!(tops[0], 5000);
}

#[test]
fn race_contestants_pause_and_warmup() {
    let mut players = PlayersState::init();
    players.update_player(racing(1, "a"));
    let mut race = RaceState::init(false, false);
    assert!(race.add_contestant(&players, "a"));
    assert!(!race.add_contestant(&players, "a"));
    assert!(!race.add_contestant(&players, "x"));
    assert_eq!(race.pre_race, vec![1]);
    assert!(race.set_pause(true));
    assert!(!race.set_pause(true));
    assert!(race.paused);
    assert!(race.set_warmup(true));
    assert!(!race.set_warmup(true));
    assert!(race.set_warmup(false));
    assert!(!race.warmup);
}

#[test]
fn race_ranking_from_scores() {
    let mut players = PlayersState::init();
    players.update_player(racing(1, "a"));
    players.update_player(racing(2, "b"));
    let mut race = RaceState::init(false, false);
    let scores = Scores {
        response_id: None,
        players: vec![score("b", 1, 20000), score("a", 2, -1), score("x", 3, 10000)],
        teams: vec![],
        section: None,
    };
    race.set_scores(&players, &scores);
    let ranking: Vec<(&str, Option<usize>)> = race.ranking.iter().map(|r| (r.login.as_str(), r.millis)).collect();
    assert_eq!(ranking, vec![("b", Some(20000)), ("a", None)]);
    assert_eq!(race.rank_of(&players, 2), Some(1));
    assert_eq!(race.rank_of(&players, 1), Some(2));
}

#[test]
fn map_header_needs_the_magic_bytes() {
    assert!(matches!(parse_map_header(b"GBY\x06\x00"), Err(MapFileError::NoMagicHeader)));
}

#[test]
fn a_pick_scores_two_points_more_than_a_veto() {
    let others = vec![ActivePreferenceValue::AutoPick, ActivePreferenceValue::Remove];
    let mut with_pick = others.clone();
    with_pick.push(ActivePreferenceValue::Pick);
    let mut with_veto = others.clone();
    with_veto.push(ActivePreferenceValue::Veto);
    assert_eq!(pref_sum(&with_pick), pref_sum(&with_veto) + 2);
}

#[test]
fn maps_with_higher_scores_are_queued_first() {
    let mut queue = QueueState::init(4);
    queue.update_queue(Some(0), false, &vec![0, 0, 0, 0], Some(0));
    // Map 0 was just played; the others are ordered by score.
    queue.update_queue(Some(0), false, &vec![0, -2, 3, 1], Some(0));
    let order: Vec<usize> = queue.peek().iter().map(|e| e.playlist_idx).collect();
    assert_eq!(order, vec![2, 3, 1, 0]);
}

fn named(uid: &str, name: &str) -> MapEntry {
    MapEntry { name: DisplayString::from(name.to_string()), ..entry(uid) }
}

#[test]
fn map_list_for_admins() {
    let maps = vec![
        named("u1", "$oZulu"),
        named("u2", "alpha"),
        named("u3", "$i$fffBravo"),
        named("u4", "Charlie"),
        named("u5", "$s$$Dollar"),
    ];
    let playlist = vec![
        PlaylistMap { uid: "u3".to_string(), file_name: "u3.Map.Gbx".to_string() },
        PlaylistMap { uid: "u1".to_string(), file_name: "u1.Map.Gbx".to_string() },
        PlaylistMap { uid: "u5".to_string(), file_name: "u5.Map.Gbx".to_string() },
    ];
    let (inside, outside) = map_list_sections(&maps, &playlist);
    let uids = |v: &Vec<&MapEntry>| v.iter().map(|m| m.uid.clone()).collect::<Vec<String>>();
    // Sorted by their names without formatting: "$Dollar" < "Bravo" < "Zulu"
    // (an escaped dollar sign is one dollar sign, which sorts before letters).
    assert_eq!(uids(&inside), vec!["u5", "u3", "u1"]);
    // Upper case letters sort before lower case ones.
    assert_eq!(uids(&outside), vec!["u4", "u2"]);
}

#[test]
fn modes_are_named_ignoring_case() {
    assert_eq!(default_mode_named("timeattack"), Some(ModeScript::TimeAttack));
    assert_eq!(default_mode_named("ROUNDS"), Some(ModeScript::Rounds));
    assert_eq!(default_mode_named("Knockout"), Some(ModeScript::Knockout));
    assert_eq!(default_mode_named("speed"), None);
}

#[test]
fn match_settings_files_end_in_txt() {
    assert_eq!(match_settings_file("maplist"), ("maplist.txt".to_string(), "maplist".to_string()));
    assert_eq!(match_settings_file("maplist.txt.txt"), ("maplist.txt".to_string(), "maplist".to_string()));
    let names = vec!["b.txt", "a.txt", "notes.md", "C.txt", "txt"].into_iter().map(String::from).collect();
    assert_eq!(settings_options(names), vec!["C.txt", "a.txt", "b.txt"]);
}

#[test]
fn dangerous_commands_are_confirmed_first() {
    let playlist = PlaylistState::init(vec![entry("a")], Some(0));
    let known = entry("b");
    let blacklist = vec!["cheater".to_string()];
    let res = prepare_dangerous(DangerousCommand::DeleteMap { uid: "b" }, Some(&known), &playlist, &blacklist);
    assert!(matches!(
        res,
        CommandOutput::Confirm(
            DangerousCommand::DeleteMap { uid: "b" },
            CommandConfirmOutput::ConfirmMapDeletion { file_name: "b.Map.Gbx" }
        )
    ));
    let in_playlist = entry("a");
    let res = prepare_dangerous(DangerousCommand::DeleteMap { uid: "a" }, Some(&in_playlist), &playlist, &blacklist);
    assert!(matches!(res, CommandOutput::Error(CommandErrorOutput::CannotDeletePlaylistMap)));
    let res = prepare_dangerous(DangerousCommand::DeleteMap { uid: "x" }, None, &playlist, &blacklist);
    assert!(matches!(res, CommandOutput::Error(CommandErrorOutput::UnknownMap)));
    let res = prepare_dangerous(DangerousCommand::DeletePlayer { login: "cheater" }, None, &playlist, &blacklist);
    assert!(matches!(
        res,
        CommandOutput::Confirm(
            DangerousCommand::DeletePlayer { login: "cheater" },
            CommandConfirmOutput::ConfirmPlayerDeletion { login: "cheater" }
        )
    ));
    let res = prepare_dangerous(DangerousCommand::DeletePlayer { login: "friend" }, None, &playlist, &blacklist);
    assert!(matches!(res, CommandOutput::Error(CommandErrorOutput::CannotDeleteWhitelistedPlayer)));
    let res = prepare_dangerous(DangerousCommand::Shutdown, None, &playlist, &blacklist);
    assert!(matches!(res, CommandOutput::Confirm(DangerousCommand::Shutdown, CommandConfirmOutput::ConfirmShutdown)));
}

#[test]
fn short_top_lists_take_slower_records() {
    let mut records = RecordsState::init();
    records.upsert_record(1, &record("a", 1, 10000));
    records.upsert_record(2, &record("b", 2, 20000));
    let tops: Vec<(&str, i32)> = records.top_records.iter().map(|r| (r.player_login.as_str(), r.millis)).collect();
    assert_eq!(tops, vec![("a", 10000), ("b", 20000)]);
    assert_eq!(records.nb_records, 2);
    assert_eq!(records.pb(2).map(|r| r.millis), Some(20000));
    // With the limit reached, a record slower than all cached ones has no place.
    for uid in 3..=10 {
        records.upsert_record(uid, &record(&format!("p{}", uid), uid as i64, 20000 + uid * 100));
    }
    assert_eq!(records.top_records.len(), 10);
    assert_eq!(records.pos_preview(&evidence("z", 90000)), None);
    assert_eq!(records.pos_preview(&evidence("z", 15000)), Some(2));
}

#[test]
fn top_record_is_the_fastest_cached_record() {
    let mut records = RecordsState::init();
    records.upsert_record(1, &record("a", 1, 30000));
    records.upsert_record(2, &record("b", 2, 40000));
    assert_eq!(records.top_record.as_ref().map(|r| r.millis), Some(30000));
    // The leader improves: still the top record, with the new time.
    records.upsert_record(1, &record("a", 1, 25000));
    assert_eq!(records.top_record.as_ref().map(|r| (r.player_login.as_str(), r.millis)), Some(("a", 25000)));
    assert_eq!(records.top_records.len(), 2);
    // Another player takes the lead.
    records.upsert_record(2, &record("b", 2, 20000));
    assert_eq!(records.top_record.as_ref().map(|r| (r.player_login.as_str(), r.millis)), Some(("b", 20000)));
    assert_eq!(records.top_records[0].player_login, "b");
    assert_eq!(records.top_records[1].player_login, "a");
}

#[test]
fn removing_a_map_keeps_the_current_one() {
    let mut playlist = PlaylistState::init(vec![entry("m0"), entry("m1"), entry("m2")], Some(1));
    let res = playlist.remove("m0", Some(entry("m0")));
    assert!(matches!(res, Ok(PlaylistDiff::Remove { was_index: 0, .. })));
    assert_eq!(playlist.current_index, Some(0));
    assert_eq!(playlist.current_map().map(|m| m.uid.as_str()), Some("m1"));
    // Removing a later map leaves the index; removing the current map clears it.
    assert!(playlist.remove("m2", Some(entry("m2"))).is_ok());
    assert_eq!(playlist.current_index, Some(0));
    assert!(matches!(playlist.remove("m1", Some(entry("m1"))), Err(PlaylistCommandError::CannotDisableAllMaps)));
    let mut two = PlaylistState::init(vec![entry("a"), entry("b")], Some(1));
    assert!(matches!(two.remove("x", None), Err(PlaylistCommandError::MapAlreadyRemoved)));
    assert!(matches!(two.remove("a", None), Err(PlaylistCommandError::UnknownUid)));
    assert_eq!(two.maps.len(), 2);
    assert!(two.remove("b", Some(entry("b"))).is_ok());
    assert_eq!(two.current_index, None);
}

#[test]
fn adding_preferences_counts_each_map_once() {
    let mut prefs = PreferencesState::init();
    let pref = |uid: i32, map: &str, value: ActivePreferenceValue| ActivePreference { player_uid: uid, map_uid: map.to_string(), value };
    prefs.add_pref(pref(1, "m", ActivePreferenceValue::Pick));
    assert_eq!(prefs.nb_player_prefs(1), 1);
    prefs.add_pref(pref(1, "m", ActivePreferenceValue::Veto));
    assert_eq!(prefs.nb_player_prefs(1), 1);
    assert_eq!(prefs.pref(1, "m"), ActivePreferenceValue::Veto);
    prefs.add_pref(pref(1, "n", ActivePreferenceValue::Unset));
    assert_eq!(prefs.nb_player_prefs(1), 2);
    assert_eq!(prefs.preferences.len(), 2);
    prefs.add_pref(pref(2, "m", ActivePreferenceValue::Pick));
    assert_eq!(prefs.nb_player_prefs(1), 2);
    assert_eq!(prefs.nb_player_prefs(2), 1);
}

#[test]
fn map_preferences_are_each_players_preference() {
    let mut prefs = PreferencesState::init();
    let pref = |uid: i32, map: &str, value: ActivePreferenceValue| ActivePreference { player_uid: uid, map_uid: map.to_string(), value };
    prefs.add_pref(pref(1, "m", ActivePreferenceValue::Pick));
    prefs.add_pref(pref(2, "m", ActivePreferenceValue::Veto));
    prefs.add_pref(pref(2, "n", ActivePreferenceValue::Pick));
    prefs.add_pref(pref(1, "m", ActivePreferenceValue::Remove));
    assert_eq!(prefs.map_prefs("m"), vec![prefs.pref(1, "m"), prefs.pref(2, "m")]);
    assert_eq!(prefs.map_prefs("m"), vec![ActivePreferenceValue::Remove, ActivePreferenceValue::Veto]);
    assert_eq!(prefs.map_prefs("n"), vec![ActivePreferenceValue::Pick]);
}

#[test]
fn joining_twice_changes_nothing() {
    let mut players = PlayersState::init();
    let first = players.update_player(racing(7, "g"));
    assert!(matches!(first, Some(PlayerDiff::AddPlayer(ref i)) if i.uid == 7));
    assert_eq!(players.uid("g"), Some(&7));
    assert!(players.playing.contains(&7));
    let second = players.update_player(racing(7, "g"));
    assert!(second.is_none());
    assert_eq!(players.uid("g"), Some(&7));
    assert_eq!(players.playing.len(), 1);
    assert!(players.spectating.is_empty() && players.pure_spectating.is_empty());
}

#[test]
fn every_connected_player_is_counted_once() {
    let mut players = PlayersState::init();
    players.update_player(racing(1, "a"));
    players.update_player(pure_spectator(2, "b"));
    let spectator = PlayerInfo { spectator_digit_mask: 1, ..racing(3, "c") };
    players.update_player(spectator);
    let mut uids: Vec<i32> = players.uid_all().into_iter().collect();
    uids.sort();
    let mut infos: Vec<i32> = players.info_all().iter().map(|i| i.uid).collect();
    infos.sort();
    assert_eq!(uids, infos);
    assert_eq!(players.info_all().len(), players.uid_all().len());
    assert_eq!((players.playing.clone(), players.spectating.clone(), players.pure_spectating.clone()), (vec![1], vec![3], vec![2]));
}

#[test]
fn a_players_set_follows_their_last_update() {
    let mut players = PlayersState::init();
    players.update_player(racing(1, "a"));
    players.update_player(racing(2, "b"));
    let moved = players.update_player(PlayerInfo { spectator_digit_mask: 1, ..racing(1, "a") });
    assert!(matches!(moved, Some(PlayerDiff::MoveToSpectator(_))));
    assert_eq!(players.playing, vec![2]);
    assert_eq!(players.spectating, vec![1]);
    let left = players.update_player(PlayerInfo { flag_digit_mask: 1_000_000, ..racing(1, "a") });
    assert!(matches!(left, Some(PlayerDiff::RemoveSpectator(_))));
    assert!(players.spectating.is_empty());
    assert_eq!(players.playing, vec![2]);
    assert!(players.uid("a").is_none());
}

#[test]
fn a_removed_player_has_no_personal_best() {
    let mut records = RecordsState::init();
    records.insert_pb(1, record("a", 1, 30000));
    records.insert_pb(2, record("b", 2, 40000));
    records.remove_player(1);
    assert!(records.pb(1).is_none());
    let logins: Vec<&str> = records.playing_pbs().iter().map(|r| r.player_login.as_str()).collect();
    assert_eq!(logins, vec!["b"]);
}

#[test]
fn a_login_leads_to_its_own_information() {
    let mut players = PlayersState::init();
    players.update_player(racing(1, "a"));
    // The same login with a new UID, before the old one left.
    players.update_player(racing(2, "a"));
    let info = players.info("a").unwrap();
    assert_eq!((info.uid, info.login.as_str()), (2, "a"));
    assert_eq!(players.uid("a"), Some(&2));
    assert!(players.remove_player("a").is_some());
    assert!(players.info("a").is_none());
}

#[test]
fn admin_commands_are_checked_before_they_run() {
    let playlist = PlaylistState::init(vec![entry("a"), entry("b")], Some(0));
    let paused = PauseStatus { response_id: None, available: true, active: true };
    let no_pause = PauseStatus { response_id: None, available: false, active: false };
    let warmup = WarmupStatus { response_id: None, available: true, active: true };
    let racing_now = WarmupStatus { response_id: None, available: true, active: false };
    let blacklist = vec!["cheater".to_string()];
    let step = |cmd, pause: &PauseStatus, warm: &WarmupStatus| admin_step(cmd, "admin", &playlist, pause, warm, &blacklist);
    assert!(matches!(step(AdminCommand::ForceQueue { uid: "b" }, &paused, &warmup), AdminStep::ForceQueue { playlist_index: 1 }));
    assert!(matches!(
        step(AdminCommand::ForceQueue { uid: "x" }, &paused, &warmup),
        AdminStep::Refuse(CommandErrorOutput::UnknownMap)
    ));
    assert!(matches!(step(AdminCommand::BlacklistAdd { login: "admin" }, &paused, &warmup), AdminStep::Nothing));
    assert!(matches!(step(AdminCommand::BlacklistAdd { login: "other" }, &paused, &warmup), AdminStep::Blacklist { login: "other" }));
    assert!(matches!(
        step(AdminCommand::BlacklistRemove { login: "cheater" }, &paused, &warmup),
        AdminStep::Unblacklist { login: "cheater" }
    ));
    assert!(matches!(
        step(AdminCommand::BlacklistRemove { login: "friend" }, &paused, &warmup),
        AdminStep::Refuse(CommandErrorOutput::UnknownBlacklistPlayer)
    ));
    assert!(matches!(step(AdminCommand::TogglePause, &paused, &warmup), AdminStep::TogglePause { active: true }));
    assert!(matches!(step(AdminCommand::TogglePause, &no_pause, &warmup), AdminStep::Refuse(CommandErrorOutput::CannotPause)));
    assert!(matches!(step(AdminCommand::ExtendWarmup { secs: 30 }, &paused, &warmup), AdminStep::ExtendWarmup { secs: 30 }));
    assert!(matches!(step(AdminCommand::SkipWarmup, &paused, &racing_now), AdminStep::Refuse(CommandErrorOutput::NotInWarmup)));
    assert!(matches!(step(AdminCommand::ListMaps, &paused, &warmup), AdminStep::ListMaps));
}
