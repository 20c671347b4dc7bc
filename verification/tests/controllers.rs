use steward::controller::player::{PlayerDiff, PlayersState};
use steward::controller::playlist::{imported_file_name, MapEntry, PlaylistDiff, PlaylistState};
use steward::controller::preference::{
    ActivePreference, ActivePreferenceValue, History, Preference, PreferenceValue, PreferencesState,
};
use steward::controller::queue::{voted_restart, QueueAction, QueueState};
use steward::controller::race::RaceState;
use steward::controller::record::{Record, RecordSector, RecordsState};
use steward::controller::schedule::to_limit;
use steward::controller::server_rank::ServerRank;
use steward::controller::server_ranking::ServerRankingState;
use steward::gbx::structs::{CheckpointEvent, DisplayString, PlayerInfo, PlayerSlot};

fn player(uid: i32, login: &str, flags: i32, spectator: i32) -> PlayerInfo {
    PlayerInfo {
        uid,
        login: login.to_string(),
        display_name: DisplayString::from(login.to_uppercase()),
        team_id: None,
        flag_digit_mask: flags,
        spectator_digit_mask: spectator,
    }
}

fn racing(uid: i32, login: &str) -> PlayerInfo {
    player(uid, login, 101_000_000, 0)
}

fn entry(uid: &str) -> MapEntry {
    MapEntry {
        uid: uid.to_string(),
        file_name: format!("{}.Map.Gbx", uid),
        name: DisplayString::from(uid.to_string()),
        author_login: "author".to_string(),
        author_display_name: DisplayString::from("$fffAuthor".to_string()),
        author_millis: 30000,
        added_since_millis: 0,
        in_playlist: true,
        exchange_id: None,
    }
}

fn record(login: &str, millis: i32) -> Record {
    Record {
        map_uid: "map".to_string(),
        map_rank: 1,
        player_login: login.to_string(),
        player_nick_name: login.to_string(),
        timestamp_millis: 0,
        millis,
        sectors: vec![],
    }
}

fn server_rank(pos: usize, login: &str, wins: usize) -> ServerRank {
    ServerRank {
        pos,
        player_login: login.to_string(),
        player_display_name: DisplayString::from(login.to_string()),
        nb_wins: wins,
        nb_losses: 0,
    }
}

#[test]
fn player_slots_from_flags() {
    assert_eq!(racing(1, "a").slot(), PlayerSlot::Player);
    assert_eq!(player(1, "a", 101_000_000, 2_551_011).slot(), PlayerSlot::PlayerSpectator);
    assert_eq!(player(1, "a", 100_000_000, 2_551_011).slot(), PlayerSlot::PureSpectator);
    assert_eq!(player(1, "a", 1_000_000, 0).slot(), PlayerSlot::NoSlot);
    assert_eq!(player(1, "server", 101_100_000, 0).slot(), PlayerSlot::NoSlot);
}

#[test]
fn players_join_move_and_leave() {
    let mut players = PlayersState::init();
    assert!(matches!(players.update_player(racing(1, "a")), Some(PlayerDiff::AddPlayer(_))));
    assert_eq!(players.uid("a"), Some(&1));
    assert!(players.is_connected(1));
    assert_eq!(players.login(1), Some("a"));
    assert!(matches!(
        players.update_player(player(1, "a", 101_000_000, 2_551_011)),
        Some(PlayerDiff::MoveToSpectator(_))
    ));
    assert!(players.info_playing().is_empty());
    assert!(matches!(players.remove_player("a"), Some(PlayerDiff::RemoveSpectator(_))));
    assert!(!players.is_connected(1));
    assert!(players.uid("a").is_none());
    assert!(players.remove_player("a").is_none());
}

#[test]
fn playlist_add_and_find() {
    let mut playlist = PlaylistState::init(vec![entry("a"), entry("b")], Some(0));
    assert!(playlist.check_add("a").is_err());
    assert!(playlist.check_add("c").is_ok());
    playlist.append(entry("c"));
    assert_eq!(playlist.index_of("c"), Some(2));
    assert_eq!(playlist.current_map().map(|m| m.uid.as_str()), Some("a"));
    assert_eq!(playlist.check_remove("b").ok(), Some(1));
    assert!(playlist.check_remove("x").is_err());
    let removed = playlist.at_index(1).unwrap().duplicate();
    assert!(matches!(playlist.remove_at(1, removed), PlaylistDiff::Remove { was_index: 1, .. }));
    assert_eq!(playlist.index_of("b"), None);
}

#[test]
fn imported_map_file_name() {
    assert_eq!(imported_file_name("  My Map ", "uid42"), "My Map.uid42.Map.gbx");
}

#[test]
fn preferences_read_back_what_was_set() {
    let mut prefs = PreferencesState::init();
    assert_eq!(prefs.pref(1, "m"), ActivePreferenceValue::Unset);
    let stated = prefs.set_preference(ActivePreference {
        player_uid: 1,
        map_uid: "m".to_string(),
        value: ActivePreferenceValue::Veto,
    });
    assert_eq!(stated, Some(PreferenceValue::Veto));
    assert_eq!(prefs.pref(1, "m"), ActivePreferenceValue::Veto);
    assert_eq!(prefs.nb_player_prefs(1), 1);
    prefs.remove_map("m");
    assert_eq!(prefs.pref(1, "m"), ActivePreferenceValue::Unset);
}

#[test]
fn loading_a_player_gives_auto_picks_then_stated_preferences() {
    let mut players = PlayersState::init();
    players.update_player(racing(7, "p"));
    let mut prefs = PreferencesState::init();
    let nb = prefs.load_player(
        7,
        vec!["m1".to_string(), "m2".to_string()],
        vec![Preference { player_login: "p".to_string(), map_uid: "m2".to_string(), value: PreferenceValue::Pick }],
        vec![History { player_login: "p".to_string(), map_uid: "m1".to_string(), last_played: Some(5), nb_maps_since: 2 }],
        &players,
    );
    assert_eq!(nb, 2);
    assert_eq!(prefs.pref(7, "m1"), ActivePreferenceValue::AutoPick);
    assert_eq!(prefs.pref(7, "m2"), ActivePreferenceValue::Pick);
    assert_eq!(prefs.history(7, "m1").map(|h| h.nb_maps_since), Some(2));
    prefs.add_new_map("m3", 3, &players);
    assert_eq!(prefs.pref(7, "m3"), ActivePreferenceValue::AutoPick);
    assert_eq!(prefs.history(7, "m3").map(|h| (h.last_played, h.nb_maps_since)), Some((None, 3)));
}

#[test]
fn restart_votes_count_while_playing() {
    let mut players = PlayersState::init();
    players.update_player(racing(1, "a"));
    players.update_player(player(2, "b", 101_000_000, 2_551_011));
    let mut prefs = PreferencesState::init();
    prefs.set_restart_vote(1, true);
    prefs.set_restart_vote(2, true);
    assert_eq!(prefs.poll_restart(&players), vec![1]);
    prefs.set_restart_vote(1, false);
    assert!(prefs.poll_restart(&players).is_empty());
}

#[test]
fn restart_vote_share() {
    // Half of four players is enough for a threshold of two quarters.
    assert!(voted_restart(4, 2, 2));
    assert!(!voted_restart(4, 1, 2));
    assert!(!voted_restart(4, 0, 0));
    assert!(voted_restart(4, 4, 4));
    assert!(!voted_restart(4, 3, 4));
}

#[test]
fn voted_restart_replays_the_map() {
    let mut queue = QueueState::init(3);
    let action = queue.update_queue(Some(1), true, &vec![0, 0, 0], Some(2));
    assert_eq!(action, QueueAction::RestartMap);
    assert_eq!(queue.peek()[0].playlist_idx, 1);
    assert_eq!(queue.min_restart_vote_quarters, 3);
    let action = queue.update_queue(Some(1), false, &vec![0, 0, 0], Some(2));
    assert_ne!(action, QueueAction::RestartMap);
    assert_eq!(queue.min_restart_vote_quarters, 2);
}

#[test]
fn force_queued_map_is_next() {
    let mut queue = QueueState::init(3);
    // The map played when the controller starts is queued first.
    let action = queue.update_queue(Some(0), false, &vec![0, 0, 0], Some(0));
    assert_eq!(action, QueueAction::RestartMap);
    queue.force_queue(2);
    let action = queue.update_queue(Some(1), false, &vec![5, 5, 0], Some(1));
    assert_eq!(action, QueueAction::ChangeNext(2));
}

#[test]
fn time_limits() {
    assert_eq!(to_limit(30000), 300000);
    assert_eq!(to_limit(46000), 450000);
    assert_eq!(to_limit(46500), 450000);
    assert_eq!(to_limit(47000), 480000);
    assert_eq!(to_limit(100000), 900000);
}

#[test]
fn race_ranking_orders_runs() {
    let mut players = PlayersState::init();
    players.update_player(racing(1, "a"));
    players.update_player(racing(2, "b"));
    let mut race = RaceState::init(false, false);
    race.update(&players, "a", 30000, true);
    race.update(&players, "b", 20000, true);
    assert_eq!(race.rank_of(&players, 2), Some(1));
    assert_eq!(race.rank_of(&players, 1), Some(2));
    // A slower run does not replace a faster one.
    race.update(&players, "b", 40000, true);
    assert_eq!(race.rank_of(&players, 2), Some(1));
    // Checkpoints are no finished runs.
    race.update(&players, "a", 10000, false);
    assert_eq!(race.rank_of(&players, 1), Some(2));
}

#[test]
fn race_ranking_frozen_during_warmup() {
    let mut players = PlayersState::init();
    players.update_player(racing(1, "a"));
    let mut race = RaceState::init(true, false);
    race.update(&players, "a", 30000, true);
    assert_eq!(race.rank_of(&players, 1), None);
}

#[test]
fn records_keep_the_best_run() {
    let mut records = RecordsState::init();
    records.upsert_record(1, &record("a", 30000));
    records.upsert_record(2, &record("b", 20000));
    assert_eq!(records.pb(1).map(|r| r.millis), Some(30000));
    records.upsert_record(1, &record("a", 40000));
    assert_eq!(records.pb(1).map(|r| r.millis), Some(30000));
    records.upsert_record(1, &record("a", 10000));
    assert_eq!(records.pb(1).map(|r| r.millis), Some(10000));
    let tops: Vec<i32> = records.top_records.iter().map(|r| r.millis).collect();
    assert_eq!(tops, vec![10000, 20000]);
}

#[test]
fn record_sectors_of_a_run() {
    let mut records = RecordsState::init();
    assert!(!records.has_run_sectors(1));
    records.push_sector(1, RecordSector { index: 0, cp_millis: 1000, cp_speed_bits: 0 });
    assert!(records.has_run_sectors(1));
    records.reset_run(1);
    assert!(!records.has_run_sectors(1));
}

#[test]
fn server_ranking_diff_for_connected_players() {
    let mut players = PlayersState::init();
    players.update_player(racing(1, "a"));
    players.update_player(racing(2, "b"));
    let mut state = ServerRankingState { all_ranks: vec![server_rank(1, "a", 5), server_rank(2, "c", 3)] };
    let diff = state.update(vec![server_rank(1, "b", 6), server_rank(2, "a", 4), server_rank(3, "c", 1)], &players);
    assert_eq!(diff.max_pos, 3);
    assert_eq!(state.max_pos(), 3);
    assert_eq!(state.rank_of("b").map(|r| r.pos), Some(1));
    let got: Vec<(i32, usize, i32, i32)> =
        diff.diffs.iter().map(|(uid, d)| (*uid, d.new_pos, d.gained_pos, d.gained_wins)).collect();
    assert_eq!(got, vec![(1, 2, -1, 1), (2, 1, 2, 6)]);
    assert_eq!(state.top_ranks().len(), 3);
}

#[test]
fn checkpoints_add_sectors_with_unsigned_speed() {
    let mut players = PlayersState::init();
    players.update_player(racing(3, "c"));
    let mut records = RecordsState::init();
    let ev = CheckpointEvent {
        player_login: "c".to_string(),
        race_time_millis: 1234,
        lap_time_millis: 1234,
        race_cp_index: 0,
        lap_cp_index: 0,
        race_cp_millis: vec![],
        lap_cp_millis: vec![],
        is_finish: false,
        is_lap_finish: false,
        speed_bits: (-12.5f32).to_bits(),
    };
    records.update_run(&players, &ev);
    let sectors = &records.run_sectors.iter().find(|(uid, _)| *uid == 3).unwrap().1;
    assert_eq!(sectors.len(), 1);
    assert_eq!(sectors[0].cp_millis, 1234);
    assert_eq!(f32::from_bits(sectors[0].cp_speed_bits), 12.5f32);
    // Checkpoints of players that are not connected are ignored.
    let other = CheckpointEvent { player_login: "x".to_string(), ..ev };
    records.update_run(&players, &other);
    assert_eq!(records.run_sectors.len(), 1);
}
