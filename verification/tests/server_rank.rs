use steward::controller::server_rank::{calc_server_ranking, MapRank, ServerRank};
use steward::gbx::structs::DisplayString;

fn map_rank(login: &str, nick: &str, pos: i64) -> MapRank {
    MapRank {
        player_login: login.to_string(),
        player_display_name: DisplayString::from(nick.to_string()),
        pos,
    }
}

fn assert_rank(actual: &ServerRank, pos: usize, login: &str, nick: &str, wins: usize, losses: usize) {
    assert_eq!(actual.pos, pos);
    assert_eq!(actual.player_login, login);
    assert_eq!(actual.player_display_name.formatted, nick);
    assert_eq!(actual.nb_wins, wins);
    assert_eq!(actual.nb_losses, losses);
}

#[test]
fn empty_server_ranking() {
    // No players with records, no maps.
    let ranking = calc_server_ranking(0, 0, &vec![]);
    assert!(ranking.is_empty());

    // One player with a record on a map that does not count.
    let ranking = calc_server_ranking(1, 0, &vec![]);
    assert!(ranking.is_empty());
}

#[test]
fn trivial_server_ranking() {
    let ranks = vec![map_rank("login1", "nick1", 1)];
    let ranking = calc_server_ranking(1, 1, &ranks);
    assert_eq!(1, ranking.len());
    assert_rank(&ranking[0], 1, "login1", "nick1", 0, 0);
}

#[test]
fn single_map_server_ranking() {
    let ranks = vec![
        map_rank("login1", "nick1", 1),
        map_rank("login2", "nick2", 2),
        map_rank("login3", "nick3", 3),
    ];
    let ranking = calc_server_ranking(3, 1, &ranks);
    assert_rank(&ranking[0], 1, "login1", "nick1", 2, 0);
    assert_rank(&ranking[1], 2, "login2", "nick2", 1, 1);
    assert_rank(&ranking[2], 3, "login3", "nick3", 0, 2);
}

#[test]
fn multi_map_server_ranking() {
    let ranks = vec![
        map_rank("login1", "nick1", 1),
        map_rank("login2", "nick2", 2),
        map_rank("login1", "nick1", 1),
        map_rank("login2", "nick2", 2),
        map_rank("login2", "nick2", 1),
        map_rank("login1", "nick1", 2),
    ];
    let ranking = calc_server_ranking(2, 3, &ranks);
    assert_rank(&ranking[0], 1, "login1", "nick1", 2, 1);
    assert_rank(&ranking[1], 2, "login2", "nick2", 1, 2);
}

#[test]
fn only_rank_playlist_maps() {
    // Only the ranks on the one playlist map are given; both players have records.
    let ranks = vec![map_rank("login1", "nick1", 1), map_rank("login2", "nick2", 2)];
    let ranking = calc_server_ranking(2, 1, &ranks);
    assert_rank(&ranking[0], 1, "login1", "nick1", 1, 0);
    assert_rank(&ranking[1], 2, "login2", "nick2", 0, 1);
}

#[test]
fn server_ranking_keeps_first_seen_order_on_ties() {
    // Equal wins keep the order in which players were first seen.
    let ranks = vec![map_rank("b", "B", 1), map_rank("a", "A", 2), map_rank("a", "A", 1), map_rank("b", "B", 2)];
    let ranking = calc_server_ranking(2, 2, &ranks);
    assert_rank(&ranking[0], 1, "b", "B", 1, 1);
    assert_rank(&ranking[1], 2, "a", "A", 1, 1);
}

#[test]
fn server_ranking_wins_are_summed_over_maps() {
    // Three ranked players, two maps; "c" has a rank on one map only.
    let ranks = vec![
        map_rank("a", "A", 2),
        map_rank("b", "B", 1),
        map_rank("c", "C", 3),
        map_rank("b", "B", 2),
        map_rank("a", "A", 1),
    ];
    let ranking = calc_server_ranking(3, 2, &ranks);
    assert_eq!(ranking.len(), 3);
    // a: (3 - 2) + (3 - 1) = 3, b: (3 - 1) + (3 - 2) = 3, c: 3 - 3 = 0; at most 2 * 2 = 4 wins.
    assert_rank(&ranking[0], 1, "a", "A", 3, 1);
    assert_rank(&ranking[1], 2, "b", "B", 3, 1);
    assert_rank(&ranking[2], 3, "c", "C", 0, 4);
    for r in &ranking {
        assert_eq!(r.nb_wins + r.nb_losses, 4);
    }
}
