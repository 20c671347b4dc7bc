use steward::chat::message::ServerMessage;
use steward::controller::announce::{record_message, top_ranks_message};
use steward::controller::record::{PbDiff, Record};
use steward::controller::server_ranking::ServerRankDiff;
use steward::gbx::structs::DisplayString;

fn diff(name: &str, new_pos: usize, gained_pos: i32) -> ServerRankDiff {
    ServerRankDiff {
        player_display_name: DisplayString::from(name.to_string()),
        new_pos,
        gained_pos,
        gained_wins: 0,
    }
}

fn record(millis: i32) -> Record {
    Record {
        map_uid: "uid".to_string(),
        map_rank: 1,
        player_login: "tim".to_string(),
        player_nick_name: "Tim".to_string(),
        timestamp_millis: 0,
        millis,
        sectors: vec![],
    }
}

#[test]
fn top_ranks_are_announced_best_last() {
    let diffs = vec![
        (1, diff("a", 5, 1)),
        (2, diff("b", 1, 2)),
        (3, diff("c", 12, 3)),
        (4, diff("d", 3, 0)),
        (5, diff("e", 2, 1)),
        (6, diff("f", 4, 1)),
    ];
    match top_ranks_message(&diffs) {
        ServerMessage::NewTopRanks(v) => {
            let got: Vec<(&str, usize)> = v.iter().map(|t| (t.display_name, t.rank)).collect();
            assert_eq!(got, vec![("f", 4), ("e", 2), ("b", 1)]);
        }
        _ => panic!("expected top ranks"),
    }
}

#[test]
fn record_announcements() {
    let new_top = PbDiff {
        player_uid: 1,
        millis_diff: Some(-100),
        prev_pos: Some(5),
        new_pos: 2,
        new_record: Some(record(48051)),
        pos_gained: 3,
    };
    match record_message(&new_top) {
        Some(ServerMessage::TopRecord { player_display_name, new_map_rank, millis }) => {
            assert_eq!(player_display_name, "Tim");
            assert_eq!(new_map_rank, 2);
            assert_eq!(millis, 48051);
        }
        _ => panic!("expected a top record"),
    }
    let improved = PbDiff { pos_gained: 0, new_pos: 3, ..new_top };
    assert!(matches!(record_message(&improved), Some(ServerMessage::TopRecordImproved { map_rank: 3, .. })));
    let not_top = PbDiff { pos_gained: 0, new_pos: 4, millis_diff: Some(-1), prev_pos: Some(4), new_record: Some(record(1)), player_uid: 1 };
    assert!(record_message(&not_top).is_none());
}

#[test]
fn an_improved_first_record_is_always_announced() {
    let first = PbDiff {
        player_uid: 1,
        millis_diff: Some(-10),
        prev_pos: Some(1),
        new_pos: 1,
        new_record: Some(record(47000)),
        pos_gained: 0,
    };
    assert!(matches!(record_message(&first), Some(ServerMessage::TopRecordImproved { map_rank: 1, millis: 47000, .. })));
    let slower = PbDiff { millis_diff: Some(10), new_record: None, ..first };
    assert!(record_message(&slower).is_none());
}
