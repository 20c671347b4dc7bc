use steward::chat::message::{fmt_time, pluralize, MessagePart, PlayerMessage, ServerMessage, TopRankMessage};
use steward::gbx::structs::ModeScript;

fn texts(parts: &[MessagePart]) -> Vec<String> {
    parts
        .iter()
        .map(|p| match p {
            MessagePart::Text(s) => format!("T:{}", s),
            MessagePart::Name(s) => format!("N:{}", s),
            MessagePart::Highlighted(s) => format!("H:{}", s),
        })
        .collect()
}

#[test]
fn test_fmt_time() {
    assert_eq!("00:21:105", fmt_time(21105))
}

#[test]
fn fmt_time_pads_and_counts_minutes() {
    assert_eq!("00:00:000", fmt_time(0));
    assert_eq!("00:48:051", fmt_time(48051));
    assert_eq!("61:01:001", fmt_time(3661001));
    assert_eq!("100:00:000", fmt_time(6_000_000));
}

#[test]
fn pluralize_no_one_many() {
    assert_eq!("no preference", pluralize("preference", 0));
    assert_eq!("one preference", pluralize("preference", 1));
    assert_eq!("5 preferences", pluralize("preference", 5));
}

#[test]
fn joining_message_parts() {
    let m = ServerMessage::Joining { display_name: "tim" };
    assert_eq!(texts(&m.parts()), vec!["N:tim", "T: joined."]);
    assert!(!m.is_empty());
}

#[test]
fn empty_top_ranks_has_no_parts() {
    let m = ServerMessage::NewTopRanks(vec![]);
    assert!(m.is_empty());
    assert!(m.parts().is_empty());
}

#[test]
fn top_ranks_message_parts() {
    let m = ServerMessage::NewTopRanks(vec![
        TopRankMessage { display_name: "a", rank: 3 },
        TopRankMessage { display_name: "b", rank: 1 },
    ]);
    assert_eq!(
        texts(&m.parts()),
        vec!["N:a", "T: reaches rank ", "H:3", "T:!", "N:b", "T: reaches rank ", "H:1", "T:!"]
    );
}

#[test]
fn top_record_message_parts() {
    let m = ServerMessage::TopRecord { player_display_name: "tim", new_map_rank: 2, millis: 48051 };
    assert_eq!(
        texts(&m.parts()),
        vec!["N:tim", "T: sets the ", "H:2.", "T: record! ", "H:00:48:051"]
    );
}

#[test]
fn vote_now_message_parts() {
    let open = ServerMessage::VoteNow { duration_secs: 20, threshold_quarters: 2 };
    assert!(!open.vote_is_closed());
    assert_eq!(texts(&open.parts()), vec!["T:Vote for a restart in the next ", "H:20 seconds", "T:!"]);
    let closed = ServerMessage::VoteNow { duration_secs: 20, threshold_quarters: 5 };
    assert!(closed.vote_is_closed());
    assert_eq!(texts(&closed.parts()), vec!["T:This map will not be restarted."]);
}

#[test]
fn admin_message_parts() {
    let m = ServerMessage::WarmupRoundExtended { admin_name: "adm", secs: 10 };
    assert_eq!(
        texts(&m.parts()),
        vec!["T:Admin ", "N:adm", "T: extended the warmup by ", "H:10 seconds", "T:!"]
    );
    let m = ServerMessage::ModeChanging { admin_name: "adm", mode: ModeScript::TimeAttack };
    assert_eq!(
        texts(&m.parts()),
        vec!["T:Admin ", "N:adm", "T: changed the game mode to ", "H:TimeAttack", "T:!"]
    );
}

#[test]
fn preference_reminder_parts() {
    let none = PlayerMessage::PreferenceReminder { nb_active_preferences: 0 };
    assert_eq!(
        texts(&none.parts()),
        vec!["T:Don't like this map? ", "T:Make sure to set your preferences in the map list."]
    );
    let some = PlayerMessage::PreferenceReminder { nb_active_preferences: 1 };
    assert_eq!(
        texts(&some.parts()),
        vec![
            "T:You are influencing the map queue with one preference.",
            "T:Make sure to change them to your liking by bringing up the map list."
        ]
    );
}

#[test]
fn messages_are_rendered_in_the_notice_color() {
    let m = ServerMessage::Joining { display_name: "$f00tim" };
    assert_eq!(m.to_text(), "$fc0$f00tim$z$s$fc0 joined.");
    let r = ServerMessage::TopRecord { player_display_name: "tim", new_map_rank: 2, millis: 48051 };
    assert_eq!(
        r.to_text(),
        "$fc0tim$z$s$fc0 sets the $fff2.$z$s$fc0 record! $fff00:48:051$z$s$fc0"
    );
    assert_eq!(ServerMessage::NewTopRanks(vec![]).to_text(), "$fc0");
    let p = PlayerMessage::PreferenceReminder { nb_active_preferences: 0 };
    assert_eq!(
        p.to_text(),
        "$fc0Don't like this map? Make sure to set your preferences in the map list."
    );
}
