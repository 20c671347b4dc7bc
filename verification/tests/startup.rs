use steward::compat::{
    check_mode_compat, check_server_compat, fix_match_settings, map_to_enable, ModeCompat, ServerCompat,
};
use steward::controller::playlist::MapEntry;
use steward::gbx::structs::DisplayString;

fn entry(uid: &str, in_playlist: bool) -> MapEntry {
    MapEntry {
        uid: uid.to_string(),
        file_name: format!("{}.Map.Gbx", uid),
        name: DisplayString::from(uid.to_string()),
        author_login: "author".to_string(),
        author_display_name: DisplayString::from("$fffAuthor".to_string()),
        author_millis: 10000,
        added_since_millis: 0,
        in_playlist,
        exchange_id: None,
    }
}

#[test]
fn server_compat_checks_in_order() {
    assert_eq!(
        check_server_compat("ManiaPlanet", "3.3.0", "2019-10-23_20_00", "TMStadium@nadeo"),
        ServerCompat::Known
    );
    assert_eq!(
        check_server_compat("Trackmania", "3.3.0", "2019-10-23_20_00", "TMStadium@nadeo"),
        ServerCompat::NotManiaPlanet
    );
    assert_eq!(
        check_server_compat("ManiaPlanet", "3.3.1", "2019-10-23_20_00", "x"),
        ServerCompat::UnexpectedBuild
    );
    assert_eq!(
        check_server_compat("ManiaPlanet", "3.3.0", "2019-10-23_20_00", "SMStorm@nadeo"),
        ServerCompat::NotNadeoTitle
    );
    assert_eq!(
        check_server_compat("ManiaPlanet", "3.3.0", "2019-10-23_20_00", "TMStadium@other"),
        ServerCompat::NotNadeoTitle
    );
}

#[test]
fn mode_compat_checks_in_order() {
    let known = check_mode_compat("TimeAttack.Script.txt", "Race,Stunt", "2018-05-14");
    assert_eq!(known, ModeCompat::Known);
    assert!(known.is_compatible());
    let custom = check_mode_compat("<in-development>", "Stunt,Race", "2020-01-01");
    assert_eq!(custom, ModeCompat::OtherVersion);
    assert!(custom.is_compatible());
    let other = check_mode_compat("Rounds.Script.txt", "Race", "2018-05-14");
    assert_eq!(other, ModeCompat::NotTimeAttack);
    assert!(!other.is_compatible());
    let no_race = check_mode_compat("TimeAttack.Script.txt", "Racing,TRace", "2018-05-14");
    assert_eq!(no_race, ModeCompat::NoRaceMapType);
    assert!(!no_race.is_compatible());
}

#[test]
fn map_to_enable_only_for_empty_playlist() {
    assert_eq!(map_to_enable(&vec![entry("a", false), entry("b", false)]), Some(0));
    assert_eq!(map_to_enable(&vec![entry("a", false), entry("b", true)]), None);
}

#[test]
fn match_settings_name_the_time_attack_script() {
    let xml = "<script_name><in-development></script_name><x><in-development></x>";
    assert_eq!(
        fix_match_settings(xml),
        "<script_name>TimeAttack.Script.txt</script_name><x>TimeAttack.Script.txt</x>"
    );
    assert_eq!(fix_match_settings("<in-dev"), "<in-dev");
    assert_eq!(fix_match_settings(""), "");
}

#[test]
fn fixed_match_settings_name_no_custom_script() {
    let fixed = fix_match_settings("<in-<in-development>development><in-development<in-development>>");
    assert!(!fixed.contains("<in-development>"));
    assert_eq!(fixed, "<in-TimeAttack.Script.txtdevelopment><in-developmentTimeAttack.Script.txt>");
}
