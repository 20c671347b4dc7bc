use steward::chat::table::{fill, truncate};
use steward::gbx::map_file::{parse_map_header, try_parse_map_header, MapFileError};
use steward::gbx::structs::{
    response_id_from, scores_section_from_name, team_id_from_number, DisplayString, MapType, ModeScript,
    PlaylistMap, ScoresSection, TeamId,
};

fn header_prefix(version: i16, class_id: i32) -> Vec<u8> {
    let mut b = b"GBX".to_vec();
    b.extend_from_slice(&version.to_le_bytes());
    b.extend_from_slice(b"BUCR");
    b.extend_from_slice(&class_id.to_le_bytes());
    b
}

#[test]
fn map_file_errors() {
    assert!(try_parse_map_header(b"GB").is_none());
    assert!(matches!(try_parse_map_header(b"GBY\x06\x00"), Some(Err(MapFileError::NoMagicHeader))));
    assert!(matches!(try_parse_map_header(&[0xff, 0xfe, 0xfd, 6, 0]), Some(Err(MapFileError::InvalidUtf8))));
    assert!(matches!(
        try_parse_map_header(&header_prefix(5, 0x03043000)),
        Some(Err(MapFileError::UnknownHeaderVersion))
    ));
    assert!(matches!(
        try_parse_map_header(&header_prefix(6, 0x03043001)),
        Some(Err(MapFileError::NotAMapFile))
    ));
    // A known class, but the file ends before its chunks.
    assert!(try_parse_map_header(&header_prefix(6, 0x03043000)).is_none());
}

#[test]
fn plain_display_names() {
    let name = DisplayString::from("$fffHel$ilo$z".to_string());
    assert_eq!(name.plain(), Some("Hello".to_string()));
    let link = DisplayString::from("$l[https://x.y]Go$l".to_string());
    assert_eq!(link.plain(), Some("Go$l".to_string()));
}

#[test]
fn plain_display_names_keep_escaped_dollars() {
    assert_eq!(DisplayString::from("$$".to_string()).plain(), Some("$".to_string()));
    assert_eq!(DisplayString::from("a$$fffb".to_string()).plain(), Some("a$fffb".to_string()));
    assert_eq!(DisplayString::from("$$$fffx".to_string()).plain(), Some("$x".to_string()));
    assert_eq!(DisplayString::from("5$$ $oBold".to_string()).plain(), Some("5$ Bold".to_string()));
}

#[test]
fn mode_scripts() {
    assert_eq!(ModeScript::TimeAttack.file_name(), "Trackmania/TM_TimeAttack_Online.Script.txt");
    assert_eq!(ModeScript::Rounds.name(), "Rounds");
    assert_eq!(ModeScript::default_modes().len(), 7);
    assert_eq!(
        ModeScript::from_file_name("Trackmania/TM_Laps_Online.Script.txt".to_string()),
        ModeScript::Laps
    );
    let custom = ModeScript::from_file_name("Trackmania/MyMode.Script.txt".to_string());
    assert_eq!(custom.name(), "MyMode");
}

#[test]
fn small_conversions() {
    assert_eq!(MapType::from_name("TM_Race"), Some(MapType::Race));
    assert_eq!(MapType::from_name("TM_Stunt"), None);
    assert_eq!(team_id_from_number(-1), Ok(None));
    assert_eq!(team_id_from_number(1), Ok(Some(TeamId::Red)));
    assert_eq!(team_id_from_number(2), Err(2));
    assert_eq!(scores_section_from_name(""), Ok(None));
    assert_eq!(scores_section_from_name("EndMap"), Ok(Some(ScoresSection::EndMap)));
    assert_eq!(scores_section_from_name("Other"), Err(()));
    assert_eq!(response_id_from(String::new()), None);
    assert_eq!(response_id_from("12".to_string()), Some("12".to_string()));
    let campaign = PlaylistMap { uid: "u".to_string(), file_name: "Campaigns/Summer.Map.Gbx".to_string() };
    assert!(campaign.is_campaign_map());
    let own = PlaylistMap { uid: "u".to_string(), file_name: "My.Map.Gbx".to_string() };
    assert!(!own.is_campaign_map());
}

#[test]
fn table_cells() {
    assert_eq!(fill("ab", 4), "ab  ");
    assert_eq!(fill("abcdef", 4), "abc…");
    assert_eq!(truncate("abc", 4), "abc");
    assert_eq!(truncate("abcde", 4), "abc…");
    // Width is counted in characters, not bytes.
    assert_eq!(fill("é", 1), "é");
    assert_eq!(fill("é", 3), "é  ");
    assert_eq!(truncate("héllo", 5), "héllo");
    assert_eq!(truncate("héllo!", 5), "héll…");
}

fn push_i32(b: &mut Vec<u8>, v: i32) {
    b.extend_from_slice(&v.to_le_bytes());
}

fn push_str(b: &mut Vec<u8>, s: &str) {
    push_i32(b, s.len() as i32);
    b.extend_from_slice(s.as_bytes());
}

fn info_chunk() -> Vec<u8> {
    let mut c = Vec::new();
    push_i32(&mut c, 13);
    push_i32(&mut c, 0);
    for millis in [40000, 35000, 31000, 29500] {
        push_i32(&mut c, millis);
    }
    push_i32(&mut c, 0);
    push_i32(&mut c, 1); // multilap
    c.resize(56, 0);
    c
}

fn string_chunk() -> Vec<u8> {
    let mut c = vec![11u8];
    push_i32(&mut c, 3); // lookback version
    push_i32(&mut c, 0x4000_0000); // a new string: the uid
    push_str(&mut c, "uid123");
    push_i32(&mut c, 26); // the collection: "Stadium"
    push_i32(&mut c, 0x4000_0001); // the author, as the first string again
    push_str(&mut c, "$oMy Map");
    c.extend_from_slice(&[0; 5]);
    push_str(&mut c, ""); // password
    for _ in 0..3 {
        push_i32(&mut c, -1);
    }
    c.extend_from_slice(&[0; 32]);
    push_str(&mut c, "");
    push_str(&mut c, "");
    c.extend_from_slice(&[0; 9]);
    push_i32(&mut c, -1); // title uid
    c
}

fn author_chunk() -> Vec<u8> {
    let mut c = Vec::new();
    push_i32(&mut c, 1);
    push_i32(&mut c, 0);
    push_str(&mut c, "tim");
    push_str(&mut c, "$fffTim");
    push_str(&mut c, "World");
    push_str(&mut c, "");
    c
}

fn map_file(chunks: &[(i32, Vec<u8>)]) -> Vec<u8> {
    let mut b = header_prefix(6, 0x03043000);
    let table_len = 8 * chunks.len();
    let contents: usize = chunks.iter().map(|(_, c)| c.len()).sum();
    push_i32(&mut b, (table_len + contents + 4) as i32);
    push_i32(&mut b, chunks.len() as i32);
    for (id, c) in chunks {
        push_i32(&mut b, *id);
        push_i32(&mut b, c.len() as i32);
    }
    for (_, c) in chunks {
        b.extend_from_slice(c);
    }
    b
}

#[test]
fn map_file_header_is_read() {
    let file = map_file(&[(0x03043002, info_chunk()), (0x03043003, string_chunk()), (0x03043008, author_chunk())]);
    let header = try_parse_map_header(&file).expect("readable").expect("a map header");
    assert_eq!(header.uid, "uid123");
    assert_eq!(header.name.formatted, "$oMy Map");
    assert_eq!(
        (header.millis_bronze, header.millis_silver, header.millis_gold, header.millis_author),
        (40000, 35000, 31000, 29500)
    );
    assert!(header.is_multilap);
    assert_eq!(header.author_login, "tim");
    assert_eq!(header.author_display_name.formatted, "$fffTim");
    assert_eq!(parse_map_header(&file).map(|h| h.uid), Ok("uid123".to_string()));
}

#[test]
fn map_file_header_needs_its_chunks() {
    let file = map_file(&[(0x03043002, info_chunk()), (0x03043008, author_chunk())]);
    assert!(matches!(try_parse_map_header(&file), Some(Err(MapFileError::MissingChunk))));
    let mut file = map_file(&[(0x03043002, info_chunk()), (0x03043003, string_chunk()), (0x03043008, author_chunk())]);
    file[13] += 1;
    assert!(matches!(try_parse_map_header(&file), Some(Err(MapFileError::SizeMismatch))));
    let file = map_file(&[(0x03043009, info_chunk())]);
    assert!(matches!(try_parse_map_header(&file), Some(Err(MapFileError::UnexpectedChunkId))));
    let mut info = info_chunk();
    info[0] = 12;
    let file = map_file(&[(0x03043002, info), (0x03043003, string_chunk()), (0x03043008, author_chunk())]);
    assert!(matches!(try_parse_map_header(&file), Some(Err(MapFileError::InfoChunkVersion))));
}
