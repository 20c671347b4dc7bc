use steward::controller::widget::check_send_res;
use steward::gbx::xml::{escape_xml, gen_response_id, Fault};

#[test]
fn escapes_markup_characters() {
    assert_eq!(escape_xml("a<b>&'\"c"), "a&lt;b&gt;&amp;&apos;&quot;c");
    assert_eq!(escape_xml("plain"), "plain");
    assert_eq!(escape_xml(""), "");
}

#[test]
fn escaped_text_has_no_markup() {
    let s = escape_xml("<<>>''\"\"&&x");
    assert!(!s.contains('<') && !s.contains('>') && !s.contains('\'') && !s.contains('"'));
}

#[test]
fn response_ids_count_up_and_wrap() {
    let mut counter: usize = 1;
    assert_eq!(gen_response_id(&mut counter), "1");
    assert_eq!(gen_response_id(&mut counter), "2");
    assert_eq!(counter, 3);
    let mut last = usize::MAX;
    assert_eq!(gen_response_id(&mut last), usize::MAX.to_string());
    assert_eq!(last, 0);
}

#[test]
fn send_results_that_are_tolerated() {
    assert!(check_send_res(&Ok(())));
    assert!(check_send_res(&Err(Fault { code: -1000, msg: "PlayerUId unknown.".to_string() })));
    assert!(!check_send_res(&Err(Fault { code: -1000, msg: "other".to_string() })));
}

#[test]
fn base64_decode_encode_roundtrip() {
    // Wrapped text as the dedicated server sends it: lines of 76 characters.
    let bytes: Vec<u8> = (0..=255u8).cycle().take(300).collect();
    let b64_orig = steward::gbx::xml::base64_encode(&bytes);
    let decoded = steward::gbx::xml::base64_decode(&b64_orig);
    assert_eq!(decoded, bytes);
    let b64 = steward::gbx::xml::base64_encode(&decoded);
    assert_eq!(b64_orig, b64);
}

#[test]
fn base64_lines_are_wrapped() {
    let bytes = vec![0u8; 120];
    let text = steward::gbx::xml::base64_encode(&bytes);
    let lines: Vec<&str> = text.split("\r\n").collect();
    assert_eq!(lines.len(), 3);
    assert_eq!(lines[0].len(), 76);
    assert_eq!(lines[1].len(), 76);
    assert_eq!(lines[2].len(), 8);
    assert_eq!(steward::gbx::xml::base64_encode(b"hello world"), "aGVsbG8gd29ybGQ=");
}

#[test]
fn base64_decode_skips_spaces() {
    assert_eq!(
        steward::gbx::xml::try_base64_decode("aGVs bG8g\r\nd29y\tbGQ="),
        Some(b"hello world".to_vec())
    );
    assert_eq!(steward::gbx::xml::try_base64_decode("not base64!"), None);
}
