use c1_bridge::sysex::{frame_json_text, sysex_json_text, SYSEX_MANUFACTURER, SYSEX_START, SYSEX_STOP};

const MAGIC: &[u8] = b"stc1";

fn parse(frame: &[u8]) -> Option<serde_json::Value> {
    sysex_json_text(frame).and_then(|text| serde_json::from_str(&text).ok())
}

fn frame_of(value: &serde_json::Value) -> Vec<u8> {
    frame_json_text(&serde_json::to_string(value).unwrap())
}

fn object(key: &str, value: &str) -> serde_json::Value {
    let mut map = serde_json::Map::new();
    map.insert(key.to_string(), serde_json::Value::String(value.to_string()));
    serde_json::Value::Object(map)
}

#[test]
fn round_trip_preserves_ascii_object() {
    let value = object("cmd", "RESET");
    let frame = frame_of(&value);
    assert_eq!(frame[0], SYSEX_START);
    assert_eq!(frame[1], SYSEX_MANUFACTURER);
    assert_eq!(&frame[2..6], MAGIC);
    assert_eq!(*frame.last().unwrap(), SYSEX_STOP);
    assert_eq!(parse(&frame), Some(value));
}

#[test]
fn round_trip_escapes_non_ascii_bmp_character_and_stays_pure_ascii_on_the_wire() {
    let value = object("name", "Kuba Bém");
    let frame = frame_of(&value);
    for &b in &frame[6..frame.len() - 1] {
        assert!((0x20..0x7f).contains(&b), "non-ASCII byte {b:#x} found on the wire");
    }
    assert_eq!(parse(&frame), Some(value));
}

#[test]
fn round_trip_escapes_astral_plane_character_as_surrogate_pair() {
    let value = object("name", "😀");
    let frame = frame_of(&value);
    for &b in &frame[6..frame.len() - 1] {
        assert!((0x20..0x7f).contains(&b));
    }
    assert_eq!(parse(&frame), Some(value));
}

#[test]
fn parse_rejects_wrong_start_byte() {
    let mut frame = frame_of(&object("cmd", "RESET"));
    frame[0] = 0x00;
    assert_eq!(parse(&frame), None);
}

#[test]
fn parse_rejects_wrong_magic() {
    let mut frame = frame_of(&object("cmd", "RESET"));
    frame[2] = b'x';
    assert_eq!(parse(&frame), None);
}

#[test]
fn parse_rejects_wrong_stop_byte() {
    let mut frame = frame_of(&object("cmd", "RESET"));
    let last = frame.len() - 1;
    frame[last] = 0x00;
    assert_eq!(parse(&frame), None);
}

#[test]
fn parse_rejects_too_short_message() {
    assert_eq!(parse(&[0xf0, 0x7d]), None);
    assert_eq!(sysex_json_text(&[0xf0, 0x7d]), None);
}

#[test]
fn parse_rejects_invalid_json_payload() {
    let mut data = vec![SYSEX_START, SYSEX_MANUFACTURER];
    data.extend_from_slice(MAGIC);
    data.extend_from_slice(b"not json");
    data.push(SYSEX_STOP);
    assert_eq!(sysex_json_text(&data), Some("not json".to_string()));
    assert_eq!(parse(&data), None);
}

#[test]
fn frame_escapes_exact_bytes_for_bmp_and_astral_characters() {
    let frame = frame_json_text("é😀");
    assert_eq!(&frame[6..frame.len() - 1], b"\\u00e9\\ud83d\\ude00");
    assert_eq!(sysex_json_text(&frame), Some("\\u00e9\\ud83d\\ude00".to_string()));
}

#[test]
fn printable_payload_frames_and_reads_back_unchanged() {
    let text = "{\"cmd\":\"RESET\",\"n\":[1,2]}";
    let frame = frame_json_text(text);
    assert_eq!(frame.len(), text.len() + 7);
    assert_eq!(sysex_json_text(&frame), Some(text.to_string()));
}

#[test]
fn empty_text_frame_is_too_short_to_read_back() {
    let frame = frame_json_text("");
    assert_eq!(frame, vec![0xf0, 0x7d, b's', b't', b'c', b'1', 0xf7]);
    assert_eq!(sysex_json_text(&frame), None);
}
