use dir_watch::decoder::{decode, decode_raw};
use dir_watch::Action;

fn record(next: u32, action: u32, name: &[u16]) -> Vec<u8> {
    let mut b = Vec::new();
    b.extend_from_slice(&next.to_le_bytes());
    b.extend_from_slice(&action.to_le_bytes());
    b.extend_from_slice(&((name.len() * 2) as u32).to_le_bytes());
    for u in name {
        b.extend_from_slice(&u.to_le_bytes());
    }
    b
}

fn wide(s: &str) -> Vec<u16> {
    s.encode_utf16().collect()
}

#[test]
fn empty_fill_gives_no_events() {
    let buf = [0u8; 64];
    assert!(decode(&buf, 0).is_empty());
    assert!(decode(&[], 0).is_empty());
}

#[test]
fn header_shorter_than_a_record_gives_no_events() {
    let buf = record(0, 1, &wide("a"));
    assert!(decode(&buf, 11).is_empty());
}

#[test]
fn one_record_with_next_zero() {
    let mut buf = record(0, 1, &wide("dir\\a.txt"));
    let len = buf.len() as u32;
    // Garbage after the record must not be read.
    buf.extend_from_slice(&record(0, 2, &wide("other")));
    let events = decode(&buf, buf.len() as u32);
    assert_eq!(events, vec![("dir\\a.txt".to_string(), Action::Created)]);
    assert_eq!(decode(&buf, len), events);
}

#[test]
fn records_in_buffer_order_with_actions() {
    let names = ["a", "bb", "ccc", "dddd", "e", "f"];
    let mut buf = Vec::new();
    for (i, n) in names.iter().enumerate() {
        let r = record(0, (i + 1) as u32, &wide(n));
        let next = if i + 1 < names.len() { r.len() as u32 } else { 0 };
        buf.extend_from_slice(&record(next, (i + 1) as u32, &wide(n)));
    }
    let events = decode(&buf, buf.len() as u32);
    assert_eq!(
        events,
        vec![
            ("a".to_string(), Action::Created),
            ("bb".to_string(), Action::Deleted),
            ("ccc".to_string(), Action::Modified),
            ("dddd".to_string(), Action::RenamedFrom),
            ("e".to_string(), Action::RenamedTo),
            ("f".to_string(), Action::Unknown),
        ]
    );
}

#[test]
fn unknown_action_code_maps_to_unknown() {
    let buf = record(0, 99, &wide("x"));
    assert_eq!(decode(&buf, buf.len() as u32), vec![("x".to_string(), Action::Unknown)]);
    assert_eq!(Action::from_code(0), Action::Unknown);
    assert_eq!(Action::from_code(3), Action::Modified);
}

#[test]
fn lone_surrogate_is_replaced_and_decoding_continues() {
    let first = record(0, 3, &[0x61, 0xD800, 0x62]);
    let mut buf = record(first.len() as u32, 3, &[0x61, 0xD800, 0x62]);
    buf.extend_from_slice(&record(0, 1, &wide("next")));
    let events = decode(&buf, buf.len() as u32);
    assert_eq!(
        events,
        vec![("a\u{FFFD}b".to_string(), Action::Modified), ("next".to_string(), Action::Created)]
    );
}

#[test]
fn surrogate_pair_decodes_to_one_char() {
    let buf = record(0, 1, &wide("\u{1F600}.txt"));
    assert_eq!(decode(&buf, buf.len() as u32), vec![("\u{1F600}.txt".to_string(), Action::Created)]);
}

#[test]
fn record_cut_by_fill_is_not_read() {
    let buf = record(0, 1, &wide("abcdef"));
    assert!(decode(&buf, (buf.len() - 1) as u32).is_empty());
}

#[test]
fn fill_larger_than_buffer_is_bounded() {
    let buf = record(0, 2, &wide("k"));
    assert_eq!(decode(&buf, 1_000_000), vec![("k".to_string(), Action::Deleted)]);
    let cut = &buf[..buf.len() - 1];
    assert!(decode(cut, 1_000_000).is_empty());
}

#[test]
fn next_offset_past_fill_stops() {
    let mut buf = record(500, 1, &wide("a"));
    buf.extend_from_slice(&[0u8; 16]);
    assert_eq!(decode(&buf, buf.len() as u32), vec![("a".to_string(), Action::Created)]);
}

#[test]
fn hostile_name_length_does_not_overrun() {
    let mut buf = Vec::new();
    buf.extend_from_slice(&0u32.to_le_bytes());
    buf.extend_from_slice(&1u32.to_le_bytes());
    buf.extend_from_slice(&u32::MAX.to_le_bytes());
    buf.extend_from_slice(&[0x41, 0]);
    assert!(decode(&buf, buf.len() as u32).is_empty());
}

#[test]
fn raw_records_keep_units_and_codes() {
    let buf = record(0, 7, &[0xDC00, 0x41]);
    assert_eq!(decode_raw(&buf, buf.len() as u32), vec![(vec![0xDC00u16, 0x41], 7u32)]);
}

#[test]
fn empty_name_decodes_to_empty_string() {
    let buf = record(0, 1, &[]);
    assert_eq!(decode(&buf, buf.len() as u32), vec![(String::new(), Action::Created)]);
}

#[test]
fn odd_name_length_past_fill_is_not_decoded() {
    let mut buf = Vec::new();
    buf.extend_from_slice(&0u32.to_le_bytes());
    buf.extend_from_slice(&1u32.to_le_bytes());
    buf.extend_from_slice(&3u32.to_le_bytes());
    buf.extend_from_slice(&[0x41, 0, 0x42, 0]);
    assert!(decode(&buf, 14).is_empty());
    assert!(decode(&buf, 15).len() == 1);
    assert!(decode(&buf[..14], 100).is_empty());
}

#[test]
fn lone_low_surrogate_and_trailing_high_are_replaced() {
    let buf = record(0, 1, &[0xDC00, 0x41, 0xD800]);
    assert_eq!(decode(&buf, buf.len() as u32), vec![("\u{FFFD}A\u{FFFD}".to_string(), Action::Created)]);
}
