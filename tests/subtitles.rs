use frm::subtitle::{timecode, Subtitle};

#[test]
fn minutes_seconds_timecode() {
    assert_eq!(timecode("01:02;003 rest"), Some((9, 62_003)));
}

#[test]
fn hours_minutes_seconds_timecode() {
    assert_eq!(timecode("01:02:03;004"), Some((12, 3_723_004)));
    assert_eq!(timecode("00:00:01;418 --> x"), Some((12, 1_418)));
}

#[test]
fn malformed_timecodes() {
    assert_eq!(timecode(""), None);
    assert_eq!(timecode("1:02;003"), None);
    assert_eq!(timecode("01:02,003"), None);
    assert_eq!(timecode("01:02:03,004"), None);
    assert_eq!(timecode("01:02;03"), None);
    assert_eq!(timecode("01:0a;003"), None);
}

#[test]
fn subtitle_entries_compare_by_fields() {
    let a = Subtitle { index: 1, start: 0, end: 1418, content: "Shut up!".to_string() };
    assert_eq!(a.clone(), a);
}
