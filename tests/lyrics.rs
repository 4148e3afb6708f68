use lyric_player::lyrics::{get_lyrics, parse_line, LyricTrack};

fn chars(s: &str) -> Vec<char> {
    s.chars().collect()
}

#[test]
fn scenario_two_lines_lookup() {
    let t = LyricTrack::parse("[00:10]A\n[00:20]B");
    assert_eq!(t.active_line(5_000), None);
    assert_eq!(t.active_line(10_000), Some("A".to_string()));
    assert_eq!(t.active_line(15_000), Some("A".to_string()));
    assert_eq!(t.active_line(20_000), Some("B".to_string()));
    assert_eq!(t.active_line(99_000), Some("B".to_string()));
}

#[test]
fn parse_line_whole_and_fractional_seconds() {
    let l = parse_line(&chars("[01:02]hello")).unwrap();
    assert_eq!(l.time_ms, 62_000);
    assert_eq!(l.text, "hello");
    let l = parse_line(&chars("[01:02.5]x")).unwrap();
    assert_eq!(l.time_ms, 62_500);
    let l = parse_line(&chars("[1:2.123456]x")).unwrap();
    assert_eq!(l.time_ms, 62_123);
    let l = parse_line(&chars("[00:00.05]x")).unwrap();
    assert_eq!(l.time_ms, 50);
}

#[test]
fn parse_line_keeps_delimiters_in_text() {
    let l = parse_line(&chars("[00:03]a:b]c")).unwrap();
    assert_eq!(l.time_ms, 3_000);
    assert_eq!(l.text, "a:b]c");
}

#[test]
fn parse_line_rejects_malformed() {
    assert!(parse_line(&chars("[ti:Title]")).is_none());
    assert!(parse_line(&chars("plain text")).is_none());
    assert!(parse_line(&chars("[00:10]")).is_none());
    assert!(parse_line(&chars("[00:10]  \t ")).is_none());
    assert!(parse_line(&chars("[:10]A")).is_none());
    assert!(parse_line(&chars("[00:]A")).is_none());
    assert!(parse_line(&chars("[00:1.]A")).is_none());
    assert!(parse_line(&chars("[00:.5]A")).is_none());
    assert!(parse_line(&chars("[00:1.2.3]A")).is_none());
    assert!(parse_line(&chars("x[00:10]A")).is_none());
    assert!(parse_line(&chars("[00]10]A")).is_none());
    assert!(parse_line(&chars("")).is_none());
}

#[test]
fn parse_line_rejects_time_beyond_u64() {
    assert!(parse_line(&chars("[99999999999999999999:00]A")).is_none());
    assert!(parse_line(&chars("[307445734561826:00]A")).is_none());
    let l = parse_line(&chars("[307445734561825:00]A")).unwrap();
    assert_eq!(l.time_ms, 307_445_734_561_825u64 * 60_000);
}

#[test]
fn parse_skips_noise_and_carriage_returns() {
    let t = LyricTrack::parse("[ti:Song]\r\n[ar:Someone]\r\n[00:01]one\r\n\r\nnoise\n[00:02.50]two\r\n");
    assert_eq!(t.lines.len(), 2);
    assert_eq!(t.lines[0].time_ms, 1_000);
    assert_eq!(t.lines[0].text, "one");
    assert_eq!(t.lines[1].time_ms, 2_500);
    assert_eq!(t.lines[1].text, "two");
}

#[test]
fn parse_empty_file() {
    let t = LyricTrack::parse("");
    assert!(t.lines.is_empty());
    assert_eq!(t.active_line(0), None);
    assert_eq!(t.active_index(u64::MAX), None);
}

#[test]
fn duplicate_timestamp_last_wins() {
    let t = LyricTrack::parse("[00:10]A\n[00:10]B\n[00:20]C");
    assert_eq!(t.active_index(10_000), Some(1));
    assert_eq!(t.active_line(10_000), Some("B".to_string()));
    assert_eq!(t.active_line(19_999), Some("B".to_string()));
}

#[test]
fn unordered_file_uses_latest_timestamp() {
    let t = LyricTrack::parse("[00:20]B\n[00:10]A");
    assert_eq!(t.active_line(15_000), Some("A".to_string()));
    assert_eq!(t.active_line(25_000), Some("B".to_string()));
    assert_eq!(t.active_line(9_999), None);
}

#[test]
fn round_trip_each_entry_at_its_time() {
    let t = LyricTrack::parse("[00:01]a\n[00:02.5]b\n[00:04]c\n[00:04]d\n[01:00]e");
    let expect = [(1_000, "a"), (2_500, "b"), (4_000, "d"), (4_000, "d"), (60_000, "e")];
    assert_eq!(t.lines.len(), 5);
    for (i, (ms, text)) in expect.iter().enumerate() {
        assert_eq!(t.lines[i].time_ms, *ms);
        assert_eq!(t.active_line(t.lines[i].time_ms), Some(text.to_string()));
    }
}

#[test]
fn active_line_is_monotonic() {
    let t = LyricTrack::parse("[00:01]a\n[00:03]b\n[00:02]c\n[00:05]d");
    let mut last = 0u64;
    for at in (1_000..6_000).step_by(250) {
        let i = t.active_index(at).unwrap();
        assert!(t.lines[i].time_ms >= last);
        last = t.lines[i].time_ms;
    }
}

#[test]
fn get_lyrics_replaces_decorative_punctuation() {
    let t = LyricTrack::parse("[00:01]你好，世界。");
    assert_eq!(get_lyrics(&t, 1_000), Some("你好 世界 ".to_string()));
    assert_eq!(get_lyrics(&t, 999), None);
    assert_eq!(t.active_line(1_000), Some("你好，世界。".to_string()));
}
