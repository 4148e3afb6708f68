use lyric_player::status::status_time;

#[test]
fn status_under_a_minute_shows_seconds() {
    let t = status_time(42_900, Some(185_000));
    assert_eq!((t.minute, t.second), (0, 42));
    assert!(!t.show_minutes);
    assert_eq!(t.total, Some((3, 5)));
}

#[test]
fn status_past_a_minute_shows_minutes() {
    let t = status_time(61_000, Some(60_999));
    assert_eq!((t.minute, t.second), (1, 1));
    assert!(t.show_minutes);
    assert_eq!(t.total, Some((1, 0)));
}

#[test]
fn status_unknown_length() {
    let t = status_time(0, None);
    assert_eq!((t.minute, t.second), (0, 0));
    assert!(!t.show_minutes);
    assert_eq!(t.total, None);
}
