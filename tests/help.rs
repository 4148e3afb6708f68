use lyric_player::help::{display_width, format_help, get_help_text, pad_to};

#[test]
fn width_counts_wide_characters_twice() {
    assert_eq!(display_width(""), 0);
    assert_eq!(display_width("abc"), 3);
    assert_eq!(display_width("a中b"), 4);
    assert_eq!(display_width("确认"), 4);
}

#[test]
fn pad_appends_spaces() {
    assert_eq!(pad_to("ab", 5), "ab   ");
    assert_eq!(pad_to("中", 4), "中  ");
    assert_eq!(pad_to("abc", 3), "abc");
}

#[test]
fn format_pads_columns() {
    let rows = vec![
        ("a".to_string(), "中文".to_string()),
        ("long".to_string(), "x".to_string()),
    ];
    let out = format_help(&rows);
    assert_eq!(out[0], ("a   ".to_string(), "中文".to_string()));
    assert_eq!(out[1], ("long".to_string(), "x   ".to_string()));
    assert!(format_help(&Vec::new()).is_empty());
}

#[test]
fn help_text_columns_align() {
    let rows = get_help_text();
    assert_eq!(rows.len(), 10);
    let kw = display_width(&rows[0].0);
    let dw = display_width(&rows[0].1);
    for (k, d) in &rows {
        assert_eq!(display_width(k), kw);
        assert_eq!(display_width(d), dw);
    }
    assert!(rows[1].0.starts_with("h "));
    assert!(rows[1].1.starts_with("进入帮助页面 "));
    assert_eq!(kw, 14);
}
