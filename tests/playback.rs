use lyric_player::config::{shown_languages, Config};
use lyric_player::input::{Key, Modifiers, NamedKey};
use lyric_player::playback::{Effect, Lang, Message, Player, Speed, ViewMode};

const NONE: Modifiers = Modifiers { shift: false, control: false, alt: false, logo: false };

fn track(name: &str) -> Config {
    Config {
        name: name.to_string(),
        source_path: format!("{name}.mp3"),
        lyrics_first: None,
        lyrics_second: None,
        avatar: "a.png".to_string(),
        background: "b.png".to_string(),
    }
}

fn player(n: usize) -> Player {
    Player::new((0..n).map(|i| track(&format!("t{i}"))).collect()).unwrap()
}

#[test]
fn new_rejects_empty_playlist() {
    assert!(Player::new(Vec::new()).is_none());
    let p = player(2);
    assert_eq!(p.current_pos, 0);
    assert!(!p.paused);
    assert_eq!(p.volume, 100);
    assert_eq!(p.lang, Lang::All);
    assert_eq!(p.speed, Speed::Normal);
    assert_eq!(p.mode, ViewMode::Play);
    assert_eq!(p.current_track().name, "t0");
}

#[test]
fn three_advances_wrap_to_start() {
    let mut p = player(3);
    p.next_song();
    assert_eq!(p.current_pos, 1);
    p.next_song();
    assert_eq!(p.current_pos, 2);
    p.next_song();
    assert_eq!(p.current_pos, 0);
}

#[test]
fn index_stays_in_range_over_many_advances() {
    let mut p = player(4);
    for k in 1..50usize {
        let effect = if k % 2 == 0 {
            p.update(Message::NextSong, None)
        } else {
            p.update(Message::KeyInput(Key::Named(NamedKey::ArrowRight), NONE), None)
        };
        assert_eq!(effect, Effect::TrackSkipped);
        assert!(p.current_pos < 4);
        assert_eq!(p.current_pos, k % 4);
    }
}

#[test]
fn single_track_playlist_wraps_to_itself() {
    let mut p = player(1);
    p.elapsed_ms = 500;
    p.next_song();
    assert_eq!(p.current_pos, 0);
    assert_eq!(p.elapsed_ms, 0);
    assert_eq!(p.next_pos(), 0);
}

#[test]
fn toggle_play_twice_restores() {
    let mut p = player(2);
    p.toggle_play();
    assert!(p.paused);
    p.toggle_play();
    assert!(!p.paused);
}

#[test]
fn volume_clamps() {
    let mut p = player(1);
    for start in [0u8, 37, 100] {
        p.volume = start;
        p.set_volume(1000);
        assert_eq!(p.volume, 100);
        p.volume = start;
        p.set_volume(-1000);
        assert_eq!(p.volume, 0);
    }
    p.volume = 50;
    p.set_volume(-10);
    assert_eq!(p.volume, 40);
    p.update(Message::KeyInput(Key::Named(NamedKey::ArrowUp), NONE), None);
    assert_eq!(p.volume, 50);
}

#[test]
fn language_cycles_in_three_steps() {
    let mut p = player(1);
    p.lang = Lang::Chinese;
    p.toggle_lang();
    assert_eq!(p.lang, Lang::Japanese);
    p.toggle_lang();
    assert_eq!(p.lang, Lang::All);
    p.toggle_lang();
    assert_eq!(p.lang, Lang::Chinese);
    assert_eq!(shown_languages(Lang::All), (true, true));
    assert_eq!(shown_languages(Lang::Chinese), (true, false));
    assert_eq!(shown_languages(Lang::Japanese), (false, true));
}

#[test]
fn tick_advances_by_dt_unless_paused() {
    let mut p = player(2);
    assert!(!p.update_time(100, Some(10_000)));
    assert_eq!(p.elapsed_ms, 100);
    assert!(!p.update_time(250, None));
    assert_eq!(p.elapsed_ms, 350);
    p.toggle_play();
    assert!(!p.update_time(100, Some(10_000)));
    assert_eq!(p.elapsed_ms, 350);
    assert_eq!(p.update(Message::UpdateTime, Some(10_000)), Effect::Sync);
    assert_eq!(p.elapsed_ms, 350);
}

#[test]
fn tick_scales_with_speed() {
    let mut p = player(1);
    p.toggle_speed();
    assert_eq!(p.speed, Speed::OneAndHalf);
    p.update_time(100, None);
    assert_eq!(p.elapsed_ms, 150);
    p.toggle_speed();
    assert_eq!(p.speed, Speed::Double);
    p.update_time(100, None);
    assert_eq!(p.elapsed_ms, 350);
    p.toggle_speed();
    assert_eq!(p.speed, Speed::Half);
    p.update_time(101, None);
    assert_eq!(p.elapsed_ms, 400);
    p.toggle_speed();
    assert_eq!(p.speed, Speed::Normal);
}

#[test]
fn tick_at_end_moves_to_next_track() {
    let mut p = player(2);
    p.elapsed_ms = 9_950;
    p.slider_ms = 9_950;
    assert_eq!(p.update(Message::UpdateTime, Some(10_000)), Effect::TrackEnded);
    assert_eq!(p.current_pos, 1);
    assert_eq!(p.elapsed_ms, 0);
    assert_eq!(p.slider_ms, 0);
    assert!(!p.paused);
}

#[test]
fn elapsed_saturates() {
    let mut p = player(1);
    p.elapsed_ms = u64::MAX - 10;
    p.update_time(100, None);
    assert_eq!(p.elapsed_ms, u64::MAX);
}

#[test]
fn seek_follows_device_answer() {
    let mut p = player(1);
    p.elapsed_ms = 1_000;
    p.update(Message::UpdateSlider(42_000), None);
    assert_eq!(p.update(Message::SeekAudio, None), Effect::Seek(42_000));
    assert_eq!(p.seek_target(), 42_000);
    p.seek_audio(false);
    assert_eq!(p.elapsed_ms, 1_000);
    p.seek_audio(true);
    assert_eq!(p.elapsed_ms, 42_000);
}

#[test]
fn views_and_quit() {
    let mut p = player(1);
    let help = Key::Character("h".to_string());
    assert_eq!(p.update(Message::KeyInput(help.clone(), NONE), None), Effect::Sync);
    assert_eq!(p.mode, ViewMode::Help);
    assert!(!p.paused);
    assert_eq!(p.update(Message::KeyInput(help, NONE), None), Effect::Sync);
    assert_eq!(p.mode, ViewMode::Play);
    assert!(!p.paused);
    p.update(Message::KeyInput(Key::Character("q".to_string()), NONE), None);
    assert_eq!(p.mode, ViewMode::ConfirmQuit);
    assert!(!p.paused);
    let ctrl_y = Modifiers { control: true, ..NONE };
    assert_eq!(p.update(Message::KeyInput(Key::Character("y".to_string()), ctrl_y), None), Effect::Sync);
    assert_eq!(p.mode, ViewMode::ConfirmQuit);
    assert_eq!(p.update(Message::KeyInput(Key::Character("y".to_string()), NONE), None), Effect::Quit);
}

#[test]
fn view_switch_keeps_play_state() {
    let mut p = player(1);
    p.toggle_play();
    p.switch_view(ViewMode::Help);
    assert!(p.paused);
    p.switch_view(ViewMode::Play);
    assert!(p.paused);
    p.toggle_play();
    p.switch_view(ViewMode::ConfirmQuit);
    assert!(!p.paused);
    p.update(Message::UpdateTime, Some(60_000));
    assert_eq!(p.elapsed_ms, 100);
}
