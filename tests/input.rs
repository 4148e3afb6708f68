use lyric_player::input::{handle_key, Key, Modifiers, NamedKey};
use lyric_player::playback::{Message, ViewMode};

const NONE: Modifiers = Modifiers { shift: false, control: false, alt: false, logo: false };
const CTRL: Modifiers = Modifiers { shift: false, control: true, alt: false, logo: false };

fn ch(s: &str) -> Key {
    Key::Character(s.to_string())
}

#[test]
fn play_view_bindings() {
    let m = ViewMode::Play;
    assert!(matches!(handle_key(m, &ch("h"), NONE), Message::SwitchView(ViewMode::Help)));
    assert!(matches!(handle_key(m, &ch("q"), NONE), Message::SwitchView(ViewMode::ConfirmQuit)));
    assert!(matches!(handle_key(m, &ch("p"), NONE), Message::TogglePlay));
    assert!(matches!(handle_key(m, &ch("t"), NONE), Message::ToggleLang));
    assert!(matches!(handle_key(m, &Key::Named(NamedKey::Space), NONE), Message::TogglePlay));
    assert!(matches!(handle_key(m, &Key::Named(NamedKey::ArrowUp), NONE), Message::SetVolume(10)));
    assert!(matches!(handle_key(m, &Key::Named(NamedKey::ArrowDown), NONE), Message::SetVolume(-10)));
    assert!(matches!(handle_key(m, &Key::Named(NamedKey::ArrowRight), NONE), Message::NextSong));
    assert!(matches!(handle_key(m, &Key::Named(NamedKey::ArrowLeft), NONE), Message::Nothing));
    assert!(matches!(handle_key(m, &ch("y"), NONE), Message::Nothing));
    assert!(matches!(handle_key(m, &ch("hh"), NONE), Message::Nothing));
    assert!(matches!(handle_key(m, &ch(""), NONE), Message::Nothing));
    assert!(matches!(handle_key(m, &Key::Unidentified, NONE), Message::Nothing));
}

#[test]
fn help_view_bindings() {
    let m = ViewMode::Help;
    assert!(matches!(handle_key(m, &ch("h"), NONE), Message::SwitchView(ViewMode::Play)));
    assert!(matches!(handle_key(m, &ch("q"), NONE), Message::Nothing));
    assert!(matches!(handle_key(m, &Key::Named(NamedKey::Space), NONE), Message::Nothing));
}

#[test]
fn confirm_quit_bindings() {
    let m = ViewMode::ConfirmQuit;
    assert!(matches!(handle_key(m, &ch("y"), NONE), Message::Quit));
    assert!(matches!(handle_key(m, &ch("n"), NONE), Message::SwitchView(ViewMode::Play)));
    assert!(matches!(handle_key(m, &ch("h"), NONE), Message::Nothing));
    assert!(matches!(handle_key(m, &Key::Named(NamedKey::Other), NONE), Message::Nothing));
}

#[test]
fn modified_character_keys_bind_nothing() {
    let alt = Modifiers { alt: true, ..NONE };
    let shift = Modifiers { shift: true, ..NONE };
    let logo = Modifiers { logo: true, ..NONE };
    assert!(matches!(handle_key(ViewMode::Play, &ch("q"), CTRL), Message::Nothing));
    assert!(matches!(handle_key(ViewMode::Play, &ch("p"), alt), Message::Nothing));
    assert!(matches!(handle_key(ViewMode::Play, &ch("h"), shift), Message::Nothing));
    assert!(matches!(handle_key(ViewMode::Help, &ch("h"), logo), Message::Nothing));
    assert!(matches!(handle_key(ViewMode::ConfirmQuit, &ch("y"), CTRL), Message::Nothing));
    assert!(matches!(handle_key(ViewMode::ConfirmQuit, &ch("n"), CTRL), Message::Nothing));
    assert!(matches!(
        handle_key(ViewMode::Play, &Key::Named(NamedKey::ArrowUp), CTRL),
        Message::SetVolume(10)
    ));
    assert!(matches!(handle_key(ViewMode::Play, &Key::Named(NamedKey::Space), shift), Message::TogglePlay));
}
