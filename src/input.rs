//! Key bindings: which message a key press gives in each view.
use crate::chars::chars_of;
use crate::playback::{Message, ViewMode};
use vstd::prelude::*;

verus! {

/// The named keys that the player tells apart.
#[derive(Clone, Copy, Debug, PartialEq, Eq, Structural)]
pub enum NamedKey {
    ArrowUp,
    ArrowDown,
    ArrowLeft,
    ArrowRight,
    Space,
    Other,
}

/// A key press, as the windowing layer reports it.
#[derive(Clone, Debug)]
pub enum Key {
    /// A key that types text; the text it types.
    Character(String),
    Named(NamedKey),
    Unidentified,
}

/// The modifier keys held during a key press.
#[derive(Clone, Copy, Debug, PartialEq, Eq, Structural)]
pub struct Modifiers {
    pub shift: bool,
    pub control: bool,
    pub alt: bool,
    pub logo: bool,
}

pub open spec fn is_modified(m: Modifiers) -> bool {
    m.shift || m.control || m.alt || m.logo
}

/// The character that a key press binds by: the one character that the key
/// types, if it types exactly one and no modifier is held.
pub open spec fn bound_char(key: Key, m: Modifiers) -> Option<char> {
    if is_modified(m) {
        None
    } else {
        key_char(key)
    }
}

/// The one character that a key types, if it types exactly one.
pub open spec fn key_char(key: Key) -> Option<char> {
    match key {
        Key::Character(s) => if s@.len() == 1 {
            Some(s@[0])
        } else {
            None
        },
        _ => None,
    }
}

pub open spec fn key_named(key: Key) -> Option<NamedKey> {
    match key {
        Key::Named(n) => Some(n),
        _ => None,
    }
}

/// The message that a key gives in the play view.
pub open spec fn normal_spec(key: Key, m: Modifiers) -> Message {
    match bound_char(key, m) {
        Some(c) => if c == 'h' {
            Message::SwitchView(ViewMode::Help)
        } else if c == 'q' {
            Message::SwitchView(ViewMode::ConfirmQuit)
        } else if c == 'p' {
            Message::TogglePlay
        } else if c == 't' {
            Message::ToggleLang
        } else {
            Message::Nothing
        },
        None => match key_named(key) {
            Some(NamedKey::ArrowUp) => Message::SetVolume(10i32),
            Some(NamedKey::ArrowDown) => Message::SetVolume(-10i32),
            Some(NamedKey::ArrowRight) => Message::NextSong,
            Some(NamedKey::Space) => Message::TogglePlay,
            _ => Message::Nothing,
        },
    }
}

/// The message that a key gives in the help view.
pub open spec fn help_spec(key: Key, m: Modifiers) -> Message {
    if bound_char(key, m) == Some('h') {
        Message::SwitchView(ViewMode::Play)
    } else {
        Message::Nothing
    }
}

/// The message that a key gives while quitting waits for confirmation.
pub open spec fn confirm_quit_spec(key: Key, m: Modifiers) -> Message {
    if bound_char(key, m) == Some('y') {
        Message::Quit
    } else if bound_char(key, m) == Some('n') {
        Message::SwitchView(ViewMode::Play)
    } else {
        Message::Nothing
    }
}

pub open spec fn dispatch_spec(mode: ViewMode, key: Key, m: Modifiers) -> Message {
    match mode {
        ViewMode::Play => normal_spec(key, m),
        ViewMode::Help => help_spec(key, m),
        ViewMode::ConfirmQuit => confirm_quit_spec(key, m),
    }
}

/// The character that a press of `key` with `m` held binds by.
fn single_char(key: &Key, m: Modifiers) -> (r: Option<char>)
    ensures
        r == bound_char(*key, m),
{
    if m.shift || m.control || m.alt || m.logo {
        return None;
    }
    match key {
        Key::Character(s) => {
            let cs = chars_of(s.as_str());
            if cs.len() == 1 {
                Some(cs[0])
            } else {
                None
            }
        },
        _ => None,
    }
}

/// The message that a key press gives in view `mode`, with the modifiers
/// `m` held. Character keys bind only when no modifier is held; keys without
/// a binding give `Message::Nothing`.
pub fn handle_key(mode: ViewMode, key: &Key, m: Modifiers) -> (r: Message)
    ensures
        r == dispatch_spec(mode, *key, m),
{
    match mode {
        ViewMode::Play => handle_in_normal(key, m),
        ViewMode::Help => handle_in_help(key, m),
        ViewMode::ConfirmQuit => handle_in_confirm_quit(key, m),
    }
}

fn handle_in_confirm_quit(key: &Key, m: Modifiers) -> (r: Message)
    ensures
        r == confirm_quit_spec(*key, m),
{
    match single_char(key, m) {
        Some('y') => Message::Quit,
        Some('n') => Message::SwitchView(ViewMode::Play),
        _ => Message::Nothing,
    }
}

fn handle_in_normal(key: &Key, m: Modifiers) -> (r: Message)
    ensures
        r == normal_spec(*key, m),
{
    match single_char(key, m) {
        Some(c) => {
            if c == 'h' {
                Message::SwitchView(ViewMode::Help)
            } else if c == 'q' {
                Message::SwitchView(ViewMode::ConfirmQuit)
            } else if c == 'p' {
                Message::TogglePlay
            } else if c == 't' {
                Message::ToggleLang
            } else {
                Message::Nothing
            }
        },
        None => match key {
            Key::Named(NamedKey::ArrowUp) => Message::SetVolume(10),
            Key::Named(NamedKey::ArrowDown) => Message::SetVolume(-10),
            Key::Named(NamedKey::ArrowRight) => Message::NextSong,
            Key::Named(NamedKey::Space) => Message::TogglePlay,
            _ => Message::Nothing,
        },
    }
}

fn handle_in_help(key: &Key, m: Modifiers) -> (r: Message)
    ensures
        r == help_spec(*key, m),
{
    match single_char(key, m) {
        Some('h') => Message::SwitchView(ViewMode::Play),
        _ => Message::Nothing,
    }
}

} // verus!
