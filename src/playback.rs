//! The playback state machine: the current track, the playing position, the
//! pause flag, volume, lyric language, speed and the view on screen.
//!
//! The audio device is driven from outside: each step returns an `Effect`
//! that says what the device has to do, and the device's answers (the
//! length of the track, whether a seek was accepted) come back as arguments.
use crate::config::Config;
use crate::input::{handle_key, Key, Modifiers};
use vstd::prelude::*;

verus! {

/// The view on screen; it decides which key bindings apply.
#[derive(Clone, Copy, Debug, PartialEq, Eq, Structural)]
pub enum ViewMode {
    Play,
    Help,
    ConfirmQuit,
}

/// Which lyrics are shown.
#[derive(Clone, Copy, Debug, PartialEq, Eq, Structural)]
pub enum Lang {
    All,
    Chinese,
    Japanese,
}

/// A playback speed: half, normal, one and a half, or double.
#[derive(Clone, Copy, Debug, PartialEq, Eq, Structural)]
pub enum Speed {
    Half,
    Normal,
    OneAndHalf,
    Double,
}

/// What the player is asked to do.
#[derive(Clone, Debug)]
pub enum Message {
    Nothing,
    TogglePlay,
    ToggleLang,
    SetVolume(i32),
    NextSong,
    SwitchView(ViewMode),
    /// A key press, with the modifiers held.
    KeyInput(Key, Modifiers),
    Quit,
    UpdateSlider(u64),
    ToggleSpeed,
    UpdateTime,
    SeekAudio,
}

/// What the audio device and the window have to do after a step.
#[derive(Clone, Copy, Debug, PartialEq, Eq, Structural)]
pub enum Effect {
    /// Bring the device's pause flag, volume and speed in line with the state.
    Sync,
    /// The current track changed by reaching its end: start it.
    TrackEnded,
    /// The listener skipped to the current track: drop the one playing.
    TrackSkipped,
    /// Ask the device to jump to this position (milliseconds), and report back
    /// through `Player::seek_audio`.
    Seek(u64),
    /// Close the application.
    Quit,
}

pub open spec fn speed_halves(s: Speed) -> int {
    match s {
        Speed::Half => 1,
        Speed::Normal => 2,
        Speed::OneAndHalf => 3,
        Speed::Double => 4,
    }
}

/// The playback state.
#[derive(Clone, Debug)]
pub struct Player {
    pub playlist: Vec<Config>,
    pub mode: ViewMode,
    pub current_pos: usize,
    pub paused: bool,
    /// Volume in percent.
    pub volume: u8,
    /// Position in the current track, in milliseconds.
    pub elapsed_ms: u64,
    /// Position of the scrubber, in milliseconds.
    pub slider_ms: u64,
    pub lang: Lang,
    pub speed: Speed,
    /// Interval between ticks, in milliseconds.
    pub tick_ms: u64,
}

/// Milliseconds of audio played in `dt` milliseconds of wall time at `speed`.
pub open spec fn scaled(dt: int, speed: Speed) -> int {
    dt * speed_halves(speed) / 2
}

pub open spec fn sat_add(a: int, b: int) -> int {
    if a + b > u64::MAX {
        u64::MAX as int
    } else {
        a + b
    }
}

pub open spec fn next_pos_spec(p: Player) -> int {
    (p.current_pos + 1) % (p.playlist@.len() as int)
}

pub open spec fn advanced(p: Player) -> Player {
    Player {
        current_pos: next_pos_spec(p) as usize,
        elapsed_ms: 0,
        slider_ms: 0,
        paused: false,
        ..p
    }
}

pub open spec fn toggled(p: Player) -> Player {
    Player { paused: !p.paused, ..p }
}

pub open spec fn clamp_volume(v: int) -> int {
    if v < 0 {
        0
    } else if v > 100 {
        100
    } else {
        v
    }
}

pub open spec fn with_volume(p: Player, delta: int) -> Player {
    Player { volume: clamp_volume(p.volume + delta) as u8, ..p }
}

pub open spec fn next_lang(l: Lang) -> Lang {
    match l {
        Lang::Chinese => Lang::Japanese,
        Lang::Japanese => Lang::All,
        Lang::All => Lang::Chinese,
    }
}

pub open spec fn next_speed(s: Speed) -> Speed {
    match s {
        Speed::Half => Speed::Normal,
        Speed::Normal => Speed::OneAndHalf,
        Speed::OneAndHalf => Speed::Double,
        Speed::Double => Speed::Half,
    }
}

/// The view changes; playback goes on as it was.
pub open spec fn switched(p: Player, mode: ViewMode) -> Player {
    Player { mode, ..p }
}

/// The state after time ran on by `dt` milliseconds, before any rollover.
pub open spec fn ran(p: Player, dt: int) -> Player {
    if p.paused {
        p
    } else {
        Player {
            elapsed_ms: sat_add(p.elapsed_ms as int, scaled(dt, p.speed)) as u64,
            slider_ms: sat_add(p.slider_ms as int, scaled(dt, p.speed)) as u64,
            ..p
        }
    }
}

/// Time reached the end of the track, whose length is `total`, if known.
pub open spec fn at_end(p: Player, total: Option<u64>) -> bool {
    !p.paused && match total {
        Some(d) => p.elapsed_ms >= d,
        None => false,
    }
}

/// The state after a tick of `dt` milliseconds: time runs unless paused, and
/// the next track starts once the current one has played to its end.
pub open spec fn ticked(p: Player, dt: int, total: Option<u64>) -> Player {
    let q = ran(p, dt);
    if at_end(q, total) {
        advanced(q)
    } else {
        q
    }
}

/// The state after `n` advances to the next track.
pub open spec fn advance_times(p: Player, n: nat) -> Player
    decreases n,
{
    if n == 0 {
        p
    } else {
        advanced(advance_times(p, (n - 1) as nat))
    }
}

/// The state and effect after a message other than a key press.
pub open spec fn step_spec(p: Player, msg: Message, total: Option<u64>) -> (Player, Effect) {
    match msg {
        Message::TogglePlay => (toggled(p), Effect::Sync),
        Message::ToggleLang => (Player { lang: next_lang(p.lang), ..p }, Effect::Sync),
        Message::SetVolume(d) => (with_volume(p, d as int), Effect::Sync),
        Message::NextSong => (advanced(p), Effect::TrackSkipped),
        Message::SwitchView(m) => (switched(p, m), Effect::Sync),
        Message::Quit => (p, Effect::Quit),
        Message::UpdateTime => {
            let q = ticked(p, p.tick_ms as int, total);
            (q, if at_end(ran(p, p.tick_ms as int), total) {
                Effect::TrackEnded
            } else {
                Effect::Sync
            })
        },
        Message::SeekAudio => (p, Effect::Seek(p.slider_ms)),
        Message::UpdateSlider(v) => (Player { slider_ms: v, ..p }, Effect::Sync),
        Message::ToggleSpeed => (Player { speed: next_speed(p.speed), ..p }, Effect::Sync),
        _ => (p, Effect::Sync),
    }
}

impl Player {
    /// The current track is a track of a non-empty playlist, and the volume
    /// is a percentage.
    pub open spec fn wf(&self) -> bool {
        &&& 0 < self.playlist@.len() <= usize::MAX
        &&& self.current_pos < self.playlist@.len()
        &&& self.volume <= 100
    }

    /// A player at the start of the first track of `playlist`, playing, at
    /// full volume and normal speed, showing both lyrics; `None` for an empty
    /// playlist.
    pub fn new(playlist: Vec<Config>) -> (r: Option<Player>)
        ensures
            match r {
                Some(p) => {
                    &&& playlist@.len() > 0
                    &&& p.wf()
                    &&& p.playlist == playlist
                    &&& p.mode == ViewMode::Play
                    &&& p.current_pos == 0
                    &&& !p.paused
                    &&& p.volume == 100
                    &&& p.elapsed_ms == 0
                    &&& p.slider_ms == 0
                    &&& p.lang == Lang::All
                    &&& p.speed == Speed::Normal
                    &&& p.tick_ms == 100
                },
                None => playlist@.len() == 0,
            },
    {
        if playlist.len() == 0 {
            return None;
        }
        Some(
            Player {
                playlist,
                mode: ViewMode::Play,
                current_pos: 0,
                paused: false,
                volume: 100,
                elapsed_ms: 0,
                slider_ms: 0,
                lang: Lang::All,
                speed: Speed::Normal,
                tick_ms: 100,
            },
        )
    }

    /// The track being played.
    pub fn current_track(&self) -> (r: &Config)
        requires
            self.wf(),
        ensures
            *r == self.playlist@[self.current_pos as int],
    {
        &self.playlist[self.current_pos]
    }

    /// Shows view `mode`; playback goes on as it was.
    pub fn switch_view(&mut self, mode: ViewMode)
        ensures
            *final(self) == switched(*old(self), mode),
    {
        self.mode = mode;
    }

    /// Runs time on by `dt_ms` milliseconds of wall time, unless paused, and
    /// starts the next track once the current one, `total_ms` long if its
    /// length is known, has played to its end. Returns whether it did.
    pub fn update_time(&mut self, dt_ms: u64, total_ms: Option<u64>) -> (r: bool)
        requires
            old(self).wf(),
        ensures
            final(self).wf(),
            *final(self) == ticked(*old(self), dt_ms as int, total_ms),
            r == at_end(ran(*old(self), dt_ms as int), total_ms),
    {
        if !self.paused {
            let h = self.speed_halves();
            assert((dt_ms as u128) * (h as u128) <= u64::MAX as u128 * 4) by (nonlinear_arith)
                requires
                    h <= 4,
            ;
            let adv: u128 = (dt_ms as u128) * (h as u128) / 2;
            let e: u128 = self.elapsed_ms as u128 + adv;
            self.elapsed_ms = if e > u64::MAX as u128 {
                u64::MAX
            } else {
                e as u64
            };
            let s: u128 = self.slider_ms as u128 + adv;
            self.slider_ms = if s > u64::MAX as u128 {
                u64::MAX
            } else {
                s as u64
            };
        }
        let end = !self.paused && match total_ms {
            Some(d) => self.elapsed_ms >= d,
            None => false,
        };
        if end {
            self.next_song();
        }
        end
    }

    fn speed_halves(&self) -> (r: u8)
        ensures
            r == speed_halves(self.speed),
            1 <= r <= 4,
    {
        match self.speed {
            Speed::Half => 1,
            Speed::Normal => 2,
            Speed::OneAndHalf => 3,
            Speed::Double => 4,
        }
    }

    /// The index of the track after the current one, wrapping to the first.
    pub fn next_pos(&self) -> (r: usize)
        requires
            self.wf(),
        ensures
            r == next_pos_spec(*self),
            r < self.playlist@.len(),
    {
        let max_pos = self.playlist.len() - 1;
        if self.current_pos >= max_pos {
            proof {
                vstd::arithmetic::div_mod::lemma_mod_self_0(self.playlist@.len() as int);
            }
            0
        } else {
            proof {
                vstd::arithmetic::div_mod::lemma_small_mod(
                    (self.current_pos + 1) as nat,
                    self.playlist@.len() as nat,
                );
            }
            self.current_pos + 1
        }
    }

    /// Moves to the start of the next track, wrapping to the first, and plays.
    pub fn next_song(&mut self)
        requires
            old(self).wf(),
        ensures
            final(self).wf(),
            *final(self) == advanced(*old(self)),
    {
        self.current_pos = self.next_pos();
        self.elapsed_ms = 0;
        self.slider_ms = 0;
        self.paused = false;
    }

    /// Pauses a playing track or resumes a paused one.
    pub fn toggle_play(&mut self)
        ensures
            *final(self) == toggled(*old(self)),
    {
        self.paused = !self.paused;
    }

    /// Changes the volume by `relative` percent, clamped to 0..=100.
    pub fn set_volume(&mut self, relative: i32)
        requires
            old(self).volume <= 100,
        ensures
            *final(self) == with_volume(*old(self), relative as int),
            final(self).volume <= 100,
    {
        let v: i64 = self.volume as i64 + relative as i64;
        let c: i64 = if v < 0 {
            0
        } else if v > 100 {
            100
        } else {
            v
        };
        self.volume = c as u8;
    }

    /// The position that a seek asks the device for: the scrubber's.
    pub fn seek_target(&self) -> (r: u64)
        ensures
            r == self.slider_ms,
    {
        self.slider_ms
    }

    /// Records the device's answer to a seek to the scrubber's position: the
    /// position moves there if the device accepted, else nothing changes.
    pub fn seek_audio(&mut self, accepted: bool)
        ensures
            *final(self) == (if accepted {
                Player { elapsed_ms: old(self).slider_ms, ..*old(self) }
            } else {
                *old(self)
            }),
    {
        if accepted {
            self.elapsed_ms = self.slider_ms;
        }
    }

    /// Moves the scrubber to `value` milliseconds.
    pub fn update_slider(&mut self, value: u64)
        ensures
            *final(self) == (Player { slider_ms: value, ..*old(self) }),
    {
        self.slider_ms = value;
    }

    /// Cycles the lyrics shown: Chinese, Japanese, both, Chinese.
    pub fn toggle_lang(&mut self)
        ensures
            *final(self) == (Player { lang: next_lang(old(self).lang), ..*old(self) }),
    {
        self.lang = match self.lang {
            Lang::Chinese => Lang::Japanese,
            Lang::Japanese => Lang::All,
            Lang::All => Lang::Chinese,
        };
    }

    /// Cycles the speed: half, normal, one and a half, double, half.
    pub fn toggle_speed(&mut self)
        ensures
            *final(self) == (Player { speed: next_speed(old(self).speed), ..*old(self) }),
    {
        self.speed = match self.speed {
            Speed::Half => Speed::Normal,
            Speed::Normal => Speed::OneAndHalf,
            Speed::OneAndHalf => Speed::Double,
            Speed::Double => Speed::Half,
        };
    }

    /// Handles one message; a key press is first turned into the message that
    /// its binding in the current view gives. `total_ms` is the length of the
    /// current track, if the device knows it.
    pub fn update(&mut self, msg: Message, total_ms: Option<u64>) -> (r: Effect)
        requires
            old(self).wf(),
        ensures
            final(self).wf(),
            (*final(self), r) == step_spec(
                *old(self),
                match msg {
                    Message::KeyInput(k, m) => crate::input::dispatch_spec(old(self).mode, k, m),
                    _ => msg,
                },
                total_ms,
            ),
    {
        let m = match msg {
            Message::KeyInput(k, m) => handle_key(self.mode, &k, m),
            other => other,
        };
        self.step(m, total_ms)
    }

    fn step(&mut self, msg: Message, total_ms: Option<u64>) -> (r: Effect)
        requires
            old(self).wf(),
        ensures
            final(self).wf(),
            (*final(self), r) == step_spec(*old(self), msg, total_ms),
    {
        match msg {
            Message::TogglePlay => {
                self.toggle_play();
                Effect::Sync
            },
            Message::ToggleLang => {
                self.toggle_lang();
                Effect::Sync
            },
            Message::SetVolume(d) => {
                self.set_volume(d);
                Effect::Sync
            },
            Message::NextSong => {
                self.next_song();
                Effect::TrackSkipped
            },
            Message::SwitchView(m) => {
                self.switch_view(m);
                Effect::Sync
            },
            Message::Quit => Effect::Quit,
            Message::UpdateTime => {
                let dt = self.tick_ms;
                if self.update_time(dt, total_ms) {
                    Effect::TrackEnded
                } else {
                    Effect::Sync
                }
            },
            Message::SeekAudio => Effect::Seek(self.seek_target()),
            Message::UpdateSlider(v) => {
                self.update_slider(v);
                Effect::Sync
            },
            Message::ToggleSpeed => {
                self.toggle_speed();
                Effect::Sync
            },
            _ => Effect::Sync,
        }
    }
}

/// Any number of advances to the next track keeps the current track within the
/// playlist, and moves it on by that number of places, cyclically.
pub proof fn lemma_advance_keeps_index(p: Player, n: nat)
    requires
        p.wf(),
    ensures
        advance_times(p, n).wf(),
        advance_times(p, n).playlist == p.playlist,
        advance_times(p, n).current_pos as int == (p.current_pos + n) % (p.playlist@.len() as int),
    decreases n,
{
    let len = p.playlist@.len() as int;
    if n == 0 {
        vstd::arithmetic::div_mod::lemma_small_mod(p.current_pos as nat, len as nat);
    } else {
        lemma_advance_keeps_index(p, (n - 1) as nat);
        let q = advance_times(p, (n - 1) as nat);
        vstd::arithmetic::div_mod::lemma_mod_bound(q.current_pos + 1, len);
        vstd::arithmetic::div_mod::lemma_add_mod_noop_right(1, p.current_pos + n - 1, len);
        assert(advance_times(p, n) == advanced(q));
        let a = (p.current_pos + n - 1) as int;
        assert(q.current_pos as int == a % len);
        assert((1 + a % len) % len == (1 + a) % len);
        assert(next_pos_spec(q) == (1 + a) % len);
        assert(advanced(q).current_pos as int == next_pos_spec(q));
    }
}

/// Toggling play twice gives back the pause flag it started with.
pub proof fn lemma_toggle_play_twice(p: Player)
    ensures
        toggled(toggled(p)).paused == p.paused,
{
}

/// A volume change of +1000 gives full volume and one of -1000 gives silence,
/// from any volume.
pub proof fn lemma_volume_clamps(p: Player)
    requires
        p.volume <= 100,
    ensures
        with_volume(p, 1000).volume == 100,
        with_volume(p, -1000).volume == 0,
{
}

/// Three changes of the lyric language come back to the one shown before.
pub proof fn lemma_lang_cycle(l: Lang)
    ensures
        next_lang(next_lang(next_lang(l))) == l,
        l == Lang::Chinese ==> next_lang(l) == Lang::Japanese && next_lang(next_lang(l))
            == Lang::All,
{
}

/// A tick at normal speed runs time on by exactly its length, unless the track
/// ends with it or the position is at its limit; while paused, it changes
/// nothing.
pub proof fn lemma_tick_elapsed(p: Player, dt: nat, total: Option<u64>)
    ensures
        p.paused ==> ticked(p, dt as int, total) == p,
        !p.paused && p.speed == Speed::Normal && p.elapsed_ms + dt <= u64::MAX && !at_end(
            ran(p, dt as int),
            total,
        ) ==> ticked(p, dt as int, total).elapsed_ms == p.elapsed_ms + dt,
{
    assert(dt * 2 / 2 == dt) by (nonlinear_arith);
}

} // verus!
