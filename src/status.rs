//! The clock readings of the status line.
use vstd::prelude::*;

verus! {

/// Whole minutes and the seconds past them of the position and of the
/// track's length; `show_minutes` is false while under a minute has played,
/// when the position is shown in seconds alone.
#[derive(Clone, Copy, Debug)]
pub struct StatusTime {
    pub minute: u64,
    pub second: u64,
    pub show_minutes: bool,
    /// The length of the track as (minutes, seconds), if known.
    pub total: Option<(u64, u64)>,
}

/// (whole minutes, seconds past them) of `ms` milliseconds.
pub open spec fn clock_spec(ms: int) -> (int, int) {
    (ms / 1000 / 60, ms / 1000 % 60)
}

fn clock(ms: u64) -> (r: (u64, u64))
    ensures
        (r.0 as int, r.1 as int) == clock_spec(ms as int),
{
    let secs = ms / 1000;
    (secs / 60, secs % 60)
}

/// The readings for position `elapsed_ms` in a track `total_ms` long, if its
/// length is known.
pub fn status_time(elapsed_ms: u64, total_ms: Option<u64>) -> (r: StatusTime)
    ensures
        (r.minute as int, r.second as int) == clock_spec(elapsed_ms as int),
        r.show_minutes == (r.minute != 0),
        match total_ms {
            Some(t) => match r.total {
                Some(c) => (c.0 as int, c.1 as int) == clock_spec(t as int),
                None => false,
            },
            None => r.total is None,
        },
{
    let (minute, second) = clock(elapsed_ms);
    let total = match total_ms {
        Some(t) => Some(clock(t)),
        None => None,
    };
    StatusTime { minute, second, show_minutes: minute != 0, total }
}

} // verus!
