//! The status-bar widgets and the readings they consume.
use vstd::prelude::*;
use chrono::{Datelike, Timelike};
use crate::render::Elem;
use crate::Error;

pub mod battery;
pub mod date;
pub mod memory;

pub use self::battery::BatteryW;
pub use self::date::DateTimeW;
pub use self::memory::MemoryW;

verus! {

/// The wall-clock fields one tick renders: local month (0-based),
/// day of month, hour, minute and second.
#[derive(Clone, Copy, PartialEq, Eq, Structural, Debug)]
pub struct TimeParts {
    pub month0: u32,
    pub day: u32,
    pub hour: u32,
    pub minute: u32,
    pub second: u32,
}

/// The documented ranges of the wall-clock fields.
pub open spec fn time_wf(t: TimeParts) -> bool {
    &&& t.month0 < 12
    &&& 1 <= t.day <= 31
    &&& t.hour < 24
    &&& t.minute < 60
    &&& t.second < 60
}

/// Relies on chrono's Local::now and its Datelike/Timelike accessors
/// month0, day, hour, minute and second, whose documented ranges are
/// stated here. Nothing is assumed about which moment is read. Note
/// that chrono's now panics when the system clock stands before the
/// Unix epoch, an environmental condition no caller can rule out here.
#[verifier::external_body]
fn now_time_parts() -> (t: TimeParts)
    ensures
        time_wf(t),
{
    let now = chrono::Local::now();
    TimeParts {
        month0: now.month0(),
        day: now.day(),
        hour: now.hour(),
        minute: now.minute(),
        second: now.second(),
    }
}

/// One tick's source readings: the time now, and each status command's
/// text output or the failure met reading it.
pub struct Readings {
    pub time: TimeParts,
    pub battery: Result<String, Error>,
    pub memory: Result<String, Error>,
}

pub open spec fn readings_wf(r: Readings) -> bool {
    time_wf(r.time)
}

/// Packs the source texts with the current wall-clock time.
pub fn gather(battery: Result<String, Error>, memory: Result<String, Error>) -> (r: Readings)
    ensures
        r.battery == battery,
        r.memory == memory,
        readings_wf(r),
{
    Readings { time: now_time_parts(), battery, memory }
}

/// The capability every status-bar component offers: a refresh
/// cooldown in ticks, and a render to colored segments that may fail.
pub trait Widget {
    fn cooldown(&self) -> (c: i32)
        ensures
            1 <= c,
    {
        1
    }

    fn blit(&self, inp: &Readings) -> Result<Vec<Elem>, Error>
        requires
            readings_wf(*inp),
    ;
}

} // verus!
