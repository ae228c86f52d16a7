//! The daily interval in which watering is allowed, in absolute UTC seconds.

use crate::utils::{sod, sod_spec};
use vstd::prelude::*;

verus! {

/// One day's watering window. Both ends are inclusive, and a window that
/// crosses midnight is simply an interval whose end lies in the next day.
#[derive(Debug, Clone, Copy, PartialEq, Eq, Structural)]
pub struct WaterWin {
    /// Hour of the day at which the window opens.
    pub hour_start: i64,
    /// Length of the window in seconds.
    pub duration_secs: i64,
    /// First second of the window.
    pub day_start_time: i64,
    /// Last second of the window.
    pub day_end_time: i64,
}

impl WaterWin {
    /// A window as `new` builds it from a legal configuration.
    pub open spec fn wf(self) -> bool {
        &&& 0 <= self.hour_start <= 23
        &&& 3_600 <= self.duration_secs <= 86_400
        &&& self.day_end_time == self.day_start_time + self.duration_secs - 1
    }

    /// Whether `time` lies in the window.
    pub open spec fn contains(self, time: int) -> bool {
        self.day_start_time <= time <= self.day_end_time
    }

    /// The window moved forward by `days` days.
    pub open spec fn shifted(self, days: int) -> WaterWin
        recommends
            i64::MIN <= self.day_start_time + days * 86_400 <= i64::MAX,
            i64::MIN <= self.day_end_time + days * 86_400 <= i64::MAX,
    {
        WaterWin {
            hour_start: self.hour_start,
            duration_secs: self.duration_secs,
            day_start_time: (self.day_start_time + days * 86_400) as i64,
            day_end_time: (self.day_end_time + days * 86_400) as i64,
        }
    }

    /// Days by which the window has to move so that it no longer lies wholly
    /// before `time`: zero while `time` is not past the end.
    pub open spec fn days_behind(self, time: int) -> int {
        if time > self.day_end_time {
            (time - self.day_end_time + 86_399) / 86_400
        } else {
            0
        }
    }

    /// The window brought forward to the first day on which it does not end
    /// before `time`.
    pub open spec fn rolled(self, time: int) -> WaterWin {
        self.shifted(self.days_behind(time))
    }

    /// Whether `time` lies in this window or at the same time of day in a
    /// later one.
    pub open spec fn contains_or_recurs(self, time: int) -> bool {
        self.contains(time) || (time > self.day_end_time && (time - self.day_start_time) % 86_400
            < self.day_end_time - self.day_start_time + 1)
    }

    /// The window that opens at `hour_start` on the day of `current_time` and
    /// stays open for `duration_hours`, its last second included.
    pub open spec fn on_day_of(current_time: int, hour_start: int, duration_hours: int) -> WaterWin {
        WaterWin {
            hour_start: hour_start as i64,
            duration_secs: (duration_hours * 3_600) as i64,
            day_start_time: (sod_spec(current_time) + hour_start * 3_600) as i64,
            day_end_time: (sod_spec(current_time) + hour_start * 3_600 + duration_hours * 3_600
                - 1) as i64,
        }
    }

    /// The window that opens at `hour_start` on the day of `current_time` and
    /// stays open for `duration_hours`.
    pub fn new(current_time: i64, hour_start: i64, duration_hours: i64) -> (r: Self)
        requires
            0 <= hour_start <= 23,
            1 <= duration_hours <= 24,
            sod_spec(current_time as int) + hour_start * 3_600 + duration_hours * 3_600 - 1
                <= i64::MAX,
        ensures
            r == WaterWin::on_day_of(current_time as int, hour_start as int, duration_hours as int),
            r.wf(),
            r.hour_start == hour_start,
            r.duration_secs == duration_hours * 3_600,
            r.day_start_time == sod_spec(current_time as int) + hour_start * 3_600,
            r.day_end_time == r.day_start_time + r.duration_secs - 1,
    {
        let day_start_time = sod(current_time) + hour_start * 3_600;
        let duration_secs = duration_hours * 3_600;
        let day_end_time = day_start_time + duration_secs - 1;
        Self { hour_start, duration_secs, day_start_time, day_end_time }
    }

    /// Moves the window to the next day.
    pub fn next_mut(&mut self)
        requires
            old(self).day_start_time + 86_400 <= i64::MAX,
            old(self).day_end_time + 86_400 <= i64::MAX,
        ensures
            *final(self) == old(self).shifted(1),
            old(self).wf() ==> final(self).wf(),
    {
        self.day_start_time += 86_400;
        self.day_end_time += 86_400;
    }

    /// The window of the next day.
    pub fn next(&self) -> (r: Self)
        requires
            self.day_start_time + 86_400 <= i64::MAX,
            self.day_end_time + 86_400 <= i64::MAX,
        ensures
            r == self.shifted(1),
            self.wf() ==> r.wf(),
    {
        let mut new_tf = *self;
        new_tf.next_mut();
        new_tf
    }

    /// Brings the window forward once `current_time` is past its end, by as
    /// many days as it takes for the end to reach `current_time` again. Under
    /// a one-second tick that is never more than one day.
    pub fn roll_window(&mut self, current_time: i64)
        requires
            old(self).day_start_time <= old(self).day_end_time,
            current_time + 86_399 <= i64::MAX,
        ensures
            *final(self) == old(self).rolled(current_time as int),
            current_time <= final(self).day_end_time,
            current_time > old(self).day_end_time ==> final(self).day_end_time - 86_400
                < current_time,
            current_time <= old(self).day_end_time ==> *final(self) == *old(self),
            old(self).wf() ==> final(self).wf(),
    {
        if current_time > self.day_end_time {
            let behind: i128 = current_time as i128 - self.day_end_time as i128;
            let days: i128 = (behind + 86_399) / 86_400;
            let new_end: i128 = self.day_end_time as i128 + days * 86_400;
            let new_start: i128 = self.day_start_time as i128 + days * 86_400;
            self.day_start_time = new_start as i64;
            self.day_end_time = new_end as i64;
        }
    }

    /// Whether `time` lies in the window.
    pub fn is_within(&self, time: i64) -> (r: bool)
        ensures
            r == self.contains(time as int),
    {
        time >= self.day_start_time && time <= self.day_end_time
    }

    /// Whether `time` lies in this window or at the same time of day in a
    /// later one.
    pub fn is_within_or_future(&self, time: i64) -> (r: bool)
        requires
            self.day_start_time <= self.day_end_time,
        ensures
            r == self.contains_or_recurs(time as int),
    {
        if time >= self.day_start_time && time <= self.day_end_time {
            true
        } else if time > self.day_end_time {
            let since: i128 = time as i128 - self.day_start_time as i128;
            let length: i128 = self.day_end_time as i128 - self.day_start_time as i128 + 1;
            since % 86_400 < length
        } else {
            false
        }
    }
}

/// The last second of a window is inside it and the second after is not.
pub proof fn lemma_window_end_is_inclusive(win: WaterWin)
    requires
        win.day_start_time <= win.day_end_time,
    ensures
        win.contains(win.day_end_time as int),
        !win.contains(win.day_end_time + 1),
{
}

/// Rolling is idempotent: a window that was rolled to `time` does not move
/// when rolled to `time` again.
pub proof fn lemma_rolled_is_stable(win: WaterWin, time: int)
    requires
        win.day_start_time <= win.day_end_time,
        time + 86_399 <= i64::MAX,
    ensures
        win.rolled(time).rolled(time) == win.rolled(time),
{
}

} // verus!
