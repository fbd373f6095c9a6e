//! The local wall clock, read through `chrono`.

use vstd::prelude::*;
use chrono::Timelike;

verus! {

/// One reading of the local clock, as the plain values the register works with.
pub struct Moment {
    /// The calendar day, as year, month and day joined by hyphens.
    pub date: String,
    /// The full instant with its offset from UTC.
    pub timestamp: String,
    /// The hour of the day, counted from 0.
    pub hour: u32,
    /// The minute of the hour, counted from 0.
    pub minute: u32,
}

/// What a [`Moment`] holds.
pub struct MomentView {
    pub date: Seq<char>,
    pub timestamp: Seq<char>,
    pub hour: int,
    pub minute: int,
}

impl View for Moment {
    type V = MomentView;

    open spec fn view(&self) -> MomentView {
        MomentView {
            date: self.date@,
            timestamp: self.timestamp@,
            hour: self.hour as int,
            minute: self.minute as int,
        }
    }
}

/// Trusted: one call of `chrono::Local::now`, and from the instant it gives:
/// the day by `DateTime::format` with the pattern `%Y-%m-%d`, the instant by
/// `DateTime::to_rfc3339`, the hour by `Timelike::hour` and the minute by
/// `Timelike::minute`. The documentation of the last two gives the hour as a
/// number from 0 to 23 and the minute as one from 0 to 59; of the two texts
/// and of which instant is read, nothing is claimed.
#[verifier::external_body]
pub(crate) fn read_clock() -> (m: Moment)
    ensures
        m.hour < 24,
        m.minute < 60,
{
    let now = chrono::Local::now();
    Moment {
        date: now.format("%Y-%m-%d").to_string(),
        timestamp: now.to_rfc3339(),
        hour: now.hour(),
        minute: now.minute(),
    }
}

} // verus!
