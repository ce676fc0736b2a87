use vstd::prelude::*;

verus! {

/// Minutes in one civil day.
pub const MINUTES_PER_DAY: u64 = 1440;

/// Minutes in one hour.
pub const MINUTES_PER_HOUR: u64 = 60;

/// One forecast reading.
///
/// `minute` counts civil minutes since 1970-01-01 00:00 in the location's
/// local time; `temperature` is in thousandths of a degree Celsius and
/// `humidity` in thousandths of a percent of relative humidity.
#[derive(Clone, Copy, Debug, PartialEq, Eq, Structural)]
pub struct Sample {
    pub minute: u64,
    pub temperature: i64,
    pub humidity: u64,
}

/// The calendar day (days since 1970-01-01) that a civil minute falls on.
pub open spec fn day_of(minute: u64) -> int {
    minute as int / MINUTES_PER_DAY as int
}

impl Sample {
    pub open spec fn day(self) -> int {
        day_of(self.minute)
    }

    /// The calendar day of this sample, in days since 1970-01-01.
    pub fn calendar_day(&self) -> (r: u64)
        ensures
            r == self.day(),
    {
        self.minute / MINUTES_PER_DAY
    }
}

} // verus!
