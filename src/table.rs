use vstd::prelude::*;
use crate::daily::{daily_means, daily_series};
use crate::projection::{project, projection, Projected};
use crate::sample::{Sample, MINUTES_PER_DAY, MINUTES_PER_HOUR};
use crate::window::{window, windowed};

verus! {

/// The two tables shown to the user.
#[derive(Clone, Copy, Debug, PartialEq, Eq, Structural)]
pub enum TableType {
    Hourly,
    Daily,
}

impl TableType {
    /// The caption of the table's first header cell.
    pub fn name(&self) -> (r: &'static str)
        ensures
            *self == TableType::Hourly ==> r@ == "Hourly"@,
            *self == TableType::Daily ==> r@ == "Daily"@,
    {
        match self {
            TableType::Hourly => "Hourly",
            TableType::Daily => "Daily",
        }
    }
}

/// Rows in the hourly table.
pub const HOURLY_ROWS: usize = 10;

/// Rows in the daily table.
pub const DAILY_ROWS: usize = 7;

/// Number of candidate indoor temperatures.
pub const REFERENCE_COUNT: usize = 13;

/// The candidate indoor temperatures, in thousandths of a degree Celsius:
/// 16 °C to 22 °C in steps of half a degree.
pub open spec fn reference_temperature(i: int) -> int {
    16_000 + 500 * i
}

/// The candidate indoor temperatures of the table's header, in thousandths of
/// a degree Celsius, strictly increasing.
pub fn reference_temperatures() -> (r: Vec<i64>)
    ensures
        r@.len() == REFERENCE_COUNT,
        forall|i: int| 0 <= i < r@.len() ==> #[trigger] r@[i] == reference_temperature(i),
        forall|i: int, j: int| 0 <= i < j < r@.len() ==> r@[i] < r@[j],
{
    let mut r: Vec<i64> = Vec::new();
    let mut t: i64 = 16_000;
    while r.len() < REFERENCE_COUNT
        invariant
            r@.len() <= REFERENCE_COUNT,
            t == reference_temperature(r@.len() as int),
            forall|i: int| 0 <= i < r@.len() ==> #[trigger] r@[i] == reference_temperature(i),
        decreases REFERENCE_COUNT - r@.len(),
    {
        r.push(t);
        t = t + 500;
    }
    r
}

/// The hourly table's samples: from the start of the current hour on, at
/// most ten of them.
pub fn hourly_view(samples: &Vec<Sample>, now: u64) -> (r: Vec<Sample>)
    ensures
        r@ == windowed(samples@, MINUTES_PER_HOUR, 1, HOURLY_ROWS, now),
        r@.len() <= HOURLY_ROWS,
{
    window(samples, MINUTES_PER_HOUR, 1, HOURLY_ROWS, now)
}

/// The daily table's samples: the mean reading of each calendar day, from the
/// current day on, at most seven of them.
pub fn daily_view(samples: &Vec<Sample>, now: u64) -> (r: Vec<Sample>)
    ensures
        r@ == windowed(daily_means(samples@), MINUTES_PER_DAY, 1, DAILY_ROWS, now),
        r@.len() <= DAILY_ROWS,
{
    let days = daily_series(samples);
    window(&days, MINUTES_PER_DAY, 1, DAILY_ROWS, now)
}

/// One row of projected humidities per displayed sample.
///
/// `observed_pressures[i]` is the saturation pressure at the temperature of
/// `samples[i]`, and `reference_pressures` those at the header's reference
/// temperatures.
pub fn project_rows(samples: &Vec<Sample>, observed_pressures: &Vec<u64>, reference_pressures: &Vec<u64>) -> (r: Vec<Vec<Projected>>)
    requires
        observed_pressures@.len() == samples@.len(),
    ensures
        r@.len() == samples@.len(),
        forall|i: int| 0 <= i < r@.len() ==> (#[trigger] r@[i])@.len() == reference_pressures@.len(),
        forall|i: int, k: int| 0 <= i < r@.len() && 0 <= k < reference_pressures@.len()
            ==> #[trigger] r@[i]@[k] == projection(samples@[i].humidity, observed_pressures@[i], reference_pressures@[k]),
{
    let mut r: Vec<Vec<Projected>> = Vec::new();
    let mut i: usize = 0;
    while i < samples.len()
        invariant
            observed_pressures@.len() == samples@.len(),
            i <= samples@.len(),
            r@.len() == i,
            forall|j: int| 0 <= j < i ==> (#[trigger] r@[j])@.len() == reference_pressures@.len(),
            forall|j: int, k: int| 0 <= j < i && 0 <= k < reference_pressures@.len()
                ==> #[trigger] r@[j]@[k] == projection(samples@[j].humidity, observed_pressures@[j], reference_pressures@[k]),
        decreases samples@.len() - i,
    {
        let row = project(samples[i].humidity, observed_pressures[i], reference_pressures);
        r.push(row);
        i = i + 1;
    }
    r
}

} // verus!
