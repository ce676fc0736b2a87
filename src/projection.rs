use vstd::prelude::*;

verus! {

/// A projected relative humidity, kept exact as the ratio
/// `numerator / denominator`, in thousandths of a percent.
///
/// It may exceed 100 %: indoor air at that temperature would then be
/// supersaturated.
#[derive(Clone, Copy, Debug, PartialEq, Eq, Structural)]
pub struct Projected {
    pub numerator: u128,
    pub denominator: u64,
}

/// The humidity that air with relative humidity `humidity` at a temperature
/// whose saturation pressure is `observed_pressure` has once brought to a
/// temperature whose saturation pressure is `reference_pressure`, keeping its
/// vapor pressure: `humidity * observed_pressure / reference_pressure`.
pub open spec fn projection(humidity: u64, observed_pressure: u64, reference_pressure: u64) -> Projected {
    Projected {
        numerator: (humidity * observed_pressure) as u128,
        denominator: reference_pressure,
    }
}

impl Projected {
    /// The ratio is exactly `value` thousandths of a percent.
    pub open spec fn equals(self, value: int) -> bool {
        self.numerator == value * self.denominator
    }

    /// The value in tenths of a percent, rounded half up: what a table shows
    /// with one decimal.
    pub fn tenths_of_percent(&self) -> (r: u128)
        requires
            self.denominator > 0,
        ensures
            r == (self.numerator + 50 * self.denominator) / (100 * self.denominator as int),
    {
        let full = 100 * (self.denominator as u128);
        let half = 50 * (self.denominator as u128);
        let q = self.numerator / full;
        let rem = self.numerator % full;
        proof {
            let n = self.numerator as int;
            vstd::arithmetic::div_mod::lemma_fundamental_div_mod(n, full as int);
            assert(100 * q <= n) by (nonlinear_arith)
                requires
                    n == full * q + rem,
                    full >= 100,
                    q >= 0,
                    rem >= 0,
            ;
            assert(full * q == q * full && (q + 1) * full == q * full + full) by (nonlinear_arith);
            if rem >= half {
                vstd::arithmetic::div_mod::lemma_fundamental_div_mod_converse(
                    n + half, full as int, q + 1, rem + half - full);
            } else {
                vstd::arithmetic::div_mod::lemma_fundamental_div_mod_converse(
                    n + half, full as int, q as int, rem + half);
            }
        }
        if rem >= half {
            q + 1
        } else {
            q
        }
    }
}

/// Relative humidity projected onto each reference temperature, in order.
///
/// `humidity` is the observed relative humidity (thousandths of a percent),
/// `observed_pressure` the saturation pressure at the observed temperature and
/// `reference_pressures` those at the reference temperatures. The vapor
/// pressure `humidity * observed_pressure` is carried unchanged to each
/// reference temperature; nothing is rounded or clamped.
pub fn project(humidity: u64, observed_pressure: u64, reference_pressures: &Vec<u64>) -> (r: Vec<Projected>)
    ensures
        r@.len() == reference_pressures@.len(),
        forall|i: int| 0 <= i < r@.len()
            ==> #[trigger] r@[i] == projection(humidity, observed_pressure, reference_pressures@[i]),
{
    proof {
        assert(humidity * observed_pressure <= u64::MAX * u64::MAX) by (nonlinear_arith)
            requires
                humidity <= u64::MAX,
                observed_pressure <= u64::MAX,
        ;
    }
    let vapor = humidity as u128 * observed_pressure as u128;
    let mut r: Vec<Projected> = Vec::new();
    let mut i: usize = 0;
    while i < reference_pressures.len()
        invariant
            i <= reference_pressures@.len(),
            vapor == humidity * observed_pressure,
            r@.len() == i,
            forall|k: int| 0 <= k < i
                ==> #[trigger] r@[k] == projection(humidity, observed_pressure, reference_pressures@[k]),
        decreases reference_pressures@.len() - i,
    {
        r.push(Projected { numerator: vapor, denominator: reference_pressures[i] });
        i = i + 1;
    }
    r
}

/// Projecting onto the observed temperature itself gives back the observed
/// humidity.
pub proof fn projection_onto_observed_temperature(humidity: u64, pressure: u64)
    ensures
        projection(humidity, pressure, pressure).equals(humidity as int),
{
    assert((humidity * pressure) as u128 == humidity * pressure) by (nonlinear_arith)
        requires
            humidity <= u64::MAX,
            pressure <= u64::MAX,
    ;
}

/// The projection is proportional to the observed humidity: doubling it
/// doubles every projected value.
pub proof fn projection_is_proportional(humidity: u64, observed_pressure: u64, reference_pressure: u64)
    requires
        2 * humidity <= u64::MAX,
    ensures
        projection((2 * humidity) as u64, observed_pressure, reference_pressure).numerator
            == 2 * projection(humidity, observed_pressure, reference_pressure).numerator,
        projection((2 * humidity) as u64, observed_pressure, reference_pressure).denominator
            == projection(humidity, observed_pressure, reference_pressure).denominator,
{
    assert(2 * humidity * observed_pressure <= u128::MAX && (2 * humidity) * observed_pressure == 2 * (humidity * observed_pressure)) by (nonlinear_arith)
        requires
            2 * humidity <= u64::MAX,
            observed_pressure <= u64::MAX,
    ;
}

} // verus!
