use vstd::prelude::*;
use itertools::Itertools;
use crate::sample::{Sample, MINUTES_PER_DAY};

verus! {

/// Lengths of the maximal runs of equal consecutive keys, in order.
pub open spec fn run_lengths(keys: Seq<u64>) -> Seq<nat>
    decreases keys.len(),
{
    if keys.len() == 0 {
        Seq::empty()
    } else {
        let prev = run_lengths(keys.drop_last());
        if keys.len() >= 2 && keys[keys.len() - 1] == keys[keys.len() - 2] {
            prev.update(prev.len() - 1, prev.last() + 1)
        } else {
            prev.push(1)
        }
    }
}

pub open spec fn total(s: Seq<nat>) -> nat
    decreases s.len(),
{
    if s.len() == 0 {
        0
    } else {
        total(s.drop_last()) + s.last()
    }
}

/// Index of the first element of run `j`.
pub open spec fn run_start(runs: Seq<nat>, j: int) -> nat {
    total(runs.take(j))
}

pub open spec fn day_keys(s: Seq<Sample>) -> Seq<u64> {
    Seq::new(s.len(), |i: int| (s[i].day()) as u64)
}

/// The samples split into maximal runs of consecutive samples on the same
/// calendar day.
pub open spec fn day_groups(s: Seq<Sample>) -> Seq<Seq<Sample>> {
    let runs = run_lengths(day_keys(s));
    Seq::new(runs.len(), |j: int| s.subrange(run_start(runs, j) as int, (run_start(runs, j) + runs[j]) as int))
}

pub open spec fn temperature_total(s: Seq<Sample>) -> int
    decreases s.len(),
{
    if s.len() == 0 {
        0
    } else {
        temperature_total(s.drop_last()) + s.last().temperature
    }
}

pub open spec fn humidity_total(s: Seq<Sample>) -> int
    decreases s.len(),
{
    if s.len() == 0 {
        0
    } else {
        humidity_total(s.drop_last()) + s.last().humidity
    }
}

/// Relies on itertools' `Itertools::chunk_by`: consecutive elements with
/// equal keys form one group, and the groups come in order.
#[verifier::external_body]
fn runs_of_equal_keys(keys: &Vec<u64>) -> (r: Vec<usize>)
    ensures
        r@.map_values(|n: usize| n as nat) == run_lengths(keys@),
{
    let groups = keys.iter().chunk_by(|k| **k);
    let r: Vec<usize> = groups.into_iter().map(|(_, group)| group.count()).collect();
    r
}

/// The mean values of the samples of one calendar day, kept as exact sums.
#[derive(Clone, Copy, Debug, PartialEq, Eq, Structural)]
pub struct DailyAverage {
    /// Days since 1970-01-01.
    pub day: u64,
    pub sample_count: usize,
    /// Sum of the temperatures, in thousandths of a degree Celsius.
    pub temperature_sum: i128,
    /// Sum of the relative humidities, in thousandths of a percent.
    pub humidity_sum: u128,
}

/// The average of the non-empty samples `g`.
pub open spec fn average_of(g: Seq<Sample>) -> DailyAverage {
    DailyAverage {
        day: g[0].day() as u64,
        sample_count: g.len() as usize,
        temperature_sum: temperature_total(g) as i128,
        humidity_sum: humidity_total(g) as u128,
    }
}

/// The day-by-day series of mean readings.
pub open spec fn daily_means(s: Seq<Sample>) -> Seq<Sample> {
    day_groups(s).map_values(|g: Seq<Sample>| average_of(g).mean_sample())
}

pub const I64_SPAN: i128 = 0x8000_0000_0000_0000;

impl DailyAverage {
    /// At least one sample, and sums that samples of `i64` temperature and
    /// `u64` humidity can reach.
    pub open spec fn wf(self) -> bool {
        &&& self.sample_count >= 1
        &&& -(self.sample_count * I64_SPAN) <= self.temperature_sum <= self.sample_count * (I64_SPAN - 1)
        &&& self.humidity_sum <= self.sample_count * (u64::MAX as int)
        &&& self.day * MINUTES_PER_DAY <= u64::MAX
    }

    /// This average is the one of the (non-empty) samples `g`.
    pub open spec fn summarizes(self, g: Seq<Sample>) -> bool {
        &&& g.len() > 0
        &&& self.day == g[0].day()
        &&& self.sample_count == g.len()
        &&& self.temperature_sum == temperature_total(g)
        &&& self.humidity_sum == humidity_total(g)
    }

    /// The day as one reading: stamped at the day's midnight, with the means
    /// rounded down.
    pub open spec fn mean_sample(self) -> Sample {
        Sample {
            minute: (self.day * MINUTES_PER_DAY) as u64,
            temperature: (self.temperature_sum as int / self.sample_count as int) as i64,
            humidity: (self.humidity_sum as int / self.sample_count as int) as u64,
        }
    }

    /// Mean temperature, rounded down to a thousandth of a degree.
    pub fn mean_temperature(&self) -> (r: i64)
        requires
            self.wf(),
        ensures
            r == self.temperature_sum as int / self.sample_count as int,
    {
        let c = self.sample_count as i128;
        let t = self.temperature_sum;
        proof {
            let q = t as int / c as int;
            vstd::arithmetic::div_mod::lemma_fundamental_div_mod(t as int, c as int);
            assert(q >= -I64_SPAN && q < I64_SPAN) by (nonlinear_arith)
                requires
                    t == c * q + t as int % (c as int),
                    0 <= t as int % (c as int) < c,
                    c >= 1,
                    -(c * I64_SPAN) <= t <= c * (I64_SPAN - 1),
            ;
        }
        if t >= 0 {
            (t / c) as i64
        } else {
            let m = (-t) as u128;
            let cu = c as u128;
            proof {
                assert(m + cu - 1 <= u128::MAX) by (nonlinear_arith)
                    requires
                        m <= c * I64_SPAN,
                        cu == c,
                        c <= usize::MAX,
                ;
            }
            let q = (m + cu - 1) / cu;
            proof {
                let fq = t as int / c as int;
                let x = (m + cu - 1) as int;
                let qq = q as int;
                vstd::arithmetic::div_mod::lemma_fundamental_div_mod(t as int, c as int);
                vstd::arithmetic::div_mod::lemma_fundamental_div_mod(x, c as int);
                assert(qq == -fq) by (nonlinear_arith)
                    requires
                        t == c * fq + t as int % (c as int),
                        0 <= t as int % (c as int) < c,
                        x == c * qq + x % (c as int),
                        0 <= x % (c as int) < c,
                        x == -t + c - 1,
                        c >= 1,
                ;
            }
            (-(q as i128)) as i64
        }
    }

    /// Mean relative humidity, rounded down to a thousandth of a percent.
    pub fn mean_humidity(&self) -> (r: u64)
        requires
            self.wf(),
        ensures
            r == self.humidity_sum as int / self.sample_count as int,
    {
        let c = self.sample_count as u128;
        proof {
            let h = self.humidity_sum as int;
            vstd::arithmetic::div_mod::lemma_fundamental_div_mod(h, c as int);
            assert(h / (c as int) <= u64::MAX) by (nonlinear_arith)
                requires
                    h == c * (h / (c as int)) + h % (c as int),
                    0 <= h % (c as int) < c,
                    h <= c * (u64::MAX as int),
                    c >= 1,
            ;
        }
        (self.humidity_sum / c) as u64
    }

    /// The day as one reading: stamped at the day's midnight, with the mean
    /// temperature and mean humidity.
    pub fn to_sample(&self) -> (r: Sample)
        requires
            self.wf(),
        ensures
            r == self.mean_sample(),
            r.minute == self.day * MINUTES_PER_DAY,
            r.day() == self.day,
            r.temperature == self.temperature_sum as int / self.sample_count as int,
            r.humidity == self.humidity_sum as int / self.sample_count as int,
    {
        let minute = self.day * MINUTES_PER_DAY;
        proof {
            vstd::arithmetic::div_mod::lemma_div_multiples_vanish(self.day as int, MINUTES_PER_DAY as int);
        }
        Sample { minute, temperature: self.mean_temperature(), humidity: self.mean_humidity() }
    }
}

proof fn lemma_run_lengths(keys: Seq<u64>)
    ensures
        run_lengths(keys).len() <= keys.len(),
        keys.len() == 0 <==> run_lengths(keys).len() == 0,
        forall|j: int| 0 <= j < run_lengths(keys).len() ==> run_lengths(keys)[j] >= 1,
        total(run_lengths(keys)) == keys.len(),
    decreases keys.len(),
{
    if keys.len() > 0 {
        let prev = run_lengths(keys.drop_last());
        lemma_run_lengths(keys.drop_last());
        let runs = run_lengths(keys);
        if keys.len() >= 2 && keys[keys.len() - 1] == keys[keys.len() - 2] {
            assert(runs.drop_last() =~= prev.drop_last());
        } else {
            assert(runs.drop_last() =~= prev);
        }
    }
}

proof fn lemma_run_start_step(runs: Seq<nat>, j: int)
    requires
        0 <= j < runs.len(),
    ensures
        run_start(runs, j + 1) == run_start(runs, j) + runs[j],
{
    assert(runs.take(j + 1).drop_last() =~= runs.take(j));
}

proof fn lemma_run_start_bounded(runs: Seq<nat>, j: int)
    requires
        0 <= j <= runs.len(),
    ensures
        run_start(runs, j) <= total(runs),
    decreases runs.len() - j,
{
    if j < runs.len() {
        lemma_run_start_step(runs, j);
        lemma_run_start_bounded(runs, j + 1);
    } else {
        assert(runs.take(j) =~= runs);
    }
}

/// The average of `samples[from..to]`.
fn summarize(samples: &Vec<Sample>, from: usize, to: usize) -> (r: DailyAverage)
    requires
        from < to <= samples@.len(),
    ensures
        r.wf(),
        r.summarizes(samples@.subrange(from as int, to as int)),
{
    let ghost s = samples@;
    let mut temperature_sum: i128 = 0;
    let mut humidity_sum: u128 = 0;
    let mut i: usize = from;
    assert(0 * I64_SPAN == 0 && 0 * (I64_SPAN - 1) == 0 && 0 * (u64::MAX as int) == 0);
    while i < to
        invariant
            from <= i <= to <= s.len(),
            s == samples@,
            temperature_sum == temperature_total(s.subrange(from as int, i as int)),
            humidity_sum == humidity_total(s.subrange(from as int, i as int)),
            -((i - from) * I64_SPAN) <= temperature_sum <= (i - from) * (I64_SPAN - 1),
            humidity_sum <= (i - from) * (u64::MAX as int),
        decreases to - i,
    {
        proof {
            assert(s.subrange(from as int, i + 1).drop_last() =~= s.subrange(from as int, i as int));
            let k = (i - from) as int;
            assert(-((k + 1) * I64_SPAN) == -(k * I64_SPAN) - I64_SPAN) by (nonlinear_arith);
            assert((k + 1) * (I64_SPAN - 1) == k * (I64_SPAN - 1) + (I64_SPAN - 1)) by (nonlinear_arith);
            assert((k + 1) * (u64::MAX as int) == k * (u64::MAX as int) + u64::MAX) by (nonlinear_arith);
            assert(usize::MAX <= u64::MAX);
            assert((k + 1) * I64_SPAN <= (u64::MAX as int) * I64_SPAN) by (nonlinear_arith)
                requires
                    0 <= k < u64::MAX,
            ;
            assert((k + 1) * (I64_SPAN - 1) <= (u64::MAX as int) * (I64_SPAN - 1)) by (nonlinear_arith)
                requires
                    0 <= k < u64::MAX,
            ;
            assert((u64::MAX as int) * I64_SPAN < i128::MAX);
            assert((k + 1) * (u64::MAX as int) <= (u64::MAX as int) * (u64::MAX as int)) by (nonlinear_arith)
                requires
                    0 <= k < u64::MAX,
            ;
        }
        temperature_sum = temperature_sum + samples[i].temperature as i128;
        humidity_sum = humidity_sum + samples[i].humidity as u128;
        i = i + 1;
    }
    let day = samples[from].calendar_day();
    proof {
        vstd::arithmetic::div_mod::lemma_fundamental_div_mod(s[from as int].minute as int, MINUTES_PER_DAY as int);
    }
    DailyAverage { day, sample_count: to - from, temperature_sum, humidity_sum }
}

/// One average per calendar day, in the order the days first appear.
///
/// The samples are split into maximal runs of consecutive samples on the same
/// calendar day (a chronological series keeps each day's samples together),
/// and each run is reduced to the mean of its temperatures and humidities.
pub fn aggregate_by_day(samples: &Vec<Sample>) -> (r: Vec<DailyAverage>)
    ensures
        r@.len() == day_groups(samples@).len(),
        forall|j: int| 0 <= j < r@.len() ==> #[trigger] r@[j].wf() && r@[j].summarizes(day_groups(samples@)[j]),
        forall|j: int| 0 <= j < r@.len() ==> #[trigger] r@[j] == average_of(day_groups(samples@)[j]),
        samples@.len() == 0 <==> r@.len() == 0,
{
    let ghost s = samples@;
    let mut keys: Vec<u64> = Vec::new();
    let mut i: usize = 0;
    while i < samples.len()
        invariant
            i <= s.len(),
            s == samples@,
            keys@ =~= day_keys(s).take(i as int),
        decreases s.len() - i,
    {
        keys.push(samples[i].calendar_day());
        i = i + 1;
    }
    proof {
        assert(keys@ =~= day_keys(s));
    }
    let runs = runs_of_equal_keys(&keys);
    let ghost rl = run_lengths(keys@);
    proof {
        lemma_run_lengths(keys@);
        assert(runs@.len() == rl.len());
        assert forall|k: int| 0 <= k < rl.len() implies runs@[k] == #[trigger] rl[k] by {
            assert(runs@.map_values(|n: usize| n as nat)[k] == rl[k]);
        }
        assert(run_start(rl, 0) == 0) by {
            assert(rl.take(0) =~= Seq::<nat>::empty());
        }
    }
    let len = samples.len();
    let mut r: Vec<DailyAverage> = Vec::new();
    let mut pos: usize = 0;
    let mut j: usize = 0;
    while j < runs.len()
        invariant
            s == samples@,
            rl == run_lengths(day_keys(s)),
            runs@.len() == rl.len(),
            forall|k: int| 0 <= k < rl.len() ==> runs@[k] == #[trigger] rl[k],
            forall|k: int| 0 <= k < rl.len() ==> #[trigger] rl[k] >= 1,
            total(rl) == s.len(),
            len == s.len(),
            j <= runs@.len(),
            pos == run_start(rl, j as int),
            r@.len() == j,
            forall|k: int| 0 <= k < j ==> #[trigger] r@[k].wf() && r@[k].summarizes(day_groups(s)[k]),
            forall|k: int| 0 <= k < j ==> #[trigger] r@[k] == average_of(day_groups(s)[k]),
        decreases runs@.len() - j,
    {
        let n = runs[j];
        proof {
            lemma_run_start_step(rl, j as int);
            lemma_run_start_bounded(rl, j + 1);
            assert(runs@[j as int] == rl[j as int]);
            assert(pos + n <= len);
        }
        let d = summarize(samples, pos, pos + n);
        proof {
            assert(d == average_of(day_groups(s)[j as int]));
        }
        r.push(d);
        pos = pos + n;
        j = j + 1;
    }
    r
}

/// One mean reading per calendar day, in the order the days first appear:
/// each stamped at its day's midnight, with the day's mean temperature and
/// mean humidity rounded down.
pub fn daily_series(samples: &Vec<Sample>) -> (r: Vec<Sample>)
    ensures
        r@ == daily_means(samples@),
{
    let averages = aggregate_by_day(samples);
    let ghost groups = day_groups(samples@);
    let mut r: Vec<Sample> = Vec::new();
    let mut j: usize = 0;
    while j < averages.len()
        invariant
            groups == day_groups(samples@),
            averages@.len() == groups.len(),
            forall|k: int| 0 <= k < averages@.len() ==> #[trigger] averages@[k].wf(),
            forall|k: int| 0 <= k < averages@.len() ==> #[trigger] averages@[k] == average_of(groups[k]),
            j <= averages@.len(),
            r@.len() == j,
            forall|k: int| 0 <= k < j ==> #[trigger] r@[k] == average_of(groups[k]).mean_sample(),
        decreases averages@.len() - j,
    {
        r.push(averages[j].to_sample());
        j = j + 1;
    }
    proof {
        assert(r@ =~= daily_means(samples@));
    }
    r
}

proof fn lemma_two_runs(keys: Seq<u64>, n: int)
    requires
        keys.len() == 48,
        forall|i: int| 0 <= i < 24 ==> #[trigger] keys[i] == keys[0],
        forall|i: int| 24 <= i < 48 ==> #[trigger] keys[i] == keys[0] + 1,
        1 <= n <= 48,
    ensures
        n <= 24 ==> run_lengths(keys.take(n)) == seq![n as nat],
        n > 24 ==> run_lengths(keys.take(n)) == seq![24nat, (n - 24) as nat],
    decreases n,
{
    let t = keys.take(n);
    if n == 1 {
        assert(t.drop_last() =~= Seq::<u64>::empty());
        assert(run_lengths(t.drop_last()) =~= Seq::<nat>::empty());
        assert(run_lengths(t) =~= Seq::<nat>::empty().push(1));
        assert(run_lengths(t) =~= seq![1nat]);
    } else {
        lemma_two_runs(keys, n - 1);
        assert(t.drop_last() =~= keys.take(n - 1));
        assert(t[n - 1] == keys[n - 1] && t[n - 2] == keys[n - 2]);
        if n <= 24 {
            assert(run_lengths(t) =~= seq![n as nat]);
        } else if n == 25 {
            assert(run_lengths(t) =~= seq![24nat, 1nat]);
        } else {
            assert(run_lengths(t) =~= seq![24nat, (n - 24) as nat]);
        }
    }
}

/// Forty-eight hourly samples that start at a midnight span exactly two
/// calendar days, and split into two groups of 24: the first 24 samples on
/// the first day and the last 24 on the next one.
pub proof fn hourly_samples_over_two_days(s: Seq<Sample>)
    requires
        s.len() == 48,
        s[0].minute % MINUTES_PER_DAY == 0,
        forall|i: int| 0 <= i < 48 ==> #[trigger] s[i].minute == s[0].minute + 60 * i,
    ensures
        day_groups(s).len() == 2,
        day_groups(s)[0] == s.subrange(0, 24),
        day_groups(s)[1] == s.subrange(24, 48),
        day_groups(s)[1][0].day() == day_groups(s)[0][0].day() + 1,
{
    let keys = day_keys(s);
    let q = s[0].minute as int / MINUTES_PER_DAY as int;
    vstd::arithmetic::div_mod::lemma_fundamental_div_mod(s[0].minute as int, MINUTES_PER_DAY as int);
    assert forall|i: int| 0 <= i < 48 implies #[trigger] keys[i] == if i < 24 { q } else { q + 1 } by {
        assert(s[i].minute == s[0].minute + 60 * i);
        if i < 24 {
            vstd::arithmetic::div_mod::lemma_fundamental_div_mod_converse(
                s[i].minute as int, MINUTES_PER_DAY as int, q, 60 * i);
        } else {
            vstd::arithmetic::div_mod::lemma_fundamental_div_mod_converse(
                s[i].minute as int, MINUTES_PER_DAY as int, q + 1, 60 * i - 1440);
        }
    }
    assert(keys.take(48) =~= keys);
    lemma_two_runs(keys, 48);
    let rl = run_lengths(keys);
    assert(rl =~= seq![24nat, 24nat]);
    assert(rl.take(0) =~= Seq::<nat>::empty());
    assert(rl.take(1).drop_last() =~= Seq::<nat>::empty());
    assert(run_start(rl, 0) == 0);
    assert(run_start(rl, 1) == 24);
}

} // verus!
