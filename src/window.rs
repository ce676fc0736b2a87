use vstd::prelude::*;
use crate::sample::Sample;

verus! {

/// `t` rounded down to the start of its `bucket`-minute interval.
pub open spec fn bucket_start(t: u64, bucket: u64) -> int
    recommends
        bucket > 0,
{
    t as int - (t as int % bucket as int)
}

/// Index of the first sample at or after `i` whose minute is not before
/// `start`; the samples before it are the ones a skip-while discards.
pub open spec fn first_not_before(s: Seq<Sample>, start: int, i: int) -> int
    decreases s.len() - i,
{
    if i < 0 || i >= s.len() || s[i].minute >= start {
        if i < 0 { 0 } else { i }
    } else {
        first_not_before(s, start, i + 1)
    }
}

/// How many indices `i, i + step, i + 2 * step, ...` below `len` a take of
/// `count` elements yields.
pub open spec fn strided_count(len: int, i: int, step: int, count: nat) -> nat
    decreases count,
{
    if count == 0 || i >= len {
        0
    } else {
        1 + strided_count(len, i + step, step, (count - 1) as nat)
    }
}

/// The displayed sub-series: skip the samples before the bucket that holds
/// `now`, then every `step`-th of the rest, at most `count` of them.
pub open spec fn windowed(s: Seq<Sample>, bucket: u64, step: usize, count: usize, now: u64) -> Seq<Sample>
    recommends
        bucket > 0,
        step >= 1,
{
    let b = first_not_before(s, bucket_start(now, bucket), 0);
    Seq::new(strided_count(s.len() as int, b, step as int, count as nat), |k: int| s[b + k * step])
}

/// Samples in strictly increasing order of time.
pub open spec fn strictly_ascending(s: Seq<Sample>) -> bool {
    forall|i: int, j: int| 0 <= i < j < s.len() ==> s[i].minute < s[j].minute
}

/// Samples spaced by exactly `interval` minutes.
pub open spec fn evenly_spaced(s: Seq<Sample>, interval: int) -> bool {
    forall|i: int| 0 <= i < s.len() - 1 ==> #[trigger] s[i + 1].minute == s[i].minute + interval
}

/// `t` rounded down to the start of its `bucket`-minute interval.
pub fn floor_to_bucket(t: u64, bucket: u64) -> (r: u64)
    requires
        bucket > 0,
    ensures
        r == bucket_start(t, bucket),
        r <= t,
        t - r < bucket,
        r % bucket == 0,
{
    proof {
        let q = t as int / bucket as int;
        vstd::arithmetic::div_mod::lemma_fundamental_div_mod(t as int, bucket as int);
        vstd::arithmetic::div_mod::lemma_mod_multiples_basic(q, bucket as int);
        assert(bucket * q >= 0) by (nonlinear_arith)
            requires
                bucket > 0,
                q >= 0,
        ;
        assert(q * bucket == bucket * q) by (nonlinear_arith);
    }
    t - t % bucket
}

proof fn lemma_strided_count_bound(len: int, i: int, step: int, count: nat)
    requires
        step >= 1,
    ensures
        strided_count(len, i, step, count) <= count,
        strided_count(len, i, step, count) > 0 ==> i + (strided_count(len, i, step, count) - 1) * step < len,
        0 <= i ==> strided_count(len, i, step, count) <= if len > i { len - i } else { 0 },
    decreases count,
{
    if count > 0 && i < len {
        let n = strided_count(len, i + step, step, (count - 1) as nat);
        lemma_strided_count_bound(len, i + step, step, (count - 1) as nat);
        if n > 0 {
            assert(i + step + (n - 1) * step == i + n * step) by (nonlinear_arith);
        } else {
            assert(0 * step == 0);
        }
    }
}

/// The samples to display from a chronological series.
///
/// Truncates `now` to the start of its `bucket`-minute interval, discards the
/// samples before that instant (a skip-while: the series is expected in
/// ascending order), keeps every `step`-th of the remaining ones starting with
/// the first, and returns at most `count` of them.
pub fn window(samples: &Vec<Sample>, bucket: u64, step: usize, count: usize, now: u64) -> (r: Vec<Sample>)
    requires
        bucket > 0,
        step >= 1,
    ensures
        r@ == windowed(samples@, bucket, step, count, now),
        r@.len() <= count,
        count == 0 ==> r@.len() == 0,
{
    let s = samples;
    let start = floor_to_bucket(now, bucket);
    let len = s.len();
    let mut b: usize = 0;
    while b < len && s[b].minute < start
        invariant
            b <= len,
            len == s@.len(),
            first_not_before(s@, start as int, 0) == first_not_before(s@, start as int, b as int),
        decreases len - b,
    {
        b = b + 1;
    }
    let ghost total = strided_count(len as int, b as int, step as int, count as nat);
    let ghost next: int = b as int;
    let mut i: usize = b;
    let mut r: Vec<Sample> = Vec::new();
    proof {
        lemma_strided_count_bound(len as int, b as int, step as int, count as nat);
        assert(0 * step == 0);
    }
    while r.len() < count && i < len
        invariant
            len == s@.len(),
            b <= len,
            total == strided_count(len as int, b as int, step as int, count as nat),
            r@.len() <= count,
            next == b + r@.len() * step,
            i as int == if next >= len { len as int } else { next },
            total == r@.len() + strided_count(len as int, next, step as int, (count - r@.len()) as nat),
            forall|k: int| 0 <= k < r@.len() ==> r@[k] == s@[b + k * step],
        decreases count - r@.len(),
    {
        proof {
            assert(next + step == b + (r@.len() + 1) * step) by (nonlinear_arith)
                requires next == b + r@.len() * step;
        }
        r.push(s[i]);
        proof {
            next = next + step;
        }
        if len - i > step {
            i = i + step;
        } else {
            i = len;
        }
    }
    proof {
        assert(strided_count(len as int, next, step as int, (count - r@.len()) as nat) == 0);
        assert(r@ =~= windowed(s@, bucket, step, count, now));
    }
    r
}

proof fn lemma_first_not_before(s: Seq<Sample>, start: int, i: int)
    requires
        0 <= i <= s.len(),
    ensures
        i <= first_not_before(s, start, i) <= s.len(),
        forall|j: int| i <= j < first_not_before(s, start, i) ==> s[j].minute < start,
        first_not_before(s, start, i) < s.len() ==> s[first_not_before(s, start, i)].minute >= start,
    decreases s.len() - i,
{
    if i < s.len() && s[i].minute < start {
        lemma_first_not_before(s, start, i + 1);
    }
}

proof fn lemma_evenly_spaced_from_first(s: Seq<Sample>, interval: int, i: int)
    requires
        evenly_spaced(s, interval),
        0 <= i < s.len(),
    ensures
        s[i].minute == s[0].minute + i * interval,
    decreases i,
{
    if i > 0 {
        lemma_evenly_spaced_from_first(s, interval, i - 1);
        assert(s[(i - 1) + 1].minute == s[i - 1].minute + interval);
        assert((i - 1) * interval + interval == i * interval) by (nonlinear_arith);
    } else {
        assert(0 * interval == 0);
    }
}

/// On a strictly ascending series the window holds at most `count` samples,
/// none of them before the start of the bucket that holds `now`, in strictly
/// increasing order of time; and where the series is evenly spaced, the
/// window is evenly spaced by `step` times that interval.
pub proof fn window_is_bounded_current_and_ordered(
    s: Seq<Sample>,
    bucket: u64,
    step: usize,
    count: usize,
    now: u64,
    interval: int,
)
    requires
        bucket > 0,
        step >= 1,
        strictly_ascending(s),
    ensures
        windowed(s, bucket, step, count, now).len() <= count,
        forall|k: int| 0 <= k < windowed(s, bucket, step, count, now).len()
            ==> #[trigger] windowed(s, bucket, step, count, now)[k].minute >= bucket_start(now, bucket),
        strictly_ascending(windowed(s, bucket, step, count, now)),
        evenly_spaced(s, interval) ==> evenly_spaced(windowed(s, bucket, step, count, now), step * interval),
{
    let start = bucket_start(now, bucket);
    let b = first_not_before(s, start, 0);
    let n = strided_count(s.len() as int, b, step as int, count as nat);
    let w = windowed(s, bucket, step, count, now);
    lemma_first_not_before(s, start, 0);
    lemma_strided_count_bound(s.len() as int, b, step as int, count as nat);
    assert forall|k: int| 0 <= k < n implies b <= #[trigger] (b + k * step) < s.len() by {
        assert(0 <= k * step <= (n - 1) * step) by (nonlinear_arith)
            requires
                0 <= k < n,
                step >= 1,
        ;
    }
    assert forall|k: int| 0 <= k < w.len() implies #[trigger] w[k].minute >= start by {
        assert(b <= b + k * step < s.len());
        if b + k * step > b {
            assert(s[b].minute < s[b + k * step].minute);
        }
    }
    assert forall|k1: int, k2: int| 0 <= k1 < k2 < w.len() implies w[k1].minute < w[k2].minute by {
        assert(b + k1 * step < b + k2 * step) by (nonlinear_arith)
            requires
                k1 < k2,
                step >= 1,
        ;
        assert(b + k2 * step < s.len());
    }
    if evenly_spaced(s, interval) {
        assert forall|k: int| 0 <= k < w.len() - 1 implies #[trigger] w[k + 1].minute == w[k].minute + step * interval by {
            let i1 = b + k * step;
            let i2 = b + (k + 1) * step;
            assert(b <= i2 < s.len());
            lemma_evenly_spaced_from_first(s, interval, i1);
            lemma_evenly_spaced_from_first(s, interval, i2);
            assert(i2 * interval == i1 * interval + step * interval) by (nonlinear_arith)
                requires
                    i1 == b + k * step,
                    i2 == b + (k + 1) * step,
            ;
        }
    }
}

} // verus!
