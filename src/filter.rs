use vstd::prelude::*;

verus! {

/// The largest offset magnitude, in nanoseconds, that the filter takes.
pub const OFFSET_LIMIT: i128 = 0x10000000000000000000000000;

/// How the filter smooths offsets.
#[derive(Debug, Clone, Copy, PartialEq, Eq, Structural)]
pub struct FilterConfig {
    /// Samples to observe before the first correction.
    pub min_samples: u32,
    /// Each sample moves the estimate by the gap to it divided by this number.
    pub gain_divisor: u64,
}

/// Exponential smoothing of measured offsets.
#[derive(Debug, Clone, Copy, PartialEq, Eq, Structural)]
pub struct Filter {
    pub config: FilterConfig,
    /// Samples observed so far, saturating.
    pub samples: u32,
    /// Smoothed offset in nanoseconds; meaningful once a sample was observed.
    pub estimate: i128,
}

/// `d / k` rounded toward zero.
pub open spec fn trunc_div(d: int, k: int) -> int {
    if d >= 0 {
        d / k
    } else {
        -((-d) / k)
    }
}

/// Divides rounding toward zero.
pub fn div_toward_zero(d: i128, k: u64) -> (r: i128)
    requires
        k >= 1,
        -OFFSET_LIMIT * 4 <= d <= OFFSET_LIMIT * 4,
    ensures
        r == trunc_div(d as int, k as int),
        d >= 0 ==> 0 <= r <= d,
        d < 0 ==> d <= r <= 0,
{
    if d >= 0 {
        let q = (d as u128) / (k as u128);
        assert(q <= d) by (nonlinear_arith)
            requires
                q == (d as int) / (k as int),
                d >= 0,
                k >= 1,
        ;
        q as i128
    } else {
        let q = ((-d) as u128) / (k as u128);
        assert(q <= -d) by (nonlinear_arith)
            requires
                q == (-d as int) / (k as int),
                -d >= 0,
                k >= 1,
        ;
        -(q as i128)
    }
}

/// Whether a filter's values are in range.
pub open spec fn filter_wf(f: Filter) -> bool {
    f.config.gain_divisor >= 1 && -OFFSET_LIMIT <= f.estimate <= OFFSET_LIMIT
}

/// The estimate after the filter takes `x`: the first sample is taken as it
/// is, each later one moves the estimate toward itself by a fraction of the gap.
pub open spec fn next_estimate(f: Filter, x: i128) -> int {
    if f.samples == 0 {
        x as int
    } else {
        f.estimate + trunc_div(x - f.estimate, f.config.gain_divisor as int)
    }
}

/// The filter after it takes `x`.
pub open spec fn updated(f: Filter, x: i128) -> Filter {
    Filter { samples: next_count(f), estimate: next_estimate(f, x) as i128, ..f }
}

/// The sample count after one more sample.
pub open spec fn next_count(f: Filter) -> u32 {
    if f.samples == u32::MAX {
        u32::MAX
    } else {
        (f.samples + 1) as u32
    }
}

impl Filter {
    /// A filter that has observed nothing.
    pub fn new(config: FilterConfig) -> (r: Filter)
        requires
            config.gain_divisor >= 1,
        ensures
            filter_wf(r),
            r.config == config,
            r.samples == 0,
            r.estimate == 0,
    {
        Filter { config, samples: 0, estimate: 0 }
    }

    /// Takes one offset sample and returns the smoothed offset, or `None`
    /// while fewer than the configured minimum of samples has been observed.
    pub fn update(&mut self, x: i128) -> (r: Option<i128>)
        requires
            filter_wf(*old(self)),
            -OFFSET_LIMIT <= x <= OFFSET_LIMIT,
        ensures
            filter_wf(*final(self)),
            *final(self) == updated(*old(self), x),
            final(self).estimate == next_estimate(*old(self), x),
            r == output_of(*final(self)),
            old(self).samples > 0 ==> {
                ||| old(self).estimate <= final(self).estimate <= x
                ||| x <= final(self).estimate <= old(self).estimate
            },
    {
        if self.samples == 0 {
            self.estimate = x;
        } else {
            let step = div_toward_zero(x - self.estimate, self.config.gain_divisor);
            self.estimate = self.estimate + step;
        }
        if self.samples < u32::MAX {
            self.samples = self.samples + 1;
        }
        if self.samples >= self.config.min_samples {
            Some(self.estimate)
        } else {
            None
        }
    }
}

/// The most a frequency correction may be, and when to step instead.
#[derive(Debug, Clone, Copy, PartialEq, Eq, Structural)]
pub struct SteeringConfig {
    /// Offsets of at least this many nanoseconds are corrected by a step.
    pub step_threshold: u64,
    /// Nanoseconds of offset per part per billion of frequency correction.
    pub frequency_divisor: u64,
    /// The largest frequency correction, in parts per billion.
    pub max_frequency_ppb: u64,
}

/// A correction of the local clock.
#[derive(Debug, Clone, Copy, PartialEq, Eq, Structural)]
pub enum ClockAdjustment {
    /// Move the clock by this many nanoseconds.
    Step { offset: i128 },
    /// Run the clock faster (positive) or slower (negative) by this many
    /// parts per billion.
    Frequency { ppb: i64 },
}

/// `v` limited to `[-m, m]`.
pub open spec fn clamp(v: int, m: int) -> int {
    if v > m {
        m
    } else if v < -m {
        -m
    } else {
        v
    }
}

/// The correction for a smoothed offset `e` (local clock minus reference):
/// a step by `-e` when `|e|` reaches the threshold, else a frequency change
/// against the offset, limited in size.
pub open spec fn adjustment_for(c: SteeringConfig, e: int) -> ClockAdjustment {
    if e >= c.step_threshold || -e >= c.step_threshold {
        ClockAdjustment::Step { offset: (-e) as i128 }
    } else {
        ClockAdjustment::Frequency {
            ppb: clamp(-trunc_div(e, c.frequency_divisor as int), c.max_frequency_ppb as int) as i64,
        }
    }
}

/// Whether the steering configuration is usable.
pub open spec fn steering_wf(c: SteeringConfig) -> bool {
    c.frequency_divisor >= 1 && c.max_frequency_ppb <= i64::MAX as u64
}

/// Chooses how to correct the clock for a smoothed offset.
pub fn steer(c: &SteeringConfig, e: i128) -> (r: ClockAdjustment)
    requires
        steering_wf(*c),
        -OFFSET_LIMIT <= e <= OFFSET_LIMIT,
    ensures
        r == adjustment_for(*c, e as int),
        e > 0 ==> match r {
            ClockAdjustment::Step { offset } => offset < 0,
            ClockAdjustment::Frequency { ppb } => ppb <= 0,
        },
        e < 0 ==> match r {
            ClockAdjustment::Step { offset } => offset > 0,
            ClockAdjustment::Frequency { ppb } => ppb >= 0,
        },
{
    if e >= c.step_threshold as i128 || -e >= c.step_threshold as i128 {
        ClockAdjustment::Step { offset: -e }
    } else {
        let q = div_toward_zero(e, c.frequency_divisor);
        let m = c.max_frequency_ppb as i128;
        let v = -q;
        let ppb = if v > m {
            m
        } else if v < -m {
            -m
        } else {
            v
        };
        ClockAdjustment::Frequency { ppb: ppb as i64 }
    }
}

/// What the filter returns in the state `f`, just after a sample.
pub open spec fn output_of(f: Filter) -> Option<i128> {
    if f.samples >= f.config.min_samples {
        Some(f.estimate)
    } else {
        None
    }
}

/// The filter after it takes the samples `xs` in order.
pub open spec fn filter_run(f: Filter, xs: Seq<i128>) -> Filter
    decreases xs.len(),
{
    if xs.len() == 0 {
        f
    } else {
        updated(filter_run(f, xs.drop_last()), xs.last())
    }
}

/// A filter that has observed nothing.
pub open spec fn fresh(c: FilterConfig) -> Filter {
    Filter { config: c, samples: 0, estimate: 0 }
}

/// A fresh filter counts every sample, so it returns no correction for any
/// of the first samples below the configured minimum.
pub proof fn lemma_cold_start(c: FilterConfig, xs: Seq<i128>)
    requires
        xs.len() < u32::MAX,
    ensures
        filter_run(fresh(c), xs).samples == xs.len(),
        filter_run(fresh(c), xs).config == c,
        xs.len() < c.min_samples ==> output_of(filter_run(fresh(c), xs)) is None,
    decreases xs.len(),
{
    if xs.len() > 0 {
        lemma_cold_start(c, xs.drop_last());
    }
}

/// How far `v` lies outside `[lo, hi]`.
pub open spec fn distance_to_band(v: int, lo: int, hi: int) -> int {
    if v > hi {
        v - hi
    } else if v < lo {
        lo - v
    } else {
        0
    }
}

/// Fed samples that stay within a band around a steady offset (the offset
/// plus bounded noise), a warm filter never moves away from the band, and
/// gets at least one nanosecond closer with every sample until it is within
/// the gain divisor of it: after `n` samples its distance to the band is at
/// most the larger of the first distance less `n` and the divisor less one.
pub proof fn lemma_converges_within_band(f: Filter, xs: Seq<i128>, lo: int, hi: int)
    requires
        filter_wf(f),
        f.samples > 0,
        -OFFSET_LIMIT <= lo <= hi <= OFFSET_LIMIT,
        forall|i: int| 0 <= i < xs.len() ==> lo <= #[trigger] xs[i] <= hi,
    ensures
        filter_wf(filter_run(f, xs)),
        filter_run(f, xs).samples > 0,
        filter_run(f, xs).config == f.config,
        distance_to_band(filter_run(f, xs).estimate as int, lo, hi) <= distance_to_band(f.estimate as int, lo, hi),
        distance_to_band(filter_run(f, xs).estimate as int, lo, hi) <= distance_to_band(f.estimate as int, lo, hi)
            - xs.len() || distance_to_band(filter_run(f, xs).estimate as int, lo, hi) < f.config.gain_divisor,
    decreases xs.len(),
{
    if xs.len() > 0 {
        let ys = xs.drop_last();
        assert forall|i: int| 0 <= i < ys.len() implies lo <= #[trigger] ys[i] <= hi by {
            assert(ys[i] == xs[i]);
        }
        lemma_converges_within_band(f, ys, lo, hi);
        let g = filter_run(f, ys);
        let x = xs.last();
        assert(lo <= x <= hi) by {
            assert(x == xs[xs.len() - 1]);
        }
        let k = g.config.gain_divisor as int;
        let d = x - g.estimate;
        let q = trunc_div(d, k);
        if d >= 0 {
            assert(0 <= q <= d) by (nonlinear_arith)
                requires
                    q == d / k,
                    d >= 0,
                    k >= 1,
            ;
            if d >= k {
                assert(q >= 1) by (nonlinear_arith)
                    requires
                        q == d / k,
                        d >= k,
                        k >= 1,
                ;
            }
        } else {
            assert(0 <= -q <= -d) by (nonlinear_arith)
                requires
                    -q == (-d) / k,
                    -d >= 0,
                    k >= 1,
            ;
            if -d >= k {
                assert(-q >= 1) by (nonlinear_arith)
                    requires
                        -q == (-d) / k,
                        -d >= k,
                        k >= 1,
                ;
            }
        }
    }
}

} // verus!
