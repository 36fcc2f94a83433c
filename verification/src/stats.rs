use vstd::prelude::*;

use crate::math::{isqrt_rounded, rounded_sqrt};

verus! {

/// Online distribution of round-trip latencies for one peer.
///
/// Durations are whole nanoseconds. `sum` and `sosd` are 128-bit
/// accumulators so that the running sum of up to `u32::MAX` samples can
/// never overflow; `sosd` (the sum of squared deviations from the running
/// mean) saturates at `u128::MAX` in the astronomically remote corner where
/// even 128 bits run out.
#[derive(Clone, Copy, Debug)]
pub struct ResponseStats {
    pub samples: u32,
    pub sum: u128,
    pub min: Option<u64>,
    pub max: Option<u64>,
    pub mean: Option<u64>,
    pub sosd: u128,
    pub std_dev: Option<u64>,
}

/// The all-unset record a peer starts with, before any sample arrived.
pub open spec fn fresh_stats() -> ResponseStats {
    ResponseStats {
        samples: 0,
        sum: 0,
        min: None,
        max: None,
        mean: None,
        sosd: 0,
        std_dev: None,
    }
}

impl ResponseStats {
    /// Internal consistency of a record: the optional fields are set exactly
    /// once a sample arrived, and the running sum stays bracketed by
    /// `samples * min` and `samples * max`, which keeps the mean inside
    /// `[min, max]` and the sum far away from 128-bit overflow.
    pub open spec fn wf(self) -> bool {
        &&& (self.min is Some <==> self.samples > 0)
        &&& (self.max is Some <==> self.samples > 0)
        &&& (self.mean is Some <==> self.samples > 0)
        &&& (self.std_dev is Some <==> self.samples > 0)
        &&& (self.samples == 0 ==> self.sum == 0 && self.sosd == 0)
        &&& (self.samples > 0 ==> {
            &&& self.min->0 <= self.max->0
            &&& self.samples * self.min->0 <= self.sum
            &&& self.sum <= self.samples * self.max->0
            &&& self.mean == Some((self.sum as int / self.samples as int) as u64)
        })
    }
}

/// One step of the online update: count, sum, extrema, the mean recomputed
/// from the new sum, and the squared absolute deviation of the sample from
/// that updated mean accumulated into `sosd`. The standard deviation is the
/// rounded square root of `sosd / samples`.
pub open spec fn spec_update(s: ResponseStats, res: u64) -> ResponseStats {
    let n = (s.samples + 1) as u32;
    let mn = match s.min {
        None => res,
        Some(m) => if res < m { res } else { m },
    };
    let mx = match s.max {
        None => res,
        Some(m) => if res > m { res } else { m },
    };
    let sum2 = (s.sum + res) as u128;
    let mean2 = (sum2 as int / n as int) as u64;
    let diff = if res > mean2 { res - mean2 } else { mean2 - res };
    let sosd2 = if s.sosd + diff * diff <= u128::MAX {
        (s.sosd + diff * diff) as u128
    } else {
        u128::MAX
    };
    let variance = (sosd2 as int / n as int) as u128;
    let sd = if rounded_sqrt(variance as nat) > u64::MAX {
        u64::MAX
    } else {
        rounded_sqrt(variance as nat) as u64
    };
    ResponseStats {
        samples: n,
        sum: sum2,
        min: Some(mn),
        max: Some(mx),
        mean: Some(mean2),
        sosd: sosd2,
        std_dev: Some(sd),
    }
}

/// The record reached by feeding `samples` in order into a fresh engine.
pub open spec fn stats_after(samples: Seq<u64>) -> ResponseStats
    decreases samples.len(),
{
    if samples.len() == 0 {
        fresh_stats()
    } else {
        spec_update(stats_after(samples.drop_last()), samples.last())
    }
}

/// A single update keeps a record well formed, extends the extrema by the
/// new sample, and leaves the recomputed mean between them.
pub proof fn lemma_update_wf(s: ResponseStats, res: u64)
    requires
        s.wf(),
        s.samples < u32::MAX,
    ensures
        ({
            let u = spec_update(s, res);
            &&& u.wf()
            &&& u.samples == s.samples + 1
            &&& u.min->0 == if s.samples == 0 || res < s.min->0 { res as int } else { s.min->0 as int }
            &&& u.max->0 == if s.samples == 0 || res > s.max->0 { res as int } else { s.max->0 as int }
            &&& u.min->0 <= u.mean->0 <= u.max->0
            &&& u.sum == s.sum + res
        }),
{
    let u = spec_update(s, res);
    let n = s.samples + 1;
    let mn = u.min->0;
    let mx = u.max->0;
    let sum2 = s.sum + res;

    assert(s.sum + res < u128::MAX) by (nonlinear_arith)
        requires
            s.samples == 0 ==> s.sum == 0,
            s.samples > 0 ==> s.sum <= s.samples * s.max->0,
            s.samples < u32::MAX,
            s.samples > 0 ==> s.max->0 <= u64::MAX,
            res <= u64::MAX,
    ;
    assert(u.sum == sum2);

    assert(n * mn <= sum2 && sum2 <= n * mx) by (nonlinear_arith)
        requires
            s.samples == 0 ==> s.sum == 0,
            s.samples > 0 ==> s.samples * s.min->0 <= s.sum <= s.samples * s.max->0,
            n == s.samples + 1,
            sum2 == s.sum + res,
            s.samples > 0 ==> mn <= s.min->0 && s.max->0 <= mx,
            mn <= res <= mx,
            mn == (if s.samples == 0 || res < s.min->0 { res as int } else { s.min->0 as int }),
            mx == (if s.samples == 0 || res > s.max->0 { res as int } else { s.max->0 as int }),
    ;

    let q = sum2 / (n as int);
    assert(mn <= q <= mx && q <= u64::MAX) by (nonlinear_arith)
        requires
            n * mn <= sum2 <= n * mx,
            n >= 1,
            0 <= mn <= mx <= u64::MAX,
            q == sum2 / (n as int),
    ;
    assert(u.mean->0 == q);
    assert(n * u.min->0 <= u.sum <= n * u.max->0);
}

/// THE ONLINE-STATISTICS LAW. After any sequence of updates on a fresh
/// engine, the sample count equals the number of samples fed, `min` and
/// `max` are the extrema of the samples, both were actually observed, and
/// the mean lies within `[min, max]`.
pub proof fn lemma_stats_of_samples(samples: Seq<u64>)
    requires
        samples.len() <= u32::MAX,
    ensures
        stats_after(samples).wf(),
        stats_after(samples).samples == samples.len(),
        samples.len() > 0 ==> ({
            let s = stats_after(samples);
            &&& s.min is Some && s.max is Some && s.mean is Some
            &&& forall|i: int|
                0 <= i < samples.len() ==> s.min->0 <= #[trigger] samples[i] <= s.max->0
            &&& samples.contains(s.min->0)
            &&& samples.contains(s.max->0)
            &&& s.min->0 <= s.mean->0 <= s.max->0
        }),
    decreases samples.len(),
{
    if samples.len() == 0 {
    } else {
        let prefix = samples.drop_last();
        let res = samples.last();
        lemma_stats_of_samples(prefix);
        lemma_update_wf(stats_after(prefix), res);
        let s = stats_after(samples);
        let p = stats_after(prefix);
        if prefix.len() > 0 {
            if s.min->0 == p.min->0 {
                let i = choose|i: int| 0 <= i < prefix.len() && prefix[i] == p.min->0;
                assert(samples[i] == s.min->0);
            }
            if s.max->0 == p.max->0 {
                let i = choose|i: int| 0 <= i < prefix.len() && prefix[i] == p.max->0;
                assert(samples[i] == s.max->0);
            }
        }
        assert(samples[samples.len() - 1] == res);
        assert forall|i: int|
            0 <= i < samples.len() implies s.min->0 <= #[trigger] samples[i] <= s.max->0 by {
            if i < prefix.len() {
                assert(samples[i] == prefix[i]);
                assert(p.min->0 <= prefix[i] <= p.max->0);
            } else {
                assert(samples[i] == res);
            }
        }
        assert(samples.contains(s.min->0));
        assert(samples.contains(s.max->0));
        assert(s.min->0 <= s.mean->0 <= s.max->0);
    }
}

/// A single sample `d` makes it the minimum, the maximum and the mean, with
/// a standard deviation of zero.
pub proof fn lemma_single_sample(res: u64)
    ensures
        ({
            let s = spec_update(fresh_stats(), res);
            &&& s.samples == 1
            &&& s.min == Some(res)
            &&& s.max == Some(res)
            &&& s.mean == Some(res)
            &&& s.std_dev == Some(0u64)
        }),
{
    let s = spec_update(fresh_stats(), res);
    assert(res as int / 1int == res as int);
    assert(s.mean == Some(res));
    assert(s.sosd == 0);
    assert(0int / 1int == 0);
    crate::math::lemma_floor_sqrt_bounds(0);
    assert(crate::math::floor_sqrt(0) == 0);
    assert(rounded_sqrt(0) == 0) by {
        assert(0nat * (0nat + 1) == 0) by (nonlinear_arith);
    }
}

impl ResponseStats {
    /// Feed one latency sample into the running distribution: extrema by
    /// direct comparison, count and sum, mean recomputed from the new sum,
    /// and the squared absolute deviation from the updated mean accumulated
    /// before the standard deviation is re-derived.
    pub fn update(&mut self, res: u64)
        requires
            old(self).wf(),
            old(self).samples < u32::MAX,
        ensures
            *final(self) == spec_update(*old(self), res),
            final(self).wf(),
    {
        proof {
            lemma_update_wf(*old(self), res);
        }
        let mn = match self.min {
            None => res,
            Some(m) => if res < m { res } else { m },
        };
        self.min = Some(mn);
        let mx = match self.max {
            None => res,
            Some(m) => if res > m { res } else { m },
        };
        self.max = Some(mx);

        proof {
            let s0 = *old(self);
            assert(s0.sum + res < u128::MAX) by (nonlinear_arith)
                requires
                    s0.samples == 0 ==> s0.sum == 0,
                    s0.samples > 0 ==> s0.sum <= s0.samples * s0.max->0,
                    s0.samples < u32::MAX,
                    s0.samples > 0 ==> s0.max->0 <= u64::MAX,
            ;
        }
        self.sum = self.sum + res as u128;
        self.samples = self.samples + 1;

        let mean = (self.sum / self.samples as u128) as u64;
        self.mean = Some(mean);

        let diff = if res > mean { res - mean } else { mean - res };
        proof {
            assert(diff * diff <= u128::MAX) by (nonlinear_arith)
                requires
                    0 <= diff <= u64::MAX,
            ;
        }
        self.sosd = self.sosd.saturating_add((diff as u128) * (diff as u128));

        let variance = self.sosd / self.samples as u128;
        self.std_dev = Some(isqrt_rounded(variance));
    }
}

impl Default for ResponseStats {
    /// The default record is the fresh, all-unset one.
    fn default() -> (s: ResponseStats)
        ensures
            s == fresh_stats(),
            s.wf(),
    {
        ResponseStats {
            samples: 0,
            sum: 0,
            min: None,
            max: None,
            mean: None,
            sosd: 0,
            std_dev: None,
        }
    }
}

} // verus!
