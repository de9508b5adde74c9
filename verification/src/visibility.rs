//! Fringe-visibility sampling: the scalar metric derived from one captured
//! waveform, and the polling step that waits for the digitizer to complete a
//! new acquisition.
//!
//! The metric of a waveform is `(max - min) / (max + min)` over all samples,
//! held here in parts per million. Only a waveform whose `max + min` is
//! exactly zero leaves the metric undefined; that is reported as a failure,
//! never as a silent infinity. A negative `max + min` gives the formula's
//! negative value, as a contrast figure of no physical use but still a
//! number the control loop can compare.

use vstd::prelude::*;

verus! {

/// Wire protocol over which the digitizer is reached.
#[derive(Clone, Copy, Debug, PartialEq, Eq, Structural)]
pub enum WireType {
    /// USBTMC (YTUSB).
    UsbTmc,
    /// VISAUSB.
    VisaUsb,
    /// VXI-11.
    Vxi11,
    /// HiSLIP.
    HiSlip,
}

/// Identifies one input of the waveform digitizer: a channel together with a
/// sub-channel.
#[derive(Clone, Copy, Debug, PartialEq, Eq, Structural)]
pub struct ChannelNumber {
    pub channel: u8,
    pub sub_channel: u8,
}

impl ChannelNumber {
    pub fn new(channel: u8, sub_channel: u8) -> (r: Self)
        ensures
            r == (ChannelNumber { channel, sub_channel }),
    {
        Self { channel, sub_channel }
    }
}

/// The scale of the visibility metric: one million means a metric of 1.
pub const VIS_SCALE: i64 = 1_000_000;

/// Upper bound of every metric value this module produces: the largest
/// possible `max - min` of 32-bit samples times the scale.
pub const VIS_LIMIT: i64 = 4_294_967_295_000_000;

/// Largest sample value of `s`.
pub open spec fn seq_max(s: Seq<i32>) -> int
    recommends
        s.len() > 0,
    decreases s.len(),
{
    if s.len() <= 1 {
        s[0] as int
    } else {
        let m = seq_max(s.drop_last());
        if s.last() as int > m {
            s.last() as int
        } else {
            m
        }
    }
}

/// Smallest sample value of `s`.
pub open spec fn seq_min(s: Seq<i32>) -> int
    recommends
        s.len() > 0,
    decreases s.len(),
{
    if s.len() <= 1 {
        s[0] as int
    } else {
        let m = seq_min(s.drop_last());
        if (s.last() as int) < m {
            s.last() as int
        } else {
            m
        }
    }
}

/// Why no metric could be computed from a waveform.
#[derive(Clone, Copy, Debug, PartialEq, Eq, Structural)]
pub enum MetricError {
    /// The acquisition delivered no samples at all.
    EmptyWaveform,
    /// `max + min` is exactly zero, so `(max - min) / (max + min)` is
    /// undefined; reported as a failure, never as a silent infinity.
    DegenerateWaveform,
}

/// The value of `(mx - mn) * 1_000_000 / (mx + mn)`, the quotient rounded
/// toward zero; defined for `mx + mn != 0` and `mn <= mx`. A negative
/// `mx + mn` gives the formula's negative value.
pub open spec fn metric_value(mx: int, mn: int) -> int {
    let num = (mx - mn) * VIS_SCALE;
    let den = mx + mn;
    if den > 0 {
        num / den
    } else {
        -(num / (-den))
    }
}

/// The visibility metric of `samples`, in parts per million:
/// `(max - min) * 1_000_000 / (max + min)` over the full sample set, the
/// quotient rounded toward zero. Only a `max + min` of exactly zero leaves
/// the metric undefined.
pub fn visibility_ppm(samples: &Vec<i32>) -> (r: Result<i64, MetricError>)
    ensures
        samples@.len() == 0 ==> r == Err::<i64, MetricError>(MetricError::EmptyWaveform),
        samples@.len() > 0 && seq_max(samples@) + seq_min(samples@) == 0 ==> r == Err::<
            i64,
            MetricError,
        >(MetricError::DegenerateWaveform),
        samples@.len() > 0 && seq_max(samples@) + seq_min(samples@) != 0 ==> {
            &&& r matches Ok(v)
            &&& v == metric_value(seq_max(samples@), seq_min(samples@))
            &&& -VIS_LIMIT <= v <= VIS_LIMIT
        },
{
    let n = samples.len();
    if n == 0 {
        return Err(MetricError::EmptyWaveform);
    }
    let mut mx: i32 = samples[0];
    let mut mn: i32 = samples[0];
    let mut k: usize = 1;
    proof {
        assert(samples@.take(1) =~= seq![samples@[0]]);
    }
    while k < n
        invariant
            1 <= k <= n,
            n == samples@.len(),
            mx == seq_max(samples@.take(k as int)),
            mn == seq_min(samples@.take(k as int)),
            mn <= mx,
        decreases n - k,
    {
        let x = samples[k];
        proof {
            assert(samples@.take(k + 1).drop_last() =~= samples@.take(k as int));
            assert(samples@.take(k + 1).last() == samples@[k as int]);
        }
        if x > mx {
            mx = x;
        }
        if x < mn {
            mn = x;
        }
        k = k + 1;
    }
    proof {
        assert(samples@.take(n as int) =~= samples@);
    }
    let num: i64 = (mx as i64 - mn as i64) * VIS_SCALE;
    let den: i64 = mx as i64 + mn as i64;
    if den == 0 {
        return Err(MetricError::DegenerateWaveform);
    }
    let v = if den > 0 {
        proof {
            vstd::arithmetic::div_mod::lemma_div_pos_is_pos(num as int, den as int);
            vstd::arithmetic::div_mod::lemma_div_nonincreasing(num as int, den as int);
        }
        num / den
    } else {
        proof {
            vstd::arithmetic::div_mod::lemma_div_pos_is_pos(num as int, -den as int);
            vstd::arithmetic::div_mod::lemma_div_nonincreasing(num as int, -den as int);
        }
        -(num / (-den))
    };
    Ok(v)
}

/// The result of one polling step while waiting for a new acquisition.
#[derive(Clone, Copy, Debug, PartialEq, Eq, Structural)]
pub enum WaitOutcome {
    /// The abort signal was observed; the wait fails with a cancellation,
    /// distinct from any device failure.
    Cancelled,
    /// The acquisition count has not advanced; latch again after a short
    /// sleep.
    NotYet,
    /// A new acquisition has completed; fetch the waveform with this index.
    Ready(i64),
}

/// The wait for the digitizer to finish an acquisition newer than the one
/// seen when the wait began.
///
/// The caller repeatedly latches the device's acquisition count and passes
/// it, together with the current state of the abort signal, to [`observe`];
/// the decision — cancel, retry, or fetch — is a pure function of those two
/// values.
///
/// [`observe`]: WaitForAcquisition::observe
pub struct WaitForAcquisition {
    /// The acquisition count latched when the wait began.
    pub reference: i64,
}

impl WaitForAcquisition {
    pub fn new(reference: i64) -> (r: Self)
        ensures
            r.reference == reference,
    {
        WaitForAcquisition { reference }
    }

    /// One polling step: cancellation wins over everything; an unchanged
    /// count means retry; an advanced count names the acquisition to fetch,
    /// the one after the reference.
    pub fn observe(&self, latched: i64, cancelled: bool) -> (r: WaitOutcome)
        requires
            self.reference < i64::MAX,
        ensures
            cancelled ==> r == WaitOutcome::Cancelled,
            !cancelled && latched == self.reference ==> r == WaitOutcome::NotYet,
            !cancelled && latched != self.reference ==> r == WaitOutcome::Ready(
                (self.reference + 1) as i64,
            ),
    {
        if cancelled {
            WaitOutcome::Cancelled
        } else if latched == self.reference {
            WaitOutcome::NotYet
        } else {
            WaitOutcome::Ready(self.reference + 1)
        }
    }
}

} // verus!
