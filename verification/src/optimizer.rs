//! The closed-loop alignment optimizer: gradient probing and an adaptive
//! line search over the four actuator channels.
//!
//! The optimizer is a pure decision core. It never sleeps and never touches
//! a device: each call hands it one event — a visibility measurement, the
//! completion of a drive, or the abort signal — and it answers with the next
//! action: a rotation command, a request for a measurement, or the end of
//! the run. The harness around it performs the actions, waits the settle
//! times, and feeds the results back in.
//!
//! Visibility values are in parts per million, as
//! [`crate::visibility::visibility_ppm`] produces them. Step sizes are held
//! in thousandths of a step so that the multiplicative shrink of the line
//! search loses nothing to rounding until a command is issued.

use vstd::arithmetic::div_mod::{
    lemma_div_denominator, lemma_div_is_ordered, lemma_div_multiples_vanish,
};
use vstd::prelude::*;

use crate::pamc::RotationDirection;
use crate::visibility::VIS_LIMIT;

verus! {

/// The drive frequency of every command the optimizer issues.
pub const DRIVE_FREQUENCY: u16 = 1500;

/// Largest magnitude a gradient component can reach: the difference of two
/// measurements that both lie within [`VIS_LIMIT`] of zero.
pub const GRAD_LIMIT: i64 = 2 * VIS_LIMIT;

/// One value per actuator channel.
#[derive(Clone, Copy, Debug, PartialEq, Eq, Structural)]
pub struct PerChannel {
    pub c0: i64,
    pub c1: i64,
    pub c2: i64,
    pub c3: i64,
}

impl PerChannel {
    /// The value of channel `j`.
    pub open spec fn spec_get(self, j: int) -> int {
        if j == 0 {
            self.c0 as int
        } else if j == 1 {
            self.c1 as int
        } else if j == 2 {
            self.c2 as int
        } else {
            self.c3 as int
        }
    }

    /// The record with channel `j` set to `v`.
    pub open spec fn spec_set(self, j: int, v: i64) -> PerChannel {
        PerChannel {
            c0: if j == 0 { v } else { self.c0 },
            c1: if j == 1 { v } else { self.c1 },
            c2: if j == 2 { v } else { self.c2 },
            c3: if j == 3 { v } else { self.c3 },
        }
    }

    /// True when every channel's value lies in `[lo, hi]`.
    pub open spec fn all_in(self, lo: int, hi: int) -> bool {
        forall|j: int| 0 <= j < 4 ==> lo <= #[trigger] self.spec_get(j) <= hi
    }

    pub fn new(c0: i64, c1: i64, c2: i64, c3: i64) -> (r: PerChannel)
        ensures
            r == (PerChannel { c0, c1, c2, c3 }),
    {
        PerChannel { c0, c1, c2, c3 }
    }

    pub fn get(&self, j: usize) -> (r: i64)
        requires
            j < 4,
        ensures
            r == self.spec_get(j as int),
    {
        if j == 0 {
            self.c0
        } else if j == 1 {
            self.c1
        } else if j == 2 {
            self.c2
        } else {
            self.c3
        }
    }

    fn set(&mut self, j: usize, v: i64)
        requires
            j < 4,
        ensures
            *final(self) == old(self).spec_set(j as int, v),
    {
        if j == 0 {
            self.c0 = v;
        } else if j == 1 {
            self.c1 = v;
        } else if j == 2 {
            self.c2 = v;
        } else {
            self.c3 = v;
        }
    }
}

/// The absolute value.
pub open spec fn abs(x: int) -> int {
    if x < 0 {
        -x
    } else {
        x
    }
}

/// The tuning of one optimization run; supplied once at startup.
#[derive(Clone, Copy, Debug, PartialEq, Eq, Structural)]
pub struct OptimizerConfig {
    /// Per-channel drive coefficient, in thousandths: the ratio between a
    /// clockwise and a counter-clockwise move of equal effect.
    pub coef_milli: PerChannel,
    /// Base step count of a gradient probe, in pulses.
    pub base_step: u16,
    /// Convergence threshold on the gradient: the run has converged when
    /// every channel's probe difference stays below this many millionths
    /// per base step.
    pub grad_epsilon: i64,
    /// Largest allowed difference, in millionths, between the pre-probe
    /// baseline visibility and the visibility after a perturbation has been
    /// undone; more signals a mechanical slip and fails the run.
    pub baseline_tolerance: i64,
    /// The line search stops when consecutive measurements differ by less
    /// than this many millionths.
    pub stop_delta: i64,
    /// Visibility, in millionths, above which the run is converged at once.
    pub ceiling: i64,
}

/// A probe move of channel `k` in the coefficient-scaled sense: the base
/// step count scaled by the channel's coefficient.
pub open spec fn scaled_probe_step(cfg: OptimizerConfig, k: int) -> int {
    cfg.base_step * cfg.coef_milli.spec_get(k) / 1000
}

impl OptimizerConfig {
    /// The ranges under which every command the optimizer builds is a valid
    /// rotation command and no arithmetic can overflow.
    pub open spec fn valid(self) -> bool {
        &&& self.coef_milli.all_in(1, 500_000)
        &&& 1 <= self.base_step <= 9999
        &&& forall|k: int| 0 <= k < 4 ==> 1 <= #[trigger] scaled_probe_step(self, k) <= 9999
        &&& 1 <= self.grad_epsilon <= VIS_LIMIT
        &&& 0 <= self.baseline_tolerance <= VIS_LIMIT
        &&& 0 <= self.stop_delta <= VIS_LIMIT
        &&& 0 <= self.ceiling <= VIS_LIMIT
    }

    /// Tests `valid` at run time, for a caller that assembled the
    /// configuration from the outside world.
    pub fn validate(&self) -> (r: bool)
        ensures
            r == self.valid(),
    {
        let coef_ok = self.check_coef(0) && self.check_coef(1) && self.check_coef(2)
            && self.check_coef(3);
        coef_ok && 1 <= self.base_step && self.base_step <= 9999 && 1 <= self.grad_epsilon
            && self.grad_epsilon <= VIS_LIMIT && 0 <= self.baseline_tolerance
            && self.baseline_tolerance <= VIS_LIMIT && 0 <= self.stop_delta && self.stop_delta
            <= VIS_LIMIT && 0 <= self.ceiling && self.ceiling <= VIS_LIMIT
    }

    fn check_coef(&self, k: usize) -> (r: bool)
        requires
            k < 4,
        ensures
            r == (1 <= self.coef_milli.spec_get(k as int) <= 500_000 && 1 <= scaled_probe_step(
                *self,
                k as int,
            ) <= 9999),
    {
        let c = self.coef_milli.get(k);
        if !(1 <= c && c <= 500_000) {
            return false;
        }
        proof {
            assert((self.base_step as int) * (c as int) <= 40_000_000_000) by (nonlinear_arith)
                requires
                    0 <= self.base_step <= 65535,
                    0 <= c <= 500_000,
            ;
        }
        let scaled = (self.base_step as i64) * c / 1000;
        1 <= scaled && scaled <= 9999
    }
}

/// Why a run ended.
#[derive(Clone, Copy, Debug, PartialEq, Eq, Structural)]
pub enum Stop {
    /// Every gradient component fell below the threshold, or visibility
    /// passed the ceiling.
    Converged,
    /// The shrinking round ladder ran out: a round began with a step size
    /// below the minimum.
    Exhausted,
    /// The abort signal was observed.
    Cancelled,
    /// After undoing a perturbation, visibility missed the baseline by more
    /// than the tolerance: a hardware slip. Fatal to the whole run, never
    /// retried.
    BaselineMismatch { expected: i64, found: i64 },
}

/// What the harness must do next.
#[derive(Clone, Copy, Debug, PartialEq, Eq, Structural)]
pub enum Action {
    /// Issue this rotation command, wait for its completion handshake, then
    /// wait the settle time and report back.
    Drive { channel: u8, direction: RotationDirection, frequency: u16, count: u16 },
    /// Measure visibility and report the value.
    Measure,
    /// The run is over; no further events are accepted.
    Finished(Stop),
}

/// Where the optimizer stands between two events.
#[derive(Clone, Copy, Debug, PartialEq, Eq, Structural)]
pub enum Phase {
    /// Waiting for the first visibility measurement of the run.
    Init,
    /// Waiting for the baseline measurement that opens a gradient probe.
    ProbeBaseline,
    /// A probe drive of channel `k` is in flight; `leg` numbers the four
    /// moves of the perturb-and-restore cycle.
    ProbeDrive { k: u8, leg: u8 },
    /// Waiting for the measurement after probe leg `leg` of channel `k`.
    ProbeMeasure { k: u8, leg: u8 },
    /// A line-search drive of channel `j` is in flight.
    SearchDrive { j: u8 },
    /// Waiting for the measurement after a combined line-search move.
    SearchMeasure,
    /// The run is over.
    Done,
}

/// The optimizer: configuration, phase, and the numbers the decisions rest
/// on. The fields are public for the sake of the contracts; mutate them
/// only through the event methods.
#[derive(Clone, Copy, Debug, PartialEq, Eq, Structural)]
pub struct Optimizer {
    pub cfg: OptimizerConfig,
    pub phase: Phase,
    /// The 1-based round index; each round is one gradient probe followed
    /// by one line search.
    pub round: u32,
    /// The current accepted visibility, in millionths.
    pub vis: i64,
    /// The baseline visibility of the current gradient probe.
    pub baseline: i64,
    /// Visibility after the forward perturbation of each channel.
    pub big: PerChannel,
    /// Visibility after the backward perturbation of each channel.
    pub small: PerChannel,
    /// The gradient estimate, as probe differences; negated wholesale when
    /// the line search reverses direction.
    pub grad: PerChannel,
    /// The dominant channel: the first one of greatest gradient magnitude.
    pub dom: usize,
    /// The sign of the search direction; flipped on every reversal.
    pub forward: bool,
    /// The current line-search step size, in thousandths of a step.
    pub step_milli: u64,
    /// The step size this round's line search started with.
    pub round_step_milli: u64,
    /// Measurements taken in this line search, the baseline included.
    pub meas_count: u8,
}

/// The step size a round starts with, in thousandths: a ladder that shrinks
/// by two whole steps per round.
pub open spec fn start_step_milli(round: int) -> int {
    if 2 * (round - 1) < 16 {
        (16 - 2 * (round - 1)) * 1000
    } else {
        0
    }
}

/// The same state with the run marked over.
pub open spec fn halted(pre: Optimizer) -> Optimizer {
    Optimizer { phase: Phase::Done, ..pre }
}

/// The action that starts probe leg `leg` of channel `k`: forward moves are
/// coefficient-scaled, backward moves use the bare base step.
pub open spec fn probe_drive_action(cfg: OptimizerConfig, k: int, leg: int) -> Action {
    if leg == 0 || leg == 3 {
        Action::Drive {
            channel: k as u8,
            direction: RotationDirection::Cw,
            frequency: DRIVE_FREQUENCY,
            count: scaled_probe_step(cfg, k) as u16,
        }
    } else {
        Action::Drive {
            channel: k as u8,
            direction: RotationDirection::Ccw,
            frequency: DRIVE_FREQUENCY,
            count: cfg.base_step,
        }
    }
}

/// True when every component of the probe difference is below the
/// convergence threshold.
pub open spec fn grad_below_epsilon(cfg: OptimizerConfig, g: PerChannel) -> bool {
    forall|j: int| 0 <= j < 4 ==> abs(#[trigger] g.spec_get(j)) < cfg.grad_epsilon
        * cfg.base_step
}

/// The first channel of greatest gradient magnitude.
pub open spec fn dominant(g: PerChannel) -> int {
    let a0 = abs(g.spec_get(0));
    let a1 = abs(g.spec_get(1));
    let a2 = abs(g.spec_get(2));
    let a3 = abs(g.spec_get(3));
    if a0 >= a1 && a0 >= a2 && a0 >= a3 {
        0
    } else if a1 >= a2 && a1 >= a3 {
        1
    } else if a2 >= a3 {
        2
    } else {
        3
    }
}

/// The gradient with every component negated: the search sense reversed.
pub open spec fn negated(g: PerChannel) -> PerChannel {
    PerChannel {
        c0: (-g.c0) as i64,
        c1: (-g.c1) as i64,
        c2: (-g.c2) as i64,
        c3: (-g.c3) as i64,
    }
}

/// The rotation sense of channel `j` in the search: a positive gradient
/// component means clockwise.
pub open spec fn search_direction(gj: int) -> RotationDirection {
    if gj > 0 {
        RotationDirection::Cw
    } else {
        RotationDirection::Ccw
    }
}

/// The per-channel scale of a search move, in thousandths: the channel's
/// coefficient when moving in the clockwise sense, unity otherwise.
pub open spec fn search_scale(cfg: OptimizerConfig, j: int, gj: int) -> int {
    if gj > 0 {
        cfg.coef_milli.spec_get(j)
    } else {
        1000
    }
}

impl Optimizer {
    /// The step count of channel `j`'s next search move: the step size,
    /// scaled by the channel's coefficient when moving clockwise, and by
    /// the channel's gradient magnitude relative to the dominant one,
    /// rounded down to whole pulses.
    pub open spec fn movement_steps(self, j: int) -> int {
        self.step_milli * search_scale(self.cfg, j, self.grad.spec_get(j)) * abs(
            self.grad.spec_get(j),
        ) / (1_000_000 * abs(self.grad.spec_get(self.dom as int)))
    }

    /// True in the line-search phases.
    pub open spec fn in_search(self) -> bool {
        self.phase matches Phase::SearchDrive { .. } || self.phase == Phase::SearchMeasure
    }

    /// True when the next event must be a measurement.
    pub open spec fn awaits_measurement(self) -> bool {
        match self.phase {
            Phase::Init => true,
            Phase::ProbeBaseline => true,
            Phase::ProbeMeasure { .. } => true,
            Phase::SearchMeasure => true,
            _ => false,
        }
    }

    /// True when the next event must be the completion of a drive.
    pub open spec fn awaits_drive_done(self) -> bool {
        match self.phase {
            Phase::ProbeDrive { .. } => true,
            Phase::SearchDrive { .. } => true,
            _ => false,
        }
    }

    /// True when the run is over.
    pub open spec fn done(self) -> bool {
        self.phase == Phase::Done
    }

    /// The phase-independent part of well-formedness: every number in the
    /// range its arithmetic relies on.
    pub open spec fn fields_wf(self) -> bool {
        &&& self.cfg.valid()
        &&& 1 <= self.round <= 9
        &&& -VIS_LIMIT <= self.vis <= VIS_LIMIT
        &&& -VIS_LIMIT <= self.baseline <= VIS_LIMIT
        &&& self.big.all_in(-VIS_LIMIT as int, VIS_LIMIT as int)
        &&& self.small.all_in(-VIS_LIMIT as int, VIS_LIMIT as int)
        &&& self.grad.all_in(-GRAD_LIMIT as int, GRAD_LIMIT as int)
        &&& self.dom < 4
        &&& self.step_milli <= 16_000
        &&& self.round_step_milli <= 16_000
        &&& 1 <= self.meas_count <= 10
    }

    /// Everything the event methods rely on and preserve.
    pub open spec fn wf(self) -> bool {
        &&& self.fields_wf()
        &&& match self.phase {
            Phase::ProbeDrive { k, leg } => k < 4 && leg < 4,
            Phase::ProbeMeasure { k, leg } => k < 4 && leg < 4,
            Phase::SearchDrive { j } => j < 4,
            _ => true,
        }
        &&& self.in_search() ==> {
            &&& forall|j: int| 0 <= j < 4 ==> abs(#[trigger] self.grad.spec_get(j)) <= abs(
                self.grad.spec_get(self.dom as int),
            )
            &&& abs(self.grad.spec_get(self.dom as int)) >= 1
            &&& self.round_step_milli == start_step_milli(self.round as int)
        }
        &&& self.in_search() ==> self.meas_count <= 9
    }
}

/// Entry into the next combined search move, from channel `j` on: the first
/// channel whose move rounds to at least one pulse is driven; when none is
/// left, the move is over and visibility is measured. Zero-pulse commands
/// are never issued: the hardware takes a zero count as an indefinite
/// drive.
pub open spec fn search_entry(pre: Optimizer, j: int) -> (Optimizer, Action)
    decreases 4 - j,
{
    if j >= 4 {
        (Optimizer { phase: Phase::SearchMeasure, ..pre }, Action::Measure)
    } else if pre.movement_steps(j) >= 1 {
        (
            Optimizer { phase: Phase::SearchDrive { j: j as u8 }, ..pre },
            Action::Drive {
                channel: j as u8,
                direction: search_direction(pre.grad.spec_get(j)),
                frequency: DRIVE_FREQUENCY,
                count: pre.movement_steps(j) as u16,
            },
        )
    } else {
        search_entry(pre, j + 1)
    }
}

/// End of a round: a round that began below the minimum step exhausts the
/// run; otherwise the next round opens with a fresh baseline measurement.
pub open spec fn round_end(pre: Optimizer) -> (Optimizer, Action) {
    if pre.round_step_milli < 2000 {
        (halted(pre), Action::Finished(Stop::Exhausted))
    } else {
        (
            Optimizer { round: (pre.round + 1) as u32, phase: Phase::ProbeBaseline, ..pre },
            Action::Measure,
        )
    }
}

/// End of a gradient probe: the probe differences become the gradient; a
/// gradient below the threshold converges the run, as does a current
/// visibility above the ceiling; otherwise the line search opens with the
/// round's ladder step.
pub open spec fn finish_probe(pre: Optimizer) -> (Optimizer, Action) {
    let g = PerChannel {
        c0: (pre.big.c0 - pre.small.c0) as i64,
        c1: (pre.big.c1 - pre.small.c1) as i64,
        c2: (pre.big.c2 - pre.small.c2) as i64,
        c3: (pre.big.c3 - pre.small.c3) as i64,
    };
    let st = Optimizer { grad: g, ..pre };
    if grad_below_epsilon(pre.cfg, g) {
        (halted(st), Action::Finished(Stop::Converged))
    } else {
        let st = Optimizer { dom: dominant(g) as usize, ..st };
        if pre.vis > pre.cfg.ceiling {
            (halted(st), Action::Finished(Stop::Converged))
        } else {
            let step = start_step_milli(pre.round as int) as u64;
            let st = Optimizer {
                step_milli: step,
                round_step_milli: step,
                meas_count: 1,
                forward: true,
                ..st
            };
            search_entry(st, 0)
        }
    }
}

/// One measurement inside a gradient probe, after leg `leg` of channel `k`:
/// legs 0 and 2 record the perturbed visibilities; legs 1 and 3 check the
/// return to baseline and fail the whole run on a mismatch.
pub open spec fn probe_measure(pre: Optimizer, k: int, leg: int, v: i64) -> (Optimizer, Action) {
    if leg == 0 {
        let st = Optimizer {
            big: pre.big.spec_set(k, v),
            phase: Phase::ProbeDrive { k: k as u8, leg: 1 },
            ..pre
        };
        (st, probe_drive_action(pre.cfg, k, 1))
    } else if leg == 1 {
        if abs(pre.baseline - v) > pre.cfg.baseline_tolerance {
            (
                halted(pre),
                Action::Finished(Stop::BaselineMismatch { expected: pre.baseline, found: v }),
            )
        } else {
            let st = Optimizer { phase: Phase::ProbeDrive { k: k as u8, leg: 2 }, ..pre };
            (st, probe_drive_action(pre.cfg, k, 2))
        }
    } else if leg == 2 {
        let st = Optimizer {
            small: pre.small.spec_set(k, v),
            phase: Phase::ProbeDrive { k: k as u8, leg: 3 },
            ..pre
        };
        (st, probe_drive_action(pre.cfg, k, 3))
    } else {
        if abs(pre.baseline - v) > pre.cfg.baseline_tolerance {
            (
                halted(pre),
                Action::Finished(Stop::BaselineMismatch { expected: pre.baseline, found: v }),
            )
        } else if k < 3 {
            let st = Optimizer { phase: Phase::ProbeDrive { k: (k + 1) as u8, leg: 0 }, ..pre };
            (st, probe_drive_action(pre.cfg, k + 1, 0))
        } else {
            finish_probe(pre)
        }
    }
}

/// One measurement at the end of a combined search move. Visibility above
/// the ceiling converges the whole run at once, before any other stop.
/// Otherwise the search ends after ten measurements or when the change
/// falls below the threshold; a non-decrease is accepted and the search
/// continues; a decrease flips the direction, shrinks the step by a tenth
/// and reverses the gradient, and a step below one whole pulse ends the
/// round.
pub open spec fn search_measure(pre: Optimizer, temp: i64) -> (Optimizer, Action) {
    let n = (pre.meas_count + 1) as u8;
    let stn = Optimizer { meas_count: n, ..pre };
    if temp > pre.cfg.ceiling {
        (halted(Optimizer { vis: temp, ..stn }), Action::Finished(Stop::Converged))
    } else if n >= 10 || abs(pre.vis - temp) < pre.cfg.stop_delta {
        round_end(stn)
    } else if pre.vis <= temp {
        search_entry(Optimizer { vis: temp, ..stn }, 0)
    } else {
        let st = Optimizer {
            forward: !pre.forward,
            step_milli: (pre.step_milli * 9 / 10) as u64,
            grad: negated(pre.grad),
            ..stn
        };
        if st.step_milli < 1000 {
            round_end(st)
        } else {
            search_entry(Optimizer { vis: temp, ..st }, 0)
        }
    }
}

/// The whole measurement transition, phase by phase.
pub open spec fn on_measurement_spec(pre: Optimizer, v: i64) -> (Optimizer, Action) {
    match pre.phase {
        Phase::Init => (
            Optimizer { vis: v, phase: Phase::ProbeBaseline, ..pre },
            Action::Measure,
        ),
        Phase::ProbeBaseline => (
            Optimizer { baseline: v, phase: Phase::ProbeDrive { k: 0, leg: 0 }, ..pre },
            probe_drive_action(pre.cfg, 0, 0),
        ),
        Phase::ProbeMeasure { k, leg } => probe_measure(pre, k as int, leg as int, v),
        Phase::SearchMeasure => search_measure(pre, v),
        _ => (pre, Action::Measure),
    }
}

/// The whole drive-completion transition.
pub open spec fn on_drive_done_spec(pre: Optimizer) -> (Optimizer, Action) {
    match pre.phase {
        Phase::ProbeDrive { k, leg } => (
            Optimizer { phase: Phase::ProbeMeasure { k, leg }, ..pre },
            Action::Measure,
        ),
        Phase::SearchDrive { j } => search_entry(pre, j + 1),
        _ => (pre, Action::Measure),
    }
}

/// True when `a` is a rotation command with all parameters in the ranges
/// the controller accepts.
pub open spec fn drive_action_valid(a: Action) -> bool {
    a matches Action::Drive { channel, direction, frequency, count } ==> channel < 22 && 1
        <= frequency <= 1500 && 1 <= count <= 9999
}

/// The fresh optimizer: round one, nothing measured yet.
pub open spec fn initial_optimizer(cfg: OptimizerConfig) -> Optimizer {
    Optimizer {
        cfg,
        phase: Phase::Init,
        round: 1,
        vis: 0,
        baseline: 0,
        big: PerChannel { c0: 0, c1: 0, c2: 0, c3: 0 },
        small: PerChannel { c0: 0, c1: 0, c2: 0, c3: 0 },
        grad: PerChannel { c0: 0, c1: 0, c2: 0, c3: 0 },
        dom: 0,
        forward: true,
        step_milli: 0,
        round_step_milli: 0,
        meas_count: 1,
    }
}

/// A probe cycle is balanced by construction: for every channel, the two
/// forward legs are the same coefficient-scaled clockwise command and the
/// two backward legs the same bare-step counter-clockwise command, so the
/// cycle commands no net displacement.
pub proof fn lemma_probe_cycle_balanced(cfg: OptimizerConfig, k: int)
    requires
        cfg.valid(),
        0 <= k < 4,
    ensures
        probe_drive_action(cfg, k, 0) == probe_drive_action(cfg, k, 3),
        probe_drive_action(cfg, k, 1) == probe_drive_action(cfg, k, 2),
        probe_drive_action(cfg, k, 0) matches Action::Drive {
            direction: RotationDirection::Cw,
            ..
        },
        probe_drive_action(cfg, k, 1) matches Action::Drive {
            direction: RotationDirection::Ccw,
            ..
        },
{
}

/// The round ladder shrinks strictly until it reaches zero, and from the
/// eighth round on the next round would start below the minimum: no run
/// holds more than nine rounds.
pub proof fn lemma_round_ladder(round: int)
    requires
        round >= 1,
    ensures
        start_step_milli(round + 1) < start_step_milli(round) || start_step_milli(round) == 0,
        round >= 8 ==> start_step_milli(round + 1) < 2000,
{
}

/// How far a run still has to go: positive until the run is over, largest
/// at the start, smaller after every event. The dominant term counts the
/// rounds left on the ladder; within a round the probe legs and then the
/// bounded measurement budget of the line search count down.
pub open spec fn progress(st: Optimizer) -> int {
    if st.done() {
        0
    } else {
        (10 - st.round) * 1000 + match st.phase {
            Phase::Init => 990,
            Phase::ProbeBaseline => 980,
            Phase::ProbeDrive { k, leg } => 970 - (k * 8 + leg * 2),
            Phase::ProbeMeasure { k, leg } => 969 - (k * 8 + leg * 2),
            Phase::SearchDrive { j } => 900 - st.meas_count * 20 - j,
            Phase::SearchMeasure => 890 - st.meas_count * 20,
            Phase::Done => 0,
        }
    }
}

proof fn lemma_search_entry_shape(pre: Optimizer, j: int)
    requires
        0 <= j <= 4,
    ensures
        ({
            let st = search_entry(pre, j).0;
            &&& st == (Optimizer { phase: st.phase, ..pre })
            &&& match st.phase {
                Phase::SearchDrive { j: jj } => j <= jj < 4,
                _ => st.phase == Phase::SearchMeasure,
            }
        }),
    decreases 4 - j,
{
    if j >= 4 {
    } else if pre.movement_steps(j) >= 1 {
    } else {
        lemma_search_entry_shape(pre, j + 1);
    }
}

/// Every visibility measurement brings the run strictly closer to its end:
/// together with the two companion results below, no sequence of events
/// drives the optimizer forever — the line search cannot oscillate
/// indefinitely and the round ladder runs out.
pub proof fn lemma_measurement_makes_progress(pre: Optimizer, v: i64)
    requires
        pre.wf(),
        pre.awaits_measurement(),
    ensures
        progress(on_measurement_spec(pre, v).0) < progress(pre),
{
    match pre.phase {
        Phase::ProbeMeasure { k, leg } => {
            if leg == 3 && k == 3 && abs(pre.baseline - v) <= pre.cfg.baseline_tolerance {
                let g = PerChannel {
                    c0: (pre.big.c0 - pre.small.c0) as i64,
                    c1: (pre.big.c1 - pre.small.c1) as i64,
                    c2: (pre.big.c2 - pre.small.c2) as i64,
                    c3: (pre.big.c3 - pre.small.c3) as i64,
                };
                if !grad_below_epsilon(pre.cfg, g) && pre.vis <= pre.cfg.ceiling {
                    let step = start_step_milli(pre.round as int) as u64;
                    let st = Optimizer {
                        grad: g,
                        dom: dominant(g) as usize,
                        step_milli: step,
                        round_step_milli: step,
                        meas_count: 1,
                        forward: true,
                        ..pre
                    };
                    lemma_search_entry_shape(st, 0);
                }
            }
        },
        Phase::SearchMeasure => {
            let n = (pre.meas_count + 1) as u8;
            let stn = Optimizer { meas_count: n, ..pre };
            if v > pre.cfg.ceiling {
            } else if n >= 10 || abs(pre.vis - v) < pre.cfg.stop_delta {
            } else if pre.vis <= v {
                lemma_search_entry_shape(Optimizer { vis: v, ..stn }, 0);
            } else {
                let st = Optimizer {
                    forward: !pre.forward,
                    step_milli: (pre.step_milli * 9 / 10) as u64,
                    grad: negated(pre.grad),
                    ..stn
                };
                if st.step_milli >= 1000 {
                    lemma_search_entry_shape(Optimizer { vis: v, ..st }, 0);
                }
            }
        },
        _ => {},
    }
}

/// Every completed drive brings the run strictly closer to its end.
pub proof fn lemma_drive_done_makes_progress(pre: Optimizer)
    requires
        pre.wf(),
        pre.awaits_drive_done(),
    ensures
        progress(on_drive_done_spec(pre).0) < progress(pre),
{
    match pre.phase {
        Phase::SearchDrive { j } => {
            lemma_search_entry_shape(pre, j + 1);
        },
        _ => {},
    }
}

/// Cancellation ends the run at once: the halted state has no distance
/// left to go.
pub proof fn lemma_cancellation_makes_progress(pre: Optimizer)
    requires
        pre.wf(),
        !pre.done(),
    ensures
        progress(halted(pre)) == 0 < progress(pre),
{
}

proof fn lemma_round_bound(round: int)
    requires
        1 <= round,
        start_step_milli(round) >= 2000,
    ensures
        round <= 8,
{
}

proof fn lemma_shrink(s: int)
    requires
        s >= 1,
    ensures
        0 <= s * 9 / 10 < s,
{
    assert(s * 9 <= 10 * s - 1);
    vstd::arithmetic::div_mod::lemma_div_is_ordered(s * 9, 10 * s - 1, 10);
    assert((10 * s - 1) / 10 == s - 1) by {
        vstd::arithmetic::div_mod::lemma_fundamental_div_mod_converse_div(
            10 * s - 1,
            10,
            s - 1,
            9,
        );
        assert(10 * s - 1 == 10 * (s - 1) + 9);
    }
    vstd::arithmetic::div_mod::lemma_div_pos_is_pos(s * 9, 10);
}

proof fn lemma_movement_bound(st: Optimizer, j: int)
    requires
        st.cfg.valid(),
        st.step_milli <= 16_000,
        st.dom < 4,
        0 <= j < 4,
        abs(st.grad.spec_get(j)) <= abs(st.grad.spec_get(st.dom as int)),
        abs(st.grad.spec_get(st.dom as int)) >= 1,
    ensures
        0 <= st.movement_steps(j) <= 8000,
{
    let s = st.step_milli as int;
    let sc = search_scale(st.cfg, j, st.grad.spec_get(j));
    let ga = abs(st.grad.spec_get(j));
    let gd = abs(st.grad.spec_get(st.dom as int));
    assert(1 <= st.cfg.coef_milli.spec_get(j) <= 500_000);
    assert(1 <= sc <= 500_000);
    let num = s * sc * ga;
    let prod = s * sc;
    assert(0 <= num && num <= prod * gd) by (nonlinear_arith)
        requires
            0 <= s,
            0 <= sc,
            0 <= ga <= gd,
            num == s * sc * ga,
            prod == s * sc,
    ;
    assert(0 <= prod <= 8_000_000_000) by (nonlinear_arith)
        requires
            0 <= s <= 16_000,
            0 <= sc <= 500_000,
            prod == s * sc,
    ;
    assert(1_000_000 * gd >= 1_000_000);
    lemma_div_is_ordered(num, prod * gd, 1_000_000 * gd);
    assert(prod * gd == gd * prod) by (nonlinear_arith);
    lemma_div_multiples_vanish(prod, gd);
    lemma_div_denominator(prod * gd, gd, 1_000_000);
    assert(gd * 1_000_000 == 1_000_000 * gd);
    assert((prod * gd) / (1_000_000 * gd) == prod / 1_000_000);
    lemma_div_is_ordered(prod, 8_000_000_000, 1_000_000);
    assert(prod / 1_000_000 <= 8000);
    vstd::arithmetic::div_mod::lemma_div_pos_is_pos(num, 1_000_000 * gd);
}

proof fn lemma_set_all_in(q: PerChannel, j: int, v: i64, lo: int, hi: int)
    requires
        q.all_in(lo, hi),
        0 <= j < 4,
        lo <= v <= hi,
    ensures
        q.spec_set(j, v).all_in(lo, hi),
{
    assert forall|jj: int| 0 <= jj < 4 implies lo <= #[trigger] q.spec_set(j, v).spec_get(jj)
        <= hi by {
        if jj != j {
            assert(q.spec_set(j, v).spec_get(jj) == q.spec_get(jj));
        }
    }
}

fn iabs64(x: i64) -> (r: i64)
    requires
        x > i64::MIN,
    ensures
        r == abs(x as int),
{
    if x < 0 {
        -x
    } else {
        x
    }
}

/// The gradient with every component negated, executably.
fn negated_exec(g: &PerChannel) -> (r: PerChannel)
    requires
        g.all_in(-GRAD_LIMIT as int, GRAD_LIMIT as int),
    ensures
        r == negated(*g),
{
    proof {
        assert(g.spec_get(0) == g.c0 as int);
        assert(g.spec_get(1) == g.c1 as int);
        assert(g.spec_get(2) == g.c2 as int);
        assert(g.spec_get(3) == g.c3 as int);
    }
    PerChannel { c0: -g.c0, c1: -g.c1, c2: -g.c2, c3: -g.c3 }
}

/// The first channel of greatest gradient magnitude, executably.
fn dominant_exec(g: &PerChannel) -> (r: usize)
    requires
        g.all_in(-GRAD_LIMIT as int, GRAD_LIMIT as int),
    ensures
        r == dominant(*g),
        r < 4,
        forall|j: int| 0 <= j < 4 ==> abs(#[trigger] g.spec_get(j)) <= abs(
            g.spec_get(dominant(*g)),
        ),
{
    proof {
        assert(g.spec_get(0) == g.c0 as int);
        assert(g.spec_get(1) == g.c1 as int);
        assert(g.spec_get(2) == g.c2 as int);
        assert(g.spec_get(3) == g.c3 as int);
    }
    let a0 = iabs64(g.c0);
    let a1 = iabs64(g.c1);
    let a2 = iabs64(g.c2);
    let a3 = iabs64(g.c3);
    if a0 >= a1 && a0 >= a2 && a0 >= a3 {
        0
    } else if a1 >= a2 && a1 >= a3 {
        1
    } else if a2 >= a3 {
        2
    } else {
        3
    }
}

/// True when every probe difference is below the threshold, executably.
fn below_epsilon(cfg: &OptimizerConfig, g: &PerChannel) -> (r: bool)
    requires
        cfg.valid(),
        g.all_in(-GRAD_LIMIT as int, GRAD_LIMIT as int),
    ensures
        r == grad_below_epsilon(*cfg, *g),
{
    proof {
        assert((cfg.grad_epsilon as int) * (cfg.base_step as int)
            <= 50_000_000_000_000_000_000) by (nonlinear_arith)
            requires
                0 <= cfg.grad_epsilon <= VIS_LIMIT,
                0 <= cfg.base_step <= 9999,
        ;
    }
    let bound: i128 = (cfg.grad_epsilon as i128) * (cfg.base_step as i128);
    proof {
        assert(g.spec_get(0) == g.c0 as int);
        assert(g.spec_get(1) == g.c1 as int);
        assert(g.spec_get(2) == g.c2 as int);
        assert(g.spec_get(3) == g.c3 as int);
    }
    let r = (iabs64(g.c0) as i128) < bound && (iabs64(g.c1) as i128) < bound && (iabs64(g.c2)
        as i128) < bound && (iabs64(g.c3) as i128) < bound;
    proof {
        if r {
            assert forall|j: int| 0 <= j < 4 implies abs(#[trigger] g.spec_get(j))
                < cfg.grad_epsilon * cfg.base_step by {
                assert(j == 0 || j == 1 || j == 2 || j == 3);
            }
        }
    }
    r
}

impl Optimizer {
    /// The step count of channel `j`'s next search move, executably; never
    /// more than 8000 pulses.
    fn movement(&self, j: usize) -> (r: u16)
        requires
            self.cfg.valid(),
            self.step_milli <= 16_000,
            self.dom < 4,
            j < 4,
            self.grad.all_in(-GRAD_LIMIT as int, GRAD_LIMIT as int),
            abs(self.grad.spec_get(j as int)) <= abs(self.grad.spec_get(self.dom as int)),
            abs(self.grad.spec_get(self.dom as int)) >= 1,
        ensures
            r == self.movement_steps(j as int),
            r <= 8000,
    {
        let g = self.grad.get(j);
        let gd = self.grad.get(self.dom);
        let ga_u = iabs64(g) as u128;
        let gd_u = iabs64(gd) as u128;
        let scale: u128 = if g > 0 {
            self.cfg.coef_milli.get(j) as u128
        } else {
            1000u128
        };
        proof {
            assert(1 <= self.cfg.coef_milli.spec_get(j as int) <= 500_000);
            assert(scale == search_scale(self.cfg, j as int, self.grad.spec_get(j as int)));
            assert((self.step_milli as int) * (scale as int) <= 8_000_000_000) by (nonlinear_arith)
                requires
                    0 <= self.step_milli <= 16_000,
                    0 <= scale <= 500_000,
            ;
            assert(8_000_000_000 * (ga_u as int) <= 8_000_000_000 * GRAD_LIMIT) by (nonlinear_arith)
                requires
                    0 <= ga_u <= GRAD_LIMIT,
            ;
            assert((self.step_milli as int) * (scale as int) * (ga_u as int) <= 8_000_000_000
                * (ga_u as int)) by (nonlinear_arith)
                requires
                    0 <= (self.step_milli as int) * (scale as int) <= 8_000_000_000,
                    0 <= ga_u,
            ;
            lemma_movement_bound(*self, j as int);
        }
        let num: u128 = (self.step_milli as u128) * scale * ga_u;
        let den: u128 = 1_000_000u128 * gd_u;
        let q = num / den;
        proof {
            assert(q == self.movement_steps(j as int));
        }
        q as u16
    }

    /// The command that starts probe leg `leg` of channel `k`, executably.
    fn probe_action(&self, k: usize, leg: usize) -> (a: Action)
        requires
            self.cfg.valid(),
            k < 4,
            leg < 4,
        ensures
            a == probe_drive_action(self.cfg, k as int, leg as int),
            drive_action_valid(a),
    {
        if leg == 0 || leg == 3 {
            let c = self.cfg.coef_milli.get(k);
            proof {
                assert(1 <= self.cfg.coef_milli.spec_get(k as int) <= 500_000);
                assert(1 <= scaled_probe_step(self.cfg, k as int) <= 9999);
            }
            let scaled = (self.cfg.base_step as i64) * c / 1000;
            Action::Drive {
                channel: k as u8,
                direction: RotationDirection::Cw,
                frequency: DRIVE_FREQUENCY,
                count: scaled as u16,
            }
        } else {
            Action::Drive {
                channel: k as u8,
                direction: RotationDirection::Ccw,
                frequency: DRIVE_FREQUENCY,
                count: self.cfg.base_step,
            }
        }
    }

    /// The ladder step this round starts with, executably.
    fn start_step(&self) -> (r: u64)
        requires
            1 <= self.round <= 9,
        ensures
            r == start_step_milli(self.round as int),
            r <= 16_000,
    {
        let rm1 = (self.round - 1) as u64;
        if 2 * rm1 < 16 {
            (16 - 2 * rm1) * 1000
        } else {
            0
        }
    }

    /// Walks into the next combined search move from channel `j0` on.
    fn search_step_entry(&mut self, j0: usize) -> (a: Action)
        requires
            j0 <= 4,
            old(self).fields_wf(),
            old(self).meas_count <= 9,
            old(self).round_step_milli == start_step_milli(old(self).round as int),
            forall|j: int| 0 <= j < 4 ==> abs(#[trigger] old(self).grad.spec_get(j)) <= abs(
                old(self).grad.spec_get(old(self).dom as int),
            ),
            abs(old(self).grad.spec_get(old(self).dom as int)) >= 1,
        ensures
            *final(self) == search_entry(*old(self), j0 as int).0,
            a == search_entry(*old(self), j0 as int).1,
            drive_action_valid(a),
            !(a matches Action::Finished(_)),
            final(self).phase matches Phase::SearchDrive { j } || final(self).phase
                == Phase::SearchMeasure,
            *final(self) == (Optimizer { phase: final(self).phase, ..*old(self) }),
            final(self).wf(),
            !final(self).done(),
    {
        let mut j = j0;
        #[verifier::loop_isolation(false)]
        while j < 4
            invariant
                j0 <= j <= 4,
                *self == *old(self),
                search_entry(*old(self), j0 as int) == search_entry(*old(self), j as int),
            decreases 4 - j,
        {
            let mv = self.movement(j);
            if mv >= 1 {
                self.phase = Phase::SearchDrive { j: j as u8 };
                proof {
                    assert(*self == search_entry(*old(self), j as int).0);
                }
                return Action::Drive {
                    channel: j as u8,
                    direction: if self.grad.get(j) > 0 {
                        RotationDirection::Cw
                    } else {
                        RotationDirection::Ccw
                    },
                    frequency: DRIVE_FREQUENCY,
                    count: mv,
                };
            }
            j = j + 1;
        }
        self.phase = Phase::SearchMeasure;
        Action::Measure
    }

    /// Ends the round: exhaustion, or the next round's baseline.
    fn finish_round(&mut self) -> (a: Action)
        requires
            old(self).fields_wf(),
            old(self).round_step_milli == start_step_milli(old(self).round as int),
        ensures
            *final(self) == round_end(*old(self)).0,
            a == round_end(*old(self)).1,
            final(self).wf(),
            final(self).done() <==> a matches Action::Finished(_),
    {
        if self.round_step_milli < 2000 {
            self.phase = Phase::Done;
            Action::Finished(Stop::Exhausted)
        } else {
            proof {
                lemma_round_bound(self.round as int);
            }
            self.round = self.round + 1;
            self.phase = Phase::ProbeBaseline;
            Action::Measure
        }
    }

    /// Closes the gradient probe: convergence checks, then the line search.
    fn finish_probe_exec(&mut self) -> (a: Action)
        requires
            old(self).wf(),
        ensures
            *final(self) == finish_probe(*old(self)).0,
            a == finish_probe(*old(self)).1,
            drive_action_valid(a),
            final(self).wf(),
            final(self).done() <==> a matches Action::Finished(_),
    {
        proof {
            assert(old(self).big.spec_get(0) == old(self).big.c0 as int);
            assert(old(self).small.spec_get(0) == old(self).small.c0 as int);
            assert(old(self).big.spec_get(1) == old(self).big.c1 as int);
            assert(old(self).small.spec_get(1) == old(self).small.c1 as int);
            assert(old(self).big.spec_get(2) == old(self).big.c2 as int);
            assert(old(self).small.spec_get(2) == old(self).small.c2 as int);
            assert(old(self).big.spec_get(3) == old(self).big.c3 as int);
            assert(old(self).small.spec_get(3) == old(self).small.c3 as int);
        }
        let g = PerChannel {
            c0: self.big.c0 - self.small.c0,
            c1: self.big.c1 - self.small.c1,
            c2: self.big.c2 - self.small.c2,
            c3: self.big.c3 - self.small.c3,
        };
        self.grad = g;
        if below_epsilon(&self.cfg, &g) {
            self.phase = Phase::Done;
            return Action::Finished(Stop::Converged);
        }
        let d = dominant_exec(&g);
        self.dom = d;
        proof {
            if abs(g.spec_get(d as int)) < 1 {
                assert(self.cfg.grad_epsilon * self.cfg.base_step >= 1) by (nonlinear_arith)
                    requires
                        self.cfg.grad_epsilon >= 1,
                        self.cfg.base_step >= 1,
                ;
                assert forall|j: int| 0 <= j < 4 implies abs(#[trigger] g.spec_get(j))
                    < self.cfg.grad_epsilon * self.cfg.base_step by {
                    assert(abs(g.spec_get(j)) <= abs(g.spec_get(d as int)));
                }
                assert(grad_below_epsilon(self.cfg, g));
            }
        }
        if self.vis > self.cfg.ceiling {
            self.phase = Phase::Done;
            return Action::Finished(Stop::Converged);
        }
        let step = self.start_step();
        self.step_milli = step;
        self.round_step_milli = step;
        self.meas_count = 1;
        self.forward = true;
        self.search_step_entry(0)
    }

    /// The fresh optimizer; the run opens with a visibility measurement.
    pub fn new(cfg: OptimizerConfig) -> (r: Optimizer)
        requires
            cfg.valid(),
        ensures
            r == initial_optimizer(cfg),
            r.wf(),
            r.awaits_measurement(),
            !r.done(),
    {
        Optimizer {
            cfg,
            phase: Phase::Init,
            round: 1,
            vis: 0,
            baseline: 0,
            big: PerChannel { c0: 0, c1: 0, c2: 0, c3: 0 },
            small: PerChannel { c0: 0, c1: 0, c2: 0, c3: 0 },
            grad: PerChannel { c0: 0, c1: 0, c2: 0, c3: 0 },
            dom: 0,
            forward: true,
            step_milli: 0,
            round_step_milli: 0,
            meas_count: 1,
        }
    }

    /// One measurement inside a gradient probe, executably.
    fn probe_measure_exec(&mut self, k: u8, leg: u8, v: i64) -> (a: Action)
        requires
            old(self).wf(),
            old(self).phase == (Phase::ProbeMeasure { k, leg }),
            -VIS_LIMIT <= v <= VIS_LIMIT,
        ensures
            *final(self) == probe_measure(*old(self), k as int, leg as int, v).0,
            a == probe_measure(*old(self), k as int, leg as int, v).1,
            drive_action_valid(a),
            final(self).wf(),
            final(self).done() <==> a matches Action::Finished(_),
    {
        if leg == 0 {
            proof {
                lemma_set_all_in(self.big, k as int, v, -VIS_LIMIT as int, VIS_LIMIT as int);
            }
            self.big.set(k as usize, v);
            self.phase = Phase::ProbeDrive { k, leg: 1 };
            self.probe_action(k as usize, 1)
        } else if leg == 1 {
            let d = iabs64(self.baseline - v);
            if d > self.cfg.baseline_tolerance {
                self.phase = Phase::Done;
                Action::Finished(Stop::BaselineMismatch { expected: self.baseline, found: v })
            } else {
                self.phase = Phase::ProbeDrive { k, leg: 2 };
                self.probe_action(k as usize, 2)
            }
        } else if leg == 2 {
            proof {
                lemma_set_all_in(self.small, k as int, v, -VIS_LIMIT as int, VIS_LIMIT as int);
            }
            self.small.set(k as usize, v);
            self.phase = Phase::ProbeDrive { k, leg: 3 };
            self.probe_action(k as usize, 3)
        } else {
            let d = iabs64(self.baseline - v);
            if d > self.cfg.baseline_tolerance {
                self.phase = Phase::Done;
                Action::Finished(Stop::BaselineMismatch { expected: self.baseline, found: v })
            } else if k < 3 {
                self.phase = Phase::ProbeDrive { k: k + 1, leg: 0 };
                self.probe_action(k as usize + 1, 0)
            } else {
                self.finish_probe_exec()
            }
        }
    }

    /// One measurement at the end of a combined search move, executably.
    fn search_measure_exec(&mut self, temp: i64) -> (a: Action)
        requires
            old(self).wf(),
            old(self).phase == Phase::SearchMeasure,
            -VIS_LIMIT <= temp <= VIS_LIMIT,
        ensures
            *final(self) == search_measure(*old(self), temp).0,
            a == search_measure(*old(self), temp).1,
            drive_action_valid(a),
            final(self).wf(),
            final(self).done() <==> a matches Action::Finished(_),
            temp > old(self).cfg.ceiling ==> a == Action::Finished(Stop::Converged)
                && final(self).done(),
            temp <= old(self).cfg.ceiling && old(self).meas_count + 1 < 10 && abs(
                old(self).vis - temp,
            ) >= old(self).cfg.stop_delta && temp < old(self).vis ==> {
                &&& final(self).step_milli == old(self).step_milli * 9 / 10
                &&& final(self).forward == !old(self).forward
                &&& final(self).grad == negated(old(self).grad)
            },
    {
        let n = self.meas_count + 1;
        self.meas_count = n;
        let d = iabs64(self.vis - temp);
        if temp > self.cfg.ceiling {
            self.vis = temp;
            self.phase = Phase::Done;
            Action::Finished(Stop::Converged)
        } else if n >= 10 || d < self.cfg.stop_delta {
            self.finish_round()
        } else if self.vis <= temp {
            self.vis = temp;
            self.search_step_entry(0)
        } else {
            proof {
                let s = old(self).step_milli as int;
                lemma_div_is_ordered(s * 9, 144_000, 10);
                vstd::arithmetic::div_mod::lemma_div_pos_is_pos(s * 9, 10);
            }
            self.forward = !self.forward;
            self.step_milli = self.step_milli * 9 / 10;
            self.grad = negated_exec(&self.grad);
            proof {
                let og = old(self).grad;
                assert forall|j: int| 0 <= j < 4 implies abs(#[trigger] self.grad.spec_get(j))
                    == abs(og.spec_get(j)) by {
                    assert(j == 0 || j == 1 || j == 2 || j == 3);
                }
            }
            if self.step_milli < 1000 {
                self.finish_round()
            } else {
                self.vis = temp;
                self.search_step_entry(0)
            }
        }
    }

    /// Feeds one visibility measurement into the optimizer and returns the
    /// next action. The transition is exactly [`on_measurement_spec`];
    /// moreover every command it emits is a valid rotation command, a
    /// failed baseline check ends the run at once with a hardware fault and
    /// no further probing, a line-search measurement above the ceiling
    /// converges the whole run at once, a reversal of the line search
    /// strictly shrinks the step size, and a tenth measurement always ends
    /// the search.
    pub fn on_measurement(&mut self, v: i64) -> (a: Action)
        requires
            old(self).wf(),
            old(self).awaits_measurement(),
            -VIS_LIMIT <= v <= VIS_LIMIT,
        ensures
            *final(self) == on_measurement_spec(*old(self), v).0,
            a == on_measurement_spec(*old(self), v).1,
            final(self).wf(),
            drive_action_valid(a),
            final(self).done() <==> a matches Action::Finished(_),
            (match old(self).phase {
                Phase::ProbeMeasure { k, leg } => (leg == 1 || leg == 3) && abs(
                    old(self).baseline - v,
                ) > old(self).cfg.baseline_tolerance,
                _ => false,
            }) ==> a == Action::Finished(
                Stop::BaselineMismatch { expected: old(self).baseline, found: v },
            ) && final(self).done(),
            old(self).phase == Phase::SearchMeasure && v > old(self).cfg.ceiling ==> a
                == Action::Finished(Stop::Converged) && final(self).done(),
            old(self).phase == Phase::SearchMeasure && v <= old(self).cfg.ceiling && old(
                self,
            ).meas_count + 1 < 10 && abs(old(self).vis - v) >= old(self).cfg.stop_delta && v < old(
                self,
            ).vis ==> {
                &&& final(self).step_milli == old(self).step_milli * 9 / 10
                &&& old(self).step_milli >= 1 ==> final(self).step_milli < old(self).step_milli
                &&& final(self).forward == !old(self).forward
                &&& final(self).grad == negated(old(self).grad)
            },
            old(self).phase == Phase::SearchMeasure && old(self).meas_count + 1 >= 10
                ==> final(self).done() || final(self).phase == Phase::ProbeBaseline,
    {
        proof {
            if old(self).phase == Phase::SearchMeasure {
                let s = old(self).step_milli as int;
                if s >= 1 {
                    lemma_shrink(s);
                } else {
                    vstd::arithmetic::div_mod::lemma_div_of0(10);
                    assert(s * 9 / 10 == 0);
                }
            }
        }
        let a = match self.phase {
            Phase::Init => {
                self.vis = v;
                self.phase = Phase::ProbeBaseline;
                Action::Measure
            },
            Phase::ProbeBaseline => {
                self.baseline = v;
                self.phase = Phase::ProbeDrive { k: 0, leg: 0 };
                self.probe_action(0, 0)
            },
            Phase::ProbeMeasure { k, leg } => self.probe_measure_exec(k, leg, v),
            Phase::SearchMeasure => self.search_measure_exec(v),
            _ => {
                proof {
                    assert(false);
                }
                Action::Measure
            },
        };
        a
    }

    /// Reports the completion of the drive the optimizer last asked for and
    /// returns the next action.
    pub fn on_drive_done(&mut self) -> (a: Action)
        requires
            old(self).wf(),
            old(self).awaits_drive_done(),
        ensures
            *final(self) == on_drive_done_spec(*old(self)).0,
            a == on_drive_done_spec(*old(self)).1,
            final(self).wf(),
            drive_action_valid(a),
            !final(self).done(),
    {
        let a = match self.phase {
            Phase::ProbeDrive { k, leg } => {
                self.phase = Phase::ProbeMeasure { k, leg };
                Action::Measure
            },
            Phase::SearchDrive { j } => self.search_step_entry(j as usize + 1),
            _ => {
                proof {
                    assert(false);
                }
                Action::Measure
            },
        };
        a
    }

    /// Reports that the abort signal was observed: the run ends at once as
    /// cancelled, and no further command is ever issued.
    pub fn on_cancelled(&mut self) -> (a: Action)
        requires
            old(self).wf(),
            !old(self).done(),
        ensures
            *final(self) == halted(*old(self)),
            a == Action::Finished(Stop::Cancelled),
            final(self).wf(),
            final(self).done(),
    {
        self.phase = Phase::Done;
        Action::Finished(Stop::Cancelled)
    }

    /// True when the next event must be a measurement, executably.
    pub fn is_awaiting_measurement(&self) -> (r: bool)
        ensures
            r == self.awaits_measurement(),
    {
        match self.phase {
            Phase::Init => true,
            Phase::ProbeBaseline => true,
            Phase::ProbeMeasure { .. } => true,
            Phase::SearchMeasure => true,
            _ => false,
        }
    }

    /// True when the next event must be the completion of a drive,
    /// executably.
    pub fn is_awaiting_drive_done(&self) -> (r: bool)
        ensures
            r == self.awaits_drive_done(),
    {
        match self.phase {
            Phase::ProbeDrive { .. } => true,
            Phase::SearchDrive { .. } => true,
            _ => false,
        }
    }

    /// True when the run is over, executably.
    pub fn is_done(&self) -> (r: bool)
        ensures
            r == self.done(),
    {
        match self.phase {
            Phase::Done => true,
            _ => false,
        }
    }
}

} // verus!

