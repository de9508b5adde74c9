use mirror_align::optimizer::{Action, Optimizer, OptimizerConfig, PerChannel, Phase, Stop};
use mirror_align::pamc::{drive_params_valid, RotationDirection};

fn config() -> OptimizerConfig {
    OptimizerConfig {
        coef_milli: PerChannel::new(1000, 1000, 1000, 1000),
        base_step: 10,
        grad_epsilon: 10,
        baseline_tolerance: 50_000,
        stop_delta: 100,
        ceiling: 890_000,
    }
}

/// A simulated rig: four actuator positions and a visibility landscape with
/// one peak, dropping linearly with the distance from it.
struct Rig {
    pos: [i64; 4],
    target: [i64; 4],
    peak: i64,
    slope: i64,
}

impl Rig {
    fn vis(&self) -> i64 {
        let mut v = self.peak;
        for j in 0..4 {
            v -= (self.pos[j] - self.target[j]).abs() * self.slope;
        }
        if v < 0 {
            0
        } else {
            v
        }
    }

    fn apply(&mut self, channel: u8, direction: RotationDirection, count: u16) {
        let delta = match direction {
            RotationDirection::Cw => count as i64,
            RotationDirection::Ccw => -(count as i64),
        };
        self.pos[channel as usize] += delta;
    }
}

/// Runs the optimizer against the rig until it finishes, checking every
/// command it emits, and that every line-search reversal strictly shrinks
/// the step size.
fn run(opt: &mut Optimizer, rig: &mut Rig) -> Stop {
    let mut events = 0u32;
    let mut action = opt.on_measurement(rig.vis());
    loop {
        events += 1;
        assert!(events < 10_000, "the optimizer did not finish");
        match action {
            Action::Measure => {
                let in_search = matches!(opt.phase, Phase::SearchMeasure);
                let step_before = opt.step_milli;
                let forward_before = opt.forward;
                action = opt.on_measurement(rig.vis());
                if in_search && opt.forward != forward_before {
                    assert!(
                        opt.step_milli < step_before || step_before == 0,
                        "a reversal must shrink the step"
                    );
                }
            }
            Action::Drive {
                channel,
                direction,
                frequency,
                count,
            } => {
                assert!(drive_params_valid(channel, frequency, count));
                rig.apply(channel, direction, count);
                action = opt.on_drive_done();
            }
            Action::Finished(stop) => {
                assert!(opt.is_done());
                return stop;
            }
        }
    }
}

#[test]
fn a_rising_landscape_converges_at_the_ceiling() {
    let cfg = config();
    assert!(cfg.validate());
    let mut opt = Optimizer::new(cfg);
    let mut rig = Rig {
        pos: [0; 4],
        target: [100; 4],
        peak: 900_000,
        slope: 100,
    };
    assert_eq!(run(&mut opt, &mut rig), Stop::Converged);
    assert!(rig.vis() > cfg.ceiling);
}

#[test]
fn a_flat_landscape_converges_by_the_gradient_threshold() {
    let mut opt = Optimizer::new(config());
    let mut rig = Rig {
        pos: [0; 4],
        target: [0; 4],
        peak: 500_000,
        slope: 0,
    };
    assert_eq!(run(&mut opt, &mut rig), Stop::Converged);
}

#[test]
fn a_dip_in_the_landscape_does_not_make_it_oscillate() {
    // Only one channel matters; the search overshoots the peak, sees the
    // drop, and must keep shrinking its step rather than hunt forever. The
    // `run` harness asserts the strict shrink on every reversal.
    let mut opt = Optimizer::new(OptimizerConfig {
        ceiling: 999_999_999,
        ..config()
    });
    let mut rig = Rig {
        pos: [0; 4],
        target: [100, 0, 0, 0],
        peak: 900_000,
        slope: 100,
    };
    let stop = run(&mut opt, &mut rig);
    assert!(matches!(stop, Stop::Converged | Stop::Exhausted));
}

#[test]
fn a_baseline_mismatch_fails_the_run_at_once() {
    let mut opt = Optimizer::new(config());
    // Scripted by hand: initial visibility, probe baseline, then a forward
    // probe of channel 0 whose restore comes back far from the baseline.
    assert_eq!(opt.on_measurement(500_000), Action::Measure);
    let a = opt.on_measurement(500_000);
    assert_eq!(
        a,
        Action::Drive {
            channel: 0,
            direction: RotationDirection::Cw,
            frequency: 1500,
            count: 10,
        }
    );
    assert_eq!(opt.on_drive_done(), Action::Measure);
    let a = opt.on_measurement(520_000);
    assert_eq!(
        a,
        Action::Drive {
            channel: 0,
            direction: RotationDirection::Ccw,
            frequency: 1500,
            count: 10,
        }
    );
    assert_eq!(opt.on_drive_done(), Action::Measure);
    // 400_000 misses the 500_000 baseline by more than the 50_000 tolerance.
    let a = opt.on_measurement(400_000);
    assert_eq!(
        a,
        Action::Finished(Stop::BaselineMismatch {
            expected: 500_000,
            found: 400_000,
        })
    );
    assert!(opt.is_done());
}

/// Feeds one channel's probe cycle: four times a drive completion followed
/// by the given measurement; returns the action after the last one.
fn feed_probe_channel(opt: &mut Optimizer, values: [i64; 4]) -> Action {
    let mut last = Action::Measure;
    for v in values {
        assert_eq!(opt.on_drive_done(), Action::Measure);
        last = opt.on_measurement(v);
    }
    last
}

#[test]
fn the_ceiling_wins_over_every_other_line_search_stop() {
    // stop_delta is huge, so without the ceiling rule the first search
    // measurement would end the round and open a new probe; above the
    // ceiling the whole run must converge at once instead.
    let mut opt = Optimizer::new(OptimizerConfig {
        baseline_tolerance: 500_000,
        stop_delta: 1_000_000,
        ceiling: 850_000,
        ..config()
    });
    assert_eq!(opt.on_measurement(500_000), Action::Measure);
    let a = opt.on_measurement(500_000);
    assert!(matches!(a, Action::Drive { channel: 0, .. }));
    // Channel 0 has a clear gradient; the others are flat.
    let a = feed_probe_channel(&mut opt, [600_000, 500_000, 400_000, 500_000]);
    assert!(matches!(a, Action::Drive { channel: 1, .. }));
    let a = feed_probe_channel(&mut opt, [500_000; 4]);
    assert!(matches!(a, Action::Drive { channel: 2, .. }));
    let a = feed_probe_channel(&mut opt, [500_000; 4]);
    assert!(matches!(a, Action::Drive { channel: 3, .. }));
    let a = feed_probe_channel(&mut opt, [500_000; 4]);
    // The line search moves only channel 0 and measures.
    assert!(matches!(a, Action::Drive { channel: 0, .. }));
    assert_eq!(opt.on_drive_done(), Action::Measure);
    let a = opt.on_measurement(851_000);
    assert_eq!(a, Action::Finished(Stop::Converged));
    assert!(opt.is_done());
}

#[test]
fn cancellation_stops_the_run_without_further_commands() {
    let mut opt = Optimizer::new(config());
    assert_eq!(opt.on_measurement(500_000), Action::Measure);
    assert!(opt.is_awaiting_measurement());
    let a = opt.on_cancelled();
    assert_eq!(a, Action::Finished(Stop::Cancelled));
    assert!(opt.is_done());
}

#[test]
fn an_out_of_range_configuration_is_rejected() {
    let mut cfg = config();
    cfg.coef_milli = PerChannel::new(0, 1000, 1000, 1000);
    assert!(!cfg.validate());
    let mut cfg = config();
    cfg.base_step = 0;
    assert!(!cfg.validate());
    let mut cfg = config();
    cfg.grad_epsilon = 0;
    assert!(!cfg.validate());
}
