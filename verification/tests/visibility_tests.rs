use mirror_align::visibility::{
    visibility_ppm, ChannelNumber, MetricError, WaitForAcquisition, WaitOutcome,
};

#[test]
fn metric_of_a_plain_ramp() {
    // (5 - 1) / (5 + 1) = 0.6667, in parts per million, rounded down.
    assert_eq!(visibility_ppm(&vec![1, 2, 3, 4, 5]), Ok(666_666));
}

#[test]
fn a_zero_sum_of_extremes_is_undefined_not_infinite() {
    assert_eq!(
        visibility_ppm(&vec![-1, 1]),
        Err(MetricError::DegenerateWaveform)
    );
}

#[test]
fn a_negative_sum_of_extremes_gives_the_formula_value() {
    // (10000 - (-30000)) / (10000 + (-30000)) = 40000 / -20000 = -2.
    assert_eq!(visibility_ppm(&vec![-30000, 10000]), Ok(-2_000_000));
    // Rounds toward zero on the negative side too: 5 / -3 = -1.666...
    assert_eq!(visibility_ppm(&vec![-4, 1]), Ok(-1_666_666));
}

#[test]
fn an_empty_acquisition_is_an_error() {
    assert_eq!(visibility_ppm(&vec![]), Err(MetricError::EmptyWaveform));
}

#[test]
fn metric_edge_values() {
    // A flat waveform has no contrast at all.
    assert_eq!(visibility_ppm(&vec![5, 5, 5]), Ok(0));
    // A minimum of zero gives full contrast.
    assert_eq!(visibility_ppm(&vec![0, 10]), Ok(1_000_000));
    // Order of samples does not matter.
    assert_eq!(visibility_ppm(&vec![5, 1, 4, 2, 3]), Ok(666_666));
}

#[test]
fn cancellation_wins_over_everything_in_the_wait() {
    let wait = WaitForAcquisition::new(7);
    assert_eq!(wait.observe(7, true), WaitOutcome::Cancelled);
    assert_eq!(wait.observe(8, true), WaitOutcome::Cancelled);
}

#[test]
fn the_wait_retries_until_the_count_advances() {
    let wait = WaitForAcquisition::new(7);
    assert_eq!(wait.observe(7, false), WaitOutcome::NotYet);
    assert_eq!(wait.observe(8, false), WaitOutcome::Ready(8));
    assert_eq!(wait.observe(12, false), WaitOutcome::Ready(8));
}

#[test]
fn channel_numbers_carry_their_parts() {
    let ch = ChannelNumber::new(3, 1);
    assert_eq!(ch.channel, 3);
    assert_eq!(ch.sub_channel, 1);
}
