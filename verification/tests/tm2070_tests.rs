use std::sync::mpsc;

use mirror_align::angle::{Angle, Sign, Unit};
use mirror_align::link::SerialWrapper;
use mirror_align::tm2070::{
    decode_response, encode_continuous_command, parse_sampling_data_1, Judge, Tm2070,
    Tm2070Error,
};

fn fake_link() -> (SerialWrapper, mpsc::Receiver<Vec<u8>>, mpsc::Sender<Vec<u8>>) {
    let (frames_tx, frames_rx) = mpsc::channel();
    let (bytes_tx, bytes_rx) = mpsc::channel();
    (SerialWrapper::new(frames_rx, bytes_tx), bytes_rx, frames_tx)
}

#[test]
fn parses_a_plain_degree_line() {
    let d = parse_sampling_data_1(b"1,deg,1.5,-2.5,ND,3.0,OK").unwrap();
    assert_eq!(d.unit, Unit::Deg);
    assert_eq!(d.x, Some(Angle::Deg(1_500_000)));
    assert_eq!(d.y, Some(Angle::Deg(-2_500_000)));
    assert_eq!(d.norm, None);
    assert_eq!(d.direction.0, 3_000_000);
    assert!(matches!(d.judge, Judge::Okay));
}

#[test]
fn an_unknown_unit_fails_to_parse() {
    let r = parse_sampling_data_1(b"1,furlong,1.5,-2.5,ND,3.0,OK");
    assert_eq!(r.err(), Some(Tm2070Error::Parse));
}

#[test]
fn the_dash_marker_reads_as_not_determined() {
    let d = parse_sampling_data_1(b"1,mrad,-,0.5,-,0.25,NG").unwrap();
    assert_eq!(d.unit, Unit::MRad);
    assert_eq!(d.x, None);
    assert_eq!(d.y, Some(Angle::MRad(500_000)));
    assert_eq!(d.norm, None);
    assert_eq!(d.direction.0, 250_000);
    assert!(matches!(d.judge, Judge::Ng));
}

#[test]
fn parses_a_degrees_minutes_seconds_line() {
    let line = b"1,deg-min-sec,P,1,2,3,M,4,5,6.5,-,-,-,-,0.0,ND";
    let d = parse_sampling_data_1(line).unwrap();
    assert_eq!(d.unit, Unit::DegMinSec);
    assert_eq!(
        d.x,
        Some(Angle::DegMinSec(Sign::Positive, 1_000_000, 2_000_000, 3_000_000))
    );
    assert_eq!(
        d.y,
        Some(Angle::DegMinSec(Sign::Negative, 4_000_000, 5_000_000, 6_500_000))
    );
    assert_eq!(d.norm, None);
    assert_eq!(d.direction.0, 0);
    assert!(matches!(d.judge, Judge::Nd));
}

#[test]
fn a_sign_field_takes_only_p_m_or_hyphen() {
    // `ND` marks a not-determined angle component, never a sign.
    let line = b"1,deg-min-sec,ND,-,-,-,M,1,2,3,-,-,-,-,0.0,OK";
    assert_eq!(parse_sampling_data_1(line).err(), Some(Tm2070Error::Parse));
}

#[test]
fn a_half_determined_angle_is_inconsistent() {
    let line = b"1,min-sec,P,-,2,P,1,2,P,1,2,0.0,OK";
    assert_eq!(parse_sampling_data_1(line).err(), Some(Tm2070Error::Parse));
}

#[test]
fn a_wrong_field_count_fails_to_parse() {
    assert_eq!(
        parse_sampling_data_1(b"1,deg,1.5,-2.5,ND,3.0").err(),
        Some(Tm2070Error::Parse)
    );
    assert_eq!(
        parse_sampling_data_1(b"1,deg,1.5,-2.5,ND,3.0,OK,extra").err(),
        Some(Tm2070Error::Parse)
    );
}

#[test]
fn a_wrong_leader_fails_to_parse() {
    assert_eq!(
        parse_sampling_data_1(b"2,deg,1.5,-2.5,ND,3.0,OK").err(),
        Some(Tm2070Error::Parse)
    );
}

#[test]
fn fields_are_trimmed_and_judge_keeps_unknown_codes() {
    let d = parse_sampling_data_1(b" 1 , deg , 1.5 , -2.5 , ND , 3.0 , HUH ").unwrap();
    assert_eq!(d.x, Some(Angle::Deg(1_500_000)));
    match d.judge {
        Judge::Unknown(raw) => assert_eq!(raw, b"HUH".to_vec()),
        _ => panic!("expected an unknown judge code"),
    }
}

#[test]
fn short_decimals_are_read_exactly() {
    let d = parse_sampling_data_1(b"1,deg,0.000001,2.,-.5,1,OK").unwrap();
    assert_eq!(d.x, Some(Angle::Deg(1)));
    assert_eq!(d.y, Some(Angle::Deg(2_000_000)));
    assert_eq!(d.norm, Some(Angle::Deg(-500_000)));
    assert_eq!(d.direction.0, 1_000_000);
}

#[test]
fn too_many_fractional_digits_fail_to_parse() {
    assert_eq!(
        parse_sampling_data_1(b"1,deg,1.1234567,1,1,1,OK").err(),
        Some(Tm2070Error::Parse)
    );
}

#[test]
fn the_tilt_direction_must_be_numeric() {
    assert_eq!(
        parse_sampling_data_1(b"1,deg,1,1,1,-,OK").err(),
        Some(Tm2070Error::Parse)
    );
}

#[test]
fn single_sample_sends_query_and_decodes_response() {
    let (link, device_in, device_out) = fake_link();
    device_out
        .send(b"1,deg,1.5,-2.5,ND,3.0,OK".to_vec())
        .unwrap();
    let mut sensor = Tm2070::new(link);
    let d = sensor.single_1().unwrap();
    assert_eq!(device_in.recv().unwrap(), b"G\r\n".to_vec());
    assert_eq!(d.x, Some(Angle::Deg(1_500_000)));
}

#[test]
fn a_frame_is_judged_error_token_first_then_parsed() {
    assert_eq!(decode_response(b"ERR").err(), Some(Tm2070Error::Device));
    assert_eq!(decode_response(b"ERRX").err(), Some(Tm2070Error::Parse));
    let d = decode_response(b"1,deg,1.5,-2.5,ND,3.0,OK").unwrap();
    assert_eq!(d.x, Some(Angle::Deg(1_500_000)));
}

#[test]
fn the_error_token_is_a_device_error_not_a_parse_error() {
    let (link, _device_in, device_out) = fake_link();
    device_out.send(b"ERR".to_vec()).unwrap();
    let mut sensor = Tm2070::new(link);
    assert_eq!(sensor.single_1().err(), Some(Tm2070Error::Device));
}

#[test]
fn continuous_streaming_start_poll_and_stop() {
    let (link, device_in, device_out) = fake_link();
    let sensor = Tm2070::new(link);
    let mut handle = sensor.continuous_1(Some(250)).unwrap();
    assert_eq!(device_in.recv().unwrap(), b"L,250\r\n".to_vec());

    device_out
        .send(b"1,min,0.5,0.5,0.7,1.0,OK".to_vec())
        .unwrap();
    device_out.send(b"ERR".to_vec()).unwrap();
    let first = handle.poll().unwrap().unwrap();
    assert_eq!(first.x, Some(Angle::Min(500_000)));
    assert_eq!(handle.poll().unwrap().err(), Some(Tm2070Error::Device));
    assert!(handle.poll().is_none());

    handle.close().unwrap();
    assert_eq!(device_in.recv().unwrap(), b"S\r\n".to_vec());
}

#[test]
fn continuous_without_interval_sends_bare_start() {
    assert_eq!(encode_continuous_command(None), b"L\r\n".to_vec());
    assert_eq!(encode_continuous_command(Some(7)), b"L,7\r\n".to_vec());
    assert_eq!(encode_continuous_command(Some(1000)), b"L,1000\r\n".to_vec());
}
