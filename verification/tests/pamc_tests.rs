use std::sync::mpsc;

use mirror_align::framing::FrameSplitter;
use mirror_align::link::SerialWrapper;
use mirror_align::pamc::{
    check_token, drive_params_valid, encode_drive_command, Pamc112, PamcError, RotationDirection,
};

/// A fake serial link: the test plays the device, with `device_in` showing
/// what the driver wrote and `device_out` feeding it response frames.
fn fake_link() -> (SerialWrapper, mpsc::Receiver<Vec<u8>>, mpsc::Sender<Vec<u8>>) {
    let (frames_tx, frames_rx) = mpsc::channel();
    let (bytes_tx, bytes_rx) = mpsc::channel();
    (SerialWrapper::new(frames_rx, bytes_tx), bytes_rx, frames_tx)
}

#[test]
fn encodes_the_documented_fixed_width_format() {
    let line = encode_drive_command(0, RotationDirection::Cw, 1500, 16);
    assert_eq!(line, b"NR15000016A\r\n".to_vec());
    let line = encode_drive_command(2, RotationDirection::Ccw, 731, 5);
    assert_eq!(line, b"RR07310005C\r\n".to_vec());
    let line = encode_drive_command(21, RotationDirection::Cw, 1, 9999);
    assert_eq!(line, b"NR00019999V\r\n".to_vec());
}

#[test]
fn rejects_out_of_range_parameters_before_transmission() {
    assert!(drive_params_valid(0, 1, 1));
    assert!(drive_params_valid(21, 1500, 9999));
    assert!(!drive_params_valid(22, 1500, 10));
    assert!(!drive_params_valid(0, 0, 10));
    assert!(!drive_params_valid(0, 1501, 10));
    assert!(!drive_params_valid(0, 1500, 0));
    assert!(!drive_params_valid(0, 1500, 10000));
}

#[test]
fn a_frame_is_accepted_exactly_when_it_equals_the_token() {
    assert!(check_token(b"OK".to_vec(), b"OK").is_ok());
    match check_token(b"OK ".to_vec(), b"OK") {
        Err(PamcError::UnexpectedResponse { expected, found }) => {
            assert_eq!(expected, b"OK".to_vec());
            assert_eq!(found, b"OK ".to_vec());
        }
        _ => panic!("expected a protocol error"),
    }
}

#[test]
fn connection_check_sends_handshake_and_accepts_ok() {
    let (link, device_in, device_out) = fake_link();
    device_out.send(b"OK".to_vec()).unwrap();
    let controller = Pamc112::new(link);
    assert!(controller.is_ok());
    assert_eq!(device_in.recv().unwrap(), b"CON\r\n".to_vec());
}

#[test]
fn connection_check_rejects_other_responses() {
    let (link, _device_in, device_out) = fake_link();
    device_out.send(b"NG".to_vec()).unwrap();
    match Pamc112::new(link) {
        Err(PamcError::UnexpectedResponse { expected, found }) => {
            assert_eq!(expected, b"OK".to_vec());
            assert_eq!(found, b"NG".to_vec());
        }
        _ => panic!("expected a protocol error"),
    }
}

#[test]
fn drive_requires_ok_then_fin() {
    let (link, device_in, device_out) = fake_link();
    device_out.send(b"OK".to_vec()).unwrap();
    let mut controller = Pamc112::new(link).unwrap();
    device_in.recv().unwrap();

    device_out.send(b"OK".to_vec()).unwrap();
    device_out.send(b"FIN".to_vec()).unwrap();
    assert!(controller.drive(3, RotationDirection::Cw, 1500, 120).is_ok());
    assert_eq!(device_in.recv().unwrap(), b"NR15000120D\r\n".to_vec());
}

#[test]
fn drive_fails_on_wrong_completion_token() {
    let (link, device_in, device_out) = fake_link();
    device_out.send(b"OK".to_vec()).unwrap();
    let mut controller = Pamc112::new(link).unwrap();
    device_in.recv().unwrap();

    device_out.send(b"OK".to_vec()).unwrap();
    device_out.send(b"ERR".to_vec()).unwrap();
    match controller.drive(0, RotationDirection::Ccw, 100, 1) {
        Err(PamcError::UnexpectedResponse { expected, found }) => {
            assert_eq!(expected, b"FIN".to_vec());
            assert_eq!(found, b"ERR".to_vec());
        }
        _ => panic!("expected a protocol error"),
    }
}

#[test]
fn responses_reassembled_from_arbitrary_chunks_complete_the_handshake() {
    let (link, device_in, device_out) = fake_link();
    device_out.send(b"OK".to_vec()).unwrap();
    let mut controller = Pamc112::new(link).unwrap();
    device_in.recv().unwrap();

    // The device's bytes arrive in odd chunks; the splitter frames them as
    // the background worker would.
    let mut splitter = FrameSplitter::new();
    for chunk in [b"O".as_slice(), b"K\r", b"\nFI", b"N\r\n"] {
        splitter.feed(chunk);
        while let Some(frame) = splitter.next_frame() {
            device_out.send(frame).unwrap();
        }
    }
    assert!(controller.drive(1, RotationDirection::Cw, 900, 42).is_ok());
    assert_eq!(device_in.recv().unwrap(), b"NR09000042B\r\n".to_vec());
}

#[test]
fn a_dead_link_is_a_link_error() {
    let (link, device_in, device_out) = fake_link();
    drop(device_out);
    match Pamc112::new(link) {
        Err(PamcError::Link(_)) => {}
        _ => panic!("expected a link error"),
    }
    drop(device_in);
}
