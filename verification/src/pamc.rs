//! Driver for the 4-axis stepper/piezo rotation controller.
//!
//! The controller speaks an ASCII line protocol: a drive command is a
//! direction token (`NR` clockwise, `RR` counter-clockwise), a zero-padded
//! four-digit frequency, a zero-padded four-digit step count, and a channel
//! letter (`A` plus the channel index), terminated by carriage return, line
//! feed. The device answers `OK` when it accepts a command and `FIN` when the
//! motion has completed; any other response is a protocol error that aborts
//! the call without retry.

use vstd::prelude::*;

use crate::framing::{CR, LF};
use crate::link::{bytes_eq, copy_bytes, LinkError, SerialWrapper};
use crate::text::is_ascii_digit;

verus! {

/// Sense of rotation of one actuator channel.
#[derive(Clone, Copy, Debug, PartialEq, Eq, Structural)]
pub enum RotationDirection {
    /// Clockwise.
    Cw,
    /// Counterclockwise.
    Ccw,
}

/// Number of addressable channels on the controller.
pub const CHANNEL_COUNT: u8 = 22;

/// Largest accepted drive frequency.
pub const MAX_FREQUENCY: u16 = 1500;

/// Largest accepted step count. Zero steps is also forbidden: the hardware
/// takes a zero count as an indefinite drive.
pub const MAX_STEP_COUNT: u16 = 9999;

/// The ASCII digit for `d` (`0 <= d <= 9`).
pub open spec fn digit(d: int) -> u8 {
    (48 + d) as u8
}

/// `n` as four zero-padded ASCII digits (`0 <= n <= 9999`).
pub open spec fn dec4(n: int) -> Seq<u8> {
    seq![
        digit(n / 1000 % 10),
        digit(n / 100 % 10),
        digit(n / 10 % 10),
        digit(n % 10),
    ]
}

/// The two-letter direction token: `NR` for clockwise, `RR` for
/// counter-clockwise.
pub open spec fn direction_token(d: RotationDirection) -> Seq<u8> {
    match d {
        RotationDirection::Cw => seq![78u8, 82u8],
        RotationDirection::Ccw => seq![82u8, 82u8],
    }
}

/// The letter addressing channel `ch`: `A` plus the channel index.
pub open spec fn channel_letter(ch: int) -> u8 {
    (65 + ch) as u8
}

/// The full encoded drive command line, terminator included.
pub open spec fn drive_line(ch: int, d: RotationDirection, freq: int, count: int) -> Seq<u8> {
    direction_token(d) + dec4(freq) + dec4(count) + seq![channel_letter(ch), CR, LF]
}

/// The value of four ASCII digits.
pub open spec fn val4(s: Seq<u8>) -> int {
    (s[0] - 48) * 1000 + (s[1] - 48) * 100 + (s[2] - 48) * 10 + (s[3] - 48)
}

/// Reading of an encoded command line back into its fields, defined for
/// exactly the well-formed lines of the documented format: direction
/// token, digits, channel letter and terminator in their fixed places, and
/// the frequency and step count in the ranges the controller accepts.
pub open spec fn decode_drive_line(s: Seq<u8>) -> Option<(int, RotationDirection, int, int)> {
    if s.len() == 13 && (s[0] == 78 || s[0] == 82) && s[1] == 82
        && (forall|j: int| 2 <= j < 10 ==> is_ascii_digit(#[trigger] s[j]))
        && 65 <= s[10] < 65 + CHANNEL_COUNT && s[11] == CR && s[12] == LF
        && 1 <= val4(s.subrange(2, 6)) <= MAX_FREQUENCY
        && 1 <= val4(s.subrange(6, 10)) <= MAX_STEP_COUNT {
        let d = if s[0] == 78 {
            RotationDirection::Cw
        } else {
            RotationDirection::Ccw
        };
        Some((s[10] - 65, d, val4(s.subrange(2, 6)), val4(s.subrange(6, 10))))
    } else {
        None
    }
}

/// Four zero-padded digits read back as the number they encode.
proof fn lemma_val4_dec4(n: int)
    requires
        0 <= n <= 9999,
    ensures
        val4(dec4(n)) == n,
        forall|j: int| 0 <= j < 4 ==> is_ascii_digit(#[trigger] dec4(n)[j]),
{
    assert(n / 1000 % 10 == n / 1000 && n == 1000 * (n / 1000) + 100 * (n / 100 % 10) + 10 * (n
        / 10 % 10) + n % 10) by (nonlinear_arith)
        requires
            0 <= n <= 9999,
    ;
}

/// A string of four digits read back as a number re-encodes to itself.
proof fn lemma_dec4_val4(ds: Seq<u8>)
    requires
        ds.len() == 4,
        forall|j: int| 0 <= j < 4 ==> is_ascii_digit(#[trigger] ds[j]),
    ensures
        0 <= val4(ds) <= 9999,
        dec4(val4(ds)) == ds,
{
    let d0 = ds[0] - 48;
    let d1 = ds[1] - 48;
    let d2 = ds[2] - 48;
    let d3 = ds[3] - 48;
    let n = val4(ds);
    assert(n == 1000 * d0 + (100 * d1 + 10 * d2 + d3));
    vstd::arithmetic::div_mod::lemma_fundamental_div_mod_converse_div(
        n,
        1000,
        d0,
        100 * d1 + 10 * d2 + d3,
    );
    assert(n == 100 * (10 * d0 + d1) + (10 * d2 + d3));
    vstd::arithmetic::div_mod::lemma_fundamental_div_mod_converse_div(
        n,
        100,
        10 * d0 + d1,
        10 * d2 + d3,
    );
    vstd::arithmetic::div_mod::lemma_fundamental_div_mod_converse_mod(
        10 * d0 + d1,
        10,
        d0,
        d1,
    );
    assert(n == 10 * (100 * d0 + 10 * d1 + d2) + d3);
    vstd::arithmetic::div_mod::lemma_fundamental_div_mod_converse_div(
        n,
        10,
        100 * d0 + 10 * d1 + d2,
        d3,
    );
    vstd::arithmetic::div_mod::lemma_fundamental_div_mod_converse_mod(
        100 * d0 + 10 * d1 + d2,
        10,
        10 * d0 + d1,
        d2,
    );
    vstd::arithmetic::div_mod::lemma_fundamental_div_mod_converse_mod(
        n,
        10,
        100 * d0 + 10 * d1 + d2,
        d3,
    );
    vstd::arithmetic::div_mod::lemma_fundamental_div_mod_converse_mod(
        n / 1000,
        10,
        0,
        d0,
    );
    assert(dec4(n) =~= ds);
}

/// Command encoding round-trips exactly: every valid parameter combination
/// encodes to a line of the documented fixed-width format that decodes back
/// to the same channel, direction, frequency and step count.
pub proof fn lemma_drive_line_round_trip(ch: int, d: RotationDirection, freq: int, count: int)
    requires
        0 <= ch < CHANNEL_COUNT,
        1 <= freq <= MAX_FREQUENCY,
        1 <= count <= MAX_STEP_COUNT,
    ensures
        decode_drive_line(drive_line(ch, d, freq, count)) == Some((ch, d, freq, count)),
{
    let s = drive_line(ch, d, freq, count);
    lemma_val4_dec4(freq);
    lemma_val4_dec4(count);
    assert(s.subrange(2, 6) =~= dec4(freq));
    assert(s.subrange(6, 10) =~= dec4(count));
    assert(s[10] - 65 == ch);
}

/// And the converse: the documented format is unambiguous. Every line that
/// decodes at all carries in-range parameters and is exactly the encoding
/// of what it decodes to; in particular no decodable line carries a zero
/// step count or a channel beyond the controller's range.
pub proof fn lemma_decode_drive_line_complete(s: Seq<u8>)
    ensures
        decode_drive_line(s) matches Some((ch, d, freq, count)) ==> {
            &&& 0 <= ch < CHANNEL_COUNT
            &&& 1 <= freq <= MAX_FREQUENCY
            &&& 1 <= count <= MAX_STEP_COUNT
            &&& s == drive_line(ch, d, freq, count)
        },
{
    if decode_drive_line(s) is Some {
        let (ch, d, freq, count) = decode_drive_line(s)->Some_0;
        lemma_dec4_val4(s.subrange(2, 6));
        lemma_dec4_val4(s.subrange(6, 10));
        assert(s =~= drive_line(ch, d, freq, count));
    }
}

/// The executable encoder: builds the command line of `drive_line`.
pub fn encode_drive_command(
    channel: u8,
    direction: RotationDirection,
    frequency: u16,
    count: u16,
) -> (r: Vec<u8>)
    requires
        channel < CHANNEL_COUNT,
        1 <= frequency <= MAX_FREQUENCY,
        1 <= count <= MAX_STEP_COUNT,
    ensures
        r@ == drive_line(channel as int, direction, frequency as int, count as int),
{
    let mut r: Vec<u8> = Vec::new();
    match direction {
        RotationDirection::Cw => {
            r.push(78);
            r.push(82);
        },
        RotationDirection::Ccw => {
            r.push(82);
            r.push(82);
        },
    }
    push_dec4(&mut r, frequency);
    push_dec4(&mut r, count);
    r.push(65 + channel);
    r.push(CR);
    r.push(LF);
    proof {
        assert(r@ =~= drive_line(channel as int, direction, frequency as int, count as int));
    }
    r
}

/// Appends `n` as four zero-padded ASCII digits.
fn push_dec4(r: &mut Vec<u8>, n: u16)
    requires
        n <= 9999,
    ensures
        final(r)@ == old(r)@ + dec4(n as int),
{
    r.push(48 + (n / 1000 % 10) as u8);
    r.push(48 + (n / 100 % 10) as u8);
    r.push(48 + (n / 10 % 10) as u8);
    r.push(48 + (n % 10) as u8);
    proof {
        assert(r@ =~= old(r)@ + dec4(n as int));
    }
}

/// True exactly when the parameters lie in the ranges the controller
/// accepts; out-of-range parameters must be rejected before any
/// transmission.
pub fn drive_params_valid(channel: u8, frequency: u16, count: u16) -> (r: bool)
    ensures
        r <==> channel < CHANNEL_COUNT && 1 <= frequency <= MAX_FREQUENCY && 1 <= count
            <= MAX_STEP_COUNT,
{
    channel < CHANNEL_COUNT && 1 <= frequency && frequency <= MAX_FREQUENCY && 1 <= count && count
        <= MAX_STEP_COUNT
}

/// The connection-check line sent at setup time, terminator included.
pub open spec fn connection_check_line() -> Seq<u8> {
    seq![67u8, 79u8, 78u8, CR, LF]
}

/// The acknowledgement token expected after every command.
pub open spec fn ok_token() -> Seq<u8> {
    seq![79u8, 75u8]
}

/// The completion token expected after the motion of a drive command ends.
pub open spec fn fin_token() -> Seq<u8> {
    seq![70u8, 73u8, 78u8]
}

/// A failure of the rotation controller driver.
#[derive(Clone, Debug)]
pub enum PamcError {
    /// The serial link is gone.
    Link(LinkError),
    /// The device answered `found` where the protocol required `expected`.
    UnexpectedResponse { expected: Vec<u8>, found: Vec<u8> },
}

/// Builds the connection-check line of `connection_check_line`.
pub fn encode_connection_check() -> (r: Vec<u8>)
    ensures
        r@ == connection_check_line(),
{
    let mut r: Vec<u8> = Vec::new();
    r.push(67);
    r.push(79);
    r.push(78);
    r.push(CR);
    r.push(LF);
    proof {
        assert(r@ =~= connection_check_line());
    }
    r
}

/// The decision on one received acknowledgement frame: acceptance exactly
/// when the frame equals the expected token, otherwise the protocol error
/// naming both sides; never a link error.
pub fn check_token(frame: Vec<u8>, expect: &[u8]) -> (r: Result<(), PamcError>)
    ensures
        r is Ok <==> frame@ == expect@,
        r matches Err(PamcError::UnexpectedResponse { expected, found }) ==> expected@ == expect@
            && found@ == frame@ && frame@ != expect@,
        !(r matches Err(PamcError::Link(_))),
{
    if bytes_eq(frame.as_slice(), expect) {
        Ok(())
    } else {
        Err(
            PamcError::UnexpectedResponse {
                expected: copy_bytes(expect),
                found: frame,
            },
        )
    }
}

/// The rotation controller attached to one serial link.
pub struct Pamc112 {
    serial_wrapper: SerialWrapper,
}

impl Pamc112 {
    /// Takes ownership of the link and performs the setup-time connection
    /// check; a controller is handed out only once the check has passed.
    pub fn new(serial_wrapper: SerialWrapper) -> (r: Result<Pamc112, PamcError>)
        ensures
            r matches Err(PamcError::UnexpectedResponse { expected, found }) ==> expected@
                == ok_token() && found@ != ok_token(),
    {
        let mut ret = Pamc112 { serial_wrapper };
        match ret.check_connection() {
            Ok(()) => Ok(ret),
            Err(e) => Err(e),
        }
    }

    /// Sends the fixed handshake line and requires the exact `OK`
    /// acknowledgement in response.
    pub fn check_connection(&mut self) -> (r: Result<(), PamcError>)
        ensures
            r matches Err(PamcError::UnexpectedResponse { expected, found }) ==> expected@
                == ok_token() && found@ != ok_token(),
    {
        let line = encode_connection_check();
        match self.serial_wrapper.send(line) {
            Ok(()) => {},
            Err(e) => {
                return Err(PamcError::Link(e));
            },
        }
        let expect: [u8; 2] = [79, 75];
        proof {
            assert(expect@ =~= ok_token());
        }
        self.read_wait(&expect)
    }

    /// Encodes and transmits one drive command, then requires, in strict
    /// order, the `OK` acknowledgement and the `FIN` completion token. Any
    /// other response, and a dead link, abort the call without retry.
    ///
    /// The parameter ranges are preconditions: an out-of-range command must
    /// never reach the wire (`drive_params_valid` tests them).
    pub fn drive(
        &mut self,
        channel: u8,
        direction: RotationDirection,
        frequency: u16,
        count: u16,
    ) -> (r: Result<(), PamcError>)
        requires
            channel < CHANNEL_COUNT,
            1 <= frequency <= MAX_FREQUENCY,
            1 <= count <= MAX_STEP_COUNT,
        ensures
            r matches Err(PamcError::UnexpectedResponse { expected, found }) ==> (expected@
                == ok_token() || expected@ == fin_token()) && found@ != expected@,
    {
        let line = encode_drive_command(channel, direction, frequency, count);
        match self.serial_wrapper.send(line) {
            Ok(()) => {},
            Err(e) => {
                return Err(PamcError::Link(e));
            },
        }
        let expect_ok: [u8; 2] = [79, 75];
        proof {
            assert(expect_ok@ =~= ok_token());
        }
        match self.read_wait(&expect_ok) {
            Ok(()) => {},
            Err(e) => {
                return Err(e);
            },
        }
        let expect_fin: [u8; 3] = [70, 73, 78];
        proof {
            assert(expect_fin@ =~= fin_token());
        }
        self.read_wait(&expect_fin)
    }

    /// Blocks for the next inbound frame and hands it to [`check_token`]:
    /// the frame decides, and `check_token`'s contract says how.
    fn read_wait(&mut self, expect: &[u8]) -> (r: Result<(), PamcError>)
        ensures
            r matches Err(PamcError::UnexpectedResponse { expected, found }) ==> expected@
                == expect@ && found@ != expect@,
    {
        let read = match self.serial_wrapper.receive() {
            Ok(frame) => frame,
            Err(e) => {
                return Err(PamcError::Link(e));
            },
        };
        check_token(read, expect)
    }
}

} // verus!
