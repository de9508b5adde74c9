//! Driver for the two-axis angle/position sensor.
//!
//! The sensor answers a single-sample query (`G`) with one reading, or
//! streams readings after a start command (`L`, optionally with a sampling
//! interval) until a stop command (`S`). A reading is one comma-separated
//! line: a fixed leader `1`, the unit, the X, Y and norm angles — each either
//! numeric or the not-determined marker — a signed tilt direction in
//! degrees, and a judge code. The line `ERR` is the device's own error
//! report, distinct from a malformed line.

use vstd::prelude::*;

use crate::angle::{Angle, Sign, Unit};
use crate::framing::{CR, LF};
use crate::link::{bytes_eq, copy_bytes, LinkError, Polled, SerialWrapper};
use crate::text::{
    parse_decimal_micro, spec_decimal_micro, split_and_trim, trimmed_fields,
};

verus! {

/// A failure of the angle sensor driver.
#[derive(Clone, Copy, Debug, PartialEq, Eq, Structural)]
pub enum Tm2070Error {
    /// The serial link is gone.
    Link(LinkError),
    /// The device sent its fixed error token in place of a reading.
    Device,
    /// The line was structurally malformed; reported per sample.
    Parse,
}

/// The judge code at the end of every reading.
#[derive(Clone, Debug)]
pub enum Judge {
    Okay,
    Ng,
    Nd,
    Er,
    /// Any other code, kept verbatim.
    Unknown(Vec<u8>),
}

/// Mathematical image of a judge code.
pub enum JudgeView {
    Okay,
    Ng,
    Nd,
    Er,
    Unknown(Seq<u8>),
}

impl View for Judge {
    type V = JudgeView;

    open spec fn view(&self) -> JudgeView {
        match self {
            Judge::Okay => JudgeView::Okay,
            Judge::Ng => JudgeView::Ng,
            Judge::Nd => JudgeView::Nd,
            Judge::Er => JudgeView::Er,
            Judge::Unknown(w) => JudgeView::Unknown(w@),
        }
    }
}

/// The signed tilt direction of a reading, in micro-degrees.
#[derive(Clone, Copy, Debug, PartialEq, Eq, Structural)]
pub struct TiltDirection(pub i64);

/// One decoded reading of the sensor.
#[derive(Clone, Debug)]
pub struct SamplingData1 {
    pub unit: Unit,
    /// The X angle; nothing when the sensor reported it not determined.
    pub x: Option<Angle>,
    /// The Y angle; nothing when the sensor reported it not determined.
    pub y: Option<Angle>,
    /// The norm angle; nothing when the sensor reported it not determined.
    pub norm: Option<Angle>,
    pub direction: TiltDirection,
    pub judge: Judge,
}

/// Mathematical image of a reading.
pub struct SampleView {
    pub unit: Unit,
    pub x: Option<Angle>,
    pub y: Option<Angle>,
    pub norm: Option<Angle>,
    pub direction: int,
    pub judge: JudgeView,
}

impl View for SamplingData1 {
    type V = SampleView;

    open spec fn view(&self) -> SampleView {
        SampleView {
            unit: self.unit,
            x: self.x,
            y: self.y,
            norm: self.norm,
            direction: self.direction.0 as int,
            judge: self.judge@,
        }
    }
}

/// The device's fixed error token.
pub open spec fn error_token() -> Seq<u8> {
    seq![69u8, 82u8, 82u8]
}

/// The unit named by a unit field, if any.
pub open spec fn spec_parse_unit(w: Seq<u8>) -> Option<Unit> {
    if w == seq![109u8, 105u8, 110u8] {
        Some(Unit::Min)
    } else if w == seq![100u8, 101u8, 103u8] {
        Some(Unit::Deg)
    } else if w == seq![109u8, 100u8, 101u8, 103u8] {
        Some(Unit::MDeg)
    } else if w == seq![109u8, 114u8, 97u8, 100u8] {
        Some(Unit::MRad)
    } else if w == seq![
        100u8,
        101u8,
        103u8,
        45u8,
        109u8,
        105u8,
        110u8,
        45u8,
        115u8,
        101u8,
        99u8,
    ] {
        Some(Unit::DegMinSec)
    } else if w == seq![109u8, 105u8, 110u8, 45u8, 115u8, 101u8, 99u8] {
        Some(Unit::MinSec)
    } else {
        None
    }
}

/// True for the field values the sensor uses for a not-determined angle
/// component (the sign field of a multi-field angle takes only the bare
/// hyphen, see [`spec_sign`]).
pub open spec fn nd_marker(w: Seq<u8>) -> bool {
    w == seq![45u8] || w == seq![78u8, 68u8]
}

/// One numeric component: nothing nested for the not-determined marker, a
/// value for a well-formed decimal, and no reading otherwise.
pub open spec fn spec_component(w: Seq<u8>) -> Option<Option<i64>> {
    if nd_marker(w) {
        Some(None)
    } else {
        match spec_decimal_micro(w) {
            Some(v) => Some(Some(v)),
            None => None,
        }
    }
}

/// The sign field of a degrees-minutes-seconds reading: exactly `P`, `M`,
/// or the bare hyphen for a not-determined reading; anything else is a
/// parse failure.
pub open spec fn spec_sign(w: Seq<u8>) -> Option<Option<Sign>> {
    if w == seq![80u8] {
        Some(Some(Sign::Positive))
    } else if w == seq![77u8] {
        Some(Some(Sign::Negative))
    } else if w == seq![45u8] {
        Some(None)
    } else {
        None
    }
}

/// How many comma-separated fields one angle of unit `u` occupies.
pub open spec fn angle_field_count(u: Unit) -> int {
    match u {
        Unit::DegMinSec => 4,
        Unit::MinSec => 3,
        _ => 1,
    }
}

/// One angle read from its fields: a parse failure, a not-determined
/// reading, or a value. A multi-field angle must use the not-determined
/// marker in all of its fields or in none.
pub open spec fn spec_parse_angle(u: Unit, fs: Seq<Seq<u8>>) -> Option<Option<Angle>>
    recommends
        fs.len() == angle_field_count(u),
{
    match u {
        Unit::Min => match spec_component(fs[0]) {
            Some(Some(v)) => Some(Some(Angle::Min(v))),
            Some(None) => Some(None),
            None => None,
        },
        Unit::Deg => match spec_component(fs[0]) {
            Some(Some(v)) => Some(Some(Angle::Deg(v))),
            Some(None) => Some(None),
            None => None,
        },
        Unit::MDeg => match spec_component(fs[0]) {
            Some(Some(v)) => Some(Some(Angle::MDeg(v))),
            Some(None) => Some(None),
            None => None,
        },
        Unit::MRad => match spec_component(fs[0]) {
            Some(Some(v)) => Some(Some(Angle::MRad(v))),
            Some(None) => Some(None),
            None => None,
        },
        Unit::DegMinSec => match (
            spec_sign(fs[0]),
            spec_component(fs[1]),
            spec_component(fs[2]),
            spec_component(fs[3]),
        ) {
            (Some(Some(sg)), Some(Some(d)), Some(Some(m)), Some(Some(s))) => Some(
                Some(Angle::DegMinSec(sg, d, m, s)),
            ),
            (Some(None), Some(None), Some(None), Some(None)) => Some(None),
            _ => None,
        },
        Unit::MinSec => match (
            spec_sign(fs[0]),
            spec_component(fs[1]),
            spec_component(fs[2]),
        ) {
            (Some(Some(sg)), Some(Some(m)), Some(Some(s))) => Some(
                Some(Angle::MinSec(sg, m, s)),
            ),
            (Some(None), Some(None), Some(None)) => Some(None),
            _ => None,
        },
    }
}

/// The judge code of its field; unknown codes are kept verbatim, never a
/// parse failure.
pub open spec fn spec_parse_judge(w: Seq<u8>) -> JudgeView {
    if w == seq![79u8, 75u8] {
        JudgeView::Okay
    } else if w == seq![78u8, 71u8] {
        JudgeView::Ng
    } else if w == seq![78u8, 68u8] {
        JudgeView::Nd
    } else if w == seq![69u8, 82u8] {
        JudgeView::Er
    } else {
        JudgeView::Unknown(w)
    }
}

/// The views of a list of field buffers.
pub open spec fn field_views(fs: Seq<Vec<u8>>) -> Seq<Seq<u8>> {
    fs.map_values(|f: Vec<u8>| f@)
}

/// The reading written by one line, if it is well formed: the fields are the
/// line split at commas and trimmed; the first must be the leader `1`, the
/// second a unit; then the X, Y and norm angles in the unit's field shape,
/// the tilt direction as a decimal, and the judge code, with no fields left
/// over.
pub open spec fn spec_parse_line(line: Seq<u8>) -> Option<SampleView> {
    let fs = trimmed_fields(line);
    if fs.len() < 2 {
        None
    } else if fs[0] != seq![49u8] {
        None
    } else {
        match spec_parse_unit(fs[1]) {
            None => None,
            Some(u) => {
                let c = angle_field_count(u);
                if fs.len() != 4 + 3 * c {
                    None
                } else {
                    let x = spec_parse_angle(u, fs.subrange(2, 2 + c));
                    let y = spec_parse_angle(u, fs.subrange(2 + c, 2 + 2 * c));
                    let norm = spec_parse_angle(u, fs.subrange(2 + 2 * c, 2 + 3 * c));
                    let dir = spec_decimal_micro(fs[2 + 3 * c]);
                    match (x, y, norm, dir) {
                        (Some(x), Some(y), Some(norm), Some(dir)) => Some(
                            SampleView {
                                unit: u,
                                x,
                                y,
                                norm,
                                direction: dir as int,
                                judge: spec_parse_judge(fs[3 + 3 * c]),
                            },
                        ),
                        _ => None,
                    }
                }
            },
        }
    }
}

/// The unit field, read executably.
fn parse_unit(w: &[u8]) -> (r: Option<Unit>)
    ensures
        r == spec_parse_unit(w@),
{
    let t_min: [u8; 3] = [109, 105, 110];
    let t_deg: [u8; 3] = [100, 101, 103];
    let t_mdeg: [u8; 4] = [109, 100, 101, 103];
    let t_mrad: [u8; 4] = [109, 114, 97, 100];
    let t_dms: [u8; 11] = [100, 101, 103, 45, 109, 105, 110, 45, 115, 101, 99];
    let t_ms: [u8; 7] = [109, 105, 110, 45, 115, 101, 99];
    proof {
        assert(t_min@ =~= seq![109u8, 105u8, 110u8]);
        assert(t_deg@ =~= seq![100u8, 101u8, 103u8]);
        assert(t_mdeg@ =~= seq![109u8, 100u8, 101u8, 103u8]);
        assert(t_mrad@ =~= seq![109u8, 114u8, 97u8, 100u8]);
        assert(t_dms@ =~= seq![
            100u8,
            101u8,
            103u8,
            45u8,
            109u8,
            105u8,
            110u8,
            45u8,
            115u8,
            101u8,
            99u8,
        ]);
        assert(t_ms@ =~= seq![109u8, 105u8, 110u8, 45u8, 115u8, 101u8, 99u8]);
    }
    if bytes_eq(w, &t_min) {
        Some(Unit::Min)
    } else if bytes_eq(w, &t_deg) {
        Some(Unit::Deg)
    } else if bytes_eq(w, &t_mdeg) {
        Some(Unit::MDeg)
    } else if bytes_eq(w, &t_mrad) {
        Some(Unit::MRad)
    } else if bytes_eq(w, &t_dms) {
        Some(Unit::DegMinSec)
    } else if bytes_eq(w, &t_ms) {
        Some(Unit::MinSec)
    } else {
        None
    }
}

/// True for the not-determined marker, executably.
fn is_nd_marker(w: &[u8]) -> (r: bool)
    ensures
        r == nd_marker(w@),
{
    let dash: [u8; 1] = [45];
    let nd: [u8; 2] = [78, 68];
    proof {
        assert(dash@ =~= seq![45u8]);
        assert(nd@ =~= seq![78u8, 68u8]);
    }
    bytes_eq(w, &dash) || bytes_eq(w, &nd)
}

/// One numeric component, read executably.
fn parse_component(w: &[u8]) -> (r: Option<Option<i64>>)
    ensures
        r == spec_component(w@),
{
    if is_nd_marker(w) {
        Some(None)
    } else {
        match parse_decimal_micro(w) {
            Some(v) => Some(Some(v)),
            None => None,
        }
    }
}

/// The sign field, read executably.
fn parse_sign(w: &[u8]) -> (r: Option<Option<Sign>>)
    ensures
        r == spec_sign(w@),
{
    let p: [u8; 1] = [80];
    let m: [u8; 1] = [77];
    let dash: [u8; 1] = [45];
    proof {
        assert(p@ =~= seq![80u8]);
        assert(m@ =~= seq![77u8]);
        assert(dash@ =~= seq![45u8]);
    }
    if bytes_eq(w, &p) {
        Some(Some(Sign::Positive))
    } else if bytes_eq(w, &m) {
        Some(Some(Sign::Negative))
    } else if bytes_eq(w, &dash) {
        Some(None)
    } else {
        None
    }
}

/// The judge code, read executably.
fn parse_judge(w: &[u8]) -> (r: Judge)
    ensures
        r@ == spec_parse_judge(w@),
{
    let t_ok: [u8; 2] = [79, 75];
    let t_ng: [u8; 2] = [78, 71];
    let t_nd: [u8; 2] = [78, 68];
    let t_er: [u8; 2] = [69, 82];
    proof {
        assert(t_ok@ =~= seq![79u8, 75u8]);
        assert(t_ng@ =~= seq![78u8, 71u8]);
        assert(t_nd@ =~= seq![78u8, 68u8]);
        assert(t_er@ =~= seq![69u8, 82u8]);
    }
    if bytes_eq(w, &t_ok) {
        Judge::Okay
    } else if bytes_eq(w, &t_ng) {
        Judge::Ng
    } else if bytes_eq(w, &t_nd) {
        Judge::Nd
    } else if bytes_eq(w, &t_er) {
        Judge::Er
    } else {
        Judge::Unknown(copy_bytes(w))
    }
}

/// How many fields one angle of unit `u` occupies, executably.
fn angle_field_count_exec(u: Unit) -> (r: usize)
    ensures
        r == angle_field_count(u),
{
    match u {
        Unit::DegMinSec => 4,
        Unit::MinSec => 3,
        _ => 1,
    }
}

/// One angle read from the fields starting at `at`.
fn parse_angle(u: Unit, fields: &Vec<Vec<u8>>, at: usize) -> (r: Option<Option<Angle>>)
    requires
        at + angle_field_count(u) <= fields@.len(),
    ensures
        r == spec_parse_angle(
            u,
            field_views(fields@).subrange(at as int, at + angle_field_count(u)),
        ),
{
    let ghost fs = field_views(fields@).subrange(at as int, at + angle_field_count(u));
    let n = fields.len();
    proof {
        assert(at + angle_field_count(u) <= n);
    }
    match u {
        Unit::DegMinSec => {
            proof {
                assert(fs[0] == fields@[at as int]@);
                assert(fs[1] == fields@[at + 1]@);
                assert(fs[2] == fields@[at + 2]@);
                assert(fs[3] == fields@[at + 3]@);
            }
            let sg = parse_sign(fields[at].as_slice());
            let d = parse_component(fields[at + 1].as_slice());
            let m = parse_component(fields[at + 2].as_slice());
            let s = parse_component(fields[at + 3].as_slice());
            match (sg, d, m, s) {
                (Some(Some(sg)), Some(Some(d)), Some(Some(m)), Some(Some(s))) => Some(
                    Some(Angle::DegMinSec(sg, d, m, s)),
                ),
                (Some(None), Some(None), Some(None), Some(None)) => Some(None),
                _ => None,
            }
        },
        Unit::MinSec => {
            proof {
                assert(fs[0] == fields@[at as int]@);
                assert(fs[1] == fields@[at + 1]@);
                assert(fs[2] == fields@[at + 2]@);
            }
            let sg = parse_sign(fields[at].as_slice());
            let m = parse_component(fields[at + 1].as_slice());
            let s = parse_component(fields[at + 2].as_slice());
            match (sg, m, s) {
                (Some(Some(sg)), Some(Some(m)), Some(Some(s))) => Some(
                    Some(Angle::MinSec(sg, m, s)),
                ),
                (Some(None), Some(None), Some(None)) => Some(None),
                _ => None,
            }
        },
        _ => {
            proof {
                assert(fs[0] == fields@[at as int]@);
            }
            let c = parse_component(fields[at].as_slice());
            match c {
                Some(Some(v)) => {
                    let a = match u {
                        Unit::Min => Angle::Min(v),
                        Unit::Deg => Angle::Deg(v),
                        Unit::MDeg => Angle::MDeg(v),
                        _ => Angle::MRad(v),
                    };
                    Some(Some(a))
                },
                Some(None) => Some(None),
                None => None,
            }
        },
    }
}

/// Decodes one reading line; agrees exactly with [`spec_parse_line`], and a
/// line that does not match the format is a parse error.
pub fn parse_sampling_data_1(line: &[u8]) -> (r: Result<SamplingData1, Tm2070Error>)
    ensures
        spec_parse_line(line@) matches Some(m) ==> (r matches Ok(d) && d@ == m),
        spec_parse_line(line@) is None ==> r == Err::<SamplingData1, Tm2070Error>(
            Tm2070Error::Parse,
        ),
{
    let fields = split_and_trim(line);
    let ghost fs = trimmed_fields(line@);
    proof {
        assert(field_views(fields@) =~= fs);
    }
    if fields.len() < 2 {
        return Err(Tm2070Error::Parse);
    }
    let leader: [u8; 1] = [49];
    proof {
        assert(leader@ =~= seq![49u8]);
        assert(fields@[0]@ == fs[0]);
        assert(fields@[1]@ == fs[1]);
    }
    if !bytes_eq(fields[0].as_slice(), &leader) {
        return Err(Tm2070Error::Parse);
    }
    let u = match parse_unit(fields[1].as_slice()) {
        Some(u) => u,
        None => {
            return Err(Tm2070Error::Parse);
        },
    };
    let c = angle_field_count_exec(u);
    if fields.len() != 4 + 3 * c {
        return Err(Tm2070Error::Parse);
    }
    let x = match parse_angle(u, &fields, 2) {
        Some(v) => v,
        None => {
            return Err(Tm2070Error::Parse);
        },
    };
    let y = match parse_angle(u, &fields, 2 + c) {
        Some(v) => v,
        None => {
            return Err(Tm2070Error::Parse);
        },
    };
    let norm = match parse_angle(u, &fields, 2 + 2 * c) {
        Some(v) => v,
        None => {
            return Err(Tm2070Error::Parse);
        },
    };
    proof {
        assert(fields@[2 + 3 * c]@ == fs[2 + 3 * c]);
        assert(fields@[3 + 3 * c]@ == fs[3 + 3 * c]);
    }
    let dir = match parse_decimal_micro(fields[2 + 3 * c].as_slice()) {
        Some(v) => v,
        None => {
            return Err(Tm2070Error::Parse);
        },
    };
    let judge = parse_judge(fields[3 + 3 * c].as_slice());
    Ok(
        SamplingData1 {
            unit: u,
            x,
            y,
            norm,
            direction: TiltDirection(dir),
            judge,
        },
    )
}

/// The number `n` written in ASCII decimal, no padding.
pub open spec fn dec_str(n: nat) -> Seq<u8>
    decreases n,
{
    if n < 10 {
        seq![(48 + n) as u8]
    } else {
        dec_str(n / 10) + seq![(48 + n % 10) as u8]
    }
}

fn push_dec(r: &mut Vec<u8>, n: u32)
    ensures
        final(r)@ == old(r)@ + dec_str(n as nat),
    decreases n,
{
    if n < 10 {
        r.push(48 + n as u8);
        proof {
            assert(r@ =~= old(r)@ + dec_str(n as nat));
        }
    } else {
        push_dec(r, n / 10);
        r.push(48 + (n % 10) as u8);
        proof {
            assert(r@ =~= old(r)@ + dec_str(n as nat));
        }
    }
}

/// The single-sample query line.
pub open spec fn single_command_line() -> Seq<u8> {
    seq![71u8, CR, LF]
}

/// The streaming-start line: `L`, with the sampling interval appended after
/// a comma when one is given.
pub open spec fn continuous_command_line(interval: Option<u32>) -> Seq<u8> {
    match interval {
        None => seq![76u8, CR, LF],
        Some(i) => seq![76u8, 44u8] + dec_str(i as nat) + seq![CR, LF],
    }
}

/// The streaming-stop line.
pub open spec fn stop_command_line() -> Seq<u8> {
    seq![83u8, CR, LF]
}

/// Builds the streaming-start line.
pub fn encode_continuous_command(interval: Option<u32>) -> (r: Vec<u8>)
    ensures
        r@ == continuous_command_line(interval),
{
    let mut r: Vec<u8> = Vec::new();
    r.push(76);
    match interval {
        None => {},
        Some(i) => {
            r.push(44);
            push_dec(&mut r, i);
        },
    }
    r.push(CR);
    r.push(LF);
    proof {
        assert(r@ =~= continuous_command_line(interval));
    }
    r
}

/// Builds the single-sample query line.
pub fn encode_single_command() -> (r: Vec<u8>)
    ensures
        r@ == single_command_line(),
{
    let mut r: Vec<u8> = Vec::new();
    r.push(71);
    r.push(CR);
    r.push(LF);
    proof {
        assert(r@ =~= single_command_line());
    }
    r
}

/// Builds the streaming-stop line.
pub fn encode_stop_command() -> (r: Vec<u8>)
    ensures
        r@ == stop_command_line(),
{
    let mut r: Vec<u8> = Vec::new();
    r.push(83);
    r.push(CR);
    r.push(LF);
    proof {
        assert(r@ =~= stop_command_line());
    }
    r
}

/// The decision on one received frame: the device's fixed error token is
/// the device-error condition, distinct from a malformed line; any other
/// frame is decoded as a reading, exactly as [`parse_sampling_data_1`]
/// states.
pub fn decode_response(frame: &[u8]) -> (r: Result<SamplingData1, Tm2070Error>)
    ensures
        frame@ == error_token() ==> r == Err::<SamplingData1, Tm2070Error>(Tm2070Error::Device),
        frame@ != error_token() ==> {
            &&& (spec_parse_line(frame@) matches Some(m) ==> (r matches Ok(d) && d@ == m))
            &&& (spec_parse_line(frame@) is None ==> r == Err::<SamplingData1, Tm2070Error>(
                Tm2070Error::Parse,
            ))
        },
{
    let err_tok: [u8; 3] = [69, 82, 82];
    proof {
        assert(err_tok@ =~= error_token());
    }
    if bytes_eq(frame, &err_tok) {
        Err(Tm2070Error::Device)
    } else {
        parse_sampling_data_1(frame)
    }
}

/// The angle sensor attached to one serial link.
pub struct Tm2070 {
    serial_wrapper: SerialWrapper,
}

impl Tm2070 {
    /// Takes ownership of the link; the sensor needs no handshake.
    pub fn new(serial_wrapper: SerialWrapper) -> Tm2070 {
        Tm2070 { serial_wrapper }
    }

    /// Sends the single-sample query and blocks for one response frame; the
    /// frame decides, and [`decode_response`]'s contract says how: the
    /// device's error token is a device error, anything else is decoded as
    /// a reading.
    pub fn single_1(&mut self) -> (r: Result<SamplingData1, Tm2070Error>) {
        let cmd = encode_single_command();
        match self.serial_wrapper.send(cmd) {
            Ok(()) => {},
            Err(e) => {
                return Err(Tm2070Error::Link(e));
            },
        }
        let frame = match self.serial_wrapper.receive() {
            Ok(f) => f,
            Err(e) => {
                return Err(Tm2070Error::Link(e));
            },
        };
        decode_response(frame.as_slice())
    }

    /// Sends the streaming-start command and hands the link to a streaming
    /// handle. A zero interval is forbidden: the device takes the interval
    /// as a sample period in its own ticks.
    pub fn continuous_1(self, interval: Option<u32>) -> (r: Result<
        Continuous1Handle,
        Tm2070Error,
    >)
        requires
            interval matches Some(i) ==> i >= 1,
        ensures
            r matches Err(e) ==> e matches Tm2070Error::Link(_),
    {
        let cmd = encode_continuous_command(interval);
        match self.serial_wrapper.send(cmd) {
            Ok(()) => Ok(Continuous1Handle { tm: self }),
            Err(e) => Err(Tm2070Error::Link(e)),
        }
    }
}

/// A running continuous acquisition; owns the sensor until closed.
pub struct Continuous1Handle {
    tm: Tm2070,
}

impl Continuous1Handle {
    /// Returns one already-arrived reading without waiting, or nothing when
    /// none is queued; called repeatedly, it drains whatever has arrived
    /// since the last call, in arrival order. Each frame is judged by
    /// [`decode_response`].
    pub fn poll(&mut self) -> (r: Option<Result<SamplingData1, Tm2070Error>>) {
        match self.tm.serial_wrapper.poll() {
            Polled::Empty => None,
            Polled::Closed => Some(Err(Tm2070Error::Link(LinkError::Closed))),
            Polled::Frame(frame) => Some(decode_response(frame.as_slice())),
        }
    }

    /// Sends the streaming-stop command, exactly once, and releases the
    /// link.
    pub fn close(self) -> (r: Result<(), Tm2070Error>)
        ensures
            r matches Err(e) ==> e matches Tm2070Error::Link(_),
    {
        let cmd = encode_stop_command();
        match self.tm.serial_wrapper.send(cmd) {
            Ok(()) => Ok(()),
            Err(e) => Err(Tm2070Error::Link(e)),
        }
    }
}

} // verus!
