//! Angle values as the angle sensor reports them.
//!
//! The sensor chooses one of six display units per session and sends each
//! numeric component as a short decimal. Components are held exactly, as
//! integers in millionths of the written unit (micro-minutes, micro-degrees,
//! and so on), so nothing is rounded on the way in.

use vstd::prelude::*;

verus! {

/// The display unit a reading is expressed in.
#[derive(Clone, Copy, Debug, PartialEq, Eq, Structural)]
pub enum Unit {
    /// Minutes of arc.
    Min,
    /// Degrees.
    Deg,
    /// Thousandths of a degree.
    MDeg,
    /// Thousandths of a radian.
    MRad,
    /// Degrees, minutes and seconds with an explicit sign.
    DegMinSec,
    /// Minutes and seconds with an explicit sign.
    MinSec,
}

/// The explicit sign of a degrees-minutes-seconds reading.
#[derive(Clone, Copy, Debug, PartialEq, Eq, Structural)]
pub enum Sign {
    Positive,
    Negative,
}

/// One angle as reported, in the unit it was reported in; every numeric
/// component is in millionths of its written unit.
#[derive(Clone, Copy, Debug, PartialEq, Eq, Structural)]
pub enum Angle {
    /// Minutes of arc, in micro-minutes.
    Min(i64),
    /// Degrees, in micro-degrees.
    Deg(i64),
    /// Milli-degrees, in micro-milli-degrees.
    MDeg(i64),
    /// Milli-radians, in micro-milli-radians.
    MRad(i64),
    /// Sign, then degrees, minutes and seconds, each in millionths.
    DegMinSec(Sign, i64, i64, i64),
    /// Sign, then minutes and seconds, each in millionths.
    MinSec(Sign, i64, i64),
}

} // verus!
