//! Closed-loop alignment core for an interferometer setup: line framing for
//! serial devices, a rotation-controller protocol, an angle-sensor protocol,
//! a fringe-visibility metric, and a gradient-probe / line-search optimizer.

pub mod angle;
pub mod framing;
pub mod link;
pub mod optimizer;
pub mod pamc;
pub mod text;
pub mod tm2070;
pub mod visibility;
