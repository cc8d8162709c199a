//! Marine navigation: exact units, time, and the decisions of the
//! navigation algorithms, with their contracts.
use vstd::prelude::*;

pub mod anchor;
pub mod clearance;
pub mod composite;
pub mod conditions;
pub mod dead_reckoning;
pub mod deviation;
pub mod environment;
pub mod error;
pub mod estimator;
pub mod event;
pub mod gnss;
pub mod gnss_intake;
pub mod guidance;
pub mod keyed;
pub mod math;
pub mod mob;
pub mod navigation_solutions;
pub mod picture;
pub mod position;
pub mod route;
pub mod sailings;
pub mod signalk;
pub mod snapshot;
pub mod text;
pub mod time;
pub mod traffic;
pub mod turning;
pub mod units;
pub mod watch;
pub mod wmm;

verus! {

} // verus!
