//! Client-side engine for a datagram-driven robot controller: a wire codec
//! for outbound commands and inbound telemetry, correlation tables that match
//! asynchronous replies to pending calls, and the state transitions a
//! background receive loop applies, all with verified contracts.
pub mod parse;
pub mod table;
pub mod codec;
pub mod state;
pub mod engine;
pub mod catalog;

pub use engine::{CoCube, Dispatch, WaitOutcome};
pub use state::{Pose, RobotState};

use vstd::prelude::*;

verus! {

/// Truncating division by a positive divisor, as machine division does it.
pub open spec fn trunc_div(a: int, b: int) -> int {
    if a >= 0 {
        a / b
    } else {
        -((-a) / b)
    }
}

/// Division by a positive divisor, rounded to the nearest integer; an
/// exact half rounds away from zero.
pub open spec fn round_div(a: int, b: int) -> int {
    if a >= 0 {
        (a + b / 2) / b
    } else {
        -((-a + b / 2) / b)
    }
}

} // verus!
