//! What a display shows of a demand beside its numbers: whether the tilt is
//! large enough to warn of, whether the lift is worth a mark, and how bright
//! an edge of the plate is drawn.

use vstd::prelude::*;
use crate::fixed::lemma_product_within;
use crate::gimbal::GimbalState;

verus! {

/// A tilt of more than this from level is warned of: one degree.
pub const TILT_WARNING: i64 = 1_000_000;

/// A tilt of more than this from level has its angles marked: three tenths
/// of a degree.
pub const TILT_READOUT: i64 = 300_000;

/// A lift of more than this either way is marked: one millimetre.
pub const LIFT_NOTICE: i64 = 1_000_000;

/// An edge whose middle stands more than this above the nominal height is
/// drawn bright: 7 mm.
pub const BRIGHT_RISE: i64 = 7_000_000;

/// An edge whose middle stands more than this above the nominal height is
/// drawn at least at middle brightness: 2.5 mm.
pub const MID_RISE: i64 = 2_500_000;

/// The tilt from level, taking pitch and roll together as the two sides of
/// a right triangle, is larger than `threshold`.
pub open spec fn spec_tilt_exceeds(state: GimbalState, threshold: int) -> bool {
    state.pitch * state.pitch + state.roll * state.roll > threshold * threshold
}

/// Computes `spec_tilt_exceeds`.
pub fn tilt_exceeds(state: &GimbalState, threshold: i64) -> (exceeds: bool)
    ensures
        exceeds == spec_tilt_exceeds(*state, threshold as int),
{
    proof {
        lemma_product_within(
            state.pitch as int,
            state.pitch as int,
            0x8000_0000_0000_0000,
            0x8000_0000_0000_0000,
        );
        lemma_product_within(
            state.roll as int,
            state.roll as int,
            0x8000_0000_0000_0000,
            0x8000_0000_0000_0000,
        );
        lemma_product_within(
            threshold as int,
            threshold as int,
            0x8000_0000_0000_0000,
            0x8000_0000_0000_0000,
        );
        assert(state.pitch * state.pitch >= 0) by (nonlinear_arith);
        assert(state.roll * state.roll >= 0) by (nonlinear_arith);
        assert(threshold * threshold >= 0) by (nonlinear_arith);
    }
    let pitch: i128 = state.pitch as i128;
    let roll: i128 = state.roll as i128;
    let limit: i128 = threshold as i128;
    let pitch_squared: u128 = (pitch * pitch) as u128;
    let roll_squared: u128 = (roll * roll) as u128;
    let limit_squared: u128 = (limit * limit) as u128;
    pitch_squared + roll_squared > limit_squared
}

/// Whether a lift is marked, and which way it goes.
#[derive(Clone, Copy, Debug, PartialEq, Eq, Structural)]
pub enum LiftNotice {
    Raised,
    Lowered,
    Unmarked,
}

/// The mark a lift gets: none within `LIFT_NOTICE` of zero.
pub open spec fn spec_lift_notice(state: GimbalState) -> LiftNotice {
    if state.lift > LIFT_NOTICE {
        LiftNotice::Raised
    } else if state.lift < -LIFT_NOTICE {
        LiftNotice::Lowered
    } else {
        LiftNotice::Unmarked
    }
}

/// Computes `spec_lift_notice`.
pub fn lift_notice(state: &GimbalState) -> (notice: LiftNotice)
    ensures
        notice == spec_lift_notice(*state),
{
    if state.lift > LIFT_NOTICE {
        LiftNotice::Raised
    } else if state.lift < -LIFT_NOTICE {
        LiftNotice::Lowered
    } else {
        LiftNotice::Unmarked
    }
}

/// How bright an edge of the plate is drawn.
#[derive(Clone, Copy, Debug, PartialEq, Eq, Structural)]
pub enum Shade {
    Bright,
    Mid,
    Dim,
}

/// The shade of the edge between two plate points of heights `first` and
/// `second`, by how far the middle of the edge stands above `nominal`.
/// Twice the rise of the middle is `first + second - 2 * nominal`.
pub open spec fn spec_edge_shade(first: int, second: int, nominal: int) -> Shade {
    let doubled_rise = first + second - 2 * nominal;
    if doubled_rise > 2 * BRIGHT_RISE {
        Shade::Bright
    } else if doubled_rise > 2 * MID_RISE {
        Shade::Mid
    } else {
        Shade::Dim
    }
}

/// Computes `spec_edge_shade`.
pub fn edge_shade(first: i64, second: i64, nominal: i64) -> (shade: Shade)
    ensures
        shade == spec_edge_shade(first as int, second as int, nominal as int),
{
    let doubled_rise: i128 = first as i128 + second as i128 - 2 * (nominal as i128);
    if doubled_rise > 2 * (BRIGHT_RISE as i128) {
        Shade::Bright
    } else if doubled_rise > 2 * (MID_RISE as i128) {
        Shade::Mid
    } else {
        Shade::Dim
    }
}

} // verus!
