use vstd::prelude::*;
use crate::directives::{ReadAfter, ReadAt};
use crate::error::{Arc2Error, ConfigIssue};

verus! {

pub open spec fn abs(x: int) -> int {
    if x < 0 { -x } else { x }
}

/// A ramp is consistent when its step is non-zero and moves the start
/// voltage toward the stop voltage.
pub open spec fn ramp_consistent(vstart: int, vstep: int, vstop: int) -> bool {
    vstep != 0 && (vstop == vstart || ((vstop > vstart) == (vstep > 0)))
}

/// Number of voltage steps of a consistent ramp:
/// `ceil((vstop - vstart) / vstep) + 1`.
pub open spec fn ramp_step_count(vstart: int, vstep: int, vstop: int) -> int {
    (abs(vstop - vstart) + abs(vstep) - 1) / abs(vstep) + 1
}

/// The bias voltage of step `idx`.
pub open spec fn ramp_voltage(vstart: int, vstep: int, idx: int) -> int {
    vstart + idx * vstep
}

/// Whether a ramp performs any read-out.
pub open spec fn reads_enabled(read_at: ReadAt, read_after: ReadAfter) -> bool {
    read_at != ReadAt::Never && read_after != ReadAfter::Never
}

/// `ReadAfter::Never` allows no read voltage other than `ReadAt::Never`.
pub open spec fn read_directives_consistent(read_at: ReadAt, read_after: ReadAfter) -> bool {
    read_after == ReadAfter::Never ==> read_at == ReadAt::Never
}

/// Result frames a ramp of `steps` voltage steps with `num_pulses` pulses
/// per step produces.
pub open spec fn ramp_frame_count(
    steps: int,
    num_pulses: int,
    read_at: ReadAt,
    read_after: ReadAfter,
) -> int {
    if !reads_enabled(read_at, read_after) {
        0
    } else {
        match read_after {
            ReadAfter::Pulse => if num_pulses == 0 { steps } else { steps * num_pulses },
            ReadAfter::Block => if num_pulses == 0 { 0 } else { steps },
            ReadAfter::Ramp => 1,
            ReadAfter::Never => 0,
        }
    }
}

/// The shape of a validated ramp.
#[derive(Debug, Clone, Copy, PartialEq, Eq, Structural)]
pub struct RampPlan {
    /// Number of voltage steps.
    pub steps: u64,
    /// Result frames the ramp leaves in the result buffer.
    pub frames: u128,
}

/// Counts the steps of a ramp from `vstart` to `vstop` by `vstep`
/// (microvolts), rejecting a step that is zero or of the wrong sign.
pub fn ramp_steps(vstart: i32, vstep: i32, vstop: i32) -> (r: Result<u64, Arc2Error>)
    ensures
        r is Ok <==> ramp_consistent(vstart as int, vstep as int, vstop as int),
        r is Ok ==> r->Ok_0 == ramp_step_count(vstart as int, vstep as int, vstop as int),
        r is Err ==> r == Err::<u64, Arc2Error>(
            Arc2Error::InvalidConfiguration(ConfigIssue::RampDirection),
        ),
{
    let d: i64 = vstop as i64 - vstart as i64;
    let s: i64 = vstep as i64;
    if s == 0 || (d != 0 && ((d > 0) != (s > 0))) {
        return Err(Arc2Error::InvalidConfiguration(ConfigIssue::RampDirection));
    }
    let ad: i64 = if d < 0 { -d } else { d };
    let as_: i64 = if s < 0 { -s } else { s };
    let q: i64 = (ad + as_ - 1) / as_;
    proof {
        assert(0 <= q <= ad + as_) by (nonlinear_arith)
            requires
                q as int == (ad as int + as_ as int - 1) / (as_ as int),
                ad >= 0,
                as_ >= 1,
        ;
    }
    Ok((q + 1) as u64)
}

/// The bias voltage of step `idx` of a ramp, in microvolts.
pub fn ramp_voltage_at(vstart: i32, vstep: i32, idx: u32) -> (r: i64)
    ensures
        r == ramp_voltage(vstart as int, vstep as int, idx as int),
{
    proof {
        assert(-0x8000_0000 * 0xFFFF_FFFF <= idx as int * vstep as int <= 0x7FFF_FFFF * 0xFFFF_FFFF)
            by (nonlinear_arith)
            requires
                0 <= idx <= 0xFFFF_FFFF,
                -0x8000_0000 <= vstep <= 0x7FFF_FFFF,
        ;
    }
    vstart as i64 + idx as i64 * vstep as i64
}

/// Validates a ramp and computes its number of steps and result frames.
pub fn plan_ramp(
    vstart: i32,
    vstep: i32,
    vstop: i32,
    num_pulses: usize,
    read_at: ReadAt,
    read_after: ReadAfter,
) -> (r: Result<RampPlan, Arc2Error>)
    ensures
        r is Ok <==> ramp_consistent(vstart as int, vstep as int, vstop as int)
            && read_directives_consistent(read_at, read_after),
        r is Ok ==> r->Ok_0.steps == ramp_step_count(vstart as int, vstep as int, vstop as int)
            && r->Ok_0.frames == ramp_frame_count(
            ramp_step_count(vstart as int, vstep as int, vstop as int),
            num_pulses as int,
            read_at,
            read_after,
        ),
        r is Err ==> r == Err::<RampPlan, Arc2Error>(
            Arc2Error::InvalidConfiguration(
                if !ramp_consistent(vstart as int, vstep as int, vstop as int) {
                    ConfigIssue::RampDirection
                } else {
                    ConfigIssue::ReadDirective
                },
            ),
        ),
{
    let steps = ramp_steps(vstart, vstep, vstop)?;
    let never_at = match read_at {
        ReadAt::Never => true,
        _ => false,
    };
    let never_after = match read_after {
        ReadAfter::Never => true,
        _ => false,
    };
    if never_after && !never_at {
        return Err(Arc2Error::InvalidConfiguration(ConfigIssue::ReadDirective));
    }
    let frames: u128 = if never_at || never_after {
        0
    } else {
        match read_after {
            ReadAfter::Pulse => {
                if num_pulses == 0 {
                    steps as u128
                } else {
                    proof {
                        assert(steps as int * num_pulses as int <= 0xFFFF_FFFF_FFFF_FFFF
                            * 0xFFFF_FFFF_FFFF_FFFF) by (nonlinear_arith)
                            requires
                                steps <= 0xFFFF_FFFF_FFFF_FFFF,
                                num_pulses <= 0xFFFF_FFFF_FFFF_FFFF,
                        ;
                    }
                    steps as u128 * num_pulses as u128
                }
            },
            ReadAfter::Block => if num_pulses == 0 { 0 } else { steps as u128 },
            ReadAfter::Ramp => 1,
            ReadAfter::Never => 0,
        }
    };
    Ok(RampPlan { steps, frames })
}

} // verus!
