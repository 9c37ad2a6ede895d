use crate::error::ActuatorError;
use crate::schedule::{step_delay, step_delay_ms, ActionKind};
use vstd::prelude::*;

verus! {

/// How many nominal delays the device is given to answer one action.
pub const TIMEOUT_FACTOR: u64 = 4;

/// The addressable screen: columns `0` up to `width`, rows `0` up to
/// `height`, both exclusive.
#[derive(Clone, Copy, Debug, PartialEq, Eq, Structural)]
pub struct ScreenBounds {
    pub width: u32,
    pub height: u32,
}

/// What the pointing device is told.
#[derive(Clone, Copy, Debug, PartialEq, Eq, Structural)]
pub enum DeviceCommand {
    /// Put the cursor on this pixel of the screen.
    MoveCursor { x: u32, y: u32 },
    /// Press the primary button.
    Press,
    /// Release the primary button.
    Release,
}

/// The value of the interval from `lo` to `hi` that is nearest to `v`.
pub open spec fn clamp(v: int, lo: int, hi: int) -> int {
    if v < lo {
        lo
    } else if v > hi {
        hi
    } else {
        v
    }
}

/// The command that carries out an action on a screen, if there is one: a
/// move goes to the nearest addressable pixel, and has none on a screen
/// without pixels.
pub open spec fn command_for(kind: ActionKind, screen: ScreenBounds) -> Result<
    DeviceCommand,
    ActuatorError,
> {
    match kind {
        ActionKind::PenDown => Ok(DeviceCommand::Press),
        ActionKind::PenUp => Ok(DeviceCommand::Release),
        ActionKind::MoveTo { x, y } => if screen.width == 0 || screen.height == 0 {
            Err(ActuatorError::OutOfBounds)
        } else {
            Ok(
                DeviceCommand::MoveCursor {
                    x: clamp(x as int, 0, screen.width - 1) as u32,
                    y: clamp(y as int, 0, screen.height - 1) as u32,
                },
            )
        },
    }
}

/// Clamps one coordinate to an axis of `extent` pixels.
pub fn clamp_to_axis(v: i64, extent: u32) -> (r: u32)
    requires
        extent > 0,
    ensures
        r == clamp(v as int, 0, extent - 1),
        r < extent,
{
    if v < 0 {
        0
    } else if v > (extent - 1) as i64 {
        extent - 1
    } else {
        v as u32
    }
}

/// Turns an action into the command for the device. Coordinates outside
/// the screen are clamped, not refused; only a screen without pixels makes
/// a move impossible.
pub fn plan_command(kind: ActionKind, screen: ScreenBounds) -> (r: Result<
    DeviceCommand,
    ActuatorError,
>)
    ensures
        r == command_for(kind, screen),
        match r {
            Ok(DeviceCommand::MoveCursor { x, y }) => x < screen.width && y < screen.height,
            _ => true,
        },
{
    match kind {
        ActionKind::PenDown => Ok(DeviceCommand::Press),
        ActionKind::PenUp => Ok(DeviceCommand::Release),
        ActionKind::MoveTo { x, y } => {
            if screen.width == 0 || screen.height == 0 {
                Err(ActuatorError::OutOfBounds)
            } else {
                Ok(
                    DeviceCommand::MoveCursor {
                        x: clamp_to_axis(x, screen.width),
                        y: clamp_to_axis(y, screen.height),
                    },
                )
            }
        },
    }
}

/// Milliseconds to wait before an action that is due at `at_ms`, when the
/// action before it was due at `clock_ms`: the time in between, so that
/// time spent paused does not count.
pub fn wait_before(at_ms: u64, clock_ms: u64) -> (d: u64)
    ensures
        d == if at_ms >= clock_ms {
            at_ms - clock_ms
        } else {
            0
        },
{
    if at_ms >= clock_ms {
        at_ms - clock_ms
    } else {
        0
    }
}

/// Longest wait for the device on one action, in milliseconds: a fixed
/// multiple of the delay between two moves.
pub fn action_timeout_ms(speed: u32) -> (t: u64)
    requires
        speed >= 1,
    ensures
        t == TIMEOUT_FACTOR * step_delay(speed as int),
{
    TIMEOUT_FACTOR * step_delay_ms(speed)
}

/// Whether the device has overrun its time on an action.
pub fn timed_out(waited_ms: u64, speed: u32) -> (r: Option<ActuatorError>)
    requires
        speed >= 1,
    ensures
        r == if waited_ms > TIMEOUT_FACTOR * step_delay(speed as int) {
            Some(ActuatorError::Timeout)
        } else {
            None::<ActuatorError>
        },
{
    if waited_ms > action_timeout_ms(speed) {
        Some(ActuatorError::Timeout)
    } else {
        None
    }
}

} // verus!
