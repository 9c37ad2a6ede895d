use vstd::prelude::*;

verus! {

/// The input cannot be drawn.
#[derive(Clone, Copy, Debug, PartialEq, Eq, Structural)]
pub enum InputError {
    /// The pixel data cannot be interpreted as an image.
    UnsupportedFormat,
    /// The image holds nothing to draw, or no image has been processed.
    EmptyImage,
    /// The drawing method is unknown, or the speed or the canvas is out of
    /// range.
    InvalidParams,
}

/// The command does not apply in the scheduler's current state.
#[derive(Clone, Copy, Debug, PartialEq, Eq, Structural)]
pub enum StateError {
    /// Pause or resume was asked for while nothing is being drawn.
    NoActiveSession,
    /// A drawing was started while another one is still active.
    SessionAlreadyActive,
}

/// The pointing device could not carry out an action.
#[derive(Clone, Copy, Debug, PartialEq, Eq, Structural)]
pub enum ActuatorError {
    /// No pointing device is accessible.
    DeviceUnavailable,
    /// The operating system blocks input injection.
    PermissionDenied,
    /// The display has no addressable point to clamp to.
    OutOfBounds,
    /// The device did not answer within the allowed wait.
    Timeout,
}

/// Everything the engine reports to its caller.
#[derive(Clone, Copy, Debug, PartialEq, Eq, Structural)]
pub enum EngineError {
    Input(InputError),
    State(StateError),
    ActuatorFailure { reason: ActuatorError },
}

} // verus!
