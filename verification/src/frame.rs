//! Frame numbers and the inputs that belong to them.

use vstd::prelude::*;

verus! {

/// The number of a simulation step.
pub type Frame = i32;

/// Stands for "no frame".
pub const NULL_FRAME: Frame = -1;

/// Whether `frame` names no frame: frame numbers count from zero.
pub fn is_null(frame: Frame) -> (null: bool)
    ensures
        null == (frame < 0),
{
    frame < 0
}

/// The earlier of two frames.
pub open spec fn earlier(a: Frame, b: Frame) -> Frame {
    if a <= b {
        a
    } else {
        b
    }
}

/// Returns the earlier of two frames.
pub fn earlier_frame(a: Frame, b: Frame) -> (frame: Frame)
    ensures
        frame == earlier(a, b),
{
    if a <= b {
        a
    } else {
        b
    }
}

/// The types that a game plugs into a session.
pub trait BackrollConfig {
    /// What a player does in one frame.
    type Input: Copy;

    /// A transport connection to another machine.
    type Peer: Clone;
}

/// An input together with the frame it is for.
#[derive(Clone, Copy, Debug, PartialEq, Eq)]
pub struct FrameInput<I> {
    /// The frame that the input is for.
    pub frame: Frame,
    /// The input itself.
    pub input: I,
}

} // verus!
