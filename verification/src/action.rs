//! What a session asks of its surroundings, what it refuses, and where it goes on.

use crate::frame::{Frame, FrameInput};
use crate::player::BackrollPlayerHandle;
use crate::status::ConnectionStatus;
use vstd::prelude::*;

verus! {

/// Why a request is refused.
#[derive(Clone, Copy, Debug, PartialEq, Eq, Structural)]
pub enum BackrollError {
    /// The session is in the middle of a rollback.
    InRollback,
    /// Not all of the remote players have synchronized yet.
    NotSynchronized,
    /// The handle names no player of the session.
    InvalidPlayer(BackrollPlayerHandle),
    /// The player has already been disconnected.
    PlayerDisconnected(BackrollPlayerHandle),
}

/// The outcome of a request.
pub type BackrollResult<T> = Result<T, BackrollError>;

/// One piece of work for the surroundings of a session.
#[derive(Clone, Copy, Debug, PartialEq, Eq)]
pub enum Action<I> {
    /// Have the synchronizer advance the simulation by one frame.
    IncrementFrame,
    /// Have the synchronizer compare the predicted inputs with those that arrived,
    /// and simulate again from the first difference.
    CheckSimulation,
    /// Have the synchronizer simulate again from `frame`.
    AdjustSimulation { frame: Frame },
    /// Tell the synchronizer that no frame up to `frame` will change any more.
    SetLastConfirmedFrame { frame: Frame },
    /// Have the synchronizer delay the inputs of one player.
    SetFrameDelay { queue: usize, delay: Frame },
    /// Hand an input of a local player to the synchronizer.
    AddLocalInput { queue: usize, input: I },
    /// Tell the endpoint of a queue which frame this machine is at.
    SetLocalFrameNumber { queue: usize, frame: Frame },
    /// Have the endpoint of a queue send an input.
    SendInput { queue: usize, frame_input: FrameInput<I> },
    /// Have the endpoint of a queue disconnect.
    DisconnectPeer { queue: usize },
    /// Write one status to the table that is shared with the endpoints.
    SetStatus { queue: usize, status: ConnectionStatus },
}

/// Where a session goes on once the actions it handed out are performed.
#[derive(Clone, Copy, Debug, PartialEq, Eq, Structural)]
pub enum Next {
    /// There is nothing left to do.
    Finished,
    /// The frame has been incremented: poll.
    Poll,
    /// The simulation has been checked: tell the remote players the frame.
    Notify,
    /// The remote players have been told, and any queue before `queue` that had to be is
    /// dropped: look at the queues from `queue` on.
    Queues { current_frame: Frame, queue: usize, min_frame: Frame },
    /// All queues have been looked at: confirm `min_frame`.
    Confirm { current_frame: Frame, min_frame: Frame },
    /// A local player leaves: drop the players that are not local, from `queue` on.
    Sweep { syncto: Frame, queue: usize },
}

/// The actions to perform, in order, and where to go on afterwards.
#[derive(Debug)]
pub struct Turn<I> {
    /// What to perform, first to last.
    pub actions: Vec<Action<I>>,
    /// Where to go on.
    pub next: Next,
}

/// What a look at the queues comes to.
#[derive(Clone, Copy, Debug, PartialEq, Eq, Structural)]
pub enum PollOutcome {
    /// `queue` is to be dropped, and the simulation to go back to `syncto`;
    /// `min_frame` is the frame confirmed by the queues up to this one.
    Drop { queue: usize, syncto: Frame, min_frame: Frame },
    /// No queue is to be dropped; `min_frame` is the frame confirmed by all.
    Complete { min_frame: Frame },
}

} // verus!
