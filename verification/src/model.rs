//! A session as a mathematical state machine: what it is made of, and what each of
//! its operations does to it and asks of the surroundings.

use crate::action::{Action, BackrollError, Next, PollOutcome, Turn};
use crate::frame::{earlier, Frame, FrameInput};
use crate::peer::BackrollPeer;
use crate::player::{BackrollPlayerHandle, Kind, Player};
use crate::status::ConnectionStatus;
use vstd::prelude::*;

verus! {

/// How many frames pass between two recommendations to wait for slower players.
pub const RECOMMENDATION_INTERVAL: Frame = 240;

/// Up to how many remote players the statuses that they report of each other are
/// left out of account.
pub const FEW_PLAYERS: usize = 2;

/// The queues of the players of one kind, in ascending order.
pub open spec fn queues_of(players: Seq<Player>, kind: Kind) -> Seq<usize>
    decreases players.len(),
{
    if players.len() == 0 {
        Seq::empty()
    } else {
        let before = queues_of(players.drop_last(), kind);
        if players.last().kind_view() == kind {
            before.push((players.len() - 1) as usize)
        } else {
            before
        }
    }
}

/// The handles of the players at `queues`.
pub open spec fn handles(queues: Seq<usize>) -> Seq<BackrollPlayerHandle> {
    Seq::new(queues.len(), |i: int| BackrollPlayerHandle(queues[i]))
}

/// The longest wait that any remote player's endpoint recommends.
pub open spec fn longest_delay(players: Seq<Player>) -> Option<Frame>
    decreases players.len(),
{
    if players.len() == 0 {
        None
    } else {
        let before = longest_delay(players.drop_last());
        match players.last() {
            Player::Remote { peer } => match before {
                Some(delay) if delay > peer.frame_delay => before,
                _ => Some(peer.frame_delay),
            },
            _ => before,
        }
    }
}

/// The frame numbers that the remote players are told.
pub open spec fn notifications<I>(queues: Seq<usize>, frame: Frame) -> Seq<Action<I>> {
    Seq::new(queues.len(), |i: int| Action::SetLocalFrameNumber { queue: queues[i], frame })
}

/// The sending of one input to every player that is not local, in queue order.
pub open spec fn broadcast<I>(players: Seq<Player>, input: FrameInput<I>) -> Seq<Action<I>>
    decreases players.len(),
{
    if players.len() == 0 {
        Seq::empty()
    } else {
        let before = broadcast(players.drop_last(), input);
        if players.last().has_peer() {
            before.push(Action::SendInput {
                queue: (players.len() - 1) as usize,
                frame_input: input,
            })
        } else {
            before
        }
    }
}

/// What one operation comes to.
pub struct Transition<I> {
    /// The session afterwards.
    pub state: SessionModel,
    /// What is asked of the surroundings, in order.
    pub actions: Seq<Action<I>>,
    /// Where the session goes on.
    pub next: Next,
}

impl<I> Turn<I> {
    /// Whether this is what `transition` asks for.
    pub open spec fn takes(&self, transition: Transition<I>) -> bool {
        &&& self.actions@ == transition.actions
        &&& self.next == transition.next
    }
}

/// The state of a session.
#[verifier::ext_equal]
pub struct SessionModel {
    /// The players, one for each queue.
    pub players: Seq<Player>,
    /// This machine's own view of each player's connection.
    pub status: Seq<ConnectionStatus>,
    /// The frame that the simulation is at.
    pub frame_count: Frame,
    /// Whether the simulation is being replayed.
    pub in_rollback: bool,
    /// Who was disconnected from the game: the players that were dropped, and the local
    /// players that left, whose own status stays as it is.
    pub left: Seq<bool>,
    /// Whether the players have never all been ready or gone.
    pub synchronizing: bool,
    /// After which frame the next recommendation to wait is due.
    pub next_recommended_sleep: Frame,
    /// The first frame that the spectators have not been given.
    pub next_spectator_frame: Frame,
}

impl SessionModel {
    /// There is one status for each player, and each endpoint has a report of each
    /// player.
    pub open spec fn fits_together(&self) -> bool {
        &&& self.players.len() == self.status.len()
        &&& self.players.len() == self.left.len()
        &&& self.players.len() <= usize::MAX
        &&& forall|i: int|
            #![trigger self.players[i]]
            0 <= i < self.players.len() && self.players[i].has_peer()
                ==> self.players[i].peer_view().unwrap().peer_connect_status@.len()
                == self.players.len()
    }

    /// The parts fit together, and a session that synchronizes has a player to wait for.
    pub open spec fn wf(&self) -> bool {
        &&& self.fits_together()
        &&& self.synchronizing ==> !self.is_synchronized()
    }

    /// Whether everyone who had left in `earlier` has left here.
    pub open spec fn remembers(&self, earlier: SessionModel) -> bool {
        &&& self.left.len() == earlier.left.len()
        &&& forall|i: int| 0 <= i < earlier.left.len() && #[trigger] earlier.left[i] ==> self.left[i]
    }

    /// Whether there are few enough remote players to leave what they report of
    /// each other out of account.
    pub open spec fn few(&self) -> bool {
        queues_of(self.players, Kind::Remote).len() <= FEW_PLAYERS
    }

    /// Whether every player is ready or gone.
    pub open spec fn is_synchronized(&self) -> bool {
        forall|i: int|
            #![trigger self.players[i]]
            0 <= i < self.players.len() && self.players[i].has_peer() ==> self.players[i].running()
                || self.status[i].disconnected
    }

    /// The session with the end of the initial synchronization noted, if it is over.
    pub open spec fn check_initial_sync(self) -> SessionModel {
        SessionModel { synchronizing: self.synchronizing && !self.is_synchronized(), ..self }
    }

    // Observing.

    /// The session with the synchronizer's frame observed, and whether it is replaying.
    pub open spec fn observe_sync(self, frame_count: Frame, in_rollback: bool) -> SessionModel {
        SessionModel { frame_count, in_rollback, ..self }
    }

    /// Whether `peer` can be observed as the endpoint of the player at `queue`.
    pub open spec fn fits(&self, queue: int, peer: BackrollPeer) -> bool {
        &&& 0 <= queue < self.players.len()
        &&& self.players[queue].has_peer()
        &&& peer.peer_connect_status@.len() == self.players.len()
    }

    /// The session with `peer` observed as the endpoint of the player at `queue`. If it
    /// was the last one to get ready, the session has synchronized.
    pub open spec fn observe_peer(self, queue: int, peer: BackrollPeer) -> SessionModel {
        SessionModel {
            players: self.players.update(queue, self.players[queue].with_peer(peer)),
            ..self
        }.check_initial_sync()
    }

    /// The session with `status` observed. If nobody is left to wait for, the session has
    /// synchronized.
    pub open spec fn observe_status(self, status: Seq<ConnectionStatus>) -> SessionModel {
        SessionModel { status, ..self }.check_initial_sync()
    }

    // Polling.

    /// Whether no running endpoint reports the player at `queue` as gone.
    pub open spec fn reported_connected(&self, queue: int) -> bool {
        forall|i: int|
            #![trigger self.players[i]]
            0 <= i < self.players.len() && self.players[i].running() ==> !self.players[i].report(
                queue,
            ).disconnected
    }

    /// The earliest last frame of the player at `queue` that any of the first `count`
    /// players' running endpoints reports; the latest frame there is if none does.
    pub open spec fn reported_frame(&self, queue: int, count: int) -> Frame
        decreases count,
    {
        if count <= 0 {
            Frame::MAX
        } else {
            let before = self.reported_frame(queue, count - 1);
            if self.players[count - 1].running() {
                earlier(self.players[count - 1].report(queue).last_frame, before)
            } else {
                before
            }
        }
    }

    /// The frame up to which everyone has the inputs of the player at `queue`, this
    /// machine included unless it has lost that player.
    pub open spec fn confirmed_frame(&self, queue: int) -> Frame {
        let reported = self.reported_frame(queue, self.players.len() as int);
        if self.status[queue].disconnected {
            reported
        } else {
            earlier(self.status[queue].last_frame, reported)
        }
    }

    /// The frame beyond which the player at `queue` keeps the simulation from being
    /// confirmed; none if that player is gone.
    ///
    /// With few remote players this machine's own status decides, else what all the
    /// running endpoints report.
    pub open spec fn bound(&self, few: bool, queue: int) -> Option<Frame> {
        if few {
            if self.status[queue].disconnected {
                None
            } else {
                Some(self.status[queue].last_frame)
            }
        } else if self.reported_connected(queue) {
            Some(self.confirmed_frame(queue))
        } else {
            None
        }
    }

    /// Whether the player at `queue` has to be dropped.
    ///
    /// With few remote players: if its own running endpoint reports it as gone and
    /// this machine does not know yet. Else: if any running endpoint reports it as
    /// gone, and this machine does not know yet or lost it at a later frame than the
    /// others have it.
    pub open spec fn drops(&self, few: bool, queue: int) -> bool {
        if few {
            &&& self.players[queue].running()
            &&& self.players[queue].report(queue).disconnected
            &&& !self.status[queue].disconnected
        } else {
            &&& !self.reported_connected(queue)
            &&& (!self.status[queue].disconnected || self.status[queue].last_frame
                > self.confirmed_frame(queue))
        }
    }

    /// The first queue from `from` on that has to be dropped; the number of queues if
    /// none has.
    pub open spec fn first_drop(&self, few: bool, from: int) -> int
        decreases self.players.len() - from,
    {
        if from >= self.players.len() {
            self.players.len() as int
        } else if self.drops(few, from) {
            from
        } else {
            self.first_drop(few, from + 1)
        }
    }

    /// The earliest of `start` and the bounds of the queues from `from` up to but not
    /// including `to`.
    pub open spec fn least_bound(&self, few: bool, from: int, to: int, start: Frame) -> Frame
        decreases to - from,
    {
        if to <= from {
            start
        } else {
            let before = self.least_bound(few, from, to - 1, start);
            match self.bound(few, to - 1) {
                Some(frame) => earlier(frame, before),
                None => before,
            }
        }
    }

    /// What a look at the queues from `from` on comes to, when those before it
    /// confirm `start`.
    pub open spec fn poll_outcome(&self, few: bool, from: int, start: Frame) -> PollOutcome {
        let stop = self.first_drop(few, from);
        if stop < self.players.len() {
            let min_frame = self.least_bound(few, from, stop + 1, start);
            let syncto = if few {
                min_frame
            } else {
                self.confirmed_frame(stop)
            };
            PollOutcome::Drop { queue: stop as usize, syncto, min_frame }
        } else {
            PollOutcome::Complete { min_frame: self.least_bound(few, from, stop, start) }
        }
    }

    // Operations.

    /// The session with the player at `queue` gone since `syncto`, which may leave
    /// nobody to wait for.
    pub open spec fn dropped(self, queue: int, syncto: Frame) -> SessionModel {
        SessionModel {
            status: self.status.update(
                queue,
                ConnectionStatus { disconnected: true, last_frame: syncto },
            ),
            left: self.left.update(queue, true),
            ..self
        }.check_initial_sync()
    }

    /// What dropping the player at `queue` at frame `syncto` asks for: its endpoint
    /// disconnects, its status is shared, and the simulation goes back to `syncto` if
    /// it is further on.
    pub open spec fn drop_actions<I>(&self, queue: int, syncto: Frame) -> Seq<Action<I>> {
        let status = ConnectionStatus { disconnected: true, last_frame: syncto };
        self.players[queue].disconnect_actions::<I>(queue as usize) + seq![
            Action::SetStatus { queue: queue as usize, status },
        ] + if syncto < self.frame_count {
            seq![Action::AdjustSimulation { frame: syncto }]
        } else {
            Seq::empty()
        }
    }

    /// A poll: nothing during a rollback or before everyone is ready, else it starts
    /// by having the simulation checked.
    pub open spec fn poll<I>(self) -> Transition<I> {
        if self.in_rollback || self.synchronizing {
            Transition { state: self, actions: Seq::empty(), next: Next::Finished }
        } else {
            Transition { state: self, actions: seq![Action::CheckSimulation], next: Next::Notify }
        }
    }

    /// Telling the remote players the frame.
    pub open spec fn notify<I>(self) -> Transition<I> {
        Transition {
            state: self,
            actions: notifications(queues_of(self.players, Kind::Remote), self.frame_count),
            next: Next::Queues {
                current_frame: self.frame_count,
                queue: 0,
                min_frame: Frame::MAX,
            },
        }
    }

    /// Looking at the queues from `from` on.
    pub open spec fn look<I>(self, current_frame: Frame, from: int, start: Frame) -> Transition<I> {
        match self.poll_outcome(self.few(), from, start) {
            PollOutcome::Drop { queue, syncto, min_frame } => Transition {
                state: self.dropped(queue as int, syncto),
                actions: self.drop_actions(queue as int, syncto),
                next: Next::Queues {
                    current_frame,
                    queue: (queue + 1) as usize,
                    min_frame,
                },
            },
            PollOutcome::Complete { min_frame } => Transition {
                state: self,
                actions: Seq::empty(),
                next: Next::Confirm { current_frame, min_frame },
            },
        }
    }

    /// Whether a recommendation to wait is due at `current_frame`, and there is a
    /// remote player to wait for.
    pub open spec fn sleep_due(&self, current_frame: Frame) -> bool {
        current_frame > self.next_recommended_sleep && longest_delay(self.players) is Some
    }

    /// Confirming `min_frame` at the end of a poll that began at `current_frame`.
    pub open spec fn confirm<I>(self, current_frame: Frame, min_frame: Frame) -> Transition<I> {
        let spectated = queues_of(self.players, Kind::Spectator).len() > 0;
        Transition {
            state: SessionModel {
                next_spectator_frame: if 0 <= min_frame && spectated && self.next_spectator_frame
                    <= min_frame {
                    (min_frame + 1) as Frame
                } else {
                    self.next_spectator_frame
                },
                next_recommended_sleep: if self.sleep_due(current_frame) {
                    (current_frame + RECOMMENDATION_INTERVAL) as Frame
                } else {
                    self.next_recommended_sleep
                },
                ..self
            },
            actions: if 0 <= min_frame {
                seq![Action::SetLastConfirmedFrame { frame: min_frame }]
            } else {
                Seq::empty()
            },
            next: Next::Finished,
        }
    }

    /// The first queue from `from` on of a player that is not local; the number of
    /// queues if there is none.
    pub open spec fn first_peer(&self, from: int) -> int
        decreases self.players.len() - from,
    {
        if from >= self.players.len() {
            self.players.len() as int
        } else if self.players[from].has_peer() {
            from
        } else {
            self.first_peer(from + 1)
        }
    }

    /// Dropping the first player from `from` on that is not local.
    pub open spec fn sweep<I>(self, syncto: Frame, from: int) -> Transition<I> {
        let queue = self.first_peer(from);
        if queue < self.players.len() {
            Transition {
                state: self.dropped(queue, syncto),
                actions: self.drop_actions(queue, syncto),
                next: Next::Sweep { syncto, queue: (queue + 1) as usize },
            }
        } else {
            Transition { state: self, actions: Seq::empty(), next: Next::Finished }
        }
    }

    /// Why a request to disconnect `player` is refused, if it is.
    pub open spec fn disconnect_refusal(&self, player: BackrollPlayerHandle) -> Option<
        BackrollError,
    > {
        if player.0 >= self.players.len() {
            Some(BackrollError::InvalidPlayer(player))
        } else if self.status[player.0 as int].disconnected || self.left[player.0 as int] {
            Some(BackrollError::PlayerDisconnected(player))
        } else {
            None
        }
    }

    /// The session with the local player at `queue` noted as having left.
    pub open spec fn leaving(self, queue: int) -> SessionModel {
        SessionModel { left: self.left.update(queue, true), ..self }
    }

    /// Disconnecting the player at `queue`: if it is local, it leaves and all others that
    /// are not local are dropped, else only itself is, at the last frame that is known of
    /// it.
    pub open spec fn disconnect<I>(self, queue: int) -> Transition<I> {
        if self.players[queue] is Local {
            self.leaving(queue).sweep(self.frame_count, 0)
        } else {
            let syncto = self.status[queue].last_frame;
            Transition {
                state: self.dropped(queue, syncto),
                actions: self.drop_actions(queue, syncto),
                next: Next::Finished,
            }
        }
    }

    /// Why an input of `player` is refused, if it is.
    pub open spec fn input_refusal(&self, player: BackrollPlayerHandle) -> Option<BackrollError> {
        if self.in_rollback {
            Some(BackrollError::InRollback)
        } else if self.synchronizing {
            Some(BackrollError::NotSynchronized)
        } else if player.0 >= self.players.len() {
            Some(BackrollError::InvalidPlayer(player))
        } else {
            None
        }
    }

    // Going on.

    /// Whether `next` is a place where a session of this size can be.
    pub open spec fn reaches(&self, next: Next) -> bool {
        match next {
            Next::Queues { queue, .. } => queue <= self.players.len(),
            Next::Sweep { queue, .. } => queue <= self.players.len(),
            _ => true,
        }
    }

    /// Whether the session can go on at `next`. It cannot confirm a frame that no
    /// player confirms, nor plan a recommendation beyond the last frame there is.
    pub open spec fn can_resume(&self, next: Next) -> bool {
        &&& self.reaches(next)
        &&& next matches Next::Confirm { current_frame, min_frame } ==> {
            &&& min_frame != Frame::MAX
            &&& self.sleep_due(current_frame) ==> current_frame + RECOMMENDATION_INTERVAL
                <= Frame::MAX
        }
    }

    /// Going on at `next`.
    pub open spec fn resume<I>(self, next: Next) -> Transition<I> {
        match next {
            Next::Finished => Transition {
                state: self,
                actions: Seq::empty(),
                next: Next::Finished,
            },
            Next::Poll => self.poll(),
            Next::Notify => self.notify(),
            Next::Queues { current_frame, queue, min_frame } => self.look(
                current_frame,
                queue as int,
                min_frame,
            ),
            Next::Confirm { current_frame, min_frame } => self.confirm(current_frame, min_frame),
            Next::Sweep { syncto, queue } => self.sweep(syncto, queue as int),
        }
    }
}

} // verus!
