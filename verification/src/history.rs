//! What holds of a session over any sequence of calls.

use crate::action::{Action, BackrollError, Next};
use crate::frame::{BackrollConfig, Frame, FrameInput};
use crate::laws::{
    disconnecting_brings_nobody_back, disconnecting_keeps_the_session, first_drop_is_first,
    first_peer_is_first, going_on_keeps_the_session, going_on_never_goes_back, same_kinds,
    synchronizing_sessions_have_others, the_gone_stay_gone,
};
use crate::model::{broadcast, SessionModel};
use crate::p2p::{kind_of, BuilderModel, Startup};
use crate::peer::BackrollPeer;
use crate::player::{BackrollPlayerHandle, Player};
use crate::status::ConnectionStatus;
use vstd::prelude::*;

verus! {

/// A call of a method of a session.
pub enum Call<I> {
    /// One that only tells something about the session.
    Ask,
    /// `advance_frame`.
    AdvanceFrame,
    /// `resume`.
    Resume { next: Next },
    /// `disconnect_player`.
    DisconnectPlayer { player: BackrollPlayerHandle },
    /// `add_local_input`.
    AddLocalInput { player: BackrollPlayerHandle, input: I },
    /// `local_input_added`, with the frame at which the synchronizer placed the input,
    /// unless it refused it.
    LocalInputAdded { frame: Option<Frame>, input: I },
    /// `set_frame_delay`.
    SetFrameDelay { player: BackrollPlayerHandle, delay: Frame },
    /// `observe_sync`.
    ObserveSync { frame_count: Frame, in_rollback: bool },
    /// `observe_peer`.
    ObservePeer { queue: usize, peer: BackrollPeer },
    /// `set_status`, or `observe_status` with what it reads.
    ObserveStatus { status: Seq<ConnectionStatus> },
}

/// Whether `call` may be made.
pub open spec fn allows<I>(session: SessionModel, call: Call<I>) -> bool {
    match call {
        Call::Resume { next } => session.can_resume(next),
        Call::ObservePeer { queue, peer } => session.fits(queue as int, peer),
        Call::ObserveStatus { status } => status.len() == session.players.len(),
        _ => true,
    }
}

/// The session after `call`.
pub open spec fn after<I>(session: SessionModel, call: Call<I>) -> SessionModel {
    match call {
        Call::Resume { next } => session.resume::<I>(next).state,
        Call::DisconnectPlayer { player } => if session.disconnect_refusal(player) is Some {
            session
        } else {
            session.disconnect::<I>(player.0 as int).state
        },
        Call::ObserveSync { frame_count, in_rollback } => session.observe_sync(
            frame_count,
            in_rollback,
        ),
        Call::ObservePeer { queue, peer } => session.observe_peer(queue as int, peer),
        Call::ObserveStatus { status } => session.observe_status(status),
        _ => session,
    }
}

/// What `call` asks of the surroundings.
pub open spec fn asks<I>(session: SessionModel, call: Call<I>) -> Seq<Action<I>> {
    match call {
        Call::AdvanceFrame => seq![Action::IncrementFrame],
        Call::Resume { next } => session.resume::<I>(next).actions,
        Call::DisconnectPlayer { player } => if session.disconnect_refusal(player) is Some {
            Seq::empty()
        } else {
            session.disconnect::<I>(player.0 as int).actions
        },
        Call::AddLocalInput { player, input } => if session.input_refusal(player) is Some {
            Seq::empty()
        } else {
            seq![Action::AddLocalInput { queue: player.0, input }]
        },
        Call::LocalInputAdded { frame, input } => match frame {
            Some(frame) if frame >= 0 => broadcast(session.players, FrameInput { frame, input }),
            _ => Seq::empty(),
        },
        Call::SetFrameDelay { player, delay } => if player.0 < session.players.len() {
            seq![Action::SetFrameDelay { queue: player.0, delay }]
        } else {
            Seq::empty()
        },
        _ => Seq::empty(),
    }
}

/// The session after all of `calls`, made one after the other.
pub open spec fn after_all<I>(session: SessionModel, calls: Seq<Call<I>>) -> SessionModel
    decreases calls.len(),
{
    if calls.len() == 0 {
        session
    } else {
        after(after_all(session, calls.drop_last()), calls.last())
    }
}

/// Whether all of `calls` may be made, one after the other.
pub open spec fn allows_all<I>(session: SessionModel, calls: Seq<Call<I>>) -> bool
    decreases calls.len(),
{
    calls.len() > 0 ==> {
        &&& allows_all(session, calls.drop_last())
        &&& allows(after_all(session, calls.drop_last()), calls.last())
    }
}

/// A single call keeps the session well formed and its players where they are, and
/// nobody who has left comes back. A session that has synchronized stays so, and frames
/// that are planned or given away stay so.
pub proof fn a_call_keeps_the_session<I>(session: SessionModel, call: Call<I>)
    requires
        session.wf(),
        allows(session, call),
    ensures
        after(session, call).wf(),
        same_kinds(session.players, after(session, call).players),
        after(session, call).remembers(session),
        after(session, call).synchronizing ==> session.synchronizing,
        session.next_spectator_frame <= after(session, call).next_spectator_frame,
        session.next_recommended_sleep <= after(session, call).next_recommended_sleep,
        !(call is ObserveSync) ==> after(session, call).frame_count == session.frame_count,
{
    match call {
        Call::Resume { next } => {
            going_on_keeps_the_session::<I>(session, next);
            going_on_never_goes_back::<I>(session, next);
            the_gone_stay_gone::<I>(session, next);
        },
        Call::DisconnectPlayer { player } => {
            if session.disconnect_refusal(player) is None {
                disconnecting_keeps_the_session::<I>(session, player.0 as int);
                disconnecting_brings_nobody_back::<I>(session, player.0 as int);
            }
        },
        _ => {},
    }
}

/// Whatever is called, the session stays well formed. Its players stay as many and where
/// they are, nobody who has left comes back, and once it has synchronized it never
/// synchronizes again; while it does, it has a player that is not local.
pub proof fn calls_keep_the_session<I>(session: SessionModel, calls: Seq<Call<I>>)
    requires
        session.wf(),
        allows_all(session, calls),
    ensures
        after_all(session, calls).wf(),
        same_kinds(session.players, after_all(session, calls).players),
        after_all(session, calls).players.len() == session.players.len(),
        after_all(session, calls).status.len() == session.players.len(),
        after_all(session, calls).remembers(session),
        after_all(session, calls).synchronizing ==> session.synchronizing,
        after_all(session, calls).synchronizing ==> exists|i: int|
            0 <= i < session.players.len() && #[trigger] after_all(
                session,
                calls,
            ).players[i].has_peer(),
        session.next_spectator_frame <= after_all(session, calls).next_spectator_frame,
        session.next_recommended_sleep <= after_all(session, calls).next_recommended_sleep,
    decreases calls.len(),
{
    if calls.len() > 0 {
        let before = after_all(session, calls.drop_last());
        calls_keep_the_session(session, calls.drop_last());
        a_call_keeps_the_session(before, calls.last());
    }
    if after_all(session, calls).synchronizing {
        synchronizing_sessions_have_others(after_all(session, calls));
    }
}

/// However a session was used since it was started, it has the players that the builder
/// gathered, those that have left included, each of the kind that it was added as.
pub proof fn the_players_are_those_of_the_builder<T: BackrollConfig>(
    builder: BuilderModel<T::Peer>,
    startup: Startup<T>,
    calls: Seq<Call<T::Input>>,
)
    requires
        startup.starts(builder),
        allows_all(startup.session@, calls),
    ensures
        after_all(startup.session@, calls).wf(),
        after_all(startup.session@, calls).players.len() == builder.players.len(),
        forall|i: int|
            0 <= i < builder.players.len() ==> (#[trigger] after_all(
                startup.session@,
                calls,
            ).players[i]).kind_view() == kind_of(builder.players[i]),
        after_all(startup.session@, calls).synchronizing ==> exists|i: int|
            0 <= i < builder.players.len() && !(#[trigger] builder.players[i] is Local),
{
    calls_keep_the_session(startup.session@, calls);
}

/// A player that was disconnected on request is refused for good: whatever is called in
/// between, it cannot be disconnected again.
pub proof fn the_disconnected_are_refused_for_good<I>(
    session: SessionModel,
    player: BackrollPlayerHandle,
    calls: Seq<Call<I>>,
)
    requires
        session.wf(),
        session.disconnect_refusal(player) is None,
        allows_all(session.disconnect::<I>(player.0 as int).state, calls),
    ensures
        after_all(
            session.disconnect::<I>(player.0 as int).state,
            calls,
        ).disconnect_refusal(player) == Some(BackrollError::PlayerDisconnected(player)),
{
    let left = session.disconnect::<I>(player.0 as int).state;
    disconnecting_keeps_the_session::<I>(session, player.0 as int);
    disconnecting_brings_nobody_back::<I>(session, player.0 as int);
    those_who_left_are_refused_for_good(left, player, calls);
}

/// Whoever has left, on request, with a local player or because others report it, is
/// refused for good when it is to be disconnected.
pub proof fn those_who_left_are_refused_for_good<I>(
    session: SessionModel,
    player: BackrollPlayerHandle,
    calls: Seq<Call<I>>,
)
    requires
        session.wf(),
        player.0 < session.players.len(),
        session.left[player.0 as int],
        allows_all(session, calls),
    ensures
        after_all(session, calls).left[player.0 as int],
        after_all(session, calls).disconnect_refusal(player) == Some(
            BackrollError::PlayerDisconnected(player),
        ),
{
    calls_keep_the_session(session, calls);
}

/// Whether no observation among `calls` shows the player at `queue` as connected.
pub open spec fn never_seen_connected<I>(calls: Seq<Call<I>>, queue: int) -> bool {
    forall|k: int|
        #![trigger calls[k]]
        0 <= k < calls.len() ==> (calls[k] matches Call::ObserveStatus { status }
            ==> status[queue].disconnected)
}

/// A player whose status says that it is gone stays gone, unless a task outside the
/// session writes otherwise.
pub proof fn the_gone_stay_gone_over_calls<I>(
    session: SessionModel,
    queue: int,
    calls: Seq<Call<I>>,
)
    requires
        session.wf(),
        0 <= queue < session.players.len(),
        session.status[queue].disconnected,
        allows_all(session, calls),
        never_seen_connected(calls, queue),
    ensures
        after_all(session, calls).status[queue].disconnected,
    decreases calls.len(),
{
    if calls.len() > 0 {
        let rest = calls.drop_last();
        let before = after_all(session, rest);
        calls_keep_the_session(session, rest);
        the_gone_stay_gone_over_calls(session, queue, rest);
        match calls.last() {
            Call::Resume { next } => {
                the_gone_stay_gone::<I>(before, next);
            },
            Call::DisconnectPlayer { player } => {
                if before.disconnect_refusal(player) is None {
                    disconnecting_brings_nobody_back::<I>(before, player.0 as int);
                }
            },
            _ => {},
        }
    }
}

// Advancing.

/// How often the synchronizer is asked to increment the frame.
pub open spec fn increments<I>(actions: Seq<Action<I>>) -> nat
    decreases actions.len(),
{
    if actions.len() == 0 {
        0
    } else {
        increments(actions.drop_last()) + if actions.last() is IncrementFrame {
            1nat
        } else {
            0
        }
    }
}

/// How often all of `calls` together ask the synchronizer to increment the frame.
pub open spec fn increments_asked<I>(session: SessionModel, calls: Seq<Call<I>>) -> nat
    decreases calls.len(),
{
    if calls.len() == 0 {
        0
    } else {
        increments_asked(session, calls.drop_last()) + increments(
            asks(after_all(session, calls.drop_last()), calls.last()),
        )
    }
}

/// How many of `calls` are `advance_frame`.
pub open spec fn advances<I>(calls: Seq<Call<I>>) -> nat
    decreases calls.len(),
{
    if calls.len() == 0 {
        0
    } else {
        advances(calls.drop_last()) + if calls.last() is AdvanceFrame {
            1nat
        } else {
            0
        }
    }
}

/// Actions none of which increments the frame do so not once.
proof fn lemma_no_increments<I>(actions: Seq<Action<I>>)
    requires
        forall|i: int| 0 <= i < actions.len() ==> !(#[trigger] actions[i] is IncrementFrame),
    ensures
        increments(actions) == 0,
    decreases actions.len(),
{
    if actions.len() > 0 {
        lemma_no_increments(actions.drop_last());
    }
}

/// No input that is sent increments the frame.
proof fn lemma_broadcast_only_sends<I>(players: Seq<Player>, input: FrameInput<I>)
    ensures
        forall|i: int|
            0 <= i < broadcast(players, input).len() ==> #[trigger] broadcast(players, input)[i]
                is SendInput,
    decreases players.len(),
{
    if players.len() > 0 {
        lemma_broadcast_only_sends(players.drop_last(), input);
    }
}

/// `advance_frame` has the frame incremented once, and no other call has it incremented.
pub proof fn only_advancing_increments_the_frame<I>(session: SessionModel, call: Call<I>)
    requires
        session.wf(),
        allows(session, call),
    ensures
        increments(asks(session, call)) == if call is AdvanceFrame {
            1nat
        } else {
            0
        },
{
    let asked = asks(session, call);
    match call {
        Call::AdvanceFrame => {
            assert(increments(asked.drop_last()) == 0);
        },
        Call::LocalInputAdded { frame: Some(frame), input } => {
            lemma_broadcast_only_sends(session.players, FrameInput { frame, input });
            lemma_no_increments(asked);
        },
        Call::Resume { next } => {
            match next {
                Next::Queues { queue, .. } => {
                    first_drop_is_first(session, session.few(), queue as int);
                },
                Next::Sweep { queue, .. } => {
                    first_peer_is_first(session, queue as int);
                },
                _ => {},
            }
            lemma_no_increments(asked);
        },
        _ => {
            lemma_no_increments(asked);
        },
    }
}

/// Over any sequence of calls, the frame is incremented exactly as often as
/// `advance_frame` is called; the frame that the session is at is the last one observed.
pub proof fn the_frame_advances_with_the_calls<I>(session: SessionModel, calls: Seq<Call<I>>)
    requires
        session.wf(),
        allows_all(session, calls),
    ensures
        increments_asked(session, calls) == advances(calls),
        (forall|k: int| 0 <= k < calls.len() ==> !(#[trigger] calls[k] is ObserveSync))
            ==> after_all(session, calls).frame_count == session.frame_count,
    decreases calls.len(),
{
    if calls.len() > 0 {
        let rest = calls.drop_last();
        the_frame_advances_with_the_calls(session, rest);
        calls_keep_the_session(session, rest);
        only_advancing_increments_the_frame(after_all(session, rest), calls.last());
        a_call_keeps_the_session(after_all(session, rest), calls.last());
    }
}

/// Whether every frame that is observed is the one that the session was at first, plus
/// the increments that were asked for since: the synchronizer counts as it is asked to,
/// also where it replays some frames.
pub open spec fn counts_frames<I>(session: SessionModel, calls: Seq<Call<I>>) -> bool
    decreases calls.len(),
{
    calls.len() > 0 ==> {
        &&& counts_frames(session, calls.drop_last())
        &&& calls.last() matches Call::ObserveSync { frame_count, .. } ==> frame_count
            == session.frame_count + increments_asked(session, calls.drop_last())
    }
}

/// With a synchronizer that counts, the frame moves on by one for each `advance_frame`
/// and for no other call.
pub proof fn each_advance_is_a_single_frame<I>(session: SessionModel, calls: Seq<Call<I>>)
    requires
        session.wf(),
        allows_all(session, calls),
        counts_frames(session, calls),
        calls.len() > 0,
        calls.last() is ObserveSync,
    ensures
        after_all(session, calls).frame_count == session.frame_count + advances(calls),
{
    the_frame_advances_with_the_calls(session, calls.drop_last());
}

} // verus!
