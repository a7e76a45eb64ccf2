//! What holds of every session, whatever its surroundings do.

use crate::action::{Action, BackrollError, Next, PollOutcome};
use crate::frame::{BackrollConfig, Frame, FrameInput};
use crate::model::{
    broadcast, longest_delay, queues_of, SessionModel, RECOMMENDATION_INTERVAL,
};
use crate::p2p::{kind_of, BuilderModel, Startup};
use crate::player::{BackrollPlayerHandle, Kind, Player};
use vstd::prelude::*;

verus! {

// Players.

/// Whether two sessions have players of the same kinds at the same queues.
pub open spec fn same_kinds(a: Seq<Player>, b: Seq<Player>) -> bool {
    &&& a.len() == b.len()
    &&& forall|i: int|
        #![trigger a[i]]
        #![trigger b[i]]
        0 <= i < a.len() ==> a[i].kind_view() == b[i].kind_view()
}

/// The queues of one kind are those of the players of that kind, each once, in
/// ascending order.
pub proof fn queues_of_kind_are_exact(players: Seq<Player>, kind: Kind)
    requires
        players.len() <= usize::MAX,
    ensures
        forall|i: int|
            0 <= i < players.len() ==> (queues_of(players, kind).contains(i as usize) <==> (
            #[trigger] players[i]).kind_view() == kind),
        forall|k: int|
            #![trigger queues_of(players, kind)[k]]
            0 <= k < queues_of(players, kind).len() ==> queues_of(players, kind)[k]
                < players.len(),
        forall|j: int, k: int|
            0 <= j < k < queues_of(players, kind).len() ==> queues_of(players, kind)[j]
                < queues_of(players, kind)[k],
    decreases players.len(),
{
    if players.len() > 0 {
        let rest = players.drop_last();
        let before = queues_of(rest, kind);
        let all = queues_of(players, kind);
        queues_of_kind_are_exact(rest, kind);
        let last = (players.len() - 1) as usize;
        assert forall|i: int| 0 <= i < players.len() implies (all.contains(i as usize) <==> (
        #[trigger] players[i]).kind_view() == kind) by {
            if i < players.len() - 1 {
                assert(rest[i] == players[i]);
                if before.contains(i as usize) {
                    let k = choose|k: int| 0 <= k < before.len() && before[k] == i as usize;
                    assert(all[k] == i as usize);
                }
            } else if players[i].kind_view() == kind {
                assert(all[all.len() - 1] == last);
            }
        }
    }
}

/// Every player is local, remote or a spectator, and is counted once.
pub proof fn kinds_partition_the_players(players: Seq<Player>)
    ensures
        queues_of(players, Kind::Local).len() + queues_of(players, Kind::Remote).len() + queues_of(
            players,
            Kind::Spectator,
        ).len() == players.len(),
    decreases players.len(),
{
    if players.len() > 0 {
        kinds_partition_the_players(players.drop_last());
    }
}

/// The queues of a kind depend on the kinds of the players alone.
pub(crate) proof fn lemma_queues_of_same_kinds(a: Seq<Player>, b: Seq<Player>, kind: Kind)
    requires
        same_kinds(a, b),
    ensures
        queues_of(a, kind) == queues_of(b, kind),
    decreases a.len(),
{
    if a.len() > 0 {
        lemma_queues_of_same_kinds(a.drop_last(), b.drop_last(), kind);
    }
}

/// There is a wait to recommend exactly if there is a remote player; it is the
/// longest that a remote player's endpoint recommends.
pub proof fn longest_delay_is_longest(players: Seq<Player>)
    ensures
        longest_delay(players) is Some <==> exists|i: int|
            0 <= i < players.len() && #[trigger] players[i] is Remote,
        forall|i: int|
            #![trigger players[i]]
            0 <= i < players.len() && players[i] is Remote ==> players[i]->Remote_peer.frame_delay
                <= longest_delay(players).unwrap(),
        longest_delay(players) matches Some(delay) ==> exists|i: int|
            0 <= i < players.len() && #[trigger] players[i] is Remote
                && players[i]->Remote_peer.frame_delay == delay,
    decreases players.len(),
{
    if players.len() > 0 {
        let rest = players.drop_last();
        longest_delay_is_longest(rest);
        assert(forall|i: int| 0 <= i < rest.len() ==> rest[i] == #[trigger] players[i]);
    }
}

/// An input goes to each player that is not local, once, and to no other.
pub proof fn inputs_reach_every_peer_once<I>(players: Seq<Player>, input: FrameInput<I>)
    requires
        players.len() <= usize::MAX,
    ensures
        forall|i: int|
            0 <= i < players.len() ==> (broadcast(players, input).contains(
                Action::SendInput { queue: i as usize, frame_input: input },
            ) <==> (#[trigger] players[i]).has_peer()),
        forall|k: int|
            #![trigger broadcast(players, input)[k]]
            0 <= k < broadcast(players, input).len() ==> {
                &&& broadcast(players, input)[k] is SendInput
                &&& broadcast(players, input)[k]->SendInput_queue < players.len()
                &&& broadcast(players, input)[k]->SendInput_frame_input == input
            },
        forall|j: int, k: int|
            #![trigger broadcast(players, input)[j], broadcast(players, input)[k]]
            0 <= j < k < broadcast(players, input).len() ==> broadcast(
                players,
                input,
            )[j]->SendInput_queue < broadcast(players, input)[k]->SendInput_queue,
    decreases players.len(),
{
    if players.len() > 0 {
        let rest = players.drop_last();
        let before = broadcast(rest, input);
        let all = broadcast(players, input);
        inputs_reach_every_peer_once(rest, input);
        assert forall|i: int| 0 <= i < players.len() implies (all.contains(
            Action::SendInput { queue: i as usize, frame_input: input },
        ) <==> (#[trigger] players[i]).has_peer()) by {
            let sent = Action::SendInput { queue: i as usize, frame_input: input };
            if i < players.len() - 1 {
                assert(rest[i] == players[i]);
                if before.contains(sent) {
                    let k = choose|k: int| 0 <= k < before.len() && before[k] == sent;
                    assert(all[k] == sent);
                }
            } else if players[i].has_peer() {
                assert(all[all.len() - 1] == sent);
            }
        }
    }
}

// Starting.

/// A handle that the builder gave for a player names that player in the session,
/// which has not been disconnected.
pub proof fn handles_name_their_players<T: BackrollConfig>(
    builder: BuilderModel<T::Peer>,
    startup: Startup<T>,
    handle: BackrollPlayerHandle,
)
    requires
        startup.starts(builder),
        handle.0 < builder.players.len(),
    ensures
        startup.session@.players[handle.0 as int].kind_view() == kind_of(
            builder.players[handle.0 as int],
        ),
        startup.session@.disconnect_refusal(handle) is None,
{
}

/// A handle beyond those that the builder gave is refused, whatever it is used
/// for.
pub proof fn other_handles_are_refused(session: SessionModel, handle: BackrollPlayerHandle)
    requires
        handle.0 >= session.players.len(),
    ensures
        session.disconnect_refusal(handle) == Some(BackrollError::InvalidPlayer(handle)),
        session.input_refusal(handle) is Some,
        !session.in_rollback && !session.synchronizing ==> session.input_refusal(handle) == Some(
            BackrollError::InvalidPlayer(handle),
        ),
{
}

// Synchronizing.

/// No input is refused for want of synchronization once everyone is ready or gone.
pub proof fn ready_sessions_take_input(session: SessionModel, player: BackrollPlayerHandle)
    requires
        session.wf(),
        session.is_synchronized(),
    ensures
        !session.synchronizing,
        session.input_refusal(player) != Some(BackrollError::NotSynchronized),
        !session.in_rollback && player.0 < session.players.len() ==> session.input_refusal(player)
            is None,
{
}

/// An input that is refused for want of synchronization is refused because of a player
/// that is not local, not ready and not gone.
pub proof fn unready_players_hold_up_input(session: SessionModel, player: BackrollPlayerHandle)
    requires
        session.wf(),
        session.input_refusal(player) == Some(BackrollError::NotSynchronized),
    ensures
        exists|i: int|
            #![trigger session.players[i]]
            0 <= i < session.players.len() && session.players[i].has_peer()
                && !session.players[i].running() && !session.status[i].disconnected,
{
}

/// A session that synchronizes has a player that is not local.
pub proof fn synchronizing_sessions_have_others(session: SessionModel)
    requires
        session.wf(),
        session.synchronizing,
    ensures
        exists|i: int| 0 <= i < session.players.len() && #[trigger] session.players[i].has_peer(),
{
}

/// A session of local players only is always synchronized.
pub proof fn local_sessions_are_synchronized(session: SessionModel)
    requires
        forall|i: int| 0 <= i < session.players.len() ==> #[trigger] session.players[i] is Local,
    ensures
        session.is_synchronized(),
{
}

/// A session whose other players have all left is synchronized.
pub proof fn abandoned_sessions_are_synchronized(session: SessionModel)
    requires
        session.wf(),
        forall|i: int|
            #![trigger session.players[i]]
            0 <= i < session.players.len() && session.players[i].has_peer()
                ==> session.status[i].disconnected,
    ensures
        session.is_synchronized(),
        !session.check_initial_sync().synchronizing,
{
}

/// A poll starts by having the simulation checked. While the session replays or
/// synchronizes, it asks for nothing and changes nothing.
pub proof fn polls_wait_until_everyone_is_ready<I>(session: SessionModel)
    ensures
        session.resume::<I>(Next::Poll).state == session,
        session.in_rollback || session.synchronizing ==> {
            &&& session.resume::<I>(Next::Poll).actions == Seq::<Action<I>>::empty()
            &&& session.resume::<I>(Next::Poll).next == Next::Finished
        },
        !session.in_rollback && !session.synchronizing ==> {
            &&& session.resume::<I>(Next::Poll).actions == seq![Action::<I>::CheckSimulation]
            &&& session.resume::<I>(Next::Poll).next == Next::Notify
        },
{
}

/// No input is taken while the session replays or synchronizes.
pub proof fn no_input_before_everyone_is_ready(session: SessionModel, player: BackrollPlayerHandle)
    ensures
        session.in_rollback ==> session.input_refusal(player) == Some(BackrollError::InRollback),
        !session.in_rollback && session.synchronizing ==> session.input_refusal(player) == Some(
            BackrollError::NotSynchronized,
        ),
{
}

// Polling.

/// The first queue to drop has to be dropped, and none before it has.
pub proof fn first_drop_is_first(session: SessionModel, few: bool, from: int)
    requires
        0 <= from <= session.players.len(),
    ensures
        from <= session.first_drop(few, from) <= session.players.len(),
        session.first_drop(few, from) < session.players.len() ==> session.drops(
            few,
            session.first_drop(few, from),
        ),
        forall|queue: int|
            from <= queue < session.first_drop(few, from) ==> !#[trigger] session.drops(few, queue),
    decreases session.players.len() - from,
{
    if from < session.players.len() && !session.drops(few, from) {
        first_drop_is_first(session, few, from + 1);
    }
}

/// The frame that is reported of a queue is the earliest that any running endpoint
/// reports, and the latest there is if no endpoint is running.
pub proof fn reported_frame_is_earliest(session: SessionModel, queue: int, count: int)
    requires
        0 <= count <= session.players.len(),
    ensures
        forall|i: int|
            #![trigger session.players[i]]
            0 <= i < count && session.players[i].running() ==> session.reported_frame(queue, count)
                <= session.players[i].report(queue).last_frame,
        session.reported_frame(queue, count) == Frame::MAX || exists|i: int|
            #![trigger session.players[i]]
            0 <= i < count && session.players[i].running() && session.players[i].report(
                queue,
            ).last_frame == session.reported_frame(queue, count),
    decreases count,
{
    if count > 0 {
        reported_frame_is_earliest(session, queue, count - 1);
    }
}

/// The least bound is at or before the start and every bound, and is one of them.
pub proof fn least_bound_is_least(
    session: SessionModel,
    few: bool,
    from: int,
    to: int,
    start: Frame,
)
    ensures
        session.least_bound(few, from, to, start) <= start,
        forall|queue: int|
            from <= queue < to && #[trigger] session.bound(few, queue) is Some
                ==> session.least_bound(few, from, to, start) <= session.bound(
                few,
                queue,
            ).unwrap(),
        session.least_bound(few, from, to, start) == start || exists|queue: int|
            from <= queue < to && #[trigger] session.bound(few, queue) == Some(
                session.least_bound(few, from, to, start),
            ),
    decreases to - from,
{
    if from < to {
        least_bound_is_least(session, few, from, to - 1, start);
    }
}

/// Looking at the queues in two parts, the second with the first one's frame to start
/// from, comes to the same as looking at them at once.
pub proof fn least_bound_in_parts(
    session: SessionModel,
    few: bool,
    from: int,
    middle: int,
    to: int,
    start: Frame,
)
    requires
        from <= middle <= to,
    ensures
        session.least_bound(few, from, to, start) == session.least_bound(
            few,
            middle,
            to,
            session.least_bound(few, from, middle, start),
        ),
    decreases to - middle,
{
    if middle < to {
        least_bound_in_parts(session, few, from, middle, to - 1, start);
    }
}

/// A player is dropped at a frame up to which it is known: not after the last frame
/// that this machine has of it, if it had not lost it before, and, with many remote
/// players, not after the last frame that any running endpoint has of it.
pub proof fn players_are_dropped_where_they_are_known(
    session: SessionModel,
    few: bool,
    from: int,
    start: Frame,
)
    requires
        session.wf(),
        0 <= from <= session.players.len(),
    ensures
        session.poll_outcome(few, from, start) matches PollOutcome::Drop {
            queue,
            syncto,
            ..
        } ==> {
            &&& from <= queue < session.players.len()
            &&& !session.status[queue as int].disconnected ==> syncto
                <= session.status[queue as int].last_frame
            &&& !few ==> forall|i: int|
                #![trigger session.players[i]]
                0 <= i < session.players.len() && session.players[i].running() ==> syncto
                    <= session.players[i].report(queue as int).last_frame
        },
{
    first_drop_is_first(session, few, from);
    let stop = session.first_drop(few, from);
    if stop < session.players.len() {
        least_bound_is_least(session, few, from, stop + 1, start);
        reported_frame_is_earliest(session, stop, session.players.len() as int);
    }
}

/// A look never moves a recorded last frame forward and brings nobody back, and leaves
/// every queue as it is that no running endpoint reports as gone.
pub proof fn a_look_never_moves_forward<I>(
    session: SessionModel,
    current_frame: Frame,
    from: int,
    start: Frame,
    queue: int,
)
    requires
        session.wf(),
        0 <= from <= session.players.len(),
        0 <= queue < session.players.len(),
    ensures
        session.look::<I>(current_frame, from, start).state.status[queue].last_frame
            <= session.status[queue].last_frame,
        session.status[queue].disconnected ==> session.look::<I>(
            current_frame,
            from,
            start,
        ).state.status[queue].disconnected,
        session.reported_connected(queue) ==> session.look::<I>(
            current_frame,
            from,
            start,
        ).state.status[queue] == session.status[queue],
{
    let few = session.few();
    first_drop_is_first(session, few, from);
    players_are_dropped_where_they_are_known(session, few, from, start);
}

/// Without a running endpoint, few and many players are polled alike: nobody is dropped,
/// and the same frame is confirmed.
pub proof fn without_endpoints_all_polls_are_alike(session: SessionModel, from: int, start: Frame)
    requires
        session.wf(),
        0 <= from <= session.players.len(),
        forall|i: int|
            #![trigger session.players[i]]
            0 <= i < session.players.len() ==> !session.players[i].running(),
    ensures
        session.poll_outcome(true, from, start) == session.poll_outcome(false, from, start),
        session.poll_outcome(true, from, start) is Complete,
{
    first_drop_is_first(session, true, from);
    first_drop_is_first(session, false, from);
    assert forall|queue: int| 0 <= queue < session.players.len() implies session.reported_frame(
        queue,
        session.players.len() as int,
    ) == Frame::MAX by {
        reported_frame_is_earliest(session, queue, session.players.len() as int);
    }
    lemma_same_least_bound(session, from, session.players.len() as int, start);
}

/// Without reports, the bounds of few and of many players have the same minimum.
proof fn lemma_same_least_bound(session: SessionModel, from: int, to: int, start: Frame)
    requires
        0 <= from,
        to <= session.players.len(),
        forall|queue: int|
            0 <= queue < session.players.len() ==> #[trigger] session.reported_frame(
                queue,
                session.players.len() as int,
            ) == Frame::MAX,
        forall|i: int|
            #![trigger session.players[i]]
            0 <= i < session.players.len() ==> !session.players[i].running(),
    ensures
        session.least_bound(true, from, to, start) == session.least_bound(false, from, to, start),
    decreases to - from,
{
    if from < to {
        lemma_same_least_bound(session, from, to - 1, start);
    }
}

/// A queue that was dropped is not dropped again, as long as the endpoints report
/// the same.
pub proof fn no_queue_is_dropped_twice(
    session: SessionModel,
    few: bool,
    queue: int,
    start: Frame,
)
    requires
        session.wf(),
        0 <= queue < session.players.len(),
        session.drops(few, queue),
    ensures
        !session.dropped(
            queue,
            if few {
                start
            } else {
                session.confirmed_frame(queue)
            },
        ).drops(few, queue),
{
    let syncto = if few {
        start
    } else {
        session.confirmed_frame(queue)
    };
    let after = session.dropped(queue, syncto);
    lemma_reports_kept(session, after, queue, session.players.len() as int);
}

/// What is reported of a queue depends on the players alone.
pub(crate) proof fn lemma_reports_kept(a: SessionModel, b: SessionModel, queue: int, count: int)
    requires
        a.players == b.players,
    ensures
        a.reported_frame(queue, count) == b.reported_frame(queue, count),
        a.reported_connected(queue) == b.reported_connected(queue),
    decreases count,
{
    if count > 0 {
        lemma_reports_kept(a, b, queue, count - 1);
    }
}

/// A queue that this machine has lost already is only dropped for a frame further
/// back than the one at which it was lost.
pub proof fn dropping_again_goes_further_back(
    session: SessionModel,
    few: bool,
    queue: int,
)
    requires
        session.wf(),
        0 <= queue < session.players.len(),
        session.drops(few, queue),
        session.status[queue].disconnected,
    ensures
        !few,
        session.confirmed_frame(queue) < session.status[queue].last_frame,
{
}

/// Dropping a queue notes that it is gone and since when, and changes nothing else but
/// that nobody may be left to wait for. The simulation goes back exactly if it is past
/// that frame.
pub proof fn dropping_a_queue<I>(session: SessionModel, queue: int, syncto: Frame)
    requires
        session.wf(),
        0 <= queue < session.players.len(),
    ensures
        session.dropped(queue, syncto).wf(),
        session.dropped(queue, syncto).status[queue].disconnected,
        session.dropped(queue, syncto).status[queue].last_frame == syncto,
        session.dropped(queue, syncto).left[queue],
        forall|other: int|
            0 <= other < session.players.len() && other != queue ==> #[trigger] session.dropped(
                queue,
                syncto,
            ).status[other] == session.status[other],
        forall|other: int|
            0 <= other < session.players.len() && other != queue ==> #[trigger] session.dropped(
                queue,
                syncto,
            ).left[other] == session.left[other],
        session.dropped(queue, syncto) == (SessionModel {
            status: session.dropped(queue, syncto).status,
            left: session.dropped(queue, syncto).left,
            synchronizing: session.synchronizing && !session.dropped(
                queue,
                syncto,
            ).is_synchronized(),
            ..session
        }),
        session.drop_actions::<I>(queue, syncto).contains(
            Action::AdjustSimulation { frame: syncto },
        ) <==> syncto < session.frame_count,
        session.drop_actions::<I>(queue, syncto).contains(
            Action::DisconnectPeer { queue: queue as usize },
        ) <==> session.players[queue].has_peer(),
{
    let actions = session.drop_actions::<I>(queue, syncto);
    if session.players[queue].has_peer() {
        assert(actions[0] == Action::<I>::DisconnectPeer { queue: queue as usize });
    }
    if syncto < session.frame_count {
        assert(actions[actions.len() - 1] == Action::<I>::AdjustSimulation { frame: syncto });
    }
}

// Disconnecting.

/// A player that was disconnected on request cannot be disconnected again.
pub proof fn disconnecting_twice_is_refused<I>(session: SessionModel, player: BackrollPlayerHandle)
    requires
        session.wf(),
        session.disconnect_refusal(player) is None,
    ensures
        session.disconnect::<I>(player.0 as int).state.disconnect_refusal(player) == Some(
            BackrollError::PlayerDisconnected(player),
        ),
{
    first_peer_is_first(session.leaving(player.0 as int), 0);
}

/// Disconnecting a player that is not local leaves all the others connected as they
/// were.
pub proof fn disconnecting_a_remote_player_spares_the_others<I>(
    session: SessionModel,
    player: BackrollPlayerHandle,
    other: int,
)
    requires
        session.wf(),
        session.disconnect_refusal(player) is None,
        session.players[player.0 as int].has_peer(),
        0 <= other < session.players.len(),
        other != player.0,
    ensures
        session.disconnect::<I>(player.0 as int).state.status[other] == session.status[other],
        !session.disconnect::<I>(player.0 as int).actions.contains(
            Action::DisconnectPeer { queue: other as usize },
        ),
{
    let actions = session.drop_actions::<I>(
        player.0 as int,
        session.status[player.0 as int].last_frame,
    );
}

/// The first peer has an endpoint, and none before it has.
pub proof fn first_peer_is_first(session: SessionModel, from: int)
    requires
        0 <= from <= session.players.len(),
    ensures
        from <= session.first_peer(from) <= session.players.len(),
        session.first_peer(from) < session.players.len() ==> session.players[session.first_peer(
            from,
        )].has_peer(),
        forall|queue: int|
            from <= queue < session.first_peer(from) ==> #[trigger] session.players[queue] is Local,
    decreases session.players.len() - from,
{
    if from < session.players.len() && !session.players[from].has_peer() {
        first_peer_is_first(session, from + 1);
    }
}

/// Players on this machine are not dropped when one of them leaves.
pub proof fn a_sweep_spares_local_players<I>(
    session: SessionModel,
    syncto: Frame,
    from: int,
    local: int,
)
    requires
        session.wf(),
        0 <= from <= session.players.len(),
        0 <= local < session.players.len(),
        session.players[local] is Local,
    ensures
        session.sweep::<I>(syncto, from).state.status[local] == session.status[local],
{
    first_peer_is_first(session, from);
}

/// Whoever has left stays away when another player is disconnected, and the gone stay
/// gone.
pub proof fn disconnecting_brings_nobody_back<I>(session: SessionModel, queue: int)
    requires
        session.wf(),
        0 <= queue < session.players.len(),
    ensures
        session.disconnect::<I>(queue).state.left[queue],
        session.disconnect::<I>(queue).state.remembers(session),
        forall|other: int|
            0 <= other < session.players.len() && (#[trigger] session.status[other]).disconnected
                ==> session.disconnect::<I>(queue).state.status[other].disconnected,
{
    first_peer_is_first(session.leaving(queue), 0);
}

// Going on.

/// Going on keeps the session well formed, its players and what it has observed, and
/// leads to a place where it can be.
pub proof fn going_on_keeps_the_session<I>(session: SessionModel, next: Next)
    requires
        session.wf(),
        session.can_resume(next),
    ensures
        session.resume::<I>(next).state.wf(),
        session.resume::<I>(next).state.reaches(session.resume::<I>(next).next),
        session.resume::<I>(next).state.players == session.players,
        session.resume::<I>(next).state.frame_count == session.frame_count,
        session.resume::<I>(next).state.in_rollback == session.in_rollback,
{
    match next {
        Next::Queues { queue, .. } => {
            first_drop_is_first(session, session.few(), queue as int);
        },
        Next::Sweep { queue, .. } => {
            first_peer_is_first(session, queue as int);
        },
        _ => {},
    }
}

/// Disconnecting a player keeps the session well formed, too, and leads to a place
/// where it can be.
pub proof fn disconnecting_keeps_the_session<I>(session: SessionModel, queue: int)
    requires
        session.wf(),
        0 <= queue < session.players.len(),
    ensures
        session.disconnect::<I>(queue).state.wf(),
        session.disconnect::<I>(queue).state.reaches(session.disconnect::<I>(queue).next),
        session.disconnect::<I>(queue).state.players == session.players,
{
    first_peer_is_first(session.leaving(queue), 0);
}

/// Once everyone is ready, the session never synchronizes again; nothing is ever
/// taken back from the spectators or recommended sooner than planned.
pub proof fn going_on_never_goes_back<I>(session: SessionModel, next: Next)
    requires
        session.wf(),
        session.can_resume(next),
    ensures
        session.resume::<I>(next).state.synchronizing ==> session.synchronizing,
        session.next_spectator_frame <= session.resume::<I>(next).state.next_spectator_frame,
        session.next_recommended_sleep <= session.resume::<I>(next).state.next_recommended_sleep,
{
}

/// Whoever has left stays away, and the gone stay gone.
pub proof fn the_gone_stay_gone<I>(session: SessionModel, next: Next)
    requires
        session.wf(),
        session.can_resume(next),
    ensures
        session.resume::<I>(next).state.remembers(session),
        forall|queue: int|
            0 <= queue < session.players.len() && (#[trigger] session.status[queue]).disconnected
                ==> session.resume::<I>(next).state.status[queue].disconnected,
{
    match next {
        Next::Queues { queue: from, .. } => {
            first_drop_is_first(session, session.few(), from as int);
        },
        Next::Sweep { queue: from, .. } => {
            first_peer_is_first(session, from as int);
        },
        _ => {},
    }
}

/// After a confirmed frame the spectators lack the frame after it, or a later one.
pub proof fn spectators_follow_the_confirmed_frame<I>(
    session: SessionModel,
    current_frame: Frame,
    min_frame: Frame,
)
    requires
        session.can_resume(Next::Confirm { current_frame, min_frame }),
        0 <= min_frame,
        queues_of(session.players, Kind::Spectator).len() > 0,
    ensures
        session.confirm::<I>(current_frame, min_frame).state.next_spectator_frame > min_frame,
        session.confirm::<I>(current_frame, min_frame).actions == seq![
            Action::<I>::SetLastConfirmedFrame { frame: min_frame },
        ],
{
}

/// Two recommendations to wait lie more than [`RECOMMENDATION_INTERVAL`] frames apart.
pub proof fn recommendations_are_spaced<I>(
    session: SessionModel,
    first: Frame,
    first_confirmed: Frame,
    later: SessionModel,
    second: Frame,
)
    requires
        session.can_resume(Next::Confirm { current_frame: first, min_frame: first_confirmed }),
        session.sleep_due(first),
        later.next_recommended_sleep >= session.confirm::<I>(
            first,
            first_confirmed,
        ).state.next_recommended_sleep,
        later.sleep_due(second),
    ensures
        second - first > RECOMMENDATION_INTERVAL,
{
}

} // verus!
