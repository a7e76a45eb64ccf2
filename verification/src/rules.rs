//! The rules of a session in plain terms: what each operation does, said of the players,
//! the endpoints' reports, the statuses and the actions themselves.

use crate::action::{Action, BackrollError, Next, Turn};
use crate::frame::{earlier, BackrollConfig, Frame, FrameInput};
use crate::history::{
    after, after_all, allows, allows_all, asks, calls_keep_the_session, Call,
};
use crate::laws::{
    first_drop_is_first, first_peer_is_first, inputs_reach_every_peer_once, least_bound_is_least,
    longest_delay_is_longest, queues_of_kind_are_exact, reported_frame_is_earliest,
};
use crate::model::{broadcast, handles, queues_of, SessionModel, Transition};
use crate::p2p::{
    kind_of, requests, BuilderModel, Startup, DEFAULT_DISCONNECT_NOTIFY_START_MILLIS,
    DEFAULT_DISCONNECT_TIMEOUT_MILLIS,
};
use crate::peer::{no_stats, BackrollPeer, NetworkStats, PeerRequest};
use crate::player::{BackrollPlayer, BackrollPlayerHandle, Kind, Player};
use crate::runs::{is_run, Visit};
use crate::status::ConnectionStatus;
use vstd::prelude::*;

verus! {

// Terms.

/// The endpoint of a player that is not on this machine.
pub open spec fn endpoint(player: Player) -> Option<BackrollPeer> {
    match player {
        Player::Local => None,
        Player::Remote { peer } => Some(peer),
        Player::Spectator { peer } => Some(peer),
    }
}

/// Whether a player has an endpoint, and it is running.
pub open spec fn is_up(player: Player) -> bool {
    endpoint(player) is Some && endpoint(player).unwrap().running
}

/// What a player's machine reports of the player at `queue`.
pub open spec fn says(player: Player, queue: int) -> ConnectionStatus {
    endpoint(player).unwrap().peer_connect_status@[queue]
}

/// Whether the session has to wait for the player at `queue`: it is on another machine,
/// its endpoint is not running, and it is not gone.
pub open spec fn is_awaited(session: SessionModel, queue: int) -> bool {
    &&& 0 <= queue < session.players.len()
    &&& !(session.players[queue] is Local)
    &&& !is_up(session.players[queue])
    &&& !session.status[queue].disconnected
}

/// Whether the session has to wait for anyone.
pub open spec fn someone_is_awaited(session: SessionModel) -> bool {
    exists|i: int| #[trigger] is_awaited(session, i)
}

/// Whether there are more than two remote players.
pub open spec fn are_many(players: Seq<Player>) -> bool {
    exists|i: int, j: int, k: int|
        #![trigger players[i], players[j], players[k]]
        0 <= i < j < k < players.len() && players[i] is Remote && players[j] is Remote
            && players[k] is Remote
}

/// Whether the running endpoint of the player at `queue` says that this player is gone,
/// while this machine takes it to be connected.
pub open spec fn says_it_left(session: SessionModel, queue: int) -> bool {
    &&& is_up(session.players[queue])
    &&& says(session.players[queue], queue).disconnected
    &&& !session.status[queue].disconnected
}

/// Whether some running endpoint says that the player at `queue` is gone.
pub open spec fn is_said_gone(session: SessionModel, queue: int) -> bool {
    exists|i: int|
        #![trigger session.players[i]]
        0 <= i < session.players.len() && is_up(session.players[i]) && says(
            session.players[i],
            queue,
        ).disconnected
}

/// Whether some running endpoint has less of the player at `queue` than this machine.
pub open spec fn is_said_to_have_less(session: SessionModel, queue: int) -> bool {
    exists|i: int|
        #![trigger session.players[i]]
        0 <= i < session.players.len() && is_up(session.players[i]) && says(
            session.players[i],
            queue,
        ).last_frame < session.status[queue].last_frame
}

/// Whether everyone has the player at `queue` up to `frame`: this machine, unless it has
/// lost that player, and every machine with a running endpoint.
pub open spec fn everyone_has(session: SessionModel, queue: int, frame: Frame) -> bool {
    &&& !session.status[queue].disconnected ==> frame <= session.status[queue].last_frame
    &&& forall|i: int|
        #![trigger session.players[i]]
        0 <= i < session.players.len() && is_up(session.players[i]) ==> frame <= says(
            session.players[i],
            queue,
        ).last_frame
}

/// Whether `frame` is the last that someone has of the player at `queue`: this machine,
/// unless it has lost that player, or a machine with a running endpoint.
pub open spec fn someone_stops_at(session: SessionModel, queue: int, frame: Frame) -> bool {
    ||| !session.status[queue].disconnected && session.status[queue].last_frame == frame
    ||| exists|i: int|
        #![trigger session.players[i]]
        0 <= i < session.players.len() && is_up(session.players[i]) && says(
            session.players[i],
            queue,
        ).last_frame == frame
}

/// Whether `frame` is the earliest of `start` and the last frames of those players from
/// `from` up to but not including `to` that are connected.
pub open spec fn is_earliest_of_few(
    session: SessionModel,
    from: int,
    to: int,
    start: Frame,
    frame: Frame,
) -> bool {
    &&& frame <= start
    &&& forall|queue: int|
        from <= queue < to && !(#[trigger] session.status[queue]).disconnected ==> frame
            <= session.status[queue].last_frame
    &&& frame == start || exists|queue: int|
        from <= queue < to && !(#[trigger] session.status[queue]).disconnected
            && session.status[queue].last_frame == frame
}

/// Whether `frame` is the earliest of `start` and the last frames that anyone has of those
/// players from `from` up to but not including `to` that nobody says are gone.
pub open spec fn is_earliest_of_many(
    session: SessionModel,
    from: int,
    to: int,
    start: Frame,
    frame: Frame,
) -> bool {
    &&& frame <= start
    &&& forall|queue: int|
        #![trigger session.status[queue]]
        from <= queue < to && !is_said_gone(session, queue) ==> everyone_has(session, queue, frame)
    &&& frame == start || exists|queue: int|
        #![trigger session.status[queue]]
        from <= queue < to && !is_said_gone(session, queue) && someone_stops_at(
            session,
            queue,
            frame,
        )
}

/// Whether `later` is `session` with the player at `queue` gone since `frame`, and
/// `actions` are what follows from it: its endpoint disconnects if it has one, the status
/// is shared, and the simulation goes back to `frame` if it is past it.
pub open spec fn is_drop<I>(
    session: SessionModel,
    later: SessionModel,
    actions: Seq<Action<I>>,
    queue: int,
    frame: Frame,
) -> bool {
    let gone = ConnectionStatus { disconnected: true, last_frame: frame };
    let shared = Action::<I>::SetStatus { queue: queue as usize, status: gone };
    let asked = Action::<I>::DisconnectPeer { queue: queue as usize };
    let back = Action::<I>::AdjustSimulation { frame };
    &&& later.players == session.players
    &&& later.status.len() == session.status.len()
    &&& later.left.len() == session.left.len()
    &&& later.status[queue] == gone
    &&& later.left[queue]
    &&& forall|other: int|
        0 <= other < session.status.len() && other != queue ==> (#[trigger] later.status[other])
            == session.status[other]
    &&& forall|other: int|
        0 <= other < session.left.len() && other != queue ==> (#[trigger] later.left[other])
            == session.left[other]
    &&& later.frame_count == session.frame_count
    &&& later.in_rollback == session.in_rollback
    &&& later.next_recommended_sleep == session.next_recommended_sleep
    &&& later.next_spectator_frame == session.next_spectator_frame
    &&& later.synchronizing <==> session.synchronizing && someone_is_awaited(later)
    &&& actions == match (session.players[queue] is Local, frame < session.frame_count) {
        (true, true) => seq![shared, back],
        (true, false) => seq![shared],
        (false, true) => seq![asked, shared, back],
        (false, false) => seq![asked, shared],
    }
}

/// Whether `player` is on another machine.
pub open spec fn is_elsewhere(player: Player) -> bool {
    player is Remote || player is Spectator
}

// How the terms of the model are meant.

/// What is read of a player.
pub proof fn players_in_plain_terms(player: Player, queue: int)
    ensures
        player.has_peer() <==> is_elsewhere(player),
        player.peer_view() == endpoint(player),
        player.running() == is_up(player),
        is_elsewhere(player) ==> player.report(queue) == says(player, queue),
        player.kind_view() == Kind::Local <==> player is Local,
        player.kind_view() == Kind::Remote <==> player is Remote,
        player.kind_view() == Kind::Spectator <==> player is Spectator,
        player is Local ==> player.stats_view() is None,
        is_elsewhere(player) ==> player.stats_view() == Some(
            endpoint(player).unwrap().network_stats,
        ),
{
}

/// There are more than two remote players exactly if there are three of them.
proof fn lemma_many(players: Seq<Player>)
    requires
        players.len() <= usize::MAX,
    ensures
        are_many(players) <==> queues_of(players, Kind::Remote).len() > 2,
{
    let queues = queues_of(players, Kind::Remote);
    queues_of_kind_are_exact(players, Kind::Remote);
    if queues.len() > 2 {
        let (i, j, k) = (queues[0] as int, queues[1] as int, queues[2] as int);
        assert(players[i] is Remote && players[j] is Remote && players[k] is Remote);
    }
}

/// There is an awaited player exactly if the session is not synchronized.
proof fn lemma_awaited(session: SessionModel)
    ensures
        session.is_synchronized() <==> !someone_is_awaited(session),
{
    if !session.is_synchronized() {
        let i = choose|i: int|
            #![trigger session.players[i]]
            0 <= i < session.players.len() && session.players[i].has_peer() && !(
            session.players[i].running() || session.status[i].disconnected);
        assert(is_awaited(session, i));
    }
}

/// What the model drops, it drops as said above.
proof fn lemma_drop<I>(session: SessionModel, queue: int, frame: Frame)
    requires
        session.wf(),
        0 <= queue < session.players.len(),
    ensures
        is_drop(
            session,
            session.dropped(queue, frame),
            session.drop_actions::<I>(queue, frame),
            queue,
            frame,
        ),
{
    lemma_awaited(
        SessionModel {
            synchronizing: session.synchronizing,
            ..session.dropped(queue, frame)
        },
    );
    let gone = ConnectionStatus { disconnected: true, last_frame: frame };
    let shared = Action::<I>::SetStatus { queue: queue as usize, status: gone };
    let asked = Action::<I>::DisconnectPeer { queue: queue as usize };
    let back = Action::<I>::AdjustSimulation { frame };
    assert(session.drop_actions::<I>(queue, frame) =~= match (
        session.players[queue] is Local,
        frame < session.frame_count,
    ) {
        (true, true) => seq![shared, back],
        (true, false) => seq![shared],
        (false, true) => seq![asked, shared, back],
        (false, false) => seq![asked, shared],
    });
}

// Polling.

/// With up to two remote players, a look at the queues drops the first player from `from`
/// on whose own running endpoint says it is gone and who is connected here, and no other;
/// if there is none, the look is complete. Either way the frame found is the earliest of
/// `start` and the last frames of the connected players looked at, and a player is dropped
/// at that frame.
pub proof fn a_look_at_few<I>(
    session: SessionModel,
    current_frame: Frame,
    from: usize,
    start: Frame,
)
    requires
        session.wf(),
        from <= session.players.len(),
        !are_many(session.players),
    ensures
        ({
            let turn = session.resume::<I>(
                Next::Queues { current_frame, queue: from, min_frame: start },
            );
            match turn.next {
                Next::Queues { current_frame: current, queue: rest, min_frame } => {
                    &&& current == current_frame
                    &&& from < rest <= session.players.len()
                    &&& says_it_left(session, rest - 1)
                    &&& forall|queue: int|
                        from <= queue < rest - 1 ==> !#[trigger] says_it_left(session, queue)
                    &&& is_earliest_of_few(session, from as int, rest as int, start, min_frame)
                    &&& is_drop(session, turn.state, turn.actions, rest - 1, min_frame)
                },
                Next::Confirm { current_frame: current, min_frame } => {
                    &&& current == current_frame
                    &&& forall|queue: int|
                        from <= queue < session.players.len() ==> !#[trigger] says_it_left(
                            session,
                            queue,
                        )
                    &&& is_earliest_of_few(
                        session,
                        from as int,
                        session.players.len() as int,
                        start,
                        min_frame,
                    )
                    &&& turn.state == session
                    &&& turn.actions.len() == 0
                },
                _ => false,
            }
        }),
{
    lemma_many(session.players);
    let stop = session.first_drop(true, from as int);
    first_drop_is_first(session, true, from as int);
    assert forall|queue: int| 0 <= queue < session.players.len() implies session.drops(true, queue)
        == #[trigger] says_it_left(session, queue) by {}
    let to = if stop < session.players.len() {
        stop + 1
    } else {
        stop
    };
    let frame = session.least_bound(true, from as int, to, start);
    least_bound_is_least(session, true, from as int, to, start);
    assert forall|queue: int|
        from <= queue < to && !(#[trigger] session.status[queue]).disconnected implies frame
        <= session.status[queue].last_frame by {
        assert(session.bound(true, queue) is Some);
    }
    if stop < session.players.len() {
        lemma_drop::<I>(session, stop, frame);
    }
}

/// The frame that the model takes everyone to have of a player.
proof fn lemma_everyone_has(session: SessionModel, queue: int)
    ensures
        everyone_has(session, queue, session.confirmed_frame(queue)),
        session.confirmed_frame(queue) == Frame::MAX || someone_stops_at(
            session,
            queue,
            session.confirmed_frame(queue),
        ),
{
    reported_frame_is_earliest(session, queue, session.players.len() as int);
}

/// With more than two remote players, a look at the queues drops the first player from
/// `from` on that some running endpoint says is gone, and that is connected here or known
/// here for longer than some running endpoint says; no other. It is dropped at the last
/// frame that everyone has of it. If there is none, the look is complete. Either way the
/// frame found is the earliest of `start` and the last frames that this machine, if it has
/// not lost the player, and any running endpoint have of the players looked at that nobody
/// says are gone.
pub proof fn a_look_at_many<I>(
    session: SessionModel,
    current_frame: Frame,
    from: usize,
    start: Frame,
)
    requires
        session.wf(),
        from <= session.players.len(),
        are_many(session.players),
    ensures
        ({
            let turn = session.resume::<I>(
                Next::Queues { current_frame, queue: from, min_frame: start },
            );
            match turn.next {
                Next::Queues { current_frame: current, queue: rest, min_frame } => {
                    &&& current == current_frame
                    &&& from < rest <= session.players.len()
                    &&& is_said_gone(session, rest - 1)
                    &&& !session.status[rest - 1].disconnected || is_said_to_have_less(
                        session,
                        rest - 1,
                    )
                    &&& forall|queue: int|
                        #![trigger session.status[queue]]
                        from <= queue < rest - 1 && is_said_gone(session, queue)
                            ==> session.status[queue].disconnected && !is_said_to_have_less(
                            session,
                            queue,
                        )
                    &&& is_earliest_of_many(session, from as int, rest as int, start, min_frame)
                    &&& everyone_has(
                        session,
                        rest - 1,
                        turn.state.status[rest - 1].last_frame,
                    )
                    &&& someone_stops_at(
                        session,
                        rest - 1,
                        turn.state.status[rest - 1].last_frame,
                    )
                    &&& is_drop(
                        session,
                        turn.state,
                        turn.actions,
                        rest - 1,
                        turn.state.status[rest - 1].last_frame,
                    )
                },
                Next::Confirm { current_frame: current, min_frame } => {
                    &&& current == current_frame
                    &&& forall|queue: int|
                        #![trigger session.status[queue]]
                        from <= queue < session.players.len() && is_said_gone(session, queue)
                            ==> session.status[queue].disconnected && !is_said_to_have_less(
                            session,
                            queue,
                        )
                    &&& is_earliest_of_many(
                        session,
                        from as int,
                        session.players.len() as int,
                        start,
                        min_frame,
                    )
                    &&& turn.state == session
                    &&& turn.actions.len() == 0
                },
                _ => false,
            }
        }),
{
    lemma_many(session.players);
    let n = session.players.len() as int;
    let stop = session.first_drop(false, from as int);
    first_drop_is_first(session, false, from as int);
    assert forall|queue: int| 0 <= queue < n implies session.drops(false, queue) == (is_said_gone(
        session,
        queue,
    ) && (!(#[trigger] session.status[queue]).disconnected || is_said_to_have_less(
        session,
        queue,
    ))) by {
        lemma_everyone_has(session, queue);
    }
    let to = if stop < n {
        stop + 1
    } else {
        stop
    };
    let frame = session.least_bound(false, from as int, to, start);
    least_bound_is_least(session, false, from as int, to, start);
    assert forall|queue: int|
        #![trigger session.status[queue]]
        from <= queue < to && !is_said_gone(session, queue) implies everyone_has(
        session,
        queue,
        frame,
    ) by {
        lemma_everyone_has(session, queue);
        assert(session.bound(false, queue) is Some);
    }
    if frame != start {
        let queue = choose|queue: int|
            from <= queue < to && #[trigger] session.bound(false, queue) == Some(frame);
        lemma_everyone_has(session, queue);
    }
    if stop < n {
        lemma_everyone_has(session, stop);
        lemma_drop::<I>(session, stop, session.confirmed_frame(stop));
    }
}

/// Whether `queues` are those of the players that satisfy `wanted`, ascending.
pub open spec fn lists(
    players: Seq<Player>,
    queues: Seq<usize>,
    wanted: spec_fn(Player) -> bool,
) -> bool {
    &&& forall|k: int|
        #![trigger queues[k]]
        0 <= k < queues.len() ==> queues[k] < players.len() && wanted(players[queues[k] as int])
    &&& forall|j: int, k: int|
        #![trigger queues[j], queues[k]]
        0 <= j < k < queues.len() ==> queues[j] < queues[k]
    &&& forall|i: int|
        #![trigger players[i]]
        0 <= i < players.len() && wanted(players[i]) ==> queues.contains(i as usize)
}

/// The queues of a kind list the players of that kind.
pub proof fn queues_list_the_players_of_a_kind(players: Seq<Player>)
    requires
        players.len() <= usize::MAX,
    ensures
        lists(players, queues_of(players, Kind::Local), |p: Player| p is Local),
        lists(players, queues_of(players, Kind::Remote), |p: Player| p is Remote),
        lists(players, queues_of(players, Kind::Spectator), |p: Player| p is Spectator),
{
    lemma_lists(players, Kind::Local, |p: Player| p is Local);
    lemma_lists(players, Kind::Remote, |p: Player| p is Remote);
    lemma_lists(players, Kind::Spectator, |p: Player| p is Spectator);
}

/// The queues of one kind list the players that are of it.
proof fn lemma_lists(players: Seq<Player>, kind: Kind, wanted: spec_fn(Player) -> bool)
    requires
        players.len() <= usize::MAX,
        forall|p: Player| #[trigger] wanted(p) <==> p.kind_view() == kind,
    ensures
        lists(players, queues_of(players, kind), wanted),
{
    queues_of_kind_are_exact(players, kind);
}

/// A handle names the queue that it is made from.
pub proof fn handles_name_their_queues(queues: Seq<usize>)
    ensures
        handles(queues).len() == queues.len(),
        forall|k: int|
            0 <= k < queues.len() ==> (#[trigger] handles(queues)[k]) == BackrollPlayerHandle(
                queues[k],
            ),
{
}

/// A poll of a session that neither replays nor waits for anyone has the simulation
/// checked and goes on; of any other it asks for nothing and is finished.
pub proof fn a_poll_begins<I>(session: SessionModel)
    ensures
        ({
            let turn = session.resume::<I>(Next::Poll);
            &&& turn.state == session
            &&& if session.in_rollback || session.synchronizing {
                turn.next == Next::Finished && turn.actions.len() == 0
            } else {
                turn.next == Next::Notify && turn.actions == seq![Action::<I>::CheckSimulation]
            }
        }),
{
}

/// Every remote player is told the session's frame, each once and in order, and nobody
/// else. Then all queues are looked at, with nothing confirmed yet.
pub proof fn everyone_is_told_the_frame<I>(session: SessionModel)
    requires
        session.wf(),
    ensures
        ({
            let turn = session.resume::<I>(Next::Notify);
            &&& turn.state == session
            &&& turn.next == Next::Queues {
                current_frame: session.frame_count,
                queue: 0,
                min_frame: Frame::MAX,
            }
            &&& forall|k: int|
                #![trigger turn.actions[k]]
                0 <= k < turn.actions.len() ==> {
                    &&& turn.actions[k] is SetLocalFrameNumber
                    &&& turn.actions[k]->SetLocalFrameNumber_frame == session.frame_count
                }
            &&& lists(
                session.players,
                Seq::new(
                    turn.actions.len(),
                    |k: int| turn.actions[k]->SetLocalFrameNumber_queue,
                ),
                |p: Player| p is Remote,
            )
        }),
{
    let turn = session.resume::<I>(Next::Notify);
    queues_list_the_players_of_a_kind(session.players);
    assert(Seq::new(turn.actions.len(), |k: int| turn.actions[k]->SetLocalFrameNumber_queue)
        =~= queues_of(session.players, Kind::Remote));
}

/// Confirming a frame tells it to the synchronizer unless it lies before the first. The
/// spectators, if there are any, then lack the frame after it, unless they already lacked
/// a later one. If the last recommendation to wait was for an earlier frame than the poll
/// began at, and there is a remote player, the next one is due 240 frames later.
pub proof fn a_poll_ends<I>(session: SessionModel, current_frame: Frame, min_frame: Frame)
    requires
        session.wf(),
        session.can_resume(Next::Confirm { current_frame, min_frame }),
    ensures
        ({
            let turn = session.resume::<I>(Next::Confirm { current_frame, min_frame });
            let spectated = exists|i: int|
                0 <= i < session.players.len() && #[trigger] session.players[i] is Spectator;
            let remote = exists|i: int|
                0 <= i < session.players.len() && #[trigger] session.players[i] is Remote;
            &&& turn.next == Next::Finished
            &&& min_frame >= 0 ==> turn.actions == seq![
                Action::<I>::SetLastConfirmedFrame { frame: min_frame },
            ]
            &&& min_frame < 0 ==> turn.actions.len() == 0
            &&& turn.state.next_spectator_frame == if min_frame >= 0 && spectated
                && session.next_spectator_frame <= min_frame {
                min_frame + 1
            } else {
                session.next_spectator_frame as int
            }
            &&& turn.state.next_recommended_sleep == if current_frame
                > session.next_recommended_sleep && remote {
                current_frame + 240
            } else {
                session.next_recommended_sleep as int
            }
            &&& turn.state.players == session.players
            &&& turn.state.status == session.status
            &&& turn.state.left == session.left
            &&& turn.state.frame_count == session.frame_count
            &&& turn.state.in_rollback == session.in_rollback
            &&& turn.state.synchronizing == session.synchronizing
        }),
{
    let spectators = queues_of(session.players, Kind::Spectator);
    queues_list_the_players_of_a_kind(session.players);
    longest_delay_is_longest(session.players);
    if spectators.len() > 0 {
        assert(session.players[spectators[0] as int] is Spectator);
    }
}

/// A finished session does nothing when it goes on.
pub proof fn the_finished_stays_finished<I>(session: SessionModel)
    ensures
        session.resume::<I>(Next::Finished).state == session,
        session.resume::<I>(Next::Finished).actions.len() == 0,
        session.resume::<I>(Next::Finished).next == Next::Finished,
{
}

/// A session can go on within its queues, and at a frame to confirm unless nobody confirms
/// any, or the next recommendation to wait is due and would lie beyond the last frame.
pub proof fn where_a_session_can_go_on(session: SessionModel, next: Next)
    ensures
        session.can_resume(next) <==> match next {
            Next::Queues { queue, .. } => queue <= session.players.len(),
            Next::Sweep { queue, .. } => queue <= session.players.len(),
            Next::Confirm { current_frame, min_frame } => {
                &&& min_frame != Frame::MAX
                &&& current_frame > session.next_recommended_sleep && (exists|i: int|
                    0 <= i < session.players.len() && #[trigger] session.players[i] is Remote)
                    ==> current_frame + 240 <= Frame::MAX
            },
            Next::Finished => true,
            Next::Poll => true,
            Next::Notify => true,
        },
{
    longest_delay_is_longest(session.players);
}

/// In a whole run of a poll that begins in a session that neither replays nor waits for
/// anyone, everyone is told the frame, all queues are looked at, and a frame is confirmed
/// before the poll is finished.
pub proof fn a_whole_poll_confirms<I>(visits: Seq<Visit>)
    requires
        is_run::<I>(visits),
        visits[0].next == Next::Poll,
        !visits[0].session.in_rollback,
        !visits[0].session.synchronizing,
        visits.last().next == Next::Finished,
        forall|k: int|
            #![trigger visits[k]]
            0 <= k < visits.len() - 1 ==> visits[k].next != Next::Finished,
    ensures
        visits.len() >= 5,
        visits[1].next == Next::Notify,
        visits[2].next == (Next::Queues {
            current_frame: visits[1].session.frame_count,
            queue: 0,
            min_frame: Frame::MAX,
        }),
        forall|k: int|
            #![trigger visits[k]]
            2 <= k < visits.len() - 2 ==> visits[k].next is Queues,
        visits[visits.len() - 2].next is Confirm,
        visits[visits.len() - 2].next->Confirm_current_frame == visits[1].session.frame_count,
{
    lemma_looks_until_confirm::<I>(visits, visits.len() - 2);
}

/// From the first look on, a poll looks until it confirms.
proof fn lemma_looks_until_confirm<I>(visits: Seq<Visit>, m: int)
    requires
        is_run::<I>(visits),
        visits.len() > 3,
        visits[2].next == (Next::Queues {
            current_frame: visits[1].session.frame_count,
            queue: 0,
            min_frame: Frame::MAX,
        }),
        visits.last().next == Next::Finished,
        forall|k: int|
            #![trigger visits[k]]
            0 <= k < visits.len() - 1 ==> visits[k].next != Next::Finished,
        2 <= m <= visits.len() - 2,
    ensures
        visits[m].next is Queues ==> visits[m].next->Queues_current_frame
            == visits[1].session.frame_count && m < visits.len() - 2,
        visits[m].next is Confirm ==> visits[m].next->Confirm_current_frame
            == visits[1].session.frame_count && m == visits.len() - 2,
        visits[m].next is Queues || visits[m].next is Confirm,
        forall|k: int| #![trigger visits[k]] 2 <= k < m ==> visits[k].next is Queues,
    decreases m,
{
    if m > 2 {
        lemma_looks_until_confirm::<I>(visits, m - 1);
    }
    assert(visits[m].leads_to::<I>(visits[m + 1]));
}

// Disconnecting.

/// A sweep drops the first player from `from` on that is on another machine, at `syncto`,
/// and goes on behind it. If there is none, it is finished and changes nothing.
pub proof fn a_sweep_goes_player_by_player<I>(session: SessionModel, syncto: Frame, from: usize)
    requires
        session.wf(),
        from <= session.players.len(),
    ensures
        ({
            let turn = session.resume::<I>(Next::Sweep { syncto, queue: from });
            match turn.next {
                Next::Sweep { syncto: frame, queue: rest } => {
                    &&& frame == syncto
                    &&& from < rest <= session.players.len()
                    &&& is_elsewhere(session.players[rest - 1])
                    &&& forall|queue: int|
                        from <= queue < rest - 1 ==> #[trigger] session.players[queue] is Local
                    &&& is_drop(session, turn.state, turn.actions, rest - 1, syncto)
                },
                Next::Finished => {
                    &&& forall|queue: int|
                        from <= queue < session.players.len()
                            ==> #[trigger] session.players[queue] is Local
                    &&& turn.state == session
                    &&& turn.actions.len() == 0
                },
                _ => false,
            }
        }),
{
    let stop = session.first_peer(from as int);
    first_peer_is_first(session, from as int);
    if stop < session.players.len() {
        lemma_drop::<I>(session, stop, syncto);
    }
}

/// A request to disconnect is refused exactly for a handle that names no player, and for a
/// player that is gone or has left; for the first reason first.
pub proof fn when_disconnecting_is_refused(session: SessionModel, player: BackrollPlayerHandle)
    ensures
        session.disconnect_refusal(player) == Some(BackrollError::InvalidPlayer(player)) <==> (
        player.0 >= session.players.len()),
        session.disconnect_refusal(player) == Some(BackrollError::PlayerDisconnected(player)) <==> (
        player.0 < session.players.len() && (session.status[player.0 as int].disconnected
            || session.left[player.0 as int])),
        session.disconnect_refusal(player) is None <==> (player.0 < session.players.len()
            && !session.status[player.0 as int].disconnected
            && !session.left[player.0 as int]),
{
}

/// Disconnecting a player on another machine drops that player at the last frame known of
/// it, and nothing else.
pub proof fn disconnecting_a_player_elsewhere<I>(
    session: SessionModel,
    player: BackrollPlayerHandle,
)
    requires
        session.wf(),
        session.disconnect_refusal(player) is None,
        is_elsewhere(session.players[player.0 as int]),
    ensures
        ({
            let turn = session.disconnect::<I>(player.0 as int);
            &&& turn.next == Next::Finished
            &&& turn.state.status[player.0 as int] == ConnectionStatus {
                disconnected: true,
                last_frame: session.status[player.0 as int].last_frame,
            }
            &&& is_drop(
                session,
                turn.state,
                turn.actions,
                player.0 as int,
                session.status[player.0 as int].last_frame,
            )
        }),
{
    lemma_drop::<I>(
        session,
        player.0 as int,
        session.status[player.0 as int].last_frame,
    );
}

/// Disconnecting a player on this machine notes that it has left. Its own status stays as
/// it is. The first player on another machine is dropped at the frame the session is at,
/// and the others from there on.
pub proof fn disconnecting_a_player_here<I>(session: SessionModel, player: BackrollPlayerHandle)
    requires
        session.wf(),
        session.disconnect_refusal(player) is None,
        session.players[player.0 as int] is Local,
    ensures
        ({
            let turn = session.disconnect::<I>(player.0 as int);
            let noted = SessionModel {
                left: session.left.update(player.0 as int, true),
                ..session
            };
            &&& turn.state.left[player.0 as int]
            &&& turn.state.status[player.0 as int] == session.status[player.0 as int]
            &&& match turn.next {
                Next::Sweep { syncto, queue: rest } => {
                    &&& syncto == session.frame_count
                    &&& 0 < rest <= session.players.len()
                    &&& is_elsewhere(session.players[rest - 1])
                    &&& forall|queue: int|
                        0 <= queue < rest - 1 ==> #[trigger] session.players[queue] is Local
                    &&& is_drop(noted, turn.state, turn.actions, rest - 1, session.frame_count)
                },
                Next::Finished => {
                    &&& forall|queue: int|
                        0 <= queue < session.players.len()
                            ==> #[trigger] session.players[queue] is Local
                    &&& turn.state == noted
                    &&& turn.actions.len() == 0
                },
                _ => false,
            }
        }),
{
    let noted = session.leaving(player.0 as int);
    let stop = noted.first_peer(0);
    first_peer_is_first(noted, 0);
    if stop < session.players.len() {
        lemma_awaited(session);
        lemma_drop::<I>(noted, stop, session.frame_count);
    }
}

// Synchronizing.

/// A session is synchronized exactly if no player is awaited: every player on another
/// machine has a running endpoint or is gone.
pub proof fn when_a_session_is_synchronized(session: SessionModel)
    ensures
        session.is_synchronized() <==> forall|i: int|
            #![trigger session.players[i]]
            0 <= i < session.players.len() && is_elsewhere(session.players[i]) ==> is_up(
                session.players[i],
            ) || session.status[i].disconnected,
{
}

/// The parts of a session fit together: a status and a note for each player, a report of
/// each player at each endpoint, and someone to wait for while it synchronizes.
pub proof fn what_a_session_is_made_of(session: SessionModel)
    ensures
        session.wf() <==> {
            &&& session.status.len() == session.players.len()
            &&& session.left.len() == session.players.len()
            &&& session.players.len() <= usize::MAX
            &&& forall|i: int|
                #![trigger session.players[i]]
                0 <= i < session.players.len() && is_elsewhere(session.players[i]) ==> endpoint(
                    session.players[i],
                ).unwrap().peer_connect_status@.len() == session.players.len()
            &&& session.synchronizing ==> someone_is_awaited(session)
        },
{
    lemma_awaited(session);
}

/// Synchronizing ends with the call after which nobody is awaited, and with no other: as
/// long as someone is, a session that synchronizes goes on doing so.
pub proof fn synchronizing_ends_when_nobody_is_awaited<I>(session: SessionModel, call: Call<I>)
    requires
        session.wf(),
        allows(session, call),
    ensures
        after(session, call).synchronizing <==> session.synchronizing && someone_is_awaited(
            after(session, call),
        ),
{
    lemma_awaited(after(session, call));
    if let Call::Resume { next: Next::Queues { queue, .. } } = call {
        first_drop_is_first(session, session.few(), queue as int);
    }
}

/// A session synchronizes from its start for as long as someone is awaited, whatever calls
/// are made, and never again once nobody was. All that time input is refused, outside a
/// rollback because the session is not synchronized.
pub proof fn input_waits_for_everyone<I>(
    session: SessionModel,
    calls: Seq<Call<I>>,
    player: BackrollPlayerHandle,
)
    requires
        session.wf(),
        allows_all(session, calls),
    ensures
        ({
            let later = after_all(session, calls);
            let waiting = session.synchronizing && forall|k: int|
                #![trigger calls.take(k)]
                0 <= k <= calls.len() ==> someone_is_awaited(after_all(session, calls.take(k)));
            &&& later.synchronizing <==> waiting
            &&& waiting && !later.in_rollback ==> later.input_refusal(player) == Some(
                BackrollError::NotSynchronized,
            )
            &&& !waiting && !later.in_rollback && player.0 < later.players.len()
                ==> later.input_refusal(player) is None
        }),
    decreases calls.len(),
{
    let n = calls.len() as int;
    assert(calls.take(n) =~= calls);
    if n == 0 {
        what_a_session_is_made_of(session);
    } else {
        let before = calls.drop_last();
        input_waits_for_everyone(session, before, player);
        calls_keep_the_session(session, before);
        synchronizing_ends_when_nobody_is_awaited(after_all(session, before), calls.last());
        if after_all(session, calls).synchronizing {
            assert forall|k: int| 0 <= k <= n implies someone_is_awaited(
                after_all(session, #[trigger] calls.take(k)),
            ) by {
                if k < n {
                    assert(calls.take(k) == before.take(k));
                }
            }
        }
        if session.synchronizing && forall|k: int|
            #![trigger calls.take(k)]
            0 <= k <= n ==> someone_is_awaited(after_all(session, calls.take(k))) {
            assert forall|k: int| 0 <= k < n implies someone_is_awaited(
                after_all(session, #[trigger] before.take(k)),
            ) by {
                assert(calls.take(k) == before.take(k));
            }
        }
    }
}

// Input.

/// An input is refused in a rollback, else while the session synchronizes, else for a handle
/// that names no player, and for no other reason. While a session synchronizes some player
/// is awaited, and no input is taken.
pub proof fn when_input_is_refused(session: SessionModel, player: BackrollPlayerHandle)
    requires
        session.wf(),
    ensures
        session.input_refusal(player) == Some(BackrollError::InRollback) <==> session.in_rollback,
        session.input_refusal(player) == Some(BackrollError::NotSynchronized) <==> (
        !session.in_rollback && session.synchronizing),
        session.input_refusal(player) == Some(BackrollError::InvalidPlayer(player)) <==> (
        !session.in_rollback && !session.synchronizing && player.0 >= session.players.len()),
        session.input_refusal(player) is None <==> (!session.in_rollback && !session.synchronizing
            && player.0 < session.players.len()),
        session.synchronizing ==> someone_is_awaited(session),
{
    lemma_awaited(session);
}

/// An input that is taken is handed to the synchronizer for the player's own queue. Once it
/// is placed at a frame, it is sent, with that frame, to every player on another machine,
/// each once and in order, and to nobody else.
pub proof fn where_input_goes<I>(
    session: SessionModel,
    player: BackrollPlayerHandle,
    frame: Frame,
    input: I,
)
    requires
        session.wf(),
    ensures
        session.input_refusal(player) is None ==> asks(
            session,
            Call::AddLocalInput { player, input },
        ) == seq![Action::AddLocalInput { queue: player.0, input }],
        session.input_refusal(player) is Some ==> asks(
            session,
            Call::AddLocalInput { player, input },
        ).len() == 0,
        asks(session, Call::LocalInputAdded { frame: None, input }).len() == 0,
        ({
            let sent = asks(session, Call::LocalInputAdded { frame: Some(frame), input });
            &&& frame < 0 ==> sent.len() == 0
            &&& frame >= 0 ==> {
                &&& forall|k: int|
                    #![trigger sent[k]]
                    0 <= k < sent.len() ==> {
                        &&& sent[k] is SendInput
                        &&& sent[k]->SendInput_frame_input == FrameInput { frame, input }
                    }
                &&& lists(
                    session.players,
                    Seq::new(sent.len(), |k: int| sent[k]->SendInput_queue),
                    |p: Player| is_elsewhere(p),
                )
            }
        }),
{
    if frame >= 0 {
        let frame_input = FrameInput { frame, input };
        let sent = broadcast(session.players, frame_input);
        let queues = Seq::new(sent.len(), |k: int| sent[k]->SendInput_queue);
        inputs_reach_every_peer_once(session.players, frame_input);
        assert forall|i: int|
            #![trigger session.players[i]]
            0 <= i < session.players.len() && is_elsewhere(
                session.players[i],
            ) implies queues.contains(i as usize) by {
            let one = Action::SendInput { queue: i as usize, frame_input };
            let k = choose|k: int| 0 <= k < sent.len() && sent[k] == one;
            assert(queues[k] == i as usize);
        }
    }
}

/// A frame delay goes to the queue of the player it is set for, if there is that player.
pub proof fn where_a_frame_delay_goes<I>(
    session: SessionModel,
    player: BackrollPlayerHandle,
    delay: Frame,
)
    ensures
        player.0 < session.players.len() ==> asks(
            session,
            Call::<I>::SetFrameDelay { player, delay },
        ) == seq![Action::<I>::SetFrameDelay { queue: player.0, delay }],
        player.0 >= session.players.len() ==> asks(
            session,
            Call::<I>::SetFrameDelay { player, delay },
        ).len() == 0,
        asks(session, Call::<I>::AdvanceFrame) == seq![Action::<I>::IncrementFrame],
{
}

// Observing.

/// Whether two sessions differ at most in what is said of the players' connections and in
/// whether they synchronize.
pub open spec fn agree_apart_from_connections(a: SessionModel, b: SessionModel) -> bool {
    &&& a.left == b.left
    &&& a.frame_count == b.frame_count
    &&& a.in_rollback == b.in_rollback
    &&& a.next_recommended_sleep == b.next_recommended_sleep
    &&& a.next_spectator_frame == b.next_spectator_frame
}

/// An observed endpoint takes the place of the one that the player had, who stays what it
/// is; nothing is said of any other player.
pub proof fn observing_an_endpoint(session: SessionModel, queue: int, peer: BackrollPeer)
    ensures
        session.fits(queue, peer) <==> {
            &&& 0 <= queue < session.players.len()
            &&& is_elsewhere(session.players[queue])
            &&& peer.peer_connect_status@.len() == session.players.len()
        },
        session.fits(queue, peer) ==> {
            let later = session.observe_peer(queue, peer);
            &&& later.players.len() == session.players.len()
            &&& endpoint(later.players[queue]) == Some(peer)
            &&& later.players[queue] is Remote <==> session.players[queue] is Remote
            &&& forall|other: int|
                0 <= other < session.players.len() && other != queue ==> (
                #[trigger] later.players[other]) == session.players[other]
            &&& later.status == session.status
            &&& agree_apart_from_connections(later, session)
        },
{
}

/// Observed statuses take the place of those that the session had; an observed frame, and
/// whether the synchronizer replays, take the place of the earlier ones. Nothing else
/// changes, but for the end of the synchronization.
pub proof fn observing_statuses_and_frames(
    session: SessionModel,
    status: Seq<ConnectionStatus>,
    frame_count: Frame,
    in_rollback: bool,
)
    ensures
        session.observe_status(status).status == status,
        session.observe_status(status).players == session.players,
        agree_apart_from_connections(session.observe_status(status), session),
        session.observe_sync(frame_count, in_rollback) == (SessionModel {
            frame_count,
            in_rollback,
            ..session
        }),
{
}

// Starting.

/// A session starts with the builder's players in their order and kind. Nothing is known of
/// any of them: no endpoint runs, every status is connected without a frame. It synchronizes
/// exactly if some player is on another machine. For each of those an endpoint is asked for,
/// over its connection, with the builder's times.
pub proof fn how_a_session_starts<T: BackrollConfig>(
    builder: BuilderModel<T::Peer>,
    startup: Startup<T>,
)
    requires
        startup.starts(builder),
    ensures
        ({
            let session = startup.session@;
            let n = builder.players.len();
            &&& session.players.len() == n
            &&& session.status.len() == n
            &&& session.left.len() == n
            &&& startup.peers@.len() == n
            &&& startup.connect_status.size() == n
            &&& forall|i: int|
                #![trigger session.players[i]]
                0 <= i < n ==> match builder.players[i] {
                    BackrollPlayer::Local => session.players[i] is Local,
                    BackrollPlayer::Remote(_) => session.players[i] is Remote,
                    BackrollPlayer::Spectator(_) => session.players[i] is Spectator,
                }
            &&& forall|i: int|
                #![trigger session.players[i]]
                0 <= i < n && is_elsewhere(session.players[i]) ==> {
                    let peer = endpoint(session.players[i]).unwrap();
                    &&& !peer.running
                    &&& peer.peer_connect_status@.len() == n
                    &&& forall|j: int|
                        0 <= j < n ==> (#[trigger] peer.peer_connect_status@[j])
                            == ConnectionStatus { disconnected: false, last_frame: (-1) as Frame }
                    &&& peer.frame_delay == 0
                    &&& peer.network_stats == NetworkStats {
                        ping_millis: 0,
                        send_queue_len: 0,
                        recv_queue_len: 0,
                        kbps_sent: 0,
                        local_frames_behind: 0,
                        remote_frames_behind: 0,
                    }
                }
            &&& forall|i: int|
                0 <= i < n ==> (#[trigger] session.status[i]) == ConnectionStatus {
                    disconnected: false,
                    last_frame: (-1) as Frame,
                }
            &&& forall|i: int| 0 <= i < n ==> !#[trigger] session.left[i]
            &&& session.frame_count == 0
            &&& !session.in_rollback
            &&& session.next_recommended_sleep == 0
            &&& session.next_spectator_frame == 0
            &&& session.synchronizing <==> exists|i: int|
                0 <= i < n && !(#[trigger] session.players[i] is Local)
            &&& forall|i: int|
                #![trigger startup.peers@[i]]
                0 <= i < n ==> match builder.players[i] {
                    BackrollPlayer::Local => startup.peers@[i] is None,
                    BackrollPlayer::Remote(peer) => is_asked_for(builder, i, peer, startup),
                    BackrollPlayer::Spectator(peer) => is_asked_for(builder, i, peer, startup),
                }
            &&& forall|i: int|
                0 <= i < n ==> (#[trigger] startup.connect_status.first(i)) == ConnectionStatus {
                    disconnected: false,
                    last_frame: (-1) as Frame,
                }
        }),
{
}

/// Whether the endpoint of the player at `queue` is asked for, over a clone of `peer` and
/// with the builder's times.
pub open spec fn is_asked_for<T: BackrollConfig>(
    builder: BuilderModel<T::Peer>,
    queue: int,
    peer: T::Peer,
    startup: Startup<T>,
) -> bool {
    startup.peers@[queue] matches Some(request) && {
        &&& request.queue == queue
        &&& cloned(peer, request.config.peer)
        &&& request.config.disconnect_timeout == builder.disconnect_timeout
        &&& request.config.disconnect_notify_start == builder.disconnect_notify_start
    }
}

/// How a player that is added is read.
pub proof fn added_players_in_plain_terms<P: Clone>(
    builder: BuilderModel<P>,
    queue: usize,
    player: BackrollPlayer<P>,
    request: Option<PeerRequest<P>>,
)
    ensures
        kind_of(player) == Kind::Local <==> player is Local,
        kind_of(player) == Kind::Remote <==> player is Remote,
        kind_of(player) == Kind::Spectator <==> player is Spectator,
        player is Local ==> (requests(builder, queue, player, request) <==> request is None),
        !(player is Local) ==> (requests(builder, queue, player, request) <==> {
            &&& request is Some
            &&& request.unwrap().queue == queue
            &&& player is Remote ==> cloned(player->Remote_0, request.unwrap().config.peer)
            &&& player is Spectator ==> cloned(player->Spectator_0, request.unwrap().config.peer)
            &&& request.unwrap().config.disconnect_timeout == builder.disconnect_timeout
            &&& request.unwrap().config.disconnect_notify_start == builder.disconnect_notify_start
        }),
{
}

/// Nothing is known of a fresh endpoint: it does not run, and every player is connected
/// without a frame.
pub proof fn fresh_endpoints_know_nothing(peer: BackrollPeer, player_count: nat)
    requires
        peer.is_fresh(player_count),
    ensures
        !peer.running,
        peer.peer_connect_status@.len() == player_count,
        forall|i: int|
            0 <= i < player_count ==> (#[trigger] peer.peer_connect_status@[i])
                == (ConnectionStatus { disconnected: false, last_frame: (-1) as Frame }),
        peer.frame_delay == 0,
        peer.network_stats.ping_millis == 0,
        peer.network_stats.kbps_sent == 0,
{
}

/// By default a player counts as gone after five seconds of silence, and a warning is given
/// after three quarters of a second.
pub proof fn the_default_times()
    ensures
        DEFAULT_DISCONNECT_TIMEOUT_MILLIS == 5000,
        DEFAULT_DISCONNECT_NOTIFY_START_MILLIS == 750,
{
}

/// The earlier of two frames is one of them, and neither is before it.
pub proof fn the_earlier_of_two_frames(a: Frame, b: Frame)
    ensures
        earlier(a, b) <= a,
        earlier(a, b) <= b,
        earlier(a, b) == a || earlier(a, b) == b,
{
}

/// A refused request to disconnect asks for nothing and leaves the session as it is, and so
/// does a call that only asks something.
pub proof fn refusals_change_nothing<I>(session: SessionModel, player: BackrollPlayerHandle)
    ensures
        player.0 >= session.players.len() || session.status[player.0 as int].disconnected
            || session.left[player.0 as int] ==> {
            &&& after(session, Call::<I>::DisconnectPlayer { player }) == session
            &&& asks(session, Call::<I>::DisconnectPlayer { player }).len() == 0
        },
        after(session, Call::<I>::Ask) == session,
        asks(session, Call::<I>::Ask).len() == 0,
{
}

/// A turn that takes a transition asks for its actions and goes on where it does.
pub proof fn a_turn_is_what_it_takes<I>(turn: Turn<I>, transition: Transition<I>)
    ensures
        turn.takes(transition) <==> turn.actions@ == transition.actions && turn.next
            == transition.next,
{
}

/// A connection that carries nothing has nothing to count.
pub proof fn no_statistics_are_zero()
    ensures
        no_stats() == (NetworkStats {
            ping_millis: 0,
            send_queue_len: 0,
            recv_queue_len: 0,
            kbps_sent: 0,
            local_frames_behind: 0,
            remote_frames_behind: 0,
        }),
{
}

} // verus!
