//! What holds of whole runs: from a first turn over all that follow it, whatever the
//! surroundings do between them.

use crate::action::{BackrollError, Next};
use crate::frame::Frame;
use crate::laws::{
    a_look_never_moves_forward, first_drop_is_first, first_peer_is_first, least_bound_in_parts,
    least_bound_is_least, lemma_queues_of_same_kinds, lemma_reports_kept, same_kinds,
    the_gone_stay_gone,
};
use crate::model::SessionModel;
use crate::player::{BackrollPlayerHandle, Kind};
use crate::status::ConnectionStatus;
use vstd::prelude::*;

verus! {

/// A session at the moment at which it goes on, and where it goes on.
pub struct Visit {
    /// The session, with all that was observed up to this moment.
    pub session: SessionModel,
    /// Where it goes on.
    pub next: Next,
}

impl Visit {
    /// Whether `later` comes after this visit: it is where this one leads to, and whoever
    /// had left by then is still away.
    pub open spec fn leads_to<I>(&self, later: Visit) -> bool {
        &&& self.session.can_resume(self.next)
        &&& later.next == self.session.resume::<I>(self.next).next
        &&& later.session.remembers(self.session.resume::<I>(self.next).state)
    }
}

/// Whether each of these visits leads to the one after it. Between two visits anything
/// may be observed; only the players stay where they are, and away if they have left.
pub open spec fn is_run<I>(visits: Seq<Visit>) -> bool {
    &&& visits.len() > 0
    &&& forall|k: int|
        #![trigger visits[k]]
        0 <= k < visits.len() ==> visits[k].session.wf() && same_kinds(
            visits[0].session.players,
            visits[k].session.players,
        )
    &&& forall|j: int, k: int|
        #![trigger visits[j], visits[k]]
        0 <= j < visits.len() && 0 <= k < visits.len() && k == j + 1 ==> visits[j].leads_to::<I>(
            visits[k],
        )
}

/// How many visits a session of `count` players can at most make from `next` on, not
/// counting the one that finds nothing left to do.
pub open spec fn visits_left(count: nat, next: Next) -> int {
    match next {
        Next::Finished => 0,
        Next::Sweep { queue, .. } => 1 + count - queue,
        Next::Confirm { .. } => 1,
        Next::Queues { queue, .. } => 2 + count - queue,
        Next::Notify => 3 + count as int,
        Next::Poll => 4 + count as int,
    }
}

/// Every visit brings a session closer to the end of its run.
pub proof fn every_visit_is_progress<I>(session: SessionModel, next: Next)
    requires
        session.wf(),
        session.can_resume(next),
        next != Next::Finished,
    ensures
        0 <= visits_left(session.players.len(), session.resume::<I>(next).next) < visits_left(
            session.players.len(),
            next,
        ),
{
    match next {
        Next::Queues { queue, .. } => {
            first_drop_is_first(session, session.few(), queue as int);
        },
        Next::Sweep { queue, .. } => {
            first_peer_is_first(session, queue as int);
        },
        _ => {},
    }
}

/// No run goes on forever: after at most `visits_left` visits nothing is left to do.
pub proof fn runs_end<I>(visits: Seq<Visit>)
    requires
        is_run::<I>(visits),
        visits[0].session.reaches(visits[0].next),
        forall|k: int|
            #![trigger visits[k]]
            0 <= k < visits.len() - 1 ==> visits[k].next != Next::Finished,
    ensures
        visits.len() - 1 + visits_left(visits[0].session.players.len(), visits.last().next)
            <= visits_left(visits[0].session.players.len(), visits[0].next),
        visits.len() <= visits_left(visits[0].session.players.len(), visits[0].next) + 1,
        visits.len() <= visits[0].session.players.len() + 5,
    decreases visits.len(),
{
    if visits.len() > 1 {
        let before = visits.drop_last();
        runs_end::<I>(before);
        let from = visits[visits.len() - 2];
        every_visit_is_progress::<I>(from.session, from.next);
    }
}

/// How far a poll has looked: the first queue that it has not looked at yet.
pub open spec fn looked_up_to(visit: Visit) -> int {
    match visit.next {
        Next::Queues { queue, .. } => queue as int,
        _ => visit.session.players.len() as int,
    }
}

/// The frame that a poll has found to be confirmed so far.
pub open spec fn confirmed_so_far(visit: Visit) -> Frame {
    match visit.next {
        Next::Queues { min_frame, .. } => min_frame,
        Next::Confirm { min_frame, .. } => min_frame,
        _ => Frame::MAX,
    }
}

/// Whether a poll is looking at its queues, or has done so.
pub open spec fn is_looking(next: Next) -> bool {
    next is Queues || next is Confirm
}

/// Whether these visits are a poll's looks at its queues, up to where it confirms.
pub open spec fn is_poll<I>(visits: Seq<Visit>) -> bool {
    &&& is_run::<I>(visits)
    &&& visits[0].next matches Next::Queues { queue, min_frame, .. } && queue == 0 && min_frame
        == Frame::MAX
    &&& forall|k: int|
        #![trigger visits[k]]
        0 <= k < visits.len() - 1 ==> visits[k].next is Queues
}

/// One look at queues: it goes on where it stopped, and the frame it finds is at or
/// before the one it started from and all bounds of the queues it looked at, and one of
/// them.
proof fn lemma_look<I>(visit: Visit, later: Visit)
    requires
        visit.session.wf(),
        visit.leads_to::<I>(later),
        visit.next is Queues,
        later.session.players.len() == visit.session.players.len(),
    ensures
        is_looking(later.next),
        looked_up_to(visit) <= looked_up_to(later) <= visit.session.players.len(),
        confirmed_so_far(later) <= confirmed_so_far(visit),
        forall|queue: int|
            looked_up_to(visit) <= queue < looked_up_to(later) && #[trigger] visit.session.bound(
                visit.session.few(),
                queue,
            ) is Some ==> confirmed_so_far(later) <= visit.session.bound(
                visit.session.few(),
                queue,
            ).unwrap(),
        confirmed_so_far(later) == confirmed_so_far(visit) || exists|queue: int|
            looked_up_to(visit) <= queue < looked_up_to(later) && #[trigger] visit.session.bound(
                visit.session.few(),
                queue,
            ) == Some(confirmed_so_far(later)),
{
    let seen = visit.session;
    let few = seen.few();
    let from = looked_up_to(visit);
    let stop = seen.first_drop(few, from);
    let to = if stop < seen.players.len() {
        stop + 1
    } else {
        stop
    };
    first_drop_is_first(seen, few, from);
    least_bound_is_least(seen, few, from, to, confirmed_so_far(visit));
}

/// Where a poll stands at its visits: it has looked at more and more queues, and what
/// it has found so far bounds the rest.
proof fn lemma_poll_prefix<I>(visits: Seq<Visit>, m: int)
    requires
        is_poll::<I>(visits),
        0 <= m < visits.len(),
    ensures
        is_looking(visits[m].next),
        0 <= looked_up_to(visits[m]) <= visits[0].session.players.len(),
        confirmed_so_far(visits[m]) <= confirmed_so_far(visits[0]),
        forall|j: int, k: int|
            #![trigger visits[j], visits[k]]
            0 <= j && k == j + 1 && k <= m ==> looked_up_to(visits[j]) <= looked_up_to(visits[k]),
        forall|j: int, k: int, queue: int|
            #![trigger visits[k], visits[j].session.bound(visits[j].session.few(), queue)]
            0 <= j && k == j + 1 && k <= m && looked_up_to(visits[j]) <= queue < looked_up_to(
                visits[k],
            ) && visits[j].session.bound(visits[j].session.few(), queue) is Some
                ==> confirmed_so_far(visits[m]) <= visits[j].session.bound(
                visits[j].session.few(),
                queue,
            ).unwrap(),
        confirmed_so_far(visits[m]) == Frame::MAX || exists|j: int, queue: int|
            #![trigger visits[j].session.bound(visits[j].session.few(), queue)]
            0 <= j < m && 0 <= queue < visits[0].session.players.len()
                && visits[j].session.bound(visits[j].session.few(), queue) == Some(
                confirmed_so_far(visits[m]),
            ),
    decreases m,
{
    if m > 0 {
        lemma_poll_prefix::<I>(visits, m - 1);
        let visit = visits[m - 1];
        let later = visits[m];
        lemma_look::<I>(visit, later);
    }
}

/// Whatever happens between the looks of a poll, the frame that it confirms in the end
/// is at or before the bound that each queue had when it was looked at: every connected
/// player is known up to that frame. It is the latest such frame, being one of those
/// bounds, or the latest frame there is if no player is connected.
pub proof fn a_poll_confirms_what_everyone_has<I>(visits: Seq<Visit>)
    requires
        is_poll::<I>(visits),
        visits.last().next is Confirm,
    ensures
        looked_up_to(visits[0]) == 0,
        looked_up_to(visits.last()) == visits[0].session.players.len(),
        forall|j: int, k: int|
            #![trigger visits[j], visits[k]]
            0 <= j && k == j + 1 && k < visits.len() ==> looked_up_to(visits[j]) <= looked_up_to(
                visits[k],
            ),
        forall|j: int, k: int, queue: int|
            #![trigger visits[k], visits[j].session.bound(visits[j].session.few(), queue)]
            0 <= j && k == j + 1 && k < visits.len() && looked_up_to(visits[j]) <= queue
                < looked_up_to(visits[k]) && visits[j].session.bound(
                visits[j].session.few(),
                queue,
            ) is Some ==> visits.last().next->Confirm_min_frame <= visits[j].session.bound(
                visits[j].session.few(),
                queue,
            ).unwrap(),
        visits.last().next->Confirm_min_frame == Frame::MAX || exists|j: int, queue: int|
            #![trigger visits[j].session.bound(visits[j].session.few(), queue)]
            0 <= j < visits.len() - 1 && 0 <= queue < visits[0].session.players.len()
                && visits[j].session.bound(visits[j].session.few(), queue) == Some(
                visits.last().next->Confirm_min_frame,
            ),
{
    lemma_poll_prefix::<I>(visits, visits.len() - 1);
}

/// How a session is polled depends on the kinds of its players alone, so it stays the
/// same over a run.
pub proof fn a_run_polls_in_one_way<I>(visits: Seq<Visit>, k: int)
    requires
        is_run::<I>(visits),
        0 <= k < visits.len(),
    ensures
        visits[k].session.few() == visits[0].session.few(),
{
    lemma_queues_of_same_kinds(
        visits[0].session.players,
        visits[k].session.players,
        Kind::Remote,
    );
}

/// Whether the player at `queue` was dropped at one of the first `m` visits.
pub open spec fn dropped_by<I>(visits: Seq<Visit>, m: int, queue: int, syncto: Frame) -> bool {
    exists|k: int|
        #![trigger visits[k]]
        0 <= k < m && visits[k].session.resume::<I>(visits[k].next).actions
            == visits[k].session.drop_actions::<I>(queue, syncto)
}

/// Whether `visits` are the run that follows when the local player at `queue` is
/// disconnected from `session`.
pub open spec fn is_leave<I>(session: SessionModel, queue: int, visits: Seq<Visit>) -> bool {
    &&& session.wf()
    &&& 0 <= queue < session.players.len()
    &&& session.players[queue] is Local
    &&& is_run::<I>(visits)
    &&& same_kinds(session.players, visits[0].session.players)
    &&& visits[0].session.remembers(session.disconnect::<I>(queue).state)
    &&& visits[0].next == session.disconnect::<I>(queue).next
}

/// Whether a sweep that goes on at `next` has passed the player at `queue`.
pub open spec fn swept_past(next: Next, queue: int) -> bool {
    next matches Next::Sweep { queue: from, .. } ==> queue < from
}

/// Up to each of its visits, a sweep has dropped the players that it has passed.
proof fn lemma_sweep_prefix<I>(session: SessionModel, queue: int, visits: Seq<Visit>, m: int)
    requires
        is_leave::<I>(session, queue, visits),
        0 <= m < visits.len(),
    ensures
        visits[m].next == Next::Finished || (visits[m].next matches Next::Sweep { syncto, queue }
            && syncto == session.frame_count && queue <= session.players.len()),
        visits[m].session.left[queue],
        forall|other: int|
            #![trigger session.players[other]]
            0 <= other < session.players.len() && session.players[other].has_peer() && swept_past(
                visits[m].next,
                other,
            ) ==> {
                &&& visits[m].session.left[other]
                &&& session.disconnect::<I>(queue).actions == session.drop_actions::<I>(
                    other,
                    session.frame_count,
                ) || dropped_by::<I>(visits, m, other, session.frame_count)
            },
    decreases m,
{
    let leaving = session.leaving(queue);
    first_peer_is_first(leaving, 0);
    assert(session.disconnect::<I>(queue).state.left[queue]);
    if m == 0 {
        assert forall|other: int|
            #![trigger session.players[other]]
            0 <= other < session.players.len() && session.players[other].has_peer() && swept_past(
                visits[m].next,
                other,
            ) implies visits[m].session.left[other] && session.disconnect::<I>(queue).actions
            == session.drop_actions::<I>(other, session.frame_count) by {
            assert(session.disconnect::<I>(queue).state.left[other]);
        }
    } else {
        lemma_sweep_prefix::<I>(session, queue, visits, m - 1);
        let visit = visits[m - 1];
        let after = visit.session.resume::<I>(visit.next).state;
        the_gone_stay_gone::<I>(visit.session, visit.next);
        if let Next::Sweep { queue: from, .. } = visit.next {
            first_peer_is_first(visit.session, from as int);
        }
        assert forall|other: int|
            #![trigger session.players[other]]
            0 <= other < session.players.len() && session.players[other].has_peer() && swept_past(
                visits[m].next,
                other,
            ) implies {
            &&& visits[m].session.left[other]
            &&& session.disconnect::<I>(queue).actions == session.drop_actions::<I>(
                other,
                session.frame_count,
            ) || dropped_by::<I>(visits, m, other, session.frame_count)
        } by {
            assert(visits[0].session.players[other].kind_view()
                == visit.session.players[other].kind_view());
            if swept_past(visit.next, other) {
                if session.disconnect::<I>(queue).actions != session.drop_actions::<I>(
                    other,
                    session.frame_count,
                ) {
                    let k = choose|k: int|
                        #![trigger visits[k]]
                        0 <= k < m - 1 && visits[k].session.resume::<I>(visits[k].next).actions
                            == visits[k].session.drop_actions::<I>(other, session.frame_count);
                    assert(visits[k].session.resume::<I>(visits[k].next).actions
                        == visits[k].session.drop_actions::<I>(other, session.frame_count));
                }
            } else {
                assert(after.left[other]);
                assert(visit.session.resume::<I>(visit.next).actions
                    == visit.session.drop_actions::<I>(other, session.frame_count));
            }
        }
    }
}

/// When a local player is disconnected, all players that are not local are dropped by
/// the end of the run, at the frame at which it began. None of them, and not the player
/// itself, can be disconnected again.
pub proof fn a_leaving_player_leaves_everyone<I>(
    session: SessionModel,
    queue: int,
    visits: Seq<Visit>,
    other: int,
)
    requires
        is_leave::<I>(session, queue, visits),
        visits.last().next == Next::Finished,
        0 <= other < session.players.len(),
        session.players[other].has_peer(),
    ensures
        session.disconnect::<I>(queue).actions == session.drop_actions::<I>(
            other,
            session.frame_count,
        ) || dropped_by::<I>(visits, visits.len() - 1, other, session.frame_count),
        visits.last().session.left[other],
        visits.last().session.left[queue],
        visits.last().session.disconnect_refusal(BackrollPlayerHandle(other as usize)) == Some(
            BackrollError::PlayerDisconnected(BackrollPlayerHandle(other as usize)),
        ),
        visits.last().session.disconnect_refusal(BackrollPlayerHandle(queue as usize)) == Some(
            BackrollError::PlayerDisconnected(BackrollPlayerHandle(queue as usize)),
        ),
{
    lemma_sweep_prefix::<I>(session, queue, visits, visits.len() - 1);
}

/// Whether nobody writes to the statuses between these visits but the session itself.
pub open spec fn is_undisturbed<I>(visits: Seq<Visit>) -> bool {
    forall|j: int, k: int|
        #![trigger visits[j], visits[k]]
        0 <= j < visits.len() && 0 <= k < visits.len() && k == j + 1 ==> visits[k].session.status
            == visits[j].session.resume::<I>(visits[j].next).state.status
}

/// If nobody else writes to the statuses, a whole poll never moves a recorded last frame
/// forward and brings nobody back, and leaves a queue as it is if no running endpoint
/// reports it as gone at any of its looks.
pub proof fn a_poll_never_moves_forward<I>(visits: Seq<Visit>, queue: int)
    requires
        is_poll::<I>(visits),
        is_undisturbed::<I>(visits),
        0 <= queue < visits[0].session.players.len(),
    ensures
        visits.last().session.status[queue].last_frame
            <= visits[0].session.status[queue].last_frame,
        visits[0].session.status[queue].disconnected
            ==> visits.last().session.status[queue].disconnected,
        (forall|k: int|
            #![trigger visits[k]]
            0 <= k < visits.len() - 1 ==> visits[k].session.reported_connected(queue))
            ==> visits.last().session.status[queue] == visits[0].session.status[queue],
    decreases visits.len(),
{
    if visits.len() > 1 {
        let before = visits.drop_last();
        let visit = visits[visits.len() - 2];
        a_poll_never_moves_forward::<I>(before, queue);
        lemma_poll_prefix::<I>(visits, visits.len() - 2);
        a_look_never_moves_forward::<I>(
            visit.session,
            visit.next->Queues_current_frame,
            looked_up_to(visit),
            confirmed_so_far(visit),
            queue,
        );
    }
}

/// Whether the players, and so what their endpoints report, stay the same at all visits.
pub open spec fn is_steady(visits: Seq<Visit>) -> bool {
    forall|k: int|
        #![trigger visits[k]]
        0 <= k < visits.len() ==> visits[k].session.players == visits[0].session.players
}

/// The status of the player at `queue` if it is dropped in a poll of `session` that looks
/// at all queues: with few remote players it is gone since the frame that the queues up to
/// its own confirm, else since the frame up to which everyone has its inputs.
pub open spec fn dropped_status(session: SessionModel, few: bool, queue: int) -> ConnectionStatus {
    ConnectionStatus {
        disconnected: true,
        last_frame: if few {
            session.least_bound(true, 0, queue + 1, Frame::MAX)
        } else {
            session.confirmed_frame(queue)
        },
    }
}

/// What is to be made of a queue depends on its own status, and on the reports if there
/// are many remote players.
proof fn lemma_queue_kept(a: SessionModel, b: SessionModel, few: bool, queue: int)
    requires
        a.players.len() == b.players.len(),
        a.status[queue] == b.status[queue],
        few || a.players == b.players,
    ensures
        a.bound(few, queue) == b.bound(few, queue),
        a.players == b.players ==> a.confirmed_frame(queue) == b.confirmed_frame(queue),
        a.players == b.players ==> a.drops(few, queue) == b.drops(few, queue),
{
    if a.players == b.players {
        lemma_reports_kept(a, b, queue, a.players.len() as int);
    }
}

/// The least bound depends on what is to be made of the queues looked at.
proof fn lemma_least_bound_kept(
    a: SessionModel,
    b: SessionModel,
    few: bool,
    from: int,
    to: int,
    start: Frame,
)
    requires
        a.players.len() == b.players.len(),
        forall|queue: int| from <= queue < to ==> #[trigger] a.status[queue] == b.status[queue],
        few || a.players == b.players,
    ensures
        a.least_bound(few, from, to, start) == b.least_bound(few, from, to, start),
    decreases to - from,
{
    if from < to {
        lemma_least_bound_kept(a, b, few, from, to - 1, start);
        lemma_queue_kept(a, b, few, to - 1);
    }
}

/// Where an undisturbed poll stands at its visits.
proof fn lemma_undisturbed_prefix<I>(visits: Seq<Visit>, few: bool, m: int)
    requires
        is_poll::<I>(visits),
        is_undisturbed::<I>(visits),
        few == visits[0].session.few(),
        few || is_steady(visits),
        0 <= m < visits.len(),
    ensures
        0 <= looked_up_to(visits[m]) <= visits[0].session.players.len(),
        confirmed_so_far(visits[m]) == visits[0].session.least_bound(
            few,
            0,
            looked_up_to(visits[m]),
            Frame::MAX,
        ),
        forall|queue: int|
            looked_up_to(visits[m]) <= queue < visits[0].session.players.len() ==> (
            #[trigger] visits[m].session.status[queue]) == visits[0].session.status[queue],
        is_steady(visits) ==> forall|queue: int|
            0 <= queue < looked_up_to(visits[m]) ==> (#[trigger] visits[m].session.status[queue])
                == if visits[0].session.drops(few, queue) {
                dropped_status(visits[0].session, few, queue)
            } else {
                visits[0].session.status[queue]
            },
        forall|j: int, k: int, queue: int|
            #![trigger visits[k], visits[j].session.drops(few, queue)]
            0 <= j && k == j + 1 && k <= m && looked_up_to(visits[j]) <= queue < looked_up_to(
                visits[k],
            ) ==> visits[m].session.status[queue] == if visits[j].session.drops(few, queue) {
                dropped_status(visits[0].session, few, queue)
            } else {
                visits[0].session.status[queue]
            },
    decreases m,
{
    let first = visits[0].session;
    lemma_poll_prefix::<I>(visits, m);
    if m > 0 {
        lemma_undisturbed_prefix::<I>(visits, few, m - 1);
        lemma_poll_prefix::<I>(visits, m - 1);
        let visit = visits[m - 1];
        let seen = visit.session;
        let from = looked_up_to(visit);
        let start = confirmed_so_far(visit);
        let stop = seen.first_drop(few, from);
        let to = looked_up_to(visits[m]);
        a_run_polls_in_one_way::<I>(visits, m - 1);
        first_drop_is_first(seen, few, from);
        lemma_least_bound_kept(seen, first, few, from, to, start);
        least_bound_in_parts(first, few, 0, from, to, Frame::MAX);
        if stop < seen.players.len() {
            lemma_queue_kept(seen, first, few, stop);
        }
        if is_steady(visits) {
            assert forall|queue: int| 0 <= queue < to implies (
            #[trigger] visits[m].session.status[queue]) == if first.drops(few, queue) {
                dropped_status(first, few, queue)
            } else {
                first.status[queue]
            } by {
                if from <= queue {
                    lemma_queue_kept(seen, first, few, queue);
                }
            }
        }
        assert forall|j: int, k: int, queue: int|
            #![trigger visits[k], visits[j].session.drops(few, queue)]
            0 <= j && k == j + 1 && k <= m && looked_up_to(visits[j]) <= queue < looked_up_to(
                visits[k],
            ) implies visits[m].session.status[queue] == if visits[j].session.drops(few, queue) {
            dropped_status(first, few, queue)
        } else {
            first.status[queue]
        } by {
            if k < m {
                lemma_looks_ascend::<I>(visits, k, m - 1);
                lemma_looks_ascend::<I>(visits, 0, j);
            }
        }
    }
}

/// A poll looks at its queues in ascending order.
proof fn lemma_looks_ascend<I>(visits: Seq<Visit>, j: int, k: int)
    requires
        is_poll::<I>(visits),
        0 <= j <= k < visits.len(),
    ensures
        looked_up_to(visits[j]) <= looked_up_to(visits[k]),
    decreases k - j,
{
    if j < k {
        lemma_looks_ascend::<I>(visits, j, k - 1);
        lemma_poll_prefix::<I>(visits, k);
    }
}

/// With few remote players, and nobody else writing to the statuses, a poll confirms the
/// earliest last frame of the players that were connected when it began, whatever the
/// endpoints report meanwhile. A player that has to be dropped when it is looked at is gone
/// in the end since the frame that the players up to it confirmed; all others keep their
/// status.
pub proof fn an_undisturbed_poll_of_few<I>(visits: Seq<Visit>)
    requires
        is_poll::<I>(visits),
        is_undisturbed::<I>(visits),
        visits[0].session.few(),
        visits.last().next is Confirm,
    ensures
        visits.last().next->Confirm_min_frame == visits[0].session.least_bound(
            true,
            0,
            visits[0].session.players.len() as int,
            Frame::MAX,
        ),
        forall|j: int, k: int, queue: int|
            #![trigger visits[k], visits[j].session.drops(true, queue)]
            0 <= j && k == j + 1 && k < visits.len() && looked_up_to(visits[j]) <= queue
                < looked_up_to(visits[k]) ==> visits.last().session.status[queue]
                == if visits[j].session.drops(true, queue) {
                dropped_status(visits[0].session, true, queue)
            } else {
                visits[0].session.status[queue]
            },
{
    lemma_poll_prefix::<I>(visits, visits.len() - 1);
    lemma_undisturbed_prefix::<I>(visits, true, visits.len() - 1);
}

/// If nobody else writes to the statuses and the endpoints report the same throughout, a
/// poll comes to what the session was at first: it confirms the least bound of all queues,
/// every player that had to be dropped is gone, and all others keep their status. Its
/// interruptions leave no trace.
pub proof fn an_undisturbed_poll_is_one_look<I>(visits: Seq<Visit>)
    requires
        is_poll::<I>(visits),
        is_undisturbed::<I>(visits),
        is_steady(visits),
        visits.last().next is Confirm,
    ensures
        visits.last().next->Confirm_min_frame == visits[0].session.least_bound(
            visits[0].session.few(),
            0,
            visits[0].session.players.len() as int,
            Frame::MAX,
        ),
        forall|queue: int|
            0 <= queue < visits[0].session.players.len() ==> (
            #[trigger] visits.last().session.status[queue]) == if visits[0].session.drops(
                visits[0].session.few(),
                queue,
            ) {
                dropped_status(visits[0].session, visits[0].session.few(), queue)
            } else {
                visits[0].session.status[queue]
            },
{
    lemma_poll_prefix::<I>(visits, visits.len() - 1);
    lemma_undisturbed_prefix::<I>(visits, visits[0].session.few(), visits.len() - 1);
}

/// Up to each of its visits, an undisturbed sweep has made gone the players that it has
/// passed, and no others.
proof fn lemma_undisturbed_sweep<I>(session: SessionModel, queue: int, visits: Seq<Visit>, m: int)
    requires
        is_leave::<I>(session, queue, visits),
        is_undisturbed::<I>(visits),
        visits[0].session.status == session.disconnect::<I>(queue).state.status,
        0 <= m < visits.len(),
    ensures
        forall|other: int|
            0 <= other < session.players.len() ==> (#[trigger] visits[m].session.status[other])
                == if session.players[other].has_peer() && swept_past(visits[m].next, other) {
                ConnectionStatus { disconnected: true, last_frame: session.frame_count }
            } else {
                session.status[other]
            },
    decreases m,
{
    let gone = ConnectionStatus { disconnected: true, last_frame: session.frame_count };
    first_peer_is_first(session.leaving(queue), 0);
    lemma_sweep_prefix::<I>(session, queue, visits, m);
    if m > 0 {
        lemma_sweep_prefix::<I>(session, queue, visits, m - 1);
        lemma_undisturbed_sweep::<I>(session, queue, visits, m - 1);
        let visit = visits[m - 1];
        if let Next::Sweep { queue: from, .. } = visit.next {
            first_peer_is_first(visit.session, from as int);
        }
        assert forall|other: int| 0 <= other < session.players.len() implies (
        #[trigger] visits[m].session.status[other]) == if session.players[other].has_peer()
            && swept_past(visits[m].next, other) {
            gone
        } else {
            session.status[other]
        } by {
            assert(visits[0].session.players[other].kind_view()
                == visit.session.players[other].kind_view());
            assert(session.players[other].kind_view()
                == visits[0].session.players[other].kind_view());
        }
    }
}

/// When a local player is disconnected and nobody else writes to the statuses, in the end
/// every player that is not local is gone since the frame at which it began, every local
/// player's status is as it was, and the session has nobody to wait for.
pub proof fn an_undisturbed_leave<I>(session: SessionModel, queue: int, visits: Seq<Visit>)
    requires
        is_leave::<I>(session, queue, visits),
        is_undisturbed::<I>(visits),
        visits[0].session.status == session.disconnect::<I>(queue).state.status,
        visits.last().next == Next::Finished,
    ensures
        forall|other: int|
            0 <= other < session.players.len() ==> (
            #[trigger] visits.last().session.status[other]) == if session.players[other] is Local {
                session.status[other]
            } else {
                ConnectionStatus { disconnected: true, last_frame: session.frame_count }
            },
        visits.last().session.is_synchronized(),
        !visits.last().session.synchronizing,
{
    lemma_undisturbed_sweep::<I>(session, queue, visits, visits.len() - 1);
}

} // verus!
