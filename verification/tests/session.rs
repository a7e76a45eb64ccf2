use backroll::action::{Action, BackrollError, Next};
use backroll::frame::{BackrollConfig, FrameInput};
use backroll::p2p::P2PSession;
use backroll::peer::{BackrollPeer, NetworkStats};
use backroll::player::{BackrollPlayer, BackrollPlayerHandle};
use backroll::status::{ConnectionStatus, StatusTable};

struct Game;

impl BackrollConfig for Game {
    type Input = u8;
    type Peer = u32;
}

/// `l` is a local player, `r` a remote one and `s` a spectator.
fn session(kinds: &str) -> P2PSession<Game> {
    let mut builder = P2PSession::<Game>::build();
    for kind in kinds.chars() {
        builder.add_player(match kind {
            'l' => BackrollPlayer::Local,
            'r' => BackrollPlayer::Remote(1),
            _ => BackrollPlayer::Spectator(2),
        });
    }
    builder.start().session
}

fn at(disconnected: bool, last_frame: i32) -> ConnectionStatus {
    ConnectionStatus {
        disconnected,
        last_frame,
    }
}

fn running(count: usize) -> BackrollPeer {
    let mut peer = BackrollPeer::new(count);
    peer.running = true;
    peer
}

#[test]
fn players_are_listed_by_kind() {
    let session = session("lrsrl");
    assert_eq!(
        session.local_players(),
        vec![BackrollPlayerHandle(0), BackrollPlayerHandle(4)]
    );
    assert_eq!(
        session.remote_players(),
        vec![BackrollPlayerHandle(1), BackrollPlayerHandle(3)]
    );
    assert_eq!(session.player_count(), 5);
}

#[test]
fn a_session_is_synchronized_when_everyone_runs_or_is_gone() {
    let mut session = session("lrs");
    assert!(!session.is_synchronized());
    session.observe_peer(1, running(3));
    assert!(!session.is_synchronized());
    session.set_status(vec![at(false, 0), at(false, 0), at(true, 0)]);
    assert!(session.is_synchronized());
    session.set_status(vec![at(false, 0), at(false, 0), at(false, 0)]);
    assert!(!session.is_synchronized());
    session.observe_peer(2, running(3));
    assert!(session.is_synchronized());
}

#[test]
fn local_players_need_no_synchronization() {
    assert!(session("ll").is_synchronized());
}

#[test]
fn the_shared_table_is_observed() {
    let mut session = session("lr");
    let table = StatusTable::new(2);
    table.write(1, at(true, 3));
    assert!(!session.is_synchronized());
    session.observe_status(&table);
    assert!(session.is_synchronized());
}

#[test]
fn the_synchronizer_is_observed() {
    let mut session = session("l");
    session.observe_sync(12, true);
    assert_eq!(session.current_frame(), 12);
    assert!(session.in_rollback());
}

#[test]
fn network_stats_come_from_the_endpoint() {
    let mut session = session("lr");
    let mut peer = running(2);
    peer.network_stats = NetworkStats {
        ping_millis: 30,
        send_queue_len: 1,
        recv_queue_len: 2,
        kbps_sent: 3,
        local_frames_behind: 4,
        remote_frames_behind: 5,
    };
    let expected = peer.network_stats;
    session.observe_peer(1, peer);
    assert_eq!(session.get_network_stats(BackrollPlayerHandle(1)), Ok(expected));
    assert_eq!(
        session.get_network_stats(BackrollPlayerHandle(0)),
        Ok(NetworkStats::default())
    );
    assert_eq!(
        session.get_network_stats(BackrollPlayerHandle(2)),
        Err(BackrollError::InvalidPlayer(BackrollPlayerHandle(2)))
    );
}

#[test]
fn frame_delay_is_set_for_valid_players() {
    let session = session("lr");
    assert_eq!(
        session.set_frame_delay(BackrollPlayerHandle(1), 3),
        Ok(Action::SetFrameDelay { queue: 1, delay: 3 })
    );
    assert_eq!(
        session.set_frame_delay(BackrollPlayerHandle(2), 3),
        Err(BackrollError::InvalidPlayer(BackrollPlayerHandle(2)))
    );
}

#[test]
fn inputs_are_refused_during_a_rollback() {
    let mut session = session("lr");
    session.observe_sync(5, true);
    assert_eq!(
        session.add_local_input(BackrollPlayerHandle(9), 1),
        Err(BackrollError::InRollback)
    );
}

#[test]
fn inputs_are_refused_before_everyone_is_ready() {
    let session = session("lr");
    assert_eq!(
        session.add_local_input(BackrollPlayerHandle(9), 1),
        Err(BackrollError::NotSynchronized)
    );
}

#[test]
fn inputs_of_unknown_players_are_refused() {
    let session = session("l");
    assert_eq!(
        session.add_local_input(BackrollPlayerHandle(1), 1),
        Err(BackrollError::InvalidPlayer(BackrollPlayerHandle(1)))
    );
}

#[test]
fn inputs_are_handed_to_the_synchronizer() {
    let session = session("ll");
    assert_eq!(
        session.add_local_input(BackrollPlayerHandle(1), 42),
        Ok(Action::AddLocalInput { queue: 1, input: 42 })
    );
}

#[test]
fn added_inputs_go_to_everyone_else() {
    let session = session("lrsl");
    let frame_input = FrameInput { frame: 7, input: 42 };
    assert_eq!(
        session.local_input_added::<()>(Ok(7), 42),
        Ok(vec![
            Action::SendInput { queue: 1, frame_input },
            Action::SendInput { queue: 2, frame_input },
        ])
    );
}

#[test]
fn inputs_without_frame_go_nowhere() {
    assert_eq!(session("lr").local_input_added::<()>(Ok(-1), 42), Ok(vec![]));
}

#[test]
fn inputs_that_the_synchronizer_refuses_go_nowhere() {
    assert_eq!(
        session("lr").local_input_added(Err("too far ahead"), 42),
        Err("too far ahead")
    );
}

#[test]
fn a_local_session_polls_from_start_to_end() {
    let mut session = session("ll");
    session.set_status(vec![at(false, 9), at(false, 8)]);
    let turn = session.advance_frame();
    assert_eq!(turn.actions, vec![Action::IncrementFrame]);
    assert_eq!(turn.next, Next::Poll);
    session.observe_sync(10, false);
    let turn = session.resume(turn.next);
    assert_eq!(turn.actions, vec![Action::CheckSimulation]);
    assert_eq!(turn.next, Next::Notify);
    let turn = session.resume(turn.next);
    assert_eq!(turn.actions, vec![]);
    assert_eq!(
        turn.next,
        Next::Queues { current_frame: 10, queue: 0, min_frame: i32::MAX }
    );
    let turn = session.resume(turn.next);
    assert_eq!(turn.actions, vec![]);
    assert_eq!(turn.next, Next::Confirm { current_frame: 10, min_frame: 8 });
    assert!(session.can_resume(turn.next));
    let turn = session.resume(turn.next);
    assert_eq!(turn.actions, vec![Action::SetLastConfirmedFrame { frame: 8 }]);
    assert_eq!(turn.next, Next::Finished);
    let turn = session.resume(turn.next);
    assert_eq!(turn.actions, vec![]);
    assert_eq!(turn.next, Next::Finished);
}

#[test]
fn nothing_is_polled_during_a_rollback() {
    let mut session = session("l");
    session.observe_sync(3, true);
    let turn = session.resume(Next::Poll);
    assert_eq!(turn.actions, vec![]);
    assert_eq!(turn.next, Next::Finished);
}

#[test]
fn nothing_is_polled_before_everyone_is_ready() {
    let mut session = session("lr");
    let turn = session.resume(Next::Poll);
    assert_eq!(turn.actions, vec![]);
    assert_eq!(turn.next, Next::Finished);
}

#[test]
fn no_frame_is_confirmed_before_the_first() {
    let mut session = session("l");
    let turn = session.resume(Next::Confirm { current_frame: 1, min_frame: -1 });
    assert_eq!(turn.actions, vec![]);
    assert_eq!(turn.next, Next::Finished);
}

#[test]
fn a_frame_that_no_player_confirms_is_not_confirmed() {
    let mut session = session("l");
    session.set_status(vec![at(true, 4)]);
    let turn = session.resume(Next::Queues { current_frame: 5, queue: 0, min_frame: i32::MAX });
    assert_eq!(turn.next, Next::Confirm { current_frame: 5, min_frame: i32::MAX });
    assert!(!session.can_resume(turn.next));
}

#[test]
fn the_next_recommendation_is_planned_an_interval_ahead() {
    let mut session = session("lr");
    let last = i32::MAX - 240;
    // Due and within range; one frame later it would lie beyond the last frame.
    assert!(session.can_resume(Next::Confirm { current_frame: last, min_frame: 0 }));
    assert!(!session.can_resume(Next::Confirm { current_frame: last + 1, min_frame: 0 }));
    let turn = session.resume(Next::Confirm { current_frame: last, min_frame: 0 });
    assert_eq!(turn.actions, vec![Action::SetLastConfirmedFrame { frame: 0 }]);
    // No longer due.
    assert!(session.can_resume(Next::Confirm { current_frame: last + 1, min_frame: 0 }));
    assert!(session.can_resume(Next::Confirm { current_frame: i32::MAX, min_frame: 0 }));
}

#[test]
fn nothing_is_recommended_without_remote_players() {
    let session = session("ls");
    assert!(session.can_resume(Next::Confirm { current_frame: i32::MAX, min_frame: 0 }));
}

#[test]
fn queues_beyond_the_last_cannot_be_resumed() {
    let session = session("lr");
    assert!(session.can_resume(Next::Queues { current_frame: 0, queue: 2, min_frame: 0 }));
    assert!(!session.can_resume(Next::Queues { current_frame: 0, queue: 3, min_frame: 0 }));
    assert!(!session.can_resume(Next::Sweep { syncto: 0, queue: 3 }));
    assert!(session.can_resume(Next::Finished));
}

#[test]
fn inputs_are_taken_once_everyone_is_ready() {
    let mut session = session("lr");
    session.observe_peer(1, running(2));
    assert!(session.is_synchronized());
    assert_eq!(
        session.add_local_input(BackrollPlayerHandle(0), 5),
        Ok(Action::AddLocalInput { queue: 0, input: 5 })
    );
    let turn = session.resume(Next::Poll);
    assert_eq!(turn.actions, vec![Action::CheckSimulation]);
    // An endpoint that stops running later does not take that back.
    session.observe_peer(1, BackrollPeer::new(2));
    assert!(!session.is_synchronized());
    assert!(session.add_local_input(BackrollPlayerHandle(0), 5).is_ok());
}

#[test]
fn inputs_are_taken_once_nobody_is_left_to_wait_for() {
    let mut session = session("lr");
    session.set_status(vec![at(false, 0), at(true, 0)]);
    assert!(session.add_local_input(BackrollPlayerHandle(0), 5).is_ok());
}
