use backroll::action::{Action, Next};
use backroll::frame::BackrollConfig;
use backroll::p2p::P2PSession;
use backroll::peer::BackrollPeer;
use backroll::player::{BackrollPlayer, BackrollPlayerHandle};
use backroll::status::ConnectionStatus;

struct Game;

impl BackrollConfig for Game {
    type Input = u8;
    type Peer = u32;
}

/// `l` is a local player, `r` a remote one and `s` a spectator.
fn session(kinds: &str) -> P2PSession<Game> {
    let mut builder = P2PSession::<Game>::build();
    for kind in kinds.chars() {
        builder.add_player(match kind {
            'l' => BackrollPlayer::Local,
            'r' => BackrollPlayer::Remote(1),
            _ => BackrollPlayer::Spectator(2),
        });
    }
    builder.start().session
}

fn at(disconnected: bool, last_frame: i32) -> ConnectionStatus {
    ConnectionStatus {
        disconnected,
        last_frame,
    }
}

fn reporting(statuses: &[ConnectionStatus]) -> BackrollPeer {
    let mut peer = BackrollPeer::new(0);
    peer.running = true;
    peer.peer_connect_status = statuses.to_vec();
    peer
}

fn queues(queue: usize, min_frame: i32) -> Next {
    Next::Queues {
        current_frame: 20,
        queue,
        min_frame,
    }
}

#[test]
fn remote_players_are_told_the_frame() {
    let mut session = session("rlsr");
    session.observe_sync(20, false);
    let turn = session.resume(Next::Notify);
    assert_eq!(
        turn.actions,
        vec![
            Action::SetLocalFrameNumber { queue: 0, frame: 20 },
            Action::SetLocalFrameNumber { queue: 3, frame: 20 },
        ]
    );
    assert_eq!(turn.next, queues(0, i32::MAX));
}

#[test]
fn few_players_confirm_their_least_local_frame() {
    let mut session = session("lrr");
    session.observe_sync(20, false);
    session.set_status(vec![at(false, 19), at(false, 15), at(true, 3)]);
    // What the others report of each other is left out of account.
    session.observe_peer(1, reporting(&[at(false, 1), at(false, 2), at(true, 3)]));
    let turn = session.resume(queues(0, i32::MAX));
    assert_eq!(turn.actions, vec![]);
    assert_eq!(turn.next, Next::Confirm { current_frame: 20, min_frame: 15 });
}

#[test]
fn few_players_drop_a_player_that_reports_itself_gone() {
    let mut session = session("lrr");
    session.observe_sync(20, false);
    session.set_status(vec![at(false, 19), at(false, 15), at(false, 12)]);
    session.observe_peer(1, reporting(&[at(false, 9), at(true, 9), at(false, 9)]));
    let turn = session.resume(queues(0, i32::MAX));
    assert_eq!(
        turn.actions,
        vec![
            Action::DisconnectPeer { queue: 1 },
            Action::SetStatus { queue: 1, status: at(true, 15) },
            Action::AdjustSimulation { frame: 15 },
        ]
    );
    assert_eq!(
        turn.next,
        Next::Queues { current_frame: 20, queue: 2, min_frame: 15 }
    );
    // It goes on behind the dropped queue, and does not drop it again.
    let turn = session.resume(turn.next);
    assert_eq!(turn.actions, vec![]);
    assert_eq!(turn.next, Next::Confirm { current_frame: 20, min_frame: 12 });
    let turn = session.resume(queues(0, i32::MAX));
    assert_eq!(turn.next, Next::Confirm { current_frame: 20, min_frame: 12 });
}

#[test]
fn few_players_ignore_endpoints_that_are_not_running() {
    let mut session = session("lr");
    session.observe_sync(20, false);
    session.set_status(vec![at(false, 19), at(false, 15)]);
    let mut peer = reporting(&[at(false, 9), at(true, 9)]);
    peer.running = false;
    session.observe_peer(1, peer);
    let turn = session.resume(queues(0, i32::MAX));
    assert_eq!(turn.next, Next::Confirm { current_frame: 20, min_frame: 15 });
}

#[test]
fn the_simulation_is_not_adjusted_when_it_is_not_ahead() {
    let mut session = session("lr");
    session.observe_sync(15, false);
    session.set_status(vec![at(false, 19), at(false, 15)]);
    session.observe_peer(1, reporting(&[at(false, 9), at(true, 9)]));
    let turn = session.resume(queues(0, i32::MAX));
    assert_eq!(
        turn.actions,
        vec![
            Action::DisconnectPeer { queue: 1 },
            Action::SetStatus { queue: 1, status: at(true, 15) },
        ]
    );
}

#[test]
fn many_players_confirm_the_least_frame_that_anyone_reports() {
    let mut session = session("lrrr");
    session.observe_sync(20, false);
    session.set_status(vec![at(false, 19), at(false, 18), at(false, 17), at(false, 16)]);
    session.observe_peer(
        1,
        reporting(&[at(false, 14), at(false, 18), at(false, 11), at(false, 16)]),
    );
    session.observe_peer(
        3,
        reporting(&[at(false, 13), at(false, 18), at(false, 17), at(false, 16)]),
    );
    let turn = session.resume(queues(0, i32::MAX));
    assert_eq!(turn.actions, vec![]);
    assert_eq!(turn.next, Next::Confirm { current_frame: 20, min_frame: 11 });
    // From the last queue on only that one counts.
    let turn = session.resume(queues(3, i32::MAX));
    assert_eq!(turn.next, Next::Confirm { current_frame: 20, min_frame: 16 });
}

#[test]
fn many_players_drop_a_player_that_anyone_reports_gone() {
    let mut session = session("lrrr");
    session.observe_sync(20, false);
    session.set_status(vec![at(false, 19), at(false, 18), at(false, 17), at(false, 16)]);
    session.observe_peer(
        1,
        reporting(&[at(false, 19), at(false, 18), at(true, 10), at(false, 16)]),
    );
    session.observe_peer(
        3,
        reporting(&[at(false, 18), at(false, 18), at(false, 13), at(false, 16)]),
    );
    let turn = session.resume(queues(0, i32::MAX));
    assert_eq!(
        turn.actions,
        vec![
            Action::DisconnectPeer { queue: 2 },
            Action::SetStatus { queue: 2, status: at(true, 10) },
            Action::AdjustSimulation { frame: 10 },
        ]
    );
    assert_eq!(
        turn.next,
        Next::Queues { current_frame: 20, queue: 3, min_frame: 18 }
    );
    let turn = session.resume(turn.next);
    assert_eq!(turn.next, Next::Confirm { current_frame: 20, min_frame: 16 });
    // On the same reports it is not dropped again.
    let turn = session.resume(queues(0, i32::MAX));
    assert_eq!(turn.next, Next::Confirm { current_frame: 20, min_frame: 16 });
    // A report from further back drops it again, to that frame.
    session.observe_peer(
        3,
        reporting(&[at(false, 18), at(false, 18), at(false, 7), at(false, 16)]),
    );
    let turn = session.resume(queues(0, i32::MAX));
    assert_eq!(
        turn.actions,
        vec![
            Action::DisconnectPeer { queue: 2 },
            Action::SetStatus { queue: 2, status: at(true, 7) },
            Action::AdjustSimulation { frame: 7 },
        ]
    );
}

#[test]
fn many_players_can_drop_a_local_player() {
    let mut session = session("lrrr");
    session.observe_sync(20, false);
    session.set_status(vec![at(false, 19), at(false, 18), at(false, 17), at(false, 16)]);
    session.observe_peer(
        1,
        reporting(&[at(true, 12), at(false, 18), at(false, 17), at(false, 16)]),
    );
    let turn = session.resume(queues(0, i32::MAX));
    // A local player has no endpoint to disconnect.
    assert_eq!(
        turn.actions,
        vec![
            Action::SetStatus { queue: 0, status: at(true, 12) },
            Action::AdjustSimulation { frame: 12 },
        ]
    );
}

#[test]
fn a_whole_poll_is_bounded_by_every_queue_at_its_turn() {
    let mut session = session("lrr");
    session.observe_sync(20, false);
    session.set_status(vec![at(false, 19), at(false, 15), at(false, 18)]);
    session.observe_peer(1, reporting(&[at(false, 9), at(true, 9), at(false, 9)]));
    let turn = session.resume(queues(0, i32::MAX));
    // Meanwhile an input of the last player is taken back.
    session.set_status(vec![at(false, 19), at(true, 15), at(false, 14)]);
    let turn = session.resume(turn.next);
    assert_eq!(turn.next, Next::Confirm { current_frame: 20, min_frame: 14 });
}

#[test]
fn dropping_the_last_player_that_is_not_ready_ends_the_synchronization() {
    let mut session = session("lrr");
    session.observe_sync(0, false);
    session.observe_peer(1, reporting(&[at(false, 0), at(false, 0), at(false, 0)]));
    assert!(session.add_local_input(BackrollPlayerHandle(0), 1).is_err());
    let turn = session.disconnect_player(BackrollPlayerHandle(2)).unwrap();
    assert_eq!(turn.next, Next::Finished);
    assert!(session.add_local_input(BackrollPlayerHandle(0), 1).is_ok());
}

#[test]
fn a_poll_without_running_endpoints_is_the_same_for_few_and_many() {
    for kinds in ["lrr", "lrrr"] {
        let mut session = session(kinds);
        let mut statuses = vec![at(true, 3), at(false, 12), at(false, 14)];
        if kinds.len() == 4 {
            statuses.push(at(true, 1));
        }
        session.set_status(statuses);
        let turn = session.resume(queues(0, i32::MAX));
        assert_eq!(turn.actions, vec![]);
        assert_eq!(turn.next, Next::Confirm { current_frame: 20, min_frame: 12 });
    }
}

#[test]
fn an_interrupted_poll_of_few_ends_like_a_single_look() {
    let mut session = session("rlr");
    session.observe_sync(20, false);
    session.set_status(vec![at(false, 16), at(false, 19), at(false, 13)]);
    session.observe_peer(0, reporting(&[at(true, 1), at(false, 1), at(false, 1)]));
    session.observe_peer(2, reporting(&[at(false, 1), at(false, 1), at(true, 1)]));
    let turn = session.resume(queues(0, i32::MAX));
    assert_eq!(turn.actions[1], Action::SetStatus { queue: 0, status: at(true, 16) });
    let turn = session.resume(turn.next);
    assert_eq!(turn.actions[1], Action::SetStatus { queue: 2, status: at(true, 13) });
    let turn = session.resume(turn.next);
    assert_eq!(turn.next, Next::Confirm { current_frame: 20, min_frame: 13 });
}

#[test]
fn an_interrupted_poll_of_many_ends_like_a_single_look() {
    let mut session = session("rrrl");
    session.observe_sync(20, false);
    session.set_status(vec![at(false, 16), at(false, 18), at(false, 13), at(false, 19)]);
    session.observe_peer(
        1,
        reporting(&[at(true, 9), at(false, 17), at(true, 15), at(false, 18)]),
    );
    let turn = session.resume(queues(0, i32::MAX));
    assert_eq!(turn.actions[1], Action::SetStatus { queue: 0, status: at(true, 9) });
    let turn = session.resume(turn.next);
    assert_eq!(turn.actions[1], Action::SetStatus { queue: 2, status: at(true, 13) });
    let turn = session.resume(turn.next);
    assert_eq!(turn.next, Next::Confirm { current_frame: 20, min_frame: 17 });
}
