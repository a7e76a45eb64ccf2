use backroll::action::{Action, BackrollError, Next};
use backroll::frame::BackrollConfig;
use backroll::p2p::P2PSession;
use backroll::player::{BackrollPlayer, BackrollPlayerHandle};
use backroll::status::ConnectionStatus;

struct Game;

impl BackrollConfig for Game {
    type Input = u8;
    type Peer = u32;
}

/// `l` is a local player, `r` a remote one and `s` a spectator.
fn session(kinds: &str) -> P2PSession<Game> {
    let mut builder = P2PSession::<Game>::build();
    for kind in kinds.chars() {
        builder.add_player(match kind {
            'l' => BackrollPlayer::Local,
            'r' => BackrollPlayer::Remote(1),
            _ => BackrollPlayer::Spectator(2),
        });
    }
    builder.start().session
}

fn at(disconnected: bool, last_frame: i32) -> ConnectionStatus {
    ConnectionStatus {
        disconnected,
        last_frame,
    }
}

#[test]
fn unknown_players_cannot_be_disconnected() {
    let mut session = session("lr");
    assert_eq!(
        session.disconnect_player(BackrollPlayerHandle(2)).unwrap_err(),
        BackrollError::InvalidPlayer(BackrollPlayerHandle(2))
    );
}

#[test]
fn a_remote_player_is_disconnected_at_its_last_frame() {
    let mut session = session("lrs");
    session.observe_sync(10, false);
    session.set_status(vec![at(false, 9), at(false, 6), at(false, 5)]);
    let turn = session.disconnect_player(BackrollPlayerHandle(1)).unwrap();
    assert_eq!(
        turn.actions,
        vec![
            Action::DisconnectPeer { queue: 1 },
            Action::SetStatus { queue: 1, status: at(true, 6) },
            Action::AdjustSimulation { frame: 6 },
        ]
    );
    assert_eq!(turn.next, Next::Finished);
}

#[test]
fn a_player_is_disconnected_only_once() {
    let mut session = session("lr");
    session.disconnect_player(BackrollPlayerHandle(1)).unwrap();
    assert_eq!(
        session.disconnect_player(BackrollPlayerHandle(1)).unwrap_err(),
        BackrollError::PlayerDisconnected(BackrollPlayerHandle(1))
    );
}

#[test]
fn a_local_player_takes_leave_of_everyone() {
    let mut session = session("rlsr");
    session.observe_sync(10, false);
    session.set_status(vec![at(false, 9), at(false, 6), at(false, 5), at(true, 2)]);
    let turn = session.disconnect_player(BackrollPlayerHandle(1)).unwrap();
    assert_eq!(
        turn.actions,
        vec![
            Action::DisconnectPeer { queue: 0 },
            Action::SetStatus { queue: 0, status: at(true, 10) },
        ]
    );
    assert_eq!(turn.next, Next::Sweep { syncto: 10, queue: 1 });
    // The simulation has moved on meanwhile.
    session.observe_sync(11, false);
    let turn = session.resume(turn.next);
    assert_eq!(
        turn.actions,
        vec![
            Action::DisconnectPeer { queue: 2 },
            Action::SetStatus { queue: 2, status: at(true, 10) },
            Action::AdjustSimulation { frame: 10 },
        ]
    );
    assert_eq!(turn.next, Next::Sweep { syncto: 10, queue: 3 });
    let turn = session.resume(turn.next);
    assert_eq!(turn.actions.len(), 3);
    assert_eq!(turn.actions[0], Action::DisconnectPeer { queue: 3 });
    assert_eq!(turn.next, Next::Sweep { syncto: 10, queue: 4 });
    let turn = session.resume(turn.next);
    assert_eq!(turn.actions, vec![]);
    assert_eq!(turn.next, Next::Finished);
    assert!(session.is_synchronized());
    assert!(session.add_local_input(BackrollPlayerHandle(1), 0).is_ok());
}

#[test]
fn a_local_player_alone_has_nobody_to_leave() {
    let mut session = session("ll");
    let turn = session.disconnect_player(BackrollPlayerHandle(0)).unwrap();
    assert_eq!(turn.actions, vec![]);
    assert_eq!(turn.next, Next::Finished);
}

#[test]
fn a_run_of_a_local_player_leaving_visits_each_peer_once() {
    let mut session = session("lrrsrl");
    let mut turn = session.disconnect_player(BackrollPlayerHandle(0)).unwrap();
    let mut dropped = vec![];
    let mut visits = 0;
    loop {
        for action in &turn.actions {
            if let Action::DisconnectPeer { queue } = action {
                dropped.push(*queue);
            }
        }
        if turn.next == Next::Finished {
            break;
        }
        visits += 1;
        assert!(visits <= 7);
        turn = session.resume(turn.next);
    }
    assert_eq!(dropped, vec![1, 2, 3, 4]);
}

#[test]
fn a_local_player_leaves_only_once() {
    let mut session = session("l");
    let player = BackrollPlayerHandle(0);
    assert!(session.disconnect_player(player).is_ok());
    assert_eq!(
        session.disconnect_player(player).unwrap_err(),
        BackrollError::PlayerDisconnected(player)
    );
}

#[test]
fn one_local_player_can_leave_after_another() {
    let mut session = session("lrl");
    assert!(session.disconnect_player(BackrollPlayerHandle(0)).is_ok());
    assert!(session.disconnect_player(BackrollPlayerHandle(2)).is_ok());
    assert_eq!(
        session.disconnect_player(BackrollPlayerHandle(1)).unwrap_err(),
        BackrollError::PlayerDisconnected(BackrollPlayerHandle(1))
    );
}

#[test]
fn the_disconnected_are_refused_whatever_is_called_in_between() {
    let mut session = session("lr");
    let player = BackrollPlayerHandle(1);
    session.disconnect_player(player).unwrap();
    session.observe_sync(4, false);
    session.set_status(vec![at(false, 3), at(false, 3)]);
    assert_eq!(
        session.disconnect_player(player).unwrap_err(),
        BackrollError::PlayerDisconnected(player)
    );
    assert_eq!(session.player_count(), 2);
    assert_eq!(session.remote_players(), vec![player]);
}

#[test]
fn a_leave_makes_everyone_else_gone_at_the_same_frame() {
    let mut session = session("rlsl");
    session.observe_sync(8, false);
    session.set_status(vec![at(false, 3), at(false, 7), at(false, 2), at(false, 6)]);
    let mut turn = session.disconnect_player(BackrollPlayerHandle(1)).unwrap();
    let mut written = vec![];
    while turn.next != Next::Finished {
        for action in &turn.actions {
            if let Action::SetStatus { queue, status } = action {
                written.push((*queue, *status));
            }
        }
        turn = session.resume(turn.next);
    }
    assert_eq!(written, vec![(0, at(true, 8)), (2, at(true, 8))]);
    assert!(session.is_synchronized());
    assert!(session.add_local_input(BackrollPlayerHandle(3), 0).is_ok());
}
