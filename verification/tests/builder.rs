use backroll::frame::BackrollConfig;
use backroll::p2p::{P2PSession, P2PSessionBuilder};
use backroll::player::{BackrollPlayer, BackrollPlayerHandle, Kind, Player};
use std::time::Duration;

struct Game;

impl BackrollConfig for Game {
    type Input = u8;
    type Peer = String;
}

fn remote(name: &str) -> BackrollPlayer<String> {
    BackrollPlayer::Remote(String::from(name))
}

fn spectator(name: &str) -> BackrollPlayer<String> {
    BackrollPlayer::Spectator(String::from(name))
}

#[test]
fn handles_count_up_from_zero() {
    let mut builder = P2PSessionBuilder::<Game>::new();
    assert_eq!(builder.add_player(BackrollPlayer::Local), BackrollPlayerHandle(0));
    assert_eq!(builder.add_player(remote("a")), BackrollPlayerHandle(1));
    assert_eq!(builder.add_player(spectator("b")), BackrollPlayerHandle(2));
    let startup = builder.start();
    assert_eq!(startup.session.player_count(), 3);
    assert_eq!(startup.session.local_players(), vec![BackrollPlayerHandle(0)]);
    assert_eq!(startup.session.remote_players(), vec![BackrollPlayerHandle(1)]);
    assert_eq!(startup.session.current_frame(), 0);
    assert!(!startup.session.in_rollback());
}

#[test]
fn endpoints_are_requested_for_everyone_but_local_players() {
    let mut builder = P2PSession::<Game>::build();
    builder.add_player(remote("first"));
    builder.add_player(BackrollPlayer::Local);
    builder.add_player(spectator("last"));
    let startup = builder.start();
    assert_eq!(startup.peers.len(), 3);
    let first = startup.peers[0].as_ref().unwrap();
    assert_eq!(first.queue, 0);
    assert_eq!(first.config.peer, "first");
    assert!(startup.peers[1].is_none());
    let last = startup.peers[2].as_ref().unwrap();
    assert_eq!(last.queue, 2);
    assert_eq!(last.config.peer, "last");
}

#[test]
fn default_times() {
    let mut builder = P2PSession::<Game>::build();
    builder.add_player(remote("a"));
    let startup = builder.start();
    let config = &startup.peers[0].as_ref().unwrap().config;
    assert_eq!(config.disconnect_timeout, Duration::from_millis(5000));
    assert_eq!(config.disconnect_notify_start, Duration::from_millis(750));
}

#[test]
fn disconnect_timeout_is_handed_on() {
    let mut builder =
        P2PSession::<Game>::build().with_disconnect_timeout(Duration::from_millis(1234));
    builder.add_player(spectator("a"));
    let startup = builder.start();
    let config = &startup.peers[0].as_ref().unwrap().config;
    assert_eq!(config.disconnect_timeout, Duration::from_millis(1234));
    assert_eq!(config.disconnect_notify_start, Duration::from_millis(750));
}

#[test]
fn disconnect_notify_start_sets_the_timeout() {
    let mut builder =
        P2PSession::<Game>::build().with_disconnect_notify_start(Duration::from_millis(99));
    builder.add_player(remote("a"));
    let startup = builder.start();
    let config = &startup.peers[0].as_ref().unwrap().config;
    assert_eq!(config.disconnect_timeout, Duration::from_millis(99));
    assert_eq!(config.disconnect_notify_start, Duration::from_millis(750));
}

#[test]
fn a_table_with_a_status_for_each_player_is_shared() {
    let mut builder = P2PSession::<Game>::build();
    builder.add_player(remote("a"));
    builder.add_player(BackrollPlayer::Local);
    let startup = builder.start();
    assert_eq!(startup.connect_status.len(), 2);
    for queue in 0..2 {
        let status = startup.connect_status.read(queue);
        assert!(!status.disconnected);
        assert_eq!(status.last_frame, -1);
    }
}

#[test]
fn a_new_player_has_an_endpoint_that_is_not_running() {
    let mut builder = P2PSession::<Game>::build();
    builder.add_player(BackrollPlayer::Local);
    builder.add_player(BackrollPlayer::Local);
    let (player, request) = Player::new(1, &remote("x"), &builder);
    assert_eq!(player.kind(), Kind::Remote);
    assert!(!player.is_local());
    assert!(player.is_remote_player());
    assert!(!player.is_spectator());
    assert!(!player.is_synchronized());
    assert_eq!(player.peer().unwrap().peer_connect_status.len(), 2);
    assert_eq!(request.unwrap().queue, 1);

    let (player, request) = Player::new(0, &BackrollPlayer::Local, &builder);
    assert!(player.is_local());
    assert!(player.is_synchronized());
    assert!(player.peer().is_none());
    assert!(player.get_network_stats().is_none());
    assert!(request.is_none());

    let (player, _) = Player::new(0, &spectator("y"), &builder);
    assert!(player.is_spectator());
    assert_eq!(player.kind(), Kind::Spectator);
}

#[test]
fn an_empty_session_is_synchronized() {
    let startup = P2PSession::<Game>::build().start();
    assert_eq!(startup.session.player_count(), 0);
    assert!(startup.session.is_synchronized());
    assert!(startup.peers.is_empty());
    assert_eq!(startup.connect_status.len(), 0);
}
