use backroll::frame::{earlier_frame, is_null, NULL_FRAME};
use backroll::peer::{BackrollPeer, NetworkStats};
use backroll::status::{ConnectionStatus, StatusTable};

#[test]
fn null_frames_are_negative() {
    assert!(is_null(NULL_FRAME));
    assert!(is_null(i32::MIN));
    assert!(!is_null(0));
    assert!(!is_null(7));
}

#[test]
fn the_earlier_frame_is_the_smaller_number() {
    assert_eq!(earlier_frame(3, 5), 3);
    assert_eq!(earlier_frame(5, 3), 3);
    assert_eq!(earlier_frame(-1, -1), -1);
}

#[test]
fn a_status_starts_connected_and_without_frame() {
    let status = ConnectionStatus::default();
    assert!(!status.disconnected);
    assert_eq!(status.last_frame, NULL_FRAME);
}

#[test]
fn what_is_written_is_read_back() {
    let table = StatusTable::new(3);
    assert_eq!(table.len(), 3);
    let gone = ConnectionStatus {
        disconnected: true,
        last_frame: 17,
    };
    table.write(1, gone);
    assert_eq!(table.read(1), gone);
    assert_eq!(
        table.read_all(),
        vec![ConnectionStatus::default(), gone, ConnectionStatus::default()]
    );
    table.write(1, ConnectionStatus::default());
    assert_eq!(table.read(1), ConnectionStatus::default());
}

#[test]
fn a_fresh_endpoint_knows_nothing() {
    let peer = BackrollPeer::new(2);
    assert!(!peer.is_running());
    assert_eq!(peer.peer_connect_status.len(), 2);
    assert_eq!(peer.get_peer_connect_status(1), ConnectionStatus::default());
    assert_eq!(peer.recommend_frame_delay(), 0);
    assert_eq!(peer.get_network_stats(), NetworkStats::default());
    assert_eq!(NetworkStats::default().ping_millis, 0);
}
