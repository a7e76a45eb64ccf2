//! What a session knows of the machines it is connected to.

use crate::frame::Frame;
use crate::status::{fresh_status, ConnectionStatus};
use std::time::Duration;
use vstd::prelude::*;

verus! {

/// Statistics of the connection to one other machine.
#[derive(Clone, Copy, Debug, PartialEq, Eq, Structural)]
pub struct NetworkStats {
    /// The round trip time in milliseconds.
    pub ping_millis: u64,
    /// How many packets wait to be sent.
    pub send_queue_len: usize,
    /// How many packets wait to be read.
    pub recv_queue_len: usize,
    /// The estimated bandwidth in use, in kilobits a second.
    pub kbps_sent: u32,
    /// How many frames this machine is behind the other one.
    pub local_frames_behind: Frame,
    /// How many frames the other machine is behind this one.
    pub remote_frames_behind: Frame,
}

/// The statistics of a connection that carries nothing.
pub open spec fn no_stats() -> NetworkStats {
    NetworkStats {
        ping_millis: 0,
        send_queue_len: 0,
        recv_queue_len: 0,
        kbps_sent: 0,
        local_frames_behind: 0,
        remote_frames_behind: 0,
    }
}

impl Default for NetworkStats {
    fn default() -> (stats: Self)
        ensures
            stats == no_stats(),
    {
        NetworkStats {
            ping_millis: 0,
            send_queue_len: 0,
            recv_queue_len: 0,
            kbps_sent: 0,
            local_frames_behind: 0,
            remote_frames_behind: 0,
        }
    }
}

/// How an endpoint is to be opened.
#[derive(Debug)]
pub struct BackrollPeerConfig<P> {
    /// The connection that the endpoint talks over.
    pub peer: P,
    /// After how much silence the other machine counts as gone.
    pub disconnect_timeout: Duration,
    /// After how much silence a warning is given.
    pub disconnect_notify_start: Duration,
}

/// A request to open the endpoint of one queue.
#[derive(Debug)]
pub struct PeerRequest<P> {
    /// The queue of the player at the other end.
    pub queue: usize,
    /// How the endpoint is to be opened.
    pub config: BackrollPeerConfig<P>,
}

/// An endpoint as it was last observed.
#[derive(Debug)]
pub struct BackrollPeer {
    /// Whether the endpoint has synchronized and is still connected.
    pub running: bool,
    /// What the other machine last reported of each player.
    pub peer_connect_status: Vec<ConnectionStatus>,
    /// How many frames the endpoint would have this machine wait.
    pub frame_delay: Frame,
    /// The statistics of the connection.
    pub network_stats: NetworkStats,
}

impl BackrollPeer {
    /// Whether the endpoint is as it is when it has just been asked for: not
    /// running, with nothing reported of any of `player_count` players.
    pub open spec fn is_fresh(&self, player_count: nat) -> bool {
        &&& !self.running
        &&& self.peer_connect_status@ == Seq::new(player_count, |i: int| fresh_status())
        &&& self.frame_delay == 0
        &&& self.network_stats == no_stats()
    }

    /// An endpoint of which nothing has been observed yet, in a game of
    /// `player_count` players.
    pub fn new(player_count: usize) -> (peer: BackrollPeer)
        ensures
            peer.is_fresh(player_count as nat),
    {
        let mut peer_connect_status: Vec<ConnectionStatus> = Vec::new();
        for i in 0..player_count
            invariant
                peer_connect_status@ == Seq::new(i as nat, |j: int| fresh_status()),
        {
            peer_connect_status.push(ConnectionStatus::default());
        }
        BackrollPeer {
            running: false,
            peer_connect_status,
            frame_delay: 0,
            network_stats: NetworkStats::default(),
        }
    }

    /// Whether the endpoint is running.
    pub fn is_running(&self) -> (running: bool)
        ensures
            running == self.running,
    {
        self.running
    }

    /// What the other machine last reported of the player at `queue`.
    pub fn get_peer_connect_status(&self, queue: usize) -> (status: ConnectionStatus)
        requires
            queue < self.peer_connect_status@.len(),
        ensures
            status == self.peer_connect_status@[queue as int],
    {
        self.peer_connect_status[queue]
    }

    /// How many frames the endpoint would have this machine wait.
    pub fn recommend_frame_delay(&self) -> (delay: Frame)
        ensures
            delay == self.frame_delay,
    {
        self.frame_delay
    }

    /// The statistics of the connection.
    pub fn get_network_stats(&self) -> (stats: NetworkStats)
        ensures
            stats == self.network_stats,
    {
        self.network_stats
    }
}

} // verus!
