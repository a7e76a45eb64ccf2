//! The players of a session.

use crate::action::Action;
use crate::frame::FrameInput;
use crate::peer::{BackrollPeer, NetworkStats};
use crate::status::ConnectionStatus;
use vstd::prelude::*;

verus! {

/// Names a player of a session.
#[derive(Clone, Copy, Debug, PartialEq, Eq, Structural)]
pub struct BackrollPlayerHandle(pub usize);

/// Where a player is, and what it does there.
#[derive(Clone, Copy, Debug, PartialEq, Eq, Structural)]
pub enum Kind {
    /// Plays on this machine.
    Local,
    /// Plays on another machine.
    Remote,
    /// Watches on another machine.
    Spectator,
}

/// A player as it is added to a session that is being built.
#[derive(Debug)]
pub enum BackrollPlayer<P> {
    /// Plays on this machine.
    Local,
    /// Plays on the machine at the other end of the connection.
    Remote(P),
    /// Watches on the machine at the other end of the connection.
    Spectator(P),
}

/// A player of a session, with the endpoint that leads to it.
#[derive(Debug)]
pub enum Player {
    /// Plays on this machine.
    Local,
    /// Plays on another machine.
    Remote { peer: BackrollPeer },
    /// Watches on another machine.
    Spectator { peer: BackrollPeer },
}

impl Player {
    /// Whether an endpoint leads to the player.
    pub open spec fn has_peer(&self) -> bool {
        !(self is Local)
    }

    /// The endpoint that leads to the player, if there is one.
    pub open spec fn peer_view(&self) -> Option<BackrollPeer> {
        match *self {
            Player::Local => None,
            Player::Remote { peer } => Some(peer),
            Player::Spectator { peer } => Some(peer),
        }
    }

    /// Whether the player has an endpoint that is running.
    pub open spec fn running(&self) -> bool {
        self.peer_view() matches Some(peer) && peer.running
    }

    /// What the player's machine last reported of the player at `queue`.
    pub open spec fn report(&self, queue: int) -> ConnectionStatus
        recommends
            self.has_peer(),
    {
        self.peer_view().unwrap().peer_connect_status@[queue]
    }

    /// The player with `peer` in place of its endpoint.
    pub open spec fn with_peer(&self, peer: BackrollPeer) -> Player {
        match *self {
            Player::Local => Player::Local,
            Player::Remote { .. } => Player::Remote { peer },
            Player::Spectator { .. } => Player::Spectator { peer },
        }
    }

    /// Where the player is and what it does there.
    pub open spec fn kind_view(&self) -> Kind {
        match *self {
            Player::Local => Kind::Local,
            Player::Remote { .. } => Kind::Remote,
            Player::Spectator { .. } => Kind::Spectator,
        }
    }

    /// The statistics of the player's connection, if it has one.
    pub open spec fn stats_view(&self) -> Option<NetworkStats> {
        match self.peer_view() {
            Some(peer) => Some(peer.network_stats),
            None => None,
        }
    }

    /// The disconnection that the player's endpoint is asked for, if it has one.
    pub open spec fn disconnect_actions<I>(&self, queue: usize) -> Seq<Action<I>> {
        if self.has_peer() {
            seq![Action::DisconnectPeer { queue }]
        } else {
            Seq::empty()
        }
    }

    /// Returns where the player is and what it does there.
    pub fn kind(&self) -> (kind: Kind)
        ensures
            kind == self.kind_view(),
    {
        match self {
            Player::Local => Kind::Local,
            Player::Remote { .. } => Kind::Remote,
            Player::Spectator { .. } => Kind::Spectator,
        }
    }

    /// Returns the endpoint that leads to the player, if there is one.
    pub fn peer(&self) -> (peer: Option<&BackrollPeer>)
        ensures
            match peer {
                Some(peer) => self.peer_view() == Some(*peer),
                None => self.peer_view() is None,
            },
    {
        match self {
            Player::Local => None,
            Player::Remote { peer } => Some(peer),
            Player::Spectator { peer } => Some(peer),
        }
    }

    /// Whether the player plays on this machine.
    pub fn is_local(&self) -> (local: bool)
        ensures
            local == (self is Local),
    {
        self.peer().is_none()
    }

    /// Whether the player plays on another machine.
    pub fn is_remote_player(&self) -> (remote: bool)
        ensures
            remote == (self is Remote),
    {
        match self {
            Player::Remote { .. } => true,
            _ => false,
        }
    }

    /// Whether the player only watches.
    pub fn is_spectator(&self) -> (spectator: bool)
        ensures
            spectator == (self is Spectator),
    {
        match self {
            Player::Spectator { .. } => true,
            _ => false,
        }
    }

    /// Whether the player is ready: a local player always is, another one when its
    /// endpoint is running.
    pub fn is_synchronized(&self) -> (synchronized: bool)
        ensures
            synchronized == (self is Local || self.running()),
    {
        match self.peer() {
            Some(peer) => peer.is_running(),
            None => true,
        }
    }

    /// The sending of `input` to the player at `queue`, unless the player is local.
    pub fn send_input<I: Copy>(&self, queue: usize, input: FrameInput<I>) -> (action: Option<
        Action<I>,
    >)
        ensures
            action == if self.has_peer() {
                Some(Action::SendInput { queue, frame_input: input })
            } else {
                None
            },
    {
        match self.peer() {
            Some(_) => Some(Action::SendInput { queue, frame_input: input }),
            None => None,
        }
    }

    /// Asks the endpoint of the player at `queue` to disconnect, unless the player
    /// is local.
    pub fn disconnect<I>(&self, queue: usize, actions: &mut Vec<Action<I>>)
        ensures
            final(actions)@ == old(actions)@ + self.disconnect_actions::<I>(queue),
    {
        match self.peer() {
            Some(_) => {
                actions.push(Action::DisconnectPeer { queue });
            },
            None => {},
        }
    }

    /// The statistics of the player's connection, unless the player is local.
    pub fn get_network_stats(&self) -> (stats: Option<NetworkStats>)
        ensures
            stats == self.stats_view(),
    {
        match self.peer() {
            Some(peer) => Some(peer.get_network_stats()),
            None => None,
        }
    }
}

} // verus!
