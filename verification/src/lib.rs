//! The decision core of a peer-to-peer rollback session.
//!
//! A session advances a simulation together with remote players. Everything a
//! session decides stands here: when a poll may run, which queues have to be
//! dropped and to which frame the simulation goes back for it, which frame every
//! connected player has confirmed, what is refused and why. The work itself (the
//! simulation, the sockets) is done by the surroundings: a session hands out
//! [`Action`](action::Action)s in order and is resumed once they are performed.

pub mod action;
pub mod frame;
pub mod history;
pub mod laws;
pub mod model;
pub mod p2p;
pub mod peer;
pub mod player;
pub mod rules;
pub mod runs;
pub mod status;
