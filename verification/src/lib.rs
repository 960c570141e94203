//! A verified core for a small private-network inference cluster.
//!
//! One machine (the Leader) answers inference requests through a local
//! backend; the others (Subordinates) submit prompts and await answers.
//! This crate holds the protocol and state-machine logic of that system:
//! the length-prefixed frame codec, the peer registry fed by discovery
//! events, the correlator that matches outbound requests to waiting
//! callers, the two role state machines, and the decision core of the
//! event reactor.  Transport, discovery, HTTP plumbing and the backend
//! client live outside the library and talk to it in plain values.

pub mod wire;
pub mod protocol;
pub mod registry;
pub mod correlator;
pub mod roles;
pub mod reactor;
pub mod psk;
pub mod httpapi;
pub mod cli;
