//! A deterministic, discrete-time simulation engine for a closed society of
//! agents that gossip signed statements and enacted actions under a shared
//! consortium.
//!
//! Identifiers are plain integers and payloads are plain bytes: the engine
//! stores and forwards them and never looks inside.

pub mod ledger;
pub mod store;
pub mod gossip;
pub mod world;
pub mod society;
pub mod laws;
pub mod system;
pub mod behaviors;
