//! Coordination of FROST threshold Schnorr signing sessions: a distributed key
//! generation state machine and a trusted-dealer signing coordinator.
pub mod primitives;
pub mod package_map;
pub mod distributed_dealer;
pub mod trusted_dealer;
