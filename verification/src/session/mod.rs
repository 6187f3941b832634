//! The protocol session: frames, negotiation, discovery of the center and heartbeats.
pub mod center_discovery;
pub mod heartbeat;
pub mod protocol_negotiator;
pub mod protocol_serializer;
