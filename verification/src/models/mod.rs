//! The data that the connector works on.
pub mod protocol;
pub mod room_code;
pub mod easy_tier_node;
pub mod network_config;
pub mod player;
