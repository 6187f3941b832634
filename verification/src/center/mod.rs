//! The host's side of a room: the center that guests connect to.
pub mod client_conn;
pub mod roster;
pub mod scaffolding_center;
pub mod table;
pub mod tcp_server;
