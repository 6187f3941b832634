//! The guest's side of a room.
pub mod requests;
pub mod scaffolding_guest;
pub mod tcp_client;
