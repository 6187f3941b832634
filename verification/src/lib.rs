//! Verified core of the Scaffolding multiplayer connector: room codes, the framed
//! request/response protocol, the host's and the guest's decision logic.
pub mod center;
pub mod client;
pub mod easytier;
pub mod error;
pub mod guest;
pub mod json;
pub mod models;
pub mod protocols;
pub mod relay;
pub mod session;
pub mod text;
pub mod util;
