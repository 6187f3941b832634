//! The virtual network: how an instance of it is set up, started and changed.
pub mod addresses;
pub mod manager;
pub mod port_forward;
pub mod settings;
