//! Relay nodes: the built-in ones, and those that a node service lists.
pub mod nodes;
pub mod provider;
