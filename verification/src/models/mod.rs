//! Data carried by the connection manager and its collaborators.

pub mod connection;
pub mod hardware;
pub mod session;
pub mod settings;
