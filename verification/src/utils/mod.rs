//! Helpers shared by the services.

pub mod crypto;
pub mod error;
