//! Session management and command-completion detection for interactive
//! remote shells.

pub mod clock;
pub mod ident;
pub mod models;
pub mod number;
pub mod services;
pub mod space;
pub mod split;
pub mod text;
pub mod utils;
