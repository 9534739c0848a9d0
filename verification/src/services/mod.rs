//! The connection manager, the command executor and their collaborators.

pub mod auth;
pub mod command;
pub mod connection;
pub mod cpuinfo;
pub mod error;
pub mod hardware;
pub mod parser;
pub mod service;
pub mod size;
pub mod storage;
pub mod tab_manager;
