use vstd::prelude::*;

pub mod cli;
pub mod config;
pub mod crypto;
pub mod encoding;
pub mod ipc;
pub mod net;
pub mod service;
pub mod text;
pub mod ui;
