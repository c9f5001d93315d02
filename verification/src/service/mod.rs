//! The decisions of the privileged service: which requests it accepts and
//! what it answers.
pub mod admission;
pub mod control;
pub mod dll;
pub mod endpoint;
pub mod path;
pub mod rate_limit;
pub mod registry;
pub mod requests;
pub mod slot;
