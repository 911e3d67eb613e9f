//! Verified core of a pCloud transfer client: the data model of transfers,
//! their resumable state, size formatting, path planning, the decisions that
//! drive uploads, downloads and folder synchronisation, and the state
//! machine of the graphical file browser.

pub mod arith;
pub mod browser;
pub mod client;
pub mod config;
pub mod error;
pub mod listing;
pub mod options;
pub mod outside;
pub mod paths;
pub mod sizes;
pub mod sync;
pub mod text;
pub mod transfer;
pub mod tree;
pub mod transfer_state;
pub mod types;
