//! Local-network host discovery: which endpoints a scan round dials, how many
//! connect attempts may be in flight at once, and when the scan stops.
//!
//! The crate holds the decisions only. Sockets, timers and the command line
//! belong to the program that drives it.

pub mod address;
pub mod subnet;
pub mod interface;
pub mod exclusion;
pub mod candidate;
pub mod attempt;
pub mod dispatcher;
pub mod controller;
pub mod scanner;
pub mod command;
