//! Verified core of a terminal dashboard for open incidents.
//!
//! The library owns the application state machine: the incident list and its
//! cursor, the action reducer, the refresh ticker, and the normalization of
//! provider records into display rows. Everything that talks to the terminal
//! or the network lives outside and exchanges plain values with this crate.

pub mod actions;
pub mod app;
pub mod config;
pub mod pagerduty;
pub mod utils;
