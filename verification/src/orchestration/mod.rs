//! How a daemon comes up: its options and settings, the services it owns, what a session is
//! given, and the order in which a session is put together.

pub mod resources;
pub mod services;
pub mod session;
pub mod startup;
