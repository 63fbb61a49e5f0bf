//! The decisions of the client between its connection and the user.

pub mod client;
