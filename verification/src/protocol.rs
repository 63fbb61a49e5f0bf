//! The wire protocol: the enumerations shared by every version and the
//! frame header.

pub mod action;
pub mod header;
pub mod status;
pub mod v1;
