//! Codec and framing layer of a client for a KNX link server: group
//! addresses, datapoint type identifiers, request and response frames, and
//! the decisions of the response loop.

pub mod address;
pub mod client;
pub mod datapoint;
pub mod protocol;
pub mod text;
