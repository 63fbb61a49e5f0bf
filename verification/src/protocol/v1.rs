//! Version 1 of the protocol: requests that read or write a group address,
//! and the responses to them.

pub mod protocol;
pub mod read_request_body;
pub mod response_body;
pub mod write_request_body;
