//! Datapoint type identifiers and the patterns of their notations.

pub mod datapoint;
pub mod pattern;
