//! Group addresses: the canonical two bytes and the three notations.

pub mod group_address;
pub mod group_address_free_level;
pub mod group_address_three_level;
pub mod group_address_two_level;
