//! Single-byte code pages mapped to and from Unicode through a compact,
//! fixed-size table: a direct forward map and a small hash-based reverse map.

pub mod builder;
pub mod code_page;
pub mod dos;
pub mod hash;
pub mod round_trip;
pub mod search;
pub mod tables;
