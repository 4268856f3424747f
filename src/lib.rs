//! Checksum search engine for console bootcode (IPL3) images.
//!
//! The library holds the bit-exact round function of the bootcode checksum,
//! the per-Y patch protocol that prepares the state handed to the GPU kernel,
//! the decisions of the search loop, and the big-endian ROM codec.

pub mod checksum;
pub mod search;
pub mod rom;
