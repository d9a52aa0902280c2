//! The prompt modules: each one decides, from plain values its caller
//! gathered, what its slice of the prompt shows.

pub mod aws;
pub mod perl;
pub mod pony;
