//! Per-module configuration: format strings, symbols and styles.

pub mod aws;
pub mod perl;
pub mod pony;
