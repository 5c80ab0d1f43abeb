//! The wire shapes of the REST APIs: plain data, with ids as their 128-bit
//! values.

pub mod catalog;
pub mod common;
pub mod control;
pub mod delta;
