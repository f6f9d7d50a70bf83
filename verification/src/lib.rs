//! Setting up a Linux swap area.
//!
//! The library decides everything that does not need the machine: which
//! requests are refused, how large the area is, which bytes go where on the
//! device and what the user is told. Reading and writing the device is left to
//! the program around it, which performs one [`session::Action`] after the other
//! and hands back what came of it.

pub mod area;
pub mod device;
pub mod endian;
pub mod error;
pub mod header;
pub mod laws;
pub mod pagesize;
pub mod request;
pub mod scan;
pub mod session;
pub mod text;
pub mod uuids;
