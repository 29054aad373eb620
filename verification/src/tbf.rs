//! The Tock Binary Format: the header that describes an application in
//! flash, and the credentials footers that may follow its binary.

pub mod little_endian;
pub mod parse;
pub mod scan;
pub mod types;
