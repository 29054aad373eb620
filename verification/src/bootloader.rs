//! The serial bootloader protocol: opcodes, byte stuffing, frames and the
//! sequence of steps that brings a board into bootloader mode.

pub mod attribute;
pub mod codes;
pub mod frame;
pub mod handshake;
