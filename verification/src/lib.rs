//! Library for managing Wake-on-LAN packets.
//!
//! A magic packet is a 102-byte UDP payload: a six-byte synchronization
//! header of `0xFF` followed by the target's six-byte MAC address repeated
//! sixteen times. This crate parses MAC addresses from text or raw bytes
//! and builds the payload; transmission is left to the caller, who sends
//! the payload as a single broadcast datagram.

use vstd::prelude::*;

pub mod codec;
pub mod packet;

pub use packet::WolPacket;

verus! {

/// The number of bytes in a MAC address.
pub const MAC_SIZE: usize = 6;

/// How many times the MAC address is repeated after the packet header.
pub const MAC_PER_MAGIC: usize = 16;

/// Declares `std::io::Error` so that [`Error`] can carry the failure
/// reported by a socket operation.
#[verifier::external_type_specification]
#[verifier::external_body]
pub struct ExIoError(std::io::Error);

/// Everything that can go wrong while building or sending a packet.
#[derive(Debug)]
pub enum Error {
    /// The textual MAC address held a character that is not a hexadecimal
    /// digit; carries the offending character and its position among the
    /// characters left after the separator was stripped.
    Hex { c: char, index: usize },
    /// A socket operation failed; carries the underlying error.
    IO(std::io::Error),
    /// The characters left after stripping the separator do not decode to
    /// exactly six bytes.
    InvalidHexStringLength,
    /// A raw byte slice did not hold exactly six bytes.
    InvalidHexArrayLength,
}

} // verus!
