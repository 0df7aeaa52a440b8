//! Repeating-key XOR over byte buffers.
//!
//! A message is combined byte by byte with a key that is repeated as often as
//! the message needs. The transform is its own inverse: applying it twice with
//! the same key gives the message back. It obscures data and nothing more; it
//! is not a secure cipher.

pub mod error;
pub mod keystream;
pub mod laws;
pub mod xor;

pub use crate::error::CipherError;
pub use crate::xor::{cipher, cipher_in_place, transform};
