//! The mathematical model of the transform, on sequences of bytes.

use vstd::prelude::*;
use crate::error::CipherError;

verus! {

/// The key byte that meets position `i` of a message: the key is laid end to
/// end along the message, so position `i` meets byte `i mod key.len()`.
pub open spec fn key_byte(key: Seq<u8>, i: int) -> u8
    recommends
        key.len() > 0,
        0 <= i,
{
    key[i % (key.len() as int)]
}

/// The message combined with the repeated key: as long as the message, and at
/// each position the exclusive-or of the message byte and the key byte there.
pub open spec fn xor_stream(message: Seq<u8>, key: Seq<u8>) -> Seq<u8>
    recommends
        key.len() > 0,
{
    Seq::new(message.len(), |i: int| message[i] ^ key_byte(key, i))
}

/// The outcome of a transform: an empty key is refused, whatever the
/// message; any other key gives the combined stream.
pub open spec fn transformed(message: Seq<u8>, key: Seq<u8>) -> Result<Seq<u8>, CipherError> {
    if key.len() == 0 {
        Err(CipherError::EmptyKey)
    } else {
        Ok(xor_stream(message, key))
    }
}

} // verus!
