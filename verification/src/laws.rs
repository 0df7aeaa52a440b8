//! What holds of the transform for every message and key.

use vstd::prelude::*;
use crate::error::CipherError;
use crate::keystream::{key_byte, transformed, xor_stream};

verus! {

/// Exclusive-or with a byte undoes itself.
proof fn lemma_xor_undoes_itself(m: u8, k: u8)
    ensures
        (m ^ k) ^ k == m,
{
    assert((m ^ k) ^ k == m) by (bit_vector);
}

/// Exclusive-or with zero changes nothing.
proof fn lemma_xor_with_zero(m: u8)
    ensures
        m ^ 0u8 == m,
{
    assert(m ^ 0u8 == m) by (bit_vector);
}

/// The transform is its own inverse: with a key that is not empty,
/// transforming a message and then transforming the result with the same key
/// gives the message back.
pub proof fn lemma_round_trip(message: Seq<u8>, key: Seq<u8>)
    requires
        key.len() > 0,
    ensures
        xor_stream(xor_stream(message, key), key) == message,
        transformed(message, key) is Ok,
        transformed(transformed(message, key)->Ok_0, key) == Ok::<Seq<u8>, CipherError>(message),
{
    let once = xor_stream(message, key);
    let twice = xor_stream(once, key);
    assert forall|i: int| 0 <= i < message.len() implies twice[i] == message[i] by {
        lemma_xor_undoes_itself(message[i], key_byte(key, i));
    }
    assert(twice =~= message);
}

/// With a key that is not empty the transform succeeds, and its output is
/// exactly as long as the message.
pub proof fn lemma_length_preserved(message: Seq<u8>, key: Seq<u8>)
    requires
        key.len() > 0,
    ensures
        transformed(message, key) is Ok,
        transformed(message, key)->Ok_0.len() == message.len(),
        xor_stream(message, key).len() == message.len(),
{
}

/// Every output byte is the message byte at its position combined with the
/// key byte at that position modulo the key's length.
pub proof fn lemma_output_byte(message: Seq<u8>, key: Seq<u8>, i: int)
    requires
        key.len() > 0,
        0 <= i < message.len(),
    ensures
        transformed(message, key) is Ok,
        transformed(message, key)->Ok_0[i] == message[i] ^ key[i % (key.len() as int)],
        xor_stream(message, key)[i] == message[i] ^ key[i % (key.len() as int)],
{
}

/// The key repeats with its own length: a whole number of key lengths
/// further along the message, the same key byte is met again.
pub proof fn lemma_key_repeats(key: Seq<u8>, i: int, rounds: int)
    requires
        key.len() > 0,
        0 <= i,
        0 <= rounds,
    ensures
        key_byte(key, i + rounds * (key.len() as int)) == key_byte(key, i),
{
    let n = key.len() as int;
    assert((i + rounds * n) % n == i % n) by (nonlinear_arith)
        requires
            n > 0,
    ;
}

/// A key that is not empty and holds only zero bytes leaves every message
/// as it is.
pub proof fn lemma_zero_key_is_identity(message: Seq<u8>, key: Seq<u8>)
    requires
        key.len() > 0,
        forall|j: int| 0 <= j < key.len() ==> key[j] == 0u8,
    ensures
        xor_stream(message, key) == message,
        transformed(message, key) == Ok::<Seq<u8>, CipherError>(message),
{
    let out = xor_stream(message, key);
    assert forall|i: int| 0 <= i < message.len() implies out[i] == message[i] by {
        assert(0 <= i % (key.len() as int) < key.len());
        assert(key_byte(key, i) == 0u8);
        lemma_xor_with_zero(message[i]);
    }
    assert(out =~= message);
}

/// The empty message transforms to the empty message under every key that
/// is not empty.
pub proof fn lemma_empty_message(key: Seq<u8>)
    requires
        key.len() > 0,
    ensures
        xor_stream(Seq::<u8>::empty(), key) == Seq::<u8>::empty(),
        transformed(Seq::<u8>::empty(), key) == Ok::<Seq<u8>, CipherError>(Seq::<u8>::empty()),
{
    assert(xor_stream(Seq::<u8>::empty(), key) =~= Seq::<u8>::empty());
}

/// The empty key is refused for every message, the empty one included.
pub proof fn lemma_empty_key_rejected(message: Seq<u8>)
    ensures
        transformed(message, Seq::<u8>::empty()) == Err::<Seq<u8>, CipherError>(
            CipherError::EmptyKey,
        ),
{
}

} // verus!
