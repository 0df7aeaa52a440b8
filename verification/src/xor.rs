//! The transform itself, on caller-owned buffers.

use vstd::prelude::*;
use crate::error::CipherError;
use crate::keystream::{key_byte, transformed, xor_stream};

verus! {

/// Combines `msg` with the repeated `key` and writes the result to the front
/// of `buf`.
///
/// An empty key is refused with [`CipherError::EmptyKey`] before anything is
/// written. Otherwise position `i` of `buf` receives
/// `msg[i] ^ key[i % key.len()]` for every position of the message, and the
/// rest of `buf` keeps what it held. The buffer is never resized.
pub fn cipher(msg: &[u8], key: &[u8], buf: &mut [u8]) -> (res: Result<(), CipherError>)
    requires
        msg@.len() <= old(buf)@.len(),
    ensures
        res is Ok <==> key@.len() > 0,
        res is Err ==> res == Err::<(), CipherError>(CipherError::EmptyKey),
        res is Err ==> final(buf)@ == old(buf)@,
        res is Ok ==> final(buf)@ == xor_stream(msg@, key@) + old(buf)@.skip(msg@.len() as int),
        final(buf)@.len() == old(buf)@.len(),
        msg@.len() == 0 ==> final(buf)@ == old(buf)@,
        res is Ok ==> forall|i: int|
            0 <= i < msg@.len() ==> #[trigger] final(buf)@[i] == msg@[i] ^ key@[i % key@.len() as int],
        forall|i: int|
            msg@.len() <= i < old(buf)@.len() ==> #[trigger] final(buf)@[i] == old(buf)@[i],
{
    let key_len: usize = key.len();
    if key_len == 0 {
        return Err(CipherError::EmptyKey);
    }
    let msg_len: usize = msg.len();
    for i in 0..msg_len
        invariant
            key_len == key@.len(),
            key_len > 0,
            msg_len == msg@.len(),
            msg_len <= buf@.len(),
            buf@.len() == old(buf)@.len(),
            forall|j: int| 0 <= j < i ==> #[trigger] buf@[j] == msg@[j] ^ key_byte(key@, j),
            forall|j: int| i <= j < buf@.len() ==> #[trigger] buf@[j] == old(buf)@[j],
    {
        buf[i] = msg[i] ^ key[i % key_len];
    }
    assert(buf@ =~= xor_stream(msg@, key@) + old(buf)@.skip(msg@.len() as int));
    Ok(())
}

/// Combines the bytes of `buf` with the repeated `key` where they stand.
///
/// An empty key is refused with [`CipherError::EmptyKey`] and `buf` is left
/// as it was. Otherwise every position `i` of `buf` ends up holding
/// `buf[i] ^ key[i % key.len()]`, taken over what `buf` held before the call.
pub fn cipher_in_place(buf: &mut [u8], key: &[u8]) -> (res: Result<(), CipherError>)
    ensures
        res is Ok <==> key@.len() > 0,
        res is Err ==> res == Err::<(), CipherError>(CipherError::EmptyKey),
        res is Err ==> final(buf)@ == old(buf)@,
        res is Ok ==> final(buf)@ == xor_stream(old(buf)@, key@),
        final(buf)@.len() == old(buf)@.len(),
        res is Ok ==> forall|i: int|
            0 <= i < old(buf)@.len() ==> #[trigger] final(buf)@[i] == old(buf)@[i] ^ key@[i
                % key@.len() as int],
{
    let key_len: usize = key.len();
    if key_len == 0 {
        return Err(CipherError::EmptyKey);
    }
    let len: usize = buf.len();
    for i in 0..len
        invariant
            key_len == key@.len(),
            key_len > 0,
            len == buf@.len(),
            buf@.len() == old(buf)@.len(),
            forall|j: int| 0 <= j < i ==> #[trigger] buf@[j] == old(buf)@[j] ^ key_byte(key@, j),
            forall|j: int| i <= j < buf@.len() ==> #[trigger] buf@[j] == old(buf)@[j],
    {
        buf[i] = buf[i] ^ key[i % key_len];
    }
    assert(buf@ =~= xor_stream(old(buf)@, key@));
    Ok(())
}

/// Combines `message` with the repeated `key` into a new vector of the
/// message's length.
///
/// An empty key is refused with [`CipherError::EmptyKey`], whatever the
/// message; with any other key the call succeeds, on an empty message too.
pub fn transform(message: &[u8], key: &[u8]) -> (res: Result<Vec<u8>, CipherError>)
    ensures
        match res {
            Ok(out) => transformed(message@, key@) == Ok::<Seq<u8>, CipherError>(out@),
            Err(e) => transformed(message@, key@) == Err::<Seq<u8>, CipherError>(e),
        },
        res is Ok <==> key@.len() > 0,
        res is Err ==> res == Err::<Vec<u8>, CipherError>(CipherError::EmptyKey),
        res is Ok ==> res->Ok_0@.len() == message@.len(),
        res is Ok ==> forall|i: int|
            0 <= i < message@.len() ==> #[trigger] res->Ok_0@[i] == message@[i] ^ key@[i
                % key@.len() as int],
{
    if key.len() == 0 {
        return Err(CipherError::EmptyKey);
    }
    let mut out: Vec<u8> = vec![0u8; message.len()];
    match cipher(message, key, out.as_mut_slice()) {
        Ok(()) => {
            assert(out@ =~= xor_stream(message@, key@));
            Ok(out)
        },
        Err(e) => Err(e),
    }
}

} // verus!
