//! Why a transform can be refused.

use vstd::prelude::*;

verus! {

/// The reasons for which a transform is refused before any byte is written.
#[derive(Debug, Clone, Copy, PartialEq, Eq, Structural)]
pub enum CipherError {
    /// The key holds no byte, so there is nothing to repeat over the message.
    EmptyKey,
}

} // verus!
