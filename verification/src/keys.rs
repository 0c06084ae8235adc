use vstd::prelude::*;

verus! {

/// A 256-bit public key, the identity that every authorization check compares
/// against. Stored as four 64-bit words in little-endian order: `w0` holds
/// bytes 0..8 of the key, `w3` holds bytes 24..32.
#[derive(Clone, Copy, PartialEq, Eq, Structural, Debug, Hash)]
pub struct PublicKey {
    pub w0: u64,
    pub w1: u64,
    pub w2: u64,
    pub w3: u64,
}

} // verus!
