//! Pass-through hashing for pre-hashed keys: identifiers are already
//! well-distributed 64-bit values, so the hasher keeps the value as it is
//! instead of hashing again.

use vstd::prelude::*;

verus! {

/// Holds the one identifier written into it.
pub struct IdHasher {
    pub value: u64,
}

impl Default for IdHasher {
    fn default() -> (r: IdHasher)
        ensures
            r.value == 0,
    {
        IdHasher { value: 0 }
    }
}

impl IdHasher {
    /// The sole accepted input: one already well-distributed 64-bit key.
    pub fn write_u64(&mut self, n: u64)
        ensures
            final(self).value == n,
    {
        self.value = n;
    }

    /// Pass-through: the key written in comes out unchanged.
    pub fn finish(&self) -> (r: u64)
        ensures
            r == self.value,
    {
        self.value
    }
}

/// Builds fresh pass-through hashers.
#[derive(Clone, Copy, Debug)]
pub struct BuildIdHasher {}

impl BuildIdHasher {
    pub fn build_hasher(&self) -> (r: IdHasher)
        ensures
            r.value == 0,
    {
        IdHasher { value: 0 }
    }
}

} // verus!
