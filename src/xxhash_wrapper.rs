//! A pass-through hasher: the hash of a `u64` is the value itself. It lets
//! a filter that hashes its items receive hashes computed beforehand.
use vstd::prelude::*;

verus! {

/// Hash state that keeps the last 64-bit word written to it.
pub struct XXHashWrapper(u64);

impl XXHashWrapper {
    /// The word that `finish` returns.
    pub closed spec fn state(self) -> u64 {
        self.0
    }

    pub fn new() -> (r: XXHashWrapper)
        ensures
            r.state() == 0,
    {
        XXHashWrapper(0)
    }
}

impl std::hash::Hasher for XXHashWrapper {
    fn finish(&self) -> u64 {
        self.0
    }

    /// Only `write_u64` carries a hash: byte input leaves the state as it
    /// is.
    fn write(&mut self, _bytes: &[u8]) {
    }

    fn write_u64(&mut self, i: u64) {
        self.0 = i;
    }
}

impl std::hash::BuildHasher for XXHashWrapper {
    type Hasher = XXHashWrapper;

    fn build_hasher(&self) -> XXHashWrapper {
        XXHashWrapper(0)
    }
}

} // verus!
