use vstd::prelude::*;

pub mod cache;
pub mod client;
pub mod codec;
pub mod config;
pub mod engine;
pub mod errors;
pub mod hexdata;
pub mod hextext;
pub mod namehash;

verus! {

/// A 20-byte Ethereum account identifier.
#[derive(Debug, Clone, PartialEq, Eq)]
pub struct Address {
    pub bytes: Vec<u8>,
}

impl Address {
    /// An address is well formed when it holds exactly 20 bytes.
    pub open spec fn wf(&self) -> bool {
        self.bytes@.len() == 20
    }

    /// Builds an address from its 20 raw bytes.
    pub fn from_bytes(bytes: Vec<u8>) -> (r: Address)
        requires
            bytes@.len() == 20,
        ensures
            r.wf(),
            r.bytes@ == bytes@,
    {
        Address { bytes }
    }

    /// A fresh address holding the same 20 bytes.
    pub fn duplicate(&self) -> (r: Address)
        ensures
            r.bytes@ == self.bytes@,
    {
        let mut copy: Vec<u8> = Vec::new();
        let mut i: usize = 0;
        while i < self.bytes.len()
            invariant
                i <= self.bytes@.len(),
                copy@ == self.bytes@.subrange(0, i as int),
            decreases self.bytes@.len() - i,
        {
            copy.push(self.bytes[i]);
            proof {
                assert(copy@ =~= self.bytes@.subrange(0, i + 1));
            }
            i = i + 1;
        }
        proof {
            assert(self.bytes@.subrange(0, self.bytes@.len() as int) =~= self.bytes@);
        }
        Address { bytes: copy }
    }
}

} // verus!
