use vstd::prelude::*;

verus! {

broadcast use vstd::array::group_array_axioms;

/// A 32-byte account address.
#[derive(Clone, Copy, Debug, PartialEq, Eq, Hash)]
pub struct Pubkey {
    pub bytes: [u8; 32],
}

impl Pubkey {
    /// Whether every byte of the address is zero (the default address, which
    /// the multisig refuses as an admin).
    pub open spec fn spec_is_default(self) -> bool {
        forall|i: int| 0 <= i < 32 ==> self.bytes@[i] == 0
    }

    /// Builds an address from its 32 bytes.
    pub fn new_from_array(bytes: [u8; 32]) -> (k: Pubkey)
        ensures
            k.bytes == bytes,
    {
        Pubkey { bytes }
    }

    /// The all-zero address.
    pub fn default_key() -> (k: Pubkey)
        ensures
            k.spec_is_default(),
    {
        let k = Pubkey { bytes: [0u8; 32] };
        assert(k.bytes@ =~= Seq::new(32, |i: int| 0u8));
        k
    }

    /// Whether two addresses are the same.
    pub fn key_eq(&self, other: &Pubkey) -> (b: bool)
        ensures
            b == (*self == *other),
    {
        let mut i: usize = 0;
        while i < 32
            invariant
                i <= 32,
                forall|j: int| 0 <= j < i ==> self.bytes@[j] == other.bytes@[j],
            decreases 32 - i,
        {
            if self.bytes[i] != other.bytes[i] {
                return false;
            }
            i = i + 1;
        }
        assert(self.bytes =~= other.bytes);
        true
    }

    /// Whether this is the all-zero address.
    pub fn is_default(&self) -> (b: bool)
        ensures
            b == self.spec_is_default(),
    {
        let mut i: usize = 0;
        while i < 32
            invariant
                i <= 32,
                forall|j: int| 0 <= j < i ==> self.bytes@[j] == 0,
            decreases 32 - i,
        {
            if self.bytes[i] != 0 {
                return false;
            }
            i = i + 1;
        }
        true
    }

    /// The address as a seed: its 32 bytes.
    pub fn to_seed(&self) -> (v: Vec<u8>)
        ensures
            v@ == self.bytes@,
    {
        let mut v: Vec<u8> = Vec::new();
        let mut i: usize = 0;
        while i < 32
            invariant
                i <= 32,
                v@ =~= self.bytes@.take(i as int),
            decreases 32 - i,
        {
            v.push(self.bytes[i]);
            i = i + 1;
        }
        v
    }
}

} // verus!
