use vstd::prelude::*;

verus! {

/// The global counter of created wallets.
#[derive(Clone, Copy, Debug)]
pub struct MajRegistry {
    pub total_instances: u64,
    pub bump: u8,
}

impl MajRegistry {
    /// Bytes the registry account takes: discriminator, counter, bump.
    pub const SPACE: usize = 8 + 8 + 1;
}

} // verus!
