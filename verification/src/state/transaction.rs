use vstd::prelude::*;
use crate::pubkey::Pubkey;

verus! {

/// One account of a cross-program call that a transaction carries.
#[derive(Clone, Copy, Debug)]
pub struct SerializedAccountMeta {
    pub pubkey: Pubkey,
    pub is_signer: bool,
    pub is_writable: bool,
}

impl SerializedAccountMeta {
    /// Bytes one entry takes.
    pub const SIZE: usize = 32 + 1 + 1;
}

/// A proposed transaction of a wallet: either a transfer of `value` lamports
/// to `to` (no `program_id`), or a call of `program_id` with `data` over
/// `account_metas`.
#[derive(Clone, Debug)]
pub struct MajTransaction {
    pub maj_instance: Pubkey,
    pub tx_index: u64,
    pub to: Pubkey,
    pub value: u64,
    pub proposed_by: Pubkey,
    pub active: bool,
    pub executed: bool,
    pub num_signatures: u32,
    pub program_id: Option<Pubkey>,
    pub data: Vec<u8>,
    pub account_metas: Vec<SerializedAccountMeta>,
    pub bump: u8,
}

/// The content of a transaction account.
pub struct MajTransactionView {
    pub maj_instance: Pubkey,
    pub tx_index: u64,
    pub to: Pubkey,
    pub value: u64,
    pub proposed_by: Pubkey,
    pub active: bool,
    pub executed: bool,
    pub num_signatures: u32,
    pub program_id: Option<Pubkey>,
    pub data: Seq<u8>,
    pub account_metas: Seq<SerializedAccountMeta>,
    pub bump: u8,
}

impl View for MajTransaction {
    type V = MajTransactionView;

    open spec fn view(&self) -> MajTransactionView {
        MajTransactionView {
            maj_instance: self.maj_instance,
            tx_index: self.tx_index,
            to: self.to,
            value: self.value,
            proposed_by: self.proposed_by,
            active: self.active,
            executed: self.executed,
            num_signatures: self.num_signatures,
            program_id: self.program_id,
            data: self.data@,
            account_metas: self.account_metas@,
            bump: self.bump,
        }
    }
}

/// Bytes a transaction account is given for its payload: 170 for a
/// transaction without call data or call accounts, plus one byte per byte of
/// call data and 34 per call account.
pub open spec fn transaction_space(data_len: nat, meta_count: nat) -> nat {
    170 + data_len + meta_count * 34
}

/// The length of a stored transaction: its 8-byte tag, then each field in the
/// order of the record (a missing program id takes one byte, a present one
/// 33; each list carries a 4-byte length).
pub open spec fn serialized_len(tx: MajTransactionView) -> nat {
    8 + 32 + 8 + 32 + 8 + 32 + 1 + 1 + 4 + (if tx.program_id is Some { 33nat } else { 1nat }) + 4
        + tx.data.len() + 4 + tx.account_metas.len() * 34 + 1
}

impl MajTransaction {
    /// Bytes of a transaction account with no payload.
    pub const INITIAL_SPACE: usize = 170;

    /// Bytes a transaction account needs for `data_len` bytes of call data and
    /// `meta_count` call accounts.
    pub fn space_for(data_len: usize, meta_count: usize) -> (s: usize)
        requires
            transaction_space(data_len as nat, meta_count as nat) <= usize::MAX,
        ensures
            s == transaction_space(data_len as nat, meta_count as nat),
    {
        MajTransaction::INITIAL_SPACE + data_len + (meta_count * SerializedAccountMeta::SIZE)
    }
}

/// Its existence means that an admin approved a transaction.
#[derive(Clone, Copy, Debug)]
pub struct SignatureRecord {
    pub bump: u8,
}

impl SignatureRecord {
    pub const SPACE: usize = 8 + 1;
}

} // verus!
