//! How an instruction finds the accounts it is given: a record of the expected
//! kind at an address, an address free for a record to be created, and the
//! match of an address with the seeds it is derived from.
use vstd::prelude::*;
use crate::errors::{InstructionError, MajError};
use crate::pda::{create_program_address, created_address, program_address, seeds_view, try_find_program_address};
use crate::program::{AccountData, AccountDataView, AccountView, MajProgram, ProgramView};
use crate::pubkey::Pubkey;
use crate::state::instance::{AdminRecord, BlacklistRecord, MajInstance, MajInstanceView};
use crate::state::transaction::{MajTransaction, MajTransactionView, SignatureRecord};

verus! {

/// The address and bump derived from `seeds`, or `Aborted` where none exists
/// (the program panics there).  The bump found, appended to the seeds,
/// creates the address found; the search returns no other.
pub open spec fn derived(p: ProgramView, seeds: Seq<Seq<u8>>) -> Result<(Pubkey, u8), InstructionError> {
    match program_address(seeds, p.program_id) {
        Some((k, b)) => if created_address(seeds.push(seq![b]), p.program_id) == Some(k) {
            Ok((k, b))
        } else {
            Err(InstructionError::Aborted)
        },
        None => Err(InstructionError::Aborted),
    }
}

/// Derives the address and bump of `seeds` under the program's id.
pub(crate) fn derive_address(program: &MajProgram, seeds: &Vec<Vec<u8>>) -> (r: Result<(Pubkey, u8), InstructionError>)
    ensures
        r == derived(program@, seeds_view(seeds@)),
{
    match try_find_program_address(seeds, &program.program_id()) {
        Some(r) => Ok(r),
        None => Err(InstructionError::Aborted),
    }
}

/// The wallet at `key`: `AccountNotInitialized` if no account is there,
/// `AccountDiscriminatorMismatch` if it holds another record.
pub open spec fn instance_at(accounts: Map<Pubkey, AccountView>, key: Pubkey) -> Result<MajInstanceView, InstructionError> {
    if !accounts.contains_key(key) {
        Err(InstructionError::AccountNotInitialized)
    } else {
        match accounts[key].data {
            AccountDataView::Instance(v) => Ok(v),
            _ => Err(InstructionError::AccountDiscriminatorMismatch),
        }
    }
}

/// The registry at `key`, refused as `instance_at` refuses.
pub open spec fn registry_at(accounts: Map<Pubkey, AccountView>, key: Pubkey) -> Result<crate::state::registry::MajRegistry, InstructionError> {
    if !accounts.contains_key(key) {
        Err(InstructionError::AccountNotInitialized)
    } else {
        match accounts[key].data {
            AccountDataView::Registry(v) => Ok(v),
            _ => Err(InstructionError::AccountDiscriminatorMismatch),
        }
    }
}

/// Finds the registry at `key`.
pub(crate) fn load_registry(program: &MajProgram, key: &Pubkey) -> (r: Result<(usize, crate::state::registry::MajRegistry), InstructionError>)
    requires
        program.wf(),
    ensures
        match r {
            Ok((i, reg)) => i < program.accounts@.len() && program.accounts@[i as int].key == *key
                && registry_at(program@.accounts, *key) == Ok::<crate::state::registry::MajRegistry, InstructionError>(reg),
            Err(e) => registry_at(program@.accounts, *key) == Err::<crate::state::registry::MajRegistry, InstructionError>(e),
        },
{
    match program.find(key) {
        None => Err(InstructionError::AccountNotInitialized),
        Some(i) => match &program.at(i).data {
            AccountData::Registry(reg) => Ok((i, *reg)),
            _ => Err(InstructionError::AccountDiscriminatorMismatch),
        },
    }
}

/// The transaction at `key`, refused as `instance_at` refuses.
pub open spec fn transaction_at(accounts: Map<Pubkey, AccountView>, key: Pubkey) -> Result<MajTransactionView, InstructionError> {
    if !accounts.contains_key(key) {
        Err(InstructionError::AccountNotInitialized)
    } else {
        match accounts[key].data {
            AccountDataView::Transaction(v) => Ok(v),
            _ => Err(InstructionError::AccountDiscriminatorMismatch),
        }
    }
}

/// The admin record at `key`, refused as `instance_at` refuses.
pub open spec fn admin_record_at(accounts: Map<Pubkey, AccountView>, key: Pubkey) -> Result<AdminRecord, InstructionError> {
    if !accounts.contains_key(key) {
        Err(InstructionError::AccountNotInitialized)
    } else {
        match accounts[key].data {
            AccountDataView::Admin(v) => Ok(v),
            _ => Err(InstructionError::AccountDiscriminatorMismatch),
        }
    }
}

/// The signature record at `key`, refused as `instance_at` refuses.
pub open spec fn signature_at(accounts: Map<Pubkey, AccountView>, key: Pubkey) -> Result<SignatureRecord, InstructionError> {
    if !accounts.contains_key(key) {
        Err(InstructionError::AccountNotInitialized)
    } else {
        match accounts[key].data {
            AccountDataView::Signature(v) => Ok(v),
            _ => Err(InstructionError::AccountDiscriminatorMismatch),
        }
    }
}

/// The blacklist record at `key`, refused as `instance_at` refuses.
pub open spec fn blacklist_at(accounts: Map<Pubkey, AccountView>, key: Pubkey) -> Result<BlacklistRecord, InstructionError> {
    if !accounts.contains_key(key) {
        Err(InstructionError::AccountNotInitialized)
    } else {
        match accounts[key].data {
            AccountDataView::Blacklist(v) => Ok(v),
            _ => Err(InstructionError::AccountDiscriminatorMismatch),
        }
    }
}

/// A lookup whose missing account is reported as the multisig's error `e`.
pub open spec fn missing_as<T>(r: Result<T, InstructionError>, e: MajError) -> Result<T, InstructionError> {
    match r {
        Err(InstructionError::AccountNotInitialized) => Err(InstructionError::Maj(e)),
        _ => r,
    }
}

/// A creation whose address is taken is reported as the multisig's error `e`.
pub open spec fn taken_as(r: Result<(), InstructionError>, e: MajError) -> Result<(), InstructionError> {
    match r {
        Err(InstructionError::AccountAlreadyInUse) => Err(InstructionError::Maj(e)),
        _ => r,
    }
}

/// Reports a missing account as the multisig's error `e`.
pub(crate) fn or_missing<T>(r: Result<T, InstructionError>, e: MajError) -> (s: Result<T, InstructionError>)
    ensures
        s == missing_as(r, e),
{
    match r {
        Err(InstructionError::AccountNotInitialized) => Err(InstructionError::Maj(e)),
        other => other,
    }
}

/// Reports a taken address as the multisig's error `e`.
pub(crate) fn or_taken(r: Result<(), InstructionError>, e: MajError) -> (s: Result<(), InstructionError>)
    ensures
        s == taken_as(r, e),
{
    match r {
        Err(InstructionError::AccountAlreadyInUse) => Err(InstructionError::Maj(e)),
        other => other,
    }
}

/// Whether a record can be created at `key`: `AccountAlreadyInUse` if an
/// account is there.
pub open spec fn free_at(accounts: Map<Pubkey, AccountView>, key: Pubkey) -> Result<(), InstructionError> {
    if accounts.contains_key(key) {
        Err(InstructionError::AccountAlreadyInUse)
    } else {
        Ok(())
    }
}

/// Whether `key` is the address created from `seeds` with the stored bump
/// `bump` appended (`ConstraintSeeds` if not, or if those seeds give no
/// address).
pub open spec fn seeds_match(p: ProgramView, seeds: Seq<Seq<u8>>, key: Pubkey, bump: u8) -> Result<(), InstructionError> {
    match created_address(seeds.push(seq![bump]), p.program_id) {
        Some(k) => if k == key {
            Ok(())
        } else {
            Err(InstructionError::ConstraintSeeds)
        },
        None => Err(InstructionError::ConstraintSeeds),
    }
}

/// Checks that `key` is the address created from `seeds` with `bump`.
pub(crate) fn check_seeds(program: &MajProgram, seeds: &Vec<Vec<u8>>, key: &Pubkey, bump: u8) -> (r: Result<(), InstructionError>)
    ensures
        r == seeds_match(program@, seeds_view(seeds@), *key, bump),
{
    match create_program_address(seeds, bump, &program.program_id()) {
        Some(k) => if k.key_eq(key) {
            Ok(())
        } else {
            Err(InstructionError::ConstraintSeeds)
        },
        None => Err(InstructionError::ConstraintSeeds),
    }
}

/// Checks that no account is at `key`.
pub(crate) fn check_free(program: &MajProgram, key: &Pubkey) -> (r: Result<(), InstructionError>)
    requires
        program.wf(),
    ensures
        r == free_at(program@.accounts, *key),
{
    match program.find(key) {
        Some(_) => Err(InstructionError::AccountAlreadyInUse),
        None => Ok(()),
    }
}

/// Finds the wallet at `key`.
pub(crate) fn load_instance(program: &MajProgram, key: &Pubkey) -> (r: Result<usize, InstructionError>)
    requires
        program.wf(),
    ensures
        match r {
            Ok(i) => i < program.accounts@.len() && program.accounts@[i as int].key == *key
                && program.accounts@[i as int].data is Instance
                && instance_at(program@.accounts, *key) == Ok::<MajInstanceView, InstructionError>(
                    program.accounts@[i as int].data->Instance_0@),
            Err(e) => instance_at(program@.accounts, *key) == Err::<MajInstanceView, InstructionError>(e),
        },
{
    match program.find(key) {
        None => Err(InstructionError::AccountNotInitialized),
        Some(i) => match &program.at(i).data {
            AccountData::Instance(_) => Ok(i),
            _ => Err(InstructionError::AccountDiscriminatorMismatch),
        },
    }
}

/// Finds the transaction at `key`.
pub(crate) fn load_transaction(program: &MajProgram, key: &Pubkey) -> (r: Result<usize, InstructionError>)
    requires
        program.wf(),
    ensures
        match r {
            Ok(i) => i < program.accounts@.len() && program.accounts@[i as int].key == *key
                && program.accounts@[i as int].data is Transaction
                && transaction_at(program@.accounts, *key) == Ok::<MajTransactionView, InstructionError>(
                    program.accounts@[i as int].data->Transaction_0@),
            Err(e) => transaction_at(program@.accounts, *key) == Err::<MajTransactionView, InstructionError>(e),
        },
{
    match program.find(key) {
        None => Err(InstructionError::AccountNotInitialized),
        Some(i) => match &program.at(i).data {
            AccountData::Transaction(_) => Ok(i),
            _ => Err(InstructionError::AccountDiscriminatorMismatch),
        },
    }
}

/// Reads the admin record at `key`.
pub(crate) fn load_admin_record(program: &MajProgram, key: &Pubkey) -> (r: Result<AdminRecord, InstructionError>)
    requires
        program.wf(),
    ensures
        r == admin_record_at(program@.accounts, *key),
{
    match program.find(key) {
        None => Err(InstructionError::AccountNotInitialized),
        Some(i) => match &program.at(i).data {
            AccountData::Admin(rec) => Ok(*rec),
            _ => Err(InstructionError::AccountDiscriminatorMismatch),
        },
    }
}

/// Finds the signature record at `key`.
pub(crate) fn load_signature(program: &MajProgram, key: &Pubkey) -> (r: Result<(usize, SignatureRecord), InstructionError>)
    requires
        program.wf(),
    ensures
        match r {
            Ok((i, rec)) => i < program.accounts@.len() && program.accounts@[i as int].key == *key
                && signature_at(program@.accounts, *key) == Ok::<SignatureRecord, InstructionError>(rec),
            Err(e) => signature_at(program@.accounts, *key) == Err::<SignatureRecord, InstructionError>(e),
        },
{
    match program.find(key) {
        None => Err(InstructionError::AccountNotInitialized),
        Some(i) => match &program.at(i).data {
            AccountData::Signature(rec) => Ok((i, *rec)),
            _ => Err(InstructionError::AccountDiscriminatorMismatch),
        },
    }
}

/// Finds the blacklist record at `key`.
pub(crate) fn load_blacklist(program: &MajProgram, key: &Pubkey) -> (r: Result<(usize, BlacklistRecord), InstructionError>)
    requires
        program.wf(),
    ensures
        match r {
            Ok((i, rec)) => i < program.accounts@.len() && program.accounts@[i as int].key == *key
                && blacklist_at(program@.accounts, *key) == Ok::<BlacklistRecord, InstructionError>(rec),
            Err(e) => blacklist_at(program@.accounts, *key) == Err::<BlacklistRecord, InstructionError>(e),
        },
{
    match program.find(key) {
        None => Err(InstructionError::AccountNotInitialized),
        Some(i) => match &program.at(i).data {
            AccountData::Blacklist(rec) => Ok((i, *rec)),
            _ => Err(InstructionError::AccountDiscriminatorMismatch),
        },
    }
}

/// The account at `key` with its record replaced by `data`.
pub open spec fn with_data(accounts: Map<Pubkey, AccountView>, key: Pubkey, data: AccountDataView) -> Map<Pubkey, AccountView> {
    accounts.insert(key, AccountView { seeds: accounts[key].seeds, space: accounts[key].space, data })
}

/// The wallet at position `i`.
pub(crate) fn instance_ref(program: &MajProgram, i: usize) -> (inst: &MajInstance)
    requires
        i < program.accounts@.len(),
        program.accounts@[i as int].data is Instance,
    ensures
        *inst == program.accounts@[i as int].data->Instance_0,
{
    match &program.at(i).data {
        AccountData::Instance(inst) => inst,
        _ => vstd::pervasive::unreached(),
    }
}

/// The transaction at position `i`.
pub(crate) fn transaction_ref(program: &MajProgram, i: usize) -> (tx: &MajTransaction)
    requires
        i < program.accounts@.len(),
        program.accounts@[i as int].data is Transaction,
    ensures
        *tx == program.accounts@[i as int].data->Transaction_0,
{
    match &program.at(i).data {
        AccountData::Transaction(tx) => tx,
        _ => vstd::pervasive::unreached(),
    }
}

/// Takes the wallet at position `i` out of the state, with the rest of its
/// account.
pub(crate) fn take_instance(program: &mut MajProgram, i: usize) -> (r: (Pubkey, Vec<Vec<u8>>, usize, MajInstance))
    requires
        old(program).wf(),
        i < old(program).accounts@.len(),
        old(program).accounts@[i as int].data is Instance,
    ensures
        final(program).wf(),
        r.0 == old(program).accounts@[i as int].key,
        r.3 == old(program).accounts@[i as int].data->Instance_0,
        old(program)@.accounts.contains_key(r.0),
        old(program)@.accounts[r.0] == (AccountView {
            seeds: seeds_view(r.1@),
            space: r.2,
            data: AccountDataView::Instance(r.3@),
        }),
        final(program)@.program_id == old(program)@.program_id,
        final(program)@.accounts == old(program)@.accounts.remove(r.0),
{
    let a = program.take(i);
    match a.data {
        AccountData::Instance(inst) => (a.key, a.seeds, a.space, inst),
        _ => vstd::pervasive::unreached(),
    }
}

/// Takes the transaction at position `i` out of the state, with the rest of
/// its account.
pub(crate) fn take_transaction(program: &mut MajProgram, i: usize) -> (r: (Pubkey, Vec<Vec<u8>>, usize, MajTransaction))
    requires
        old(program).wf(),
        i < old(program).accounts@.len(),
        old(program).accounts@[i as int].data is Transaction,
    ensures
        final(program).wf(),
        r.0 == old(program).accounts@[i as int].key,
        r.3 == old(program).accounts@[i as int].data->Transaction_0,
        old(program)@.accounts.contains_key(r.0),
        old(program)@.accounts[r.0] == (AccountView {
            seeds: seeds_view(r.1@),
            space: r.2,
            data: AccountDataView::Transaction(r.3@),
        }),
        final(program)@.program_id == old(program)@.program_id,
        final(program)@.accounts == old(program)@.accounts.remove(r.0),
{
    let a = program.take(i);
    match a.data {
        AccountData::Transaction(tx) => (a.key, a.seeds, a.space, tx),
        _ => vstd::pervasive::unreached(),
    }
}

} // verus!

verus! {

/// The address checks of a wallet and one of its transactions: the wallet's
/// address matches its name, and the transaction's address matches the
/// wallet and its index.
pub open spec fn wallet_and_tx_match(
    p: ProgramView,
    key: Pubkey,
    inst: MajInstanceView,
    tx_key: Pubkey,
    tx: MajTransactionView,
) -> Result<(), InstructionError> {
    match seeds_match(p, crate::pda::instance_seeds(inst.name), key, inst.bump) {
        Err(e) => Err(e),
        Ok(()) => seeds_match(p, crate::pda::tx_seeds(key, tx.tx_index), tx_key, tx.bump),
    }
}

/// Checks the wallet at position `i` and the transaction at position `j`
/// against their seeds.
pub(crate) fn check_wallet_and_tx(program: &MajProgram, i: usize, key: &Pubkey, j: usize, tx_key: &Pubkey) -> (r: Result<(), InstructionError>)
    requires
        program.wf(),
        i < program.accounts@.len(),
        program.accounts@[i as int].data is Instance,
        j < program.accounts@.len(),
        program.accounts@[j as int].data is Transaction,
    ensures
        r == wallet_and_tx_match(
            program@,
            *key,
            program.accounts@[i as int].data->Instance_0@,
            *tx_key,
            program.accounts@[j as int].data->Transaction_0@,
        ),
{
    let inst = instance_ref(program, i);
    let seeds = crate::pda::instance_seed_list(&inst.name);
    check_seeds(program, &seeds, key, inst.bump)?;
    let tx = transaction_ref(program, j);
    let tx_seeds = crate::pda::tx_seed_list(key, tx.tx_index);
    check_seeds(program, &tx_seeds, tx_key, tx.bump)
}

} // verus!

verus! {

/// An account passed along with an instruction beyond the declared ones, by
/// its address.
#[derive(Clone, Copy, Debug)]
pub struct AccountRef {
    pub key: Pubkey,
}

/// Whether an account at `key` was passed along.
pub open spec fn passed(remaining: Seq<AccountRef>, key: Pubkey) -> bool {
    exists|i: int| 0 <= i < remaining.len() && remaining[i].key == key
}

/// The first passed account at `key` (meaningful where one was passed).
pub open spec fn first_passed(remaining: Seq<AccountRef>, key: Pubkey) -> AccountRef {
    remaining[choose|i: int| 0 <= i < remaining.len() && remaining[i].key == key
        && forall|j: int| 0 <= j < i ==> remaining[j].key != key]
}

/// The first passed account at `key`, if any.
pub fn find_passed(remaining: &Vec<AccountRef>, key: &Pubkey) -> (r: Option<AccountRef>)
    ensures
        match r {
            Some(a) => passed(remaining@, *key) && a == first_passed(remaining@, *key),
            None => !passed(remaining@, *key),
        },
{
    let mut i: usize = 0;
    while i < remaining.len()
        invariant
            i <= remaining@.len(),
            forall|j: int| 0 <= j < i ==> remaining@[j].key != *key,
        decreases remaining@.len() - i,
    {
        if remaining[i].key.key_eq(key) {
            let ghost f = choose|f: int| 0 <= f < remaining@.len() && remaining@[f].key == *key
                && forall|j: int| 0 <= j < f ==> remaining@[j].key != *key;
            assert(f == i) by {
                assert(0 <= i < remaining@.len() && remaining@[i as int].key == *key
                    && forall|j: int| 0 <= j < i ==> remaining@[j].key != *key);
                if f < i {
                    assert(remaining@[f].key != *key);
                } else if f > i {
                    assert(remaining@[i as int].key != *key);
                }
            }
            return Some(remaining[i]);
        }
        i = i + 1;
    }
    None
}

} // verus!
