//! Calls that an executed transaction makes into this program itself.  A
//! wallet governs itself this way: a transaction whose call names one of the
//! governance instructions runs that instruction, the wallet signing with its
//! seeds, within the instruction that executed the transaction; if the
//! governance instruction fails, that instruction fails as a whole.  A call
//! of another program is handed back to the caller, whose report of its
//! success decides whether the transaction stands or everything returns to
//! the state before it.
use vstd::prelude::*;
use crate::errors::{InstructionError, MajError};
use crate::events::{events_view, Execution, ExecutionView, MajEvent, MajEventView, Outcome, OutcomeView};
use crate::instructions::governance::{AddAdmin, AddBlacklist, ChangeSigsRequired, RemoveAdmin, RemoveBlacklist};
use crate::maj_core::{process, step, Instruction};
use crate::program::{follows, MajProgram, ProgramView, StepResult};
use crate::pubkey::Pubkey;
use crate::balances::{lamports, transferred, BalanceError, Balances};
use crate::pda::{try_find_program_address, seeds_view, admin_record_seed_list, admin_record_seeds, blacklist_seed_list, blacklist_seeds, program_address, sig_seed_list, sig_seeds};
use crate::program::AccountView;
use crate::state::transaction::SerializedAccountMeta;

verus! {

broadcast use vstd::array::group_array_axioms;

/// The first eight bytes of the call data of `add_admin`.
pub open spec fn tag_add_admin() -> Seq<u8> {
    seq![177u8, 236, 33, 205, 124, 152, 55, 186]
}

/// The first eight bytes of the call data of `remove_admin`.
pub open spec fn tag_remove_admin() -> Seq<u8> {
    seq![74u8, 202, 71, 106, 252, 31, 72, 183]
}

/// The first eight bytes of the call data of `change_sigs_required`.
pub open spec fn tag_change_sigs_required() -> Seq<u8> {
    seq![8u8, 249, 20, 80, 102, 23, 158, 61]
}

/// The first eight bytes of the call data of `add_blacklist`.
pub open spec fn tag_add_blacklist() -> Seq<u8> {
    seq![217u8, 13, 249, 96, 5, 121, 73, 110]
}

/// The first eight bytes of the call data of `remove_blacklist`.
pub open spec fn tag_remove_blacklist() -> Seq<u8> {
    seq![39u8, 82, 241, 133, 41, 2, 161, 21]
}

/// Whether `data` starts with `tag`.
pub open spec fn tagged(data: Seq<u8>, tag: Seq<u8>) -> bool {
    data.len() >= 8 && data.take(8) == tag
}

/// The address whose bytes stand in `data` from position `i`.
pub open spec fn key_at(data: Seq<u8>, i: int) -> Pubkey {
    choose|k: Pubkey| k.bytes@ == data.subrange(i, i + 32)
}

/// The number whose eight little-endian bytes stand in `data` from position `i`.
pub open spec fn u64_at(data: Seq<u8>, i: int) -> int {
    data[i] + 0x100 * data[i + 1] + 0x1_0000 * data[i + 2] + 0x100_0000 * data[i + 3]
        + 0x1_0000_0000 * data[i + 4] + 0x100_0000_0000 * data[i + 5] + 0x1_0000_0000_0000 * data[i + 6]
        + 0x100_0000_0000_0000 * data[i + 7]
}

/// What a call of a wallet's execution comes to.
pub enum CallDecision {
    /// The call goes elsewhere: it is handed back to the caller.
    External,
    /// The call names a governance instruction but lacks its arguments or
    /// accounts, so it fails.
    Fails,
    /// The call runs this governance instruction.
    Runs(Instruction),
}

/// Whether the call's first account is the wallet, marked as signing: only
/// then does the called instruction see the wallet as its signer.
pub open spec fn wallet_signs(metas: Seq<SerializedAccountMeta>, signer: Pubkey) -> bool {
    metas[0].is_signer && metas[0].pubkey == signer
}

/// Whether the call's second account is the record the governance
/// instruction works on: the address derived from `seeds`, writable.
pub open spec fn record_meta(program_id: Pubkey, metas: Seq<SerializedAccountMeta>, seeds: Seq<Seq<u8>>) -> bool {
    &&& program_address(seeds, program_id) is Some
    &&& metas[1].pubkey == program_address(seeds, program_id)->Some_0.0
    &&& metas[1].is_writable
}

/// Whether the call's third account pays for a record it creates: the
/// account that signed the instruction making the call, marked as signing
/// and writable (the wallet itself holds data and cannot pay).
pub open spec fn payer_meta(metas: Seq<SerializedAccountMeta>, submitter: Option<Pubkey>) -> bool {
    &&& submitter == Some(metas[2].pubkey)
    &&& metas[2].is_signer
    &&& metas[2].is_writable
}

/// Whether the call's fourth account is the system program (the all-zero
/// address).
pub open spec fn system_meta(metas: Seq<SerializedAccountMeta>) -> bool {
    metas[3].pubkey.spec_is_default()
}

/// What the call with accounts `metas` and data `data` of the wallet `signer`
/// comes to, where it is addressed to this program and made by an
/// instruction that `submitter` signed.  The data holds the instruction's tag
/// and then its argument: an address of 32 bytes, or, for the threshold, a
/// number of 8 little-endian bytes.  Each governance instruction takes the
/// wallet first (writable, but for `remove_blacklist`).  `add_admin` and
/// `add_blacklist` then take the record they create, the payer and the system
/// program; `remove_admin` the record it closes, the receiver of its rent
/// (writable) and the system program; `remove_blacklist` the record and the
/// receiver; `change_sigs_required` nothing more.  A call that lacks its
/// argument, or whose accounts are not these, fails.
pub open spec fn governance_call(
    program_id: Pubkey,
    metas: Seq<SerializedAccountMeta>,
    data: Seq<u8>,
    signer: Pubkey,
    submitter: Option<Pubkey>,
) -> CallDecision {
    if tagged(data, tag_add_admin()) {
        if data.len() < 40 || metas.len() < 4 {
            CallDecision::Fails
        } else if !(metas[0].is_writable
            && record_meta(program_id, metas, admin_record_seeds(key_at(data, 8), metas[0].pubkey))
            && payer_meta(metas, submitter) && system_meta(metas)) {
            CallDecision::Fails
        } else {
            CallDecision::Runs(Instruction::AddAdmin {
                accounts: AddAdmin {
                    maj_instance: metas[0].pubkey,
                    maj_instance_is_signer: wallet_signs(metas, signer),
                    payer: metas[2].pubkey,
                },
                new_admin: key_at(data, 8),
            })
        }
    } else if tagged(data, tag_remove_admin()) {
        if data.len() < 40 || metas.len() < 4 {
            CallDecision::Fails
        } else if !(metas[0].is_writable
            && record_meta(program_id, metas, admin_record_seeds(key_at(data, 8), metas[0].pubkey))
            && metas[2].is_writable && system_meta(metas)) {
            CallDecision::Fails
        } else {
            CallDecision::Runs(Instruction::RemoveAdmin {
                accounts: RemoveAdmin {
                    maj_instance: metas[0].pubkey,
                    maj_instance_is_signer: wallet_signs(metas, signer),
                    rent_receiver: metas[2].pubkey,
                },
                admin_to_remove: key_at(data, 8),
            })
        }
    } else if tagged(data, tag_change_sigs_required()) {
        if data.len() < 16 || metas.len() < 1 {
            CallDecision::Fails
        } else if !metas[0].is_writable {
            CallDecision::Fails
        } else {
            CallDecision::Runs(Instruction::ChangeSigsRequired {
                accounts: ChangeSigsRequired {
                    maj_instance: metas[0].pubkey,
                    maj_instance_is_signer: wallet_signs(metas, signer),
                },
                new_sigs_required: u64_at(data, 8) as u64,
            })
        }
    } else if tagged(data, tag_add_blacklist()) {
        if data.len() < 40 || metas.len() < 4 {
            CallDecision::Fails
        } else if !(metas[0].is_writable
            && record_meta(program_id, metas, blacklist_seeds(metas[0].pubkey, key_at(data, 8)))
            && payer_meta(metas, submitter) && system_meta(metas)) {
            CallDecision::Fails
        } else {
            CallDecision::Runs(Instruction::AddBlacklist {
                accounts: AddBlacklist {
                    maj_instance: metas[0].pubkey,
                    maj_instance_is_signer: wallet_signs(metas, signer),
                    payer: metas[2].pubkey,
                },
                target: key_at(data, 8),
            })
        }
    } else if tagged(data, tag_remove_blacklist()) {
        if data.len() < 40 || metas.len() < 3 {
            CallDecision::Fails
        } else if !(record_meta(program_id, metas, blacklist_seeds(metas[0].pubkey, key_at(data, 8)))
            && metas[2].is_writable) {
            CallDecision::Fails
        } else {
            CallDecision::Runs(Instruction::RemoveBlacklist {
                accounts: RemoveBlacklist {
                    maj_instance: metas[0].pubkey,
                    maj_instance_is_signer: wallet_signs(metas, signer),
                    rent_receiver: metas[2].pubkey,
                },
                target: key_at(data, 8),
            })
        }
    } else {
        CallDecision::External
    }
}

/// The account that signed an instruction which can execute a transaction:
/// the proposer of a proposal, the admin of a signature or an execution.
pub open spec fn submitter(ins: Instruction) -> Option<Pubkey> {
    match ins {
        Instruction::ProposeTransaction { accounts, .. } => Some(accounts.proposer),
        Instruction::SignTransaction(a) => Some(a.admin),
        Instruction::ExecuteTransaction(a) => Some(a.admin),
        _ => None,
    }
}

/// What the execution an instruction asked for comes to, for the program
/// `program_id`, where `submitter` signed the instruction: transfers and
/// calls to other programs are handed back; calls to the program itself are
/// read as governance calls.
pub open spec fn call_decision(program_id: Pubkey, execution: Option<ExecutionView>, submitter: Option<Pubkey>) -> CallDecision {
    match execution {
        Some(ExecutionView::Invoke { program_id: callee, accounts, data, signer }) => if callee == program_id {
            governance_call(program_id, accounts, data, signer, submitter)
        } else {
            CallDecision::External
        },
        _ => CallDecision::External,
    }
}

/// The events of an execution whose call ran an instruction that emitted
/// `inner`: they come before the last event (the one announcing the
/// execution, emitted once the call returned).
pub open spec fn with_inner_events(outer: Seq<MajEventView>, inner: Seq<MajEventView>) -> Seq<MajEventView> {
    if outer.len() == 0 {
        inner
    } else {
        outer.drop_last() + inner + seq![outer.last()]
    }
}

/// What an instruction does, with the calls into this program that its
/// execution makes: such a call runs on the accounts the instruction left;
/// if it fails, or names a governance instruction without its arguments, the
/// whole instruction fails with `TransactionFailed` and no account changes.
pub open spec fn run(p: ProgramView, ins: Instruction) -> StepResult {
    match step(p, ins) {
        Err(e) => Err(e),
        Ok((m, out)) => match call_decision(p.program_id, out.execution, submitter(ins)) {
            CallDecision::External => Ok((m, out)),
            CallDecision::Fails => Err(InstructionError::Maj(MajError::TransactionFailed)),
            CallDecision::Runs(call) => match step(ProgramView { program_id: p.program_id, accounts: m }, call) {
                Err(_) => Err(InstructionError::Maj(MajError::TransactionFailed)),
                Ok((m2, inner)) => Ok((
                    m2,
                    OutcomeView { events: with_inner_events(out.events, inner.events), execution: inner.execution },
                )),
            },
        },
    }
}

/// Whether `data` starts with the eight bytes `tag`.
fn has_tag(data: &Vec<u8>, tag: [u8; 8]) -> (b: bool)
    ensures
        b == tagged(data@, tag@),
{
    if data.len() < 8 {
        return false;
    }
    let mut i: usize = 0;
    while i < 8
        invariant
            data@.len() >= 8,
            i <= 8,
            forall|j: int| 0 <= j < i ==> data@[j] == tag@[j],
        decreases 8 - i,
    {
        if data[i] != tag[i] {
            assert(data@.take(8)[i as int] != tag@[i as int]);
            return false;
        }
        i = i + 1;
    }
    assert(data@.take(8) =~= tag@);
    true
}

/// The address whose bytes stand in `data` from position `i`.
fn read_key(data: &Vec<u8>, i: usize) -> (k: Pubkey)
    requires
        i + 32 <= data@.len(),
    ensures
        k == key_at(data@, i as int),
{
    let n = data.len();
    let mut bytes = [0u8; 32];
    let mut j: usize = 0;
    while j < 32
        invariant
            n == data@.len(),
            i + 32 <= data@.len(),
            j <= 32,
            forall|q: int| 0 <= q < j ==> bytes@[q] == data@[i + q],
        decreases 32 - j,
    {
        bytes[j] = data[i + j];
        j = j + 1;
    }
    let k = Pubkey::new_from_array(bytes);
    assert(k.bytes@ =~= data@.subrange(i as int, i + 32));
    let ghost c = key_at(data@, i as int);
    assert(c.bytes =~= k.bytes);
    k
}

/// The number whose eight little-endian bytes stand in `data` from `i`.
fn read_u64(data: &Vec<u8>, i: usize) -> (n: u64)
    requires
        i + 8 <= data@.len(),
    ensures
        n == u64_at(data@, i as int),
{
    let n = data.len();
    assert(i + 8 <= n);
    let b0 = data[i] as u64;
    let b1 = data[i + 1] as u64;
    let b2 = data[i + 2] as u64;
    let b3 = data[i + 3] as u64;
    let b4 = data[i + 4] as u64;
    let b5 = data[i + 5] as u64;
    let b6 = data[i + 6] as u64;
    let b7 = data[i + 7] as u64;
    b0 + 0x100 * b1 + 0x1_0000 * b2 + 0x100_0000 * b3 + 0x1_0000_0000 * b4 + 0x100_0000_0000 * b5
        + 0x1_0000_0000_0000 * b6 + 0x100_0000_0000_0000 * b7
}

/// Whether the call's first account is the wallet, marked as signing.
fn signed_by_wallet(metas: &Vec<SerializedAccountMeta>, signer: &Pubkey) -> (b: bool)
    requires
        metas@.len() >= 1,
    ensures
        b == wallet_signs(metas@, *signer),
{
    metas[0].is_signer && metas[0].pubkey.key_eq(signer)
}

/// Whether the call's second account is the record derived from `seeds`,
/// writable.
fn check_record_meta(program: &MajProgram, metas: &Vec<SerializedAccountMeta>, seeds: &Vec<Vec<u8>>) -> (b: bool)
    requires
        metas@.len() >= 2,
    ensures
        b == record_meta(program@.program_id, metas@, seeds_view(seeds@)),
{
    match try_find_program_address(seeds, &program.program_id()) {
        Some((k, _)) => metas[1].pubkey.key_eq(&k) && metas[1].is_writable,
        None => false,
    }
}

/// Whether the call's third account is the signer of the instruction,
/// marked as signing and writable.
fn check_payer_meta(metas: &Vec<SerializedAccountMeta>, submitter: &Option<Pubkey>) -> (b: bool)
    requires
        metas@.len() >= 3,
    ensures
        b == payer_meta(metas@, *submitter),
{
    match submitter {
        Some(k) => metas[2].pubkey.key_eq(k) && metas[2].is_signer && metas[2].is_writable,
        None => false,
    }
}

/// Reads a call of the wallet `signer` to this program, made by an
/// instruction that `submitter` signed.
fn read_governance_call(
    program: &MajProgram,
    metas: &Vec<SerializedAccountMeta>,
    data: &Vec<u8>,
    signer: &Pubkey,
    submitter: &Option<Pubkey>,
) -> (d: CallDecision)
    ensures
        d == governance_call(program@.program_id, metas@, data@, *signer, *submitter),
{
    assert([177u8, 236, 33, 205, 124, 152, 55, 186]@ =~= tag_add_admin());
    assert([74u8, 202, 71, 106, 252, 31, 72, 183]@ =~= tag_remove_admin());
    assert([8u8, 249, 20, 80, 102, 23, 158, 61]@ =~= tag_change_sigs_required());
    assert([217u8, 13, 249, 96, 5, 121, 73, 110]@ =~= tag_add_blacklist());
    assert([39u8, 82, 241, 133, 41, 2, 161, 21]@ =~= tag_remove_blacklist());
    if has_tag(data, [177u8, 236, 33, 205, 124, 152, 55, 186]) {
        if data.len() < 40 || metas.len() < 4 {
            return CallDecision::Fails;
        }
        let new_admin = read_key(data, 8);
        let seeds = admin_record_seed_list(&new_admin, &metas[0].pubkey);
        if !(metas[0].is_writable && check_record_meta(program, metas, &seeds) && check_payer_meta(metas, submitter)
            && metas[3].pubkey.is_default()) {
            return CallDecision::Fails;
        }
        CallDecision::Runs(Instruction::AddAdmin {
            accounts: AddAdmin {
                maj_instance: metas[0].pubkey,
                maj_instance_is_signer: signed_by_wallet(metas, signer),
                payer: metas[2].pubkey,
            },
            new_admin,
        })
    } else if has_tag(data, [74u8, 202, 71, 106, 252, 31, 72, 183]) {
        if data.len() < 40 || metas.len() < 4 {
            return CallDecision::Fails;
        }
        let admin_to_remove = read_key(data, 8);
        let seeds = admin_record_seed_list(&admin_to_remove, &metas[0].pubkey);
        if !(metas[0].is_writable && check_record_meta(program, metas, &seeds) && metas[2].is_writable
            && metas[3].pubkey.is_default()) {
            return CallDecision::Fails;
        }
        CallDecision::Runs(Instruction::RemoveAdmin {
            accounts: RemoveAdmin {
                maj_instance: metas[0].pubkey,
                maj_instance_is_signer: signed_by_wallet(metas, signer),
                rent_receiver: metas[2].pubkey,
            },
            admin_to_remove,
        })
    } else if has_tag(data, [8u8, 249, 20, 80, 102, 23, 158, 61]) {
        if data.len() < 16 || metas.len() < 1 {
            return CallDecision::Fails;
        }
        if !metas[0].is_writable {
            return CallDecision::Fails;
        }
        CallDecision::Runs(Instruction::ChangeSigsRequired {
            accounts: ChangeSigsRequired {
                maj_instance: metas[0].pubkey,
                maj_instance_is_signer: signed_by_wallet(metas, signer),
            },
            new_sigs_required: read_u64(data, 8),
        })
    } else if has_tag(data, [217u8, 13, 249, 96, 5, 121, 73, 110]) {
        if data.len() < 40 || metas.len() < 4 {
            return CallDecision::Fails;
        }
        let target = read_key(data, 8);
        let seeds = blacklist_seed_list(&metas[0].pubkey, &target);
        if !(metas[0].is_writable && check_record_meta(program, metas, &seeds) && check_payer_meta(metas, submitter)
            && metas[3].pubkey.is_default()) {
            return CallDecision::Fails;
        }
        CallDecision::Runs(Instruction::AddBlacklist {
            accounts: AddBlacklist {
                maj_instance: metas[0].pubkey,
                maj_instance_is_signer: signed_by_wallet(metas, signer),
                payer: metas[2].pubkey,
            },
            target,
        })
    } else if has_tag(data, [39u8, 82, 241, 133, 41, 2, 161, 21]) {
        if data.len() < 40 || metas.len() < 3 {
            return CallDecision::Fails;
        }
        let target = read_key(data, 8);
        let seeds = blacklist_seed_list(&metas[0].pubkey, &target);
        if !(check_record_meta(program, metas, &seeds) && metas[2].is_writable) {
            return CallDecision::Fails;
        }
        CallDecision::Runs(Instruction::RemoveBlacklist {
            accounts: RemoveBlacklist {
                maj_instance: metas[0].pubkey,
                maj_instance_is_signer: signed_by_wallet(metas, signer),
                rent_receiver: metas[2].pubkey,
            },
            target,
        })
    } else {
        CallDecision::External
    }
}

/// The account that signed an instruction which can execute a transaction.
fn submitter_of(ins: &Instruction) -> (r: Option<Pubkey>)
    ensures
        r == submitter(*ins),
{
    match ins {
        Instruction::ProposeTransaction { accounts, .. } => Some(accounts.proposer),
        Instruction::SignTransaction(a) => Some(a.admin),
        Instruction::ExecuteTransaction(a) => Some(a.admin),
        _ => None,
    }
}

/// Reads what the execution an instruction asked for comes to, where
/// `submitter` signed the instruction.
pub fn decide_call(program: &MajProgram, execution: &Option<Execution>, submitter: &Option<Pubkey>) -> (d: CallDecision)
    ensures
        d == call_decision(program@.program_id, match execution {
            Some(x) => Some(x@),
            None => None,
        }, *submitter),
{
    match execution {
        Some(Execution::Invoke { program_id: callee, accounts, data, signer }) => if callee.key_eq(&program.program_id()) {
            read_governance_call(program, accounts, data, signer, submitter)
        } else {
            CallDecision::External
        },
        _ => CallDecision::External,
    }
}

/// Puts the events of a call that ran before the last event of the execution.
fn merge_events(outer: Vec<MajEvent>, inner: Vec<MajEvent>) -> (events: Vec<MajEvent>)
    ensures
        events_view(events@) == with_inner_events(events_view(outer@), events_view(inner@)),
{
    let ghost o = outer@;
    let ghost n = inner@;
    let mut events = outer;
    let mut inner = inner;
    match events.pop() {
        Some(last) => {
            events.append(&mut inner);
            events.push(last);
            assert(events@ =~= o.drop_last() + n + seq![o.last()]);
            assert(events_view(events@) =~= events_view(o).drop_last() + events_view(n) + seq![events_view(o).last()]);
            events
        },
        None => {
            assert(events_view(o) =~= Seq::<MajEventView>::empty());
            inner
        },
    }
}

/// The record an instruction closes and the address its lamports go back to:
/// an admin's signature record goes back to the admin; an admin record or a
/// blacklist record to the receiver the instruction names.
pub open spec fn closing(p: ProgramView, ins: Instruction) -> Option<(Pubkey, Pubkey)> {
    let seeds_and_receiver: Option<(Seq<Seq<u8>>, Pubkey)> = match ins {
        Instruction::RevokeSignature(a) => Some((sig_seeds(a.maj_transaction, a.admin), a.admin)),
        Instruction::RemoveAdmin { accounts, admin_to_remove } =>
            Some((admin_record_seeds(admin_to_remove, accounts.maj_instance), accounts.rent_receiver)),
        Instruction::RemoveBlacklist { accounts, target } =>
            Some((blacklist_seeds(accounts.maj_instance, target), accounts.rent_receiver)),
        _ => None,
    };
    match seeds_and_receiver {
        Some((seeds, receiver)) => match program_address(seeds, p.program_id) {
            Some((closed, _)) => Some((closed, receiver)),
            None => None,
        },
        None => None,
    }
}

/// The record an instruction closes, directly or through the governance call
/// its execution makes, with the receiver of its lamports.
pub open spec fn refund_of(p: ProgramView, ins: Instruction) -> Option<(Pubkey, Pubkey)> {
    match closing(p, ins) {
        Some(x) => Some(x),
        None => match step(p, ins) {
            Ok((_, out)) => match call_decision(p.program_id, out.execution, submitter(ins)) {
                CallDecision::Runs(call) => closing(p, call),
                _ => None,
            },
            Err(_) => None,
        },
    }
}

/// Why an instruction failed on the chain.
#[derive(Clone, Copy, Debug, PartialEq, Eq, Structural)]
pub enum ChainError {
    /// The program refused it.
    Program(InstructionError),
    /// The lamports it moves could not be moved.
    Lamports(BalanceError),
}

/// What an instruction does to the accounts, and the lamports the program
/// itself moves, on the chain: the program runs it (with its calls into the
/// program itself); the transfer its execution asks for moves `value`
/// lamports out of the wallet to the destination; the record it closes gives
/// all its lamports back to the receiver.  Where the program refuses it, or
/// lamports cannot be moved, nothing changes.  The rent that the payer puts
/// into the accounts the instruction creates or enlarges is not part of it
/// (see `rent_moved`).
pub open spec fn chain_run(p: ProgramView, b: Map<Pubkey, u64>, ins: Instruction) -> Result<(Map<Pubkey, AccountView>, OutcomeView, Map<Pubkey, u64>), ChainError> {
    match run(p, ins) {
        Err(e) => Err(ChainError::Program(e)),
        Ok((m, out)) => {
            let moved = match out.execution {
                Some(ExecutionView::Transfer { from, to, lamports: value }) => transferred(b, from, to, value),
                _ => Ok(b),
            };
            match moved {
                Err(e) => Err(ChainError::Lamports(e)),
                Ok(b1) => match refund_of(p, ins) {
                    None => Ok((m, out, b1)),
                    Some((closed, receiver)) => match transferred(b1, closed, receiver, lamports(b1, closed) as u64) {
                        Err(e) => Err(ChainError::Lamports(e)),
                        Ok(b2) => Ok((m, out, b2)),
                    },
                },
            }
        },
    }
}

/// The record an instruction closes, with the receiver of its lamports.
fn closing_of(program: &MajProgram, ins: &Instruction) -> (r: Option<(Pubkey, Pubkey)>)
    ensures
        r == closing(program@, *ins),
{
    let (seeds, receiver) = match ins {
        Instruction::RevokeSignature(a) => (sig_seed_list(&a.maj_transaction, &a.admin), a.admin),
        Instruction::RemoveAdmin { accounts, admin_to_remove } =>
            (admin_record_seed_list(admin_to_remove, &accounts.maj_instance), accounts.rent_receiver),
        Instruction::RemoveBlacklist { accounts, target } =>
            (blacklist_seed_list(&accounts.maj_instance, target), accounts.rent_receiver),
        _ => {
            return None;
        },
    };
    match try_find_program_address(&seeds, &program.program_id()) {
        Some((closed, _)) => Some((closed, receiver)),
        None => None,
    }
}

/// Moves the lamports of an execution's transfer and of a closed record.
fn move_lamports(balances: &mut Balances, execution: &Option<Execution>, refund: Option<(Pubkey, Pubkey)>) -> (r: Result<(), BalanceError>)
    requires
        old(balances).wf(),
    ensures
        final(balances).wf(),
        ({
            let moved = match match execution {
                Some(x) => Some(x@),
                None => None,
            } {
                Some(ExecutionView::Transfer { from, to, lamports: value }) => transferred(old(balances).view(), from, to, value),
                _ => Ok(old(balances).view()),
            };
            match moved {
                Err(e) => r == Err::<(), BalanceError>(e),
                Ok(b1) => match refund {
                    None => r is Ok && final(balances).view() == b1,
                    Some((closed, receiver)) => match transferred(b1, closed, receiver, lamports(b1, closed) as u64) {
                        Err(e) => r == Err::<(), BalanceError>(e),
                        Ok(b2) => r is Ok && final(balances).view() == b2,
                    },
                },
            }
        }),
{
    match execution {
        Some(Execution::Transfer { from, to, lamports: value }) => {
            balances.transfer(*from, *to, *value)?;
        },
        _ => {},
    }
    match refund {
        Some((closed, receiver)) => {
            let held = balances.balance(&closed);
            balances.transfer(closed, receiver, held)
        },
        None => Ok(()),
    }
}

/// Runs one instruction on the chain: the program runs it with the calls
/// into the program itself that its execution makes, and the lamports it
/// moves are moved.  Where anything fails, neither the accounts nor the
/// balances change.
pub(crate) fn run_on_chain(program: &mut MajProgram, balances: &mut Balances, ins: Instruction) -> (r: Result<Outcome, ChainError>)
    requires
        old(program).wf(),
        old(balances).wf(),
    ensures
        final(program).wf(),
        final(balances).wf(),
        final(program)@.program_id == old(program)@.program_id,
        match chain_run(old(program)@, old(balances).view(), ins) {
            Ok((accounts, out, b)) => match r {
                Ok(o) => o@ == out && final(program)@.accounts == accounts && final(balances).view() == b,
                Err(_) => false,
            },
            Err(e) => r == Err::<Outcome, ChainError>(e) && final(program)@ == old(program)@
                && final(balances).view() == old(balances).view(),
        },
{
    let ghost p = program@;
    let snap = program.snapshot();
    let saved = balances.snapshot();
    let pid = program.program_id();
    let direct = closing_of(program, &ins);
    let sub = submitter_of(&ins);
    let out = match process(program, ins) {
        Ok(out) => out,
        Err(e) => {
            return Err(ChainError::Program(e));
        },
    };
    let decision = decide_call(program, &out.execution, &sub);
    let (result, refund) = match decision {
        CallDecision::External => (out, direct),
        CallDecision::Fails => {
            *program = snap;
            return Err(ChainError::Program(InstructionError::Maj(MajError::TransactionFailed)));
        },
        CallDecision::Runs(call) => {
            let inner_refund = match direct {
                Some(x) => Some(x),
                None => closing_of(&snap, &call),
            };
            match process(program, call) {
                Err(_) => {
                    *program = snap;
                    return Err(ChainError::Program(InstructionError::Maj(MajError::TransactionFailed)));
                },
                Ok(inner) => {
                    let execution = inner.execution;
                    let events = merge_events(out.events, inner.events);
                    (Outcome { events, execution }, inner_refund)
                },
            }
        },
    };
    match move_lamports(balances, &result.execution, refund) {
        Ok(()) => Ok(result),
        Err(e) => {
            *program = snap;
            *balances = saved;
            Err(ChainError::Lamports(e))
        },
    }
}

/// An instruction as a transaction submits it: a wallet's address is derived
/// from seeds and has no key to sign with, so in a submitted instruction the
/// wallet of a governance instruction never signs; only the wallet's own
/// execution can sign for it.
pub open spec fn submitted(ins: Instruction) -> Instruction {
    match ins {
        Instruction::AddAdmin { accounts, new_admin } =>
            Instruction::AddAdmin { accounts: AddAdmin { maj_instance_is_signer: false, ..accounts }, new_admin },
        Instruction::RemoveAdmin { accounts, admin_to_remove } =>
            Instruction::RemoveAdmin { accounts: RemoveAdmin { maj_instance_is_signer: false, ..accounts }, admin_to_remove },
        Instruction::ChangeSigsRequired { accounts, new_sigs_required } =>
            Instruction::ChangeSigsRequired {
                accounts: ChangeSigsRequired { maj_instance_is_signer: false, ..accounts },
                new_sigs_required,
            },
        Instruction::AddBlacklist { accounts, target } =>
            Instruction::AddBlacklist { accounts: AddBlacklist { maj_instance_is_signer: false, ..accounts }, target },
        Instruction::RemoveBlacklist { accounts, target } =>
            Instruction::RemoveBlacklist { accounts: RemoveBlacklist { maj_instance_is_signer: false, ..accounts }, target },
        _ => ins,
    }
}

/// The instruction as a transaction submits it.
fn submit(ins: Instruction) -> (r: Instruction)
    ensures
        r == submitted(ins),
{
    match ins {
        Instruction::AddAdmin { accounts, new_admin } => Instruction::AddAdmin {
            accounts: AddAdmin { maj_instance: accounts.maj_instance, maj_instance_is_signer: false, payer: accounts.payer },
            new_admin,
        },
        Instruction::RemoveAdmin { accounts, admin_to_remove } => Instruction::RemoveAdmin {
            accounts: RemoveAdmin {
                maj_instance: accounts.maj_instance,
                maj_instance_is_signer: false,
                rent_receiver: accounts.rent_receiver,
            },
            admin_to_remove,
        },
        Instruction::ChangeSigsRequired { accounts, new_sigs_required } => Instruction::ChangeSigsRequired {
            accounts: ChangeSigsRequired { maj_instance: accounts.maj_instance, maj_instance_is_signer: false },
            new_sigs_required,
        },
        Instruction::AddBlacklist { accounts, target } => Instruction::AddBlacklist {
            accounts: AddBlacklist { maj_instance: accounts.maj_instance, maj_instance_is_signer: false, payer: accounts.payer },
            target,
        },
        Instruction::RemoveBlacklist { accounts, target } => Instruction::RemoveBlacklist {
            accounts: RemoveBlacklist {
                maj_instance: accounts.maj_instance,
                maj_instance_is_signer: false,
                rent_receiver: accounts.rent_receiver,
            },
            target,
        },
        other => other,
    }
}

/// Whether an outcome hands back a call of another program, for the caller
/// to make and to report on.
pub open spec fn hands_back_call(out: OutcomeView) -> bool {
    out.execution matches Some(ExecutionView::Invoke { .. })
}

/// What a transaction that submits `ins` comes to, where a call of another
/// program that it hands back succeeds or not as `call_succeeded` says: if
/// that call fails, the transaction fails with `TransactionFailed` and
/// neither the accounts nor the balances change; otherwise it is what
/// `chain_run` says of the submitted instruction.
pub open spec fn transaction_result(p: ProgramView, b: Map<Pubkey, u64>, ins: Instruction, call_succeeded: bool) -> Result<(Map<Pubkey, AccountView>, OutcomeView, Map<Pubkey, u64>), ChainError> {
    match chain_run(p, b, submitted(ins)) {
        Ok((m, out, b2)) => if hands_back_call(out) && !call_succeeded {
            Err(ChainError::Program(InstructionError::Maj(MajError::TransactionFailed)))
        } else {
            Ok((m, out, b2))
        },
        Err(e) => Err(e),
    }
}

/// A transaction that has run as far as the call of another program it
/// hands back: the accounts and balances before it, to return to if that
/// call fails, and its outcome.
pub struct PendingTransaction {
    before: MajProgram,
    before_balances: Balances,
    outcome: Outcome,
}

impl PendingTransaction {
    /// The saved state can be returned to.
    pub closed spec fn wf(&self) -> bool {
        self.before.wf() && self.before_balances.wf()
    }

    /// The accounts before the transaction.
    pub closed spec fn state_before(&self) -> ProgramView {
        self.before@
    }

    /// The balances before the transaction.
    pub closed spec fn balances_before(&self) -> Map<Pubkey, u64> {
        self.before_balances.view()
    }

    /// The transaction's outcome.
    pub closed spec fn outcome_view(&self) -> OutcomeView {
        self.outcome@
    }

    /// The transaction's outcome, with the call it hands back, if any.
    pub fn outcome(&self) -> (o: &Outcome)
        ensures
            o@ == self.outcome_view(),
    {
        &self.outcome
    }
}

/// The account that pays for the accounts an instruction creates, or for a
/// wallet it enlarges: the payer it names, or the account that signs it.
pub open spec fn payer_of(ins: Instruction) -> Option<Pubkey> {
    match ins {
        Instruction::InitializeRegistry(a) => Some(a.payer),
        Instruction::CreateMaj { accounts, .. } => Some(accounts.payer),
        Instruction::ProposeTransaction { accounts, .. } => Some(accounts.proposer),
        Instruction::SignTransaction(a) => Some(a.admin),
        Instruction::ExecuteTransaction(a) => Some(a.admin),
        Instruction::AddAdmin { accounts, .. } => Some(accounts.payer),
        Instruction::AddBlacklist { accounts, .. } => Some(accounts.payer),
        _ => None,
    }
}

/// The accounts an instruction creates or enlarges, taking the state's
/// accounts from `before` to `after`.
pub open spec fn grown(before: Map<Pubkey, AccountView>, after: Map<Pubkey, AccountView>) -> Set<Pubkey> {
    Set::new(|k: Pubkey| after.contains_key(k) && (!before.contains_key(k) || after[k].space > before[k].space))
}

/// The addresses whose lamports the rent of created or enlarged accounts
/// moves: those accounts and, where there is one, the payer.  The amounts
/// come from the rent schedule, which computes in floating point; they are
/// left open here.
pub open spec fn rent_moved(ins: Instruction, before: Map<Pubkey, AccountView>, after: Map<Pubkey, AccountView>) -> Set<Pubkey> {
    Set::new(|k: Pubkey| grown(before, after).contains(k)
        || (payer_of(ins) == Some(k) && exists|g: Pubkey| #[trigger] grown(before, after).contains(g)))
}

/// Runs a transaction that submits `ins` as far as the call of another
/// program it may hand back: accounts are as `chain_run` says of the
/// submitted instruction, and so are the balances of every address but
/// those the rent of created or enlarged accounts moves (`rent_moved`),
/// whose amounts are left open; the state before is kept, to be returned to
/// by `finish_transaction` if that call fails.
pub fn start_transaction(program: &mut MajProgram, balances: &mut Balances, ins: Instruction) -> (r: Result<PendingTransaction, ChainError>)
    requires
        old(program).wf(),
        old(balances).wf(),
    ensures
        final(program).wf(),
        final(balances).wf(),
        final(program)@.program_id == old(program)@.program_id,
        match chain_run(old(program)@, old(balances).view(), submitted(ins)) {
            Ok((accounts, out, b)) => match r {
                Ok(t) => t.wf() && t.outcome_view() == out && t.state_before() == old(program)@
                    && t.balances_before() == old(balances).view()
                    && final(program)@.accounts == accounts
                    && forall|k: Pubkey| !rent_moved(submitted(ins), old(program)@.accounts, accounts).contains(k)
                        ==> #[trigger] lamports(final(balances).view(), k) == lamports(b, k),
                Err(_) => false,
            },
            Err(e) => r is Err && r->Err_0 == e && final(program)@ == old(program)@
                && final(balances).view() == old(balances).view(),
        },
{
    let before = program.snapshot();
    let before_balances = balances.snapshot();
    let outcome = run_on_chain(program, balances, submit(ins))?;
    Ok(PendingTransaction { before, before_balances, outcome })
}

/// Ends a transaction once the call of another program it handed back has
/// been made: if that call failed, the transaction fails with
/// `TransactionFailed` and the accounts and balances return to what they
/// were before it; otherwise (or where no call was handed back) its outcome
/// stands.
pub fn finish_transaction(
    program: &mut MajProgram,
    balances: &mut Balances,
    pending: PendingTransaction,
    call_succeeded: bool,
) -> (r: Result<Outcome, ChainError>)
    requires
        old(program).wf(),
        old(balances).wf(),
        pending.wf(),
    ensures
        final(program).wf(),
        final(balances).wf(),
        if hands_back_call(pending.outcome_view()) && !call_succeeded {
            &&& r == Err::<Outcome, ChainError>(ChainError::Program(InstructionError::Maj(MajError::TransactionFailed)))
            &&& final(program)@ == pending.state_before()
            &&& final(balances).view() == pending.balances_before()
        } else {
            &&& r is Ok
            &&& r->Ok_0@ == pending.outcome_view()
            &&& final(program)@ == old(program)@
            &&& final(balances).view() == old(balances).view()
        },
{
    let hands_back = match &pending.outcome.execution {
        Some(Execution::Invoke { .. }) => true,
        _ => false,
    };
    if hands_back && !call_succeeded {
        *program = pending.before;
        *balances = pending.before_balances;
        Err(ChainError::Program(InstructionError::Maj(MajError::TransactionFailed)))
    } else {
        Ok(pending.outcome)
    }
}

/// A transaction whose handed-back call failed changes nothing, and one
/// whose call succeeded (or that handed back none) is what the submitted
/// instruction does on the chain.
pub proof fn law_failed_call_changes_nothing(p: ProgramView, b: Map<Pubkey, u64>, ins: Instruction)
    requires
        chain_run(p, b, submitted(ins)) is Ok,
        hands_back_call(chain_run(p, b, submitted(ins))->Ok_0.1),
    ensures
        transaction_result(p, b, ins, false)
            == Err::<(Map<Pubkey, AccountView>, OutcomeView, Map<Pubkey, u64>), ChainError>(
                ChainError::Program(InstructionError::Maj(MajError::TransactionFailed))),
        transaction_result(p, b, ins, true) == chain_run(p, b, submitted(ins)),
{
}

/// An executed transfer moves exactly its value out of the wallet and into
/// the destination, and no other balance changes (where the instruction
/// closes no record).
pub proof fn law_transfer_moves_value(p: ProgramView, b: Map<Pubkey, u64>, ins: Instruction)
    requires
        chain_run(p, b, ins) is Ok,
        chain_run(p, b, ins)->Ok_0.1.execution matches Some(ExecutionView::Transfer { .. }),
        refund_of(p, ins) is None,
    ensures
        ({
            let (_, out, b2) = chain_run(p, b, ins)->Ok_0;
            let (from, to, value) = match out.execution {
                Some(ExecutionView::Transfer { from, to, lamports: value }) => (from, to, value),
                _ => arbitrary(),
            };
            &&& from != to ==> lamports(b2, from) == lamports(b, from) - value
            &&& from != to ==> lamports(b2, to) == lamports(b, to) + value
            &&& from == to ==> b2 == b
            &&& forall|k: Pubkey| k != from && k != to ==> lamports(b2, k) == lamports(b, k)
        }),
{
}

/// Closing a record gives all its lamports to the receiver: afterwards the
/// record holds none and the receiver holds what both held (where the
/// instruction asked for no transfer).
pub proof fn law_closed_record_refunds(p: ProgramView, b: Map<Pubkey, u64>, ins: Instruction)
    requires
        chain_run(p, b, ins) is Ok,
        !(chain_run(p, b, ins)->Ok_0.1.execution matches Some(ExecutionView::Transfer { .. })),
        refund_of(p, ins) matches Some((closed, receiver)) && closed != receiver,
    ensures
        ({
            let (_, _, b2) = chain_run(p, b, ins)->Ok_0;
            let (closed, receiver) = refund_of(p, ins)->Some_0;
            &&& lamports(b2, closed) == 0
            &&& lamports(b2, receiver) == lamports(b, receiver) + lamports(b, closed)
            &&& forall|k: Pubkey| k != closed && k != receiver ==> lamports(b2, k) == lamports(b, k)
        }),
{
}

} // verus!
