//! The program's entry points, one per instruction, and the dispatch of an
//! instruction given as a value.
use vstd::prelude::*;
use crate::errors::InstructionError;
use crate::events::Outcome;
use crate::instructions::cancel_transaction::{cancel_transaction_step, CancelTransaction};
use crate::instructions::create_maj::{create_maj_step, CreateMaj};
use crate::instructions::execute_transaction::{execute_transaction_step, ExecuteTransaction};
use crate::instructions::governance::{
    add_admin_step, add_blacklist_step, change_sigs_required_step, remove_admin_step,
    remove_blacklist_step, AddAdmin, AddBlacklist, ChangeSigsRequired, RemoveAdmin, RemoveBlacklist,
};
use crate::instructions::initialize_registry::{initialize_registry_step, InitializeRegistry};
use crate::instructions::propose_transaction::{propose_transaction_step, ProposeTransaction};
use crate::instructions::revoke_signature::{revoke_signature_step, RevokeSignature};
use crate::instructions::sign_transaction::{sign_transaction_step, SignTransaction};
use crate::program::{follows, MajProgram, ProgramView, StepResult};
use crate::pubkey::Pubkey;
use crate::state::transaction::SerializedAccountMeta;

verus! {

/// Initialises the registry singleton; a second call fails because its address is taken.
pub fn initialize_registry(program: &mut MajProgram, ctx: &InitializeRegistry) -> (r: Result<Outcome, InstructionError>)
    requires
        old(program).wf(),
    ensures
        final(program).wf(),
        follows(old(program)@, final(program)@, r, initialize_registry_step(old(program)@)),
{
    crate::instructions::initialize_registry::handler(program, ctx)
}

/// Creates a named multisig wallet and one admin record per admin.
pub fn create_maj(program: &mut MajProgram, ctx: &CreateMaj, name: Vec<u8>, admins: Vec<Pubkey>, sigs_required: u64) -> (r: Result<Outcome, InstructionError>)
    requires
        old(program).wf(),
    ensures
        final(program).wf(),
        follows(old(program)@, final(program)@, r, create_maj_step(old(program)@, *ctx, name@, admins@, sigs_required)),
{
    crate::instructions::create_maj::handler(program, ctx, name, admins, sigs_required)
}

/// Proposes a transaction; an admin proposer signs it too, and executes it when that meets the threshold.
pub fn propose_transaction(program: &mut MajProgram, ctx: &ProposeTransaction, to: Pubkey, value: u64, data: Vec<u8>, program_id: Option<Pubkey>, account_metas: Vec<SerializedAccountMeta>) -> (r: Result<Outcome, InstructionError>)
    requires
        old(program).wf(),
    ensures
        final(program).wf(),
        follows(old(program)@, final(program)@, r, propose_transaction_step(old(program)@, *ctx, to, value, data@, program_id, account_metas@)),
{
    crate::instructions::propose_transaction::handler(program, ctx, to, value, data, program_id, account_metas)
}

/// An admin signs an active transaction; reaching the threshold executes it.
pub fn sign_transaction(program: &mut MajProgram, ctx: &SignTransaction) -> (r: Result<Outcome, InstructionError>)
    requires
        old(program).wf(),
    ensures
        final(program).wf(),
        follows(old(program)@, final(program)@, r, sign_transaction_step(old(program)@, *ctx)),
{
    crate::instructions::sign_transaction::handler(program, ctx)
}

/// Executes a transaction that holds the threshold of signatures.
pub fn execute_transaction(program: &mut MajProgram, ctx: &ExecuteTransaction) -> (r: Result<Outcome, InstructionError>)
    requires
        old(program).wf(),
    ensures
        final(program).wf(),
        follows(old(program)@, final(program)@, r, execute_transaction_step(old(program)@, *ctx)),
{
    crate::instructions::execute_transaction::handler(program, ctx)
}

/// An admin withdraws their signature from an active transaction.
pub fn revoke_signature(program: &mut MajProgram, ctx: &RevokeSignature) -> (r: Result<Outcome, InstructionError>)
    requires
        old(program).wf(),
    ensures
        final(program).wf(),
        follows(old(program)@, final(program)@, r, revoke_signature_step(old(program)@, *ctx)),
{
    crate::instructions::revoke_signature::handler(program, ctx)
}

/// The proposer withdraws an active transaction without executing it.
pub fn cancel_transaction(program: &mut MajProgram, ctx: &CancelTransaction) -> (r: Result<Outcome, InstructionError>)
    requires
        old(program).wf(),
    ensures
        final(program).wf(),
        follows(old(program)@, final(program)@, r, cancel_transaction_step(old(program)@, *ctx)),
{
    crate::instructions::cancel_transaction::handler(program, ctx)
}

/// Adds an admin (only through the wallet's own execution).
pub fn add_admin(program: &mut MajProgram, ctx: &AddAdmin, new_admin: Pubkey) -> (r: Result<Outcome, InstructionError>)
    requires
        old(program).wf(),
    ensures
        final(program).wf(),
        follows(old(program)@, final(program)@, r, add_admin_step(old(program)@, *ctx, new_admin)),
{
    crate::instructions::governance::add_admin_handler(program, ctx, new_admin)
}

/// Removes an admin, keeping at least two (only through the wallet's own execution).
pub fn remove_admin(program: &mut MajProgram, ctx: &RemoveAdmin, admin_to_remove: Pubkey) -> (r: Result<Outcome, InstructionError>)
    requires
        old(program).wf(),
    ensures
        final(program).wf(),
        follows(old(program)@, final(program)@, r, remove_admin_step(old(program)@, *ctx, admin_to_remove)),
{
    crate::instructions::governance::remove_admin_handler(program, ctx, admin_to_remove)
}

/// Changes the threshold within two and the number of admins (only through the wallet's own execution).
pub fn change_sigs_required(program: &mut MajProgram, ctx: &ChangeSigsRequired, new_sigs_required: u64) -> (r: Result<Outcome, InstructionError>)
    requires
        old(program).wf(),
    ensures
        final(program).wf(),
        follows(old(program)@, final(program)@, r, change_sigs_required_step(old(program)@, *ctx, new_sigs_required)),
{
    crate::instructions::governance::change_sigs_required_handler(program, ctx, new_sigs_required)
}

/// Blacklists an address so it cannot propose (only through the wallet's own execution).
pub fn add_blacklist(program: &mut MajProgram, ctx: &AddBlacklist, target: Pubkey) -> (r: Result<Outcome, InstructionError>)
    requires
        old(program).wf(),
    ensures
        final(program).wf(),
        follows(old(program)@, final(program)@, r, add_blacklist_step(old(program)@, *ctx, target)),
{
    crate::instructions::governance::add_blacklist_handler(program, ctx, target)
}

/// Lifts a blacklisting (only through the wallet's own execution).
pub fn remove_blacklist(program: &mut MajProgram, ctx: &RemoveBlacklist, target: Pubkey) -> (r: Result<Outcome, InstructionError>)
    requires
        old(program).wf(),
    ensures
        final(program).wf(),
        follows(old(program)@, final(program)@, r, remove_blacklist_step(old(program)@, *ctx, target)),
{
    crate::instructions::governance::remove_blacklist_handler(program, ctx, target)
}

/// An instruction with its accounts and arguments.
pub enum Instruction {
    InitializeRegistry(InitializeRegistry),
    CreateMaj { accounts: CreateMaj, name: Vec<u8>, admins: Vec<Pubkey>, sigs_required: u64 },
    ProposeTransaction {
        accounts: ProposeTransaction,
        to: Pubkey,
        value: u64,
        data: Vec<u8>,
        program_id: Option<Pubkey>,
        account_metas: Vec<SerializedAccountMeta>,
    },
    SignTransaction(SignTransaction),
    ExecuteTransaction(ExecuteTransaction),
    RevokeSignature(RevokeSignature),
    CancelTransaction(CancelTransaction),
    AddAdmin { accounts: AddAdmin, new_admin: Pubkey },
    RemoveAdmin { accounts: RemoveAdmin, admin_to_remove: Pubkey },
    ChangeSigsRequired { accounts: ChangeSigsRequired, new_sigs_required: u64 },
    AddBlacklist { accounts: AddBlacklist, target: Pubkey },
    RemoveBlacklist { accounts: RemoveBlacklist, target: Pubkey },
}

/// What an instruction does to the program's state.
pub open spec fn step(p: ProgramView, ins: Instruction) -> StepResult {
    match ins {
        Instruction::InitializeRegistry(_) => initialize_registry_step(p),
        Instruction::CreateMaj { accounts, name, admins, sigs_required } =>
            create_maj_step(p, accounts, name@, admins@, sigs_required),
        Instruction::ProposeTransaction { accounts, to, value, data, program_id, account_metas } =>
            propose_transaction_step(p, accounts, to, value, data@, program_id, account_metas@),
        Instruction::SignTransaction(accounts) => sign_transaction_step(p, accounts),
        Instruction::ExecuteTransaction(accounts) => execute_transaction_step(p, accounts),
        Instruction::RevokeSignature(accounts) => revoke_signature_step(p, accounts),
        Instruction::CancelTransaction(accounts) => cancel_transaction_step(p, accounts),
        Instruction::AddAdmin { accounts, new_admin } => add_admin_step(p, accounts, new_admin),
        Instruction::RemoveAdmin { accounts, admin_to_remove } => remove_admin_step(p, accounts, admin_to_remove),
        Instruction::ChangeSigsRequired { accounts, new_sigs_required } =>
            change_sigs_required_step(p, accounts, new_sigs_required),
        Instruction::AddBlacklist { accounts, target } => add_blacklist_step(p, accounts, target),
        Instruction::RemoveBlacklist { accounts, target } => remove_blacklist_step(p, accounts, target),
    }
}

/// Runs one instruction.
pub fn process(program: &mut MajProgram, ins: Instruction) -> (r: Result<Outcome, InstructionError>)
    requires
        old(program).wf(),
    ensures
        final(program).wf(),
        follows(old(program)@, final(program)@, r, step(old(program)@, ins)),
{
    match ins {
        Instruction::InitializeRegistry(accounts) => initialize_registry(program, &accounts),
        Instruction::CreateMaj { accounts, name, admins, sigs_required } =>
            create_maj(program, &accounts, name, admins, sigs_required),
        Instruction::ProposeTransaction { accounts, to, value, data, program_id, account_metas } =>
            propose_transaction(program, &accounts, to, value, data, program_id, account_metas),
        Instruction::SignTransaction(accounts) => sign_transaction(program, &accounts),
        Instruction::ExecuteTransaction(accounts) => execute_transaction(program, &accounts),
        Instruction::RevokeSignature(accounts) => revoke_signature(program, &accounts),
        Instruction::CancelTransaction(accounts) => cancel_transaction(program, &accounts),
        Instruction::AddAdmin { accounts, new_admin } => add_admin(program, &accounts, new_admin),
        Instruction::RemoveAdmin { accounts, admin_to_remove } => remove_admin(program, &accounts, admin_to_remove),
        Instruction::ChangeSigsRequired { accounts, new_sigs_required } =>
            change_sigs_required(program, &accounts, new_sigs_required),
        Instruction::AddBlacklist { accounts, target } => add_blacklist(program, &accounts, target),
        Instruction::RemoveBlacklist { accounts, target } => remove_blacklist(program, &accounts, target),
    }
}

} // verus!
