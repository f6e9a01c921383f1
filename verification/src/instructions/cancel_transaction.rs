use vstd::prelude::*;
use crate::errors::{InstructionError, MajError};
use crate::events::{MajEvent, MajEventView, Outcome, OutcomeView, TransactionCancelled};
use crate::instructions::accounts::{
    admin_record_at, check_seeds, check_wallet_and_tx, derive_address, derived, instance_at,
    load_admin_record, load_instance, load_transaction, seeds_match, take_transaction, missing_as, or_missing,
    transaction_at, transaction_ref, wallet_and_tx_match, with_data,
};
use crate::pda::{admin_record_seed_list, admin_record_seeds};
use crate::program::{follows, AccountData, AccountDataView, AccountView, MajProgram, ProgramView, StepResult, StoredAccount};
use crate::pubkey::Pubkey;
use crate::state::transaction::MajTransactionView;

verus! {

/// The accounts of `cancel_transaction`: the wallet, the transaction, and its
/// proposer, who signs.
pub struct CancelTransaction {
    pub maj_instance: Pubkey,
    pub maj_transaction: Pubkey,
    pub proposer: Pubkey,
}

/// `cancel_transaction`: the wallet, the transaction and the caller's admin
/// record must exist and match their seeds; the transaction must be active,
/// proposed by the caller and belong to the wallet.  Then it becomes inactive,
/// without being executed.
pub open spec fn cancel_transaction_step(p: ProgramView, ctx: CancelTransaction) -> StepResult {
    let key = ctx.maj_instance;
    let tx_key = ctx.maj_transaction;
    match instance_at(p.accounts, key) {
        Err(e) => Err(e),
        Ok(inst) => match transaction_at(p.accounts, tx_key) {
            Err(e) => Err(e),
            Ok(tx) => match derived(p, admin_record_seeds(ctx.proposer, key)) {
                Err(e) => Err(e),
                Ok((rec_key, _)) => match missing_as(admin_record_at(p.accounts, rec_key), MajError::OnlyAdmin) {
                    Err(e) => Err(e),
                    Ok(rec) => match wallet_and_tx_match(p, key, inst, tx_key, tx) {
                        Err(e) => Err(e),
                        Ok(()) => if !tx.active {
                            Err(InstructionError::Maj(MajError::TransactionNotActive))
                        } else if tx.proposed_by != ctx.proposer {
                            Err(InstructionError::Maj(MajError::OnlyProposerCanCancel))
                        } else if tx.maj_instance != key {
                            Err(InstructionError::Maj(MajError::OnlyAdmin))
                        } else {
                            match seeds_match(p, admin_record_seeds(ctx.proposer, key), rec_key, rec.bump) {
                                Err(e) => Err(e),
                                Ok(()) => Ok((
                                    with_data(p.accounts, tx_key, AccountDataView::Transaction(MajTransactionView {
                                        active: false,
                                        ..tx
                                    })),
                                    OutcomeView {
                                        events: seq![MajEventView::TransactionCancelled(TransactionCancelled {
                                            tx_index: tx.tx_index,
                                        })],
                                        execution: None,
                                    },
                                )),
                            }
                        },
                    },
                },
            },
        },
    }
}

/// The proposer withdraws an active transaction.
pub fn handler(program: &mut MajProgram, ctx: &CancelTransaction) -> (r: Result<Outcome, InstructionError>)
    requires
        old(program).wf(),
    ensures
        final(program).wf(),
        follows(old(program)@, final(program)@, r, cancel_transaction_step(old(program)@, *ctx)),
{
    let key = ctx.maj_instance;
    let tx_key = ctx.maj_transaction;
    let i = load_instance(program, &key)?;
    let j = load_transaction(program, &tx_key)?;
    let rec_seeds = admin_record_seed_list(&ctx.proposer, &key);
    let (rec_key, _) = derive_address(program, &rec_seeds)?;
    let rec = or_missing(load_admin_record(program, &rec_key), MajError::OnlyAdmin)?;
    check_wallet_and_tx(program, i, &key, j, &tx_key)?;
    let tx = transaction_ref(program, j);
    if !tx.active {
        return Err(InstructionError::Maj(MajError::TransactionNotActive));
    }
    if !tx.proposed_by.key_eq(&ctx.proposer) {
        return Err(InstructionError::Maj(MajError::OnlyProposerCanCancel));
    }
    if !tx.maj_instance.key_eq(&key) {
        return Err(InstructionError::Maj(MajError::OnlyAdmin));
    }
    check_seeds(program, &rec_seeds, &rec_key, rec.bump)?;
    let ghost pre = program@;
    let (k, seeds, space, mut tx) = take_transaction(program, j);
    tx.active = false;
    let tx_index = tx.tx_index;
    program.put(StoredAccount { key: k, seeds, space, data: AccountData::Transaction(tx) });
    assert(program@.accounts =~= with_data(pre.accounts, k, program@.accounts[k].data));
    let out = Outcome {
        events: vec![MajEvent::TransactionCancelled(TransactionCancelled { tx_index })],
        execution: None,
    };
    assert(out@.events =~= cancel_transaction_step(pre, *ctx)->Ok_0.1.events);
    Ok(out)
}

} // verus!
