use vstd::prelude::*;
use crate::errors::{InstructionError, MajError};
use crate::events::{MajEvent, MajEventView, Outcome, OutcomeView, SignatureRevoked};
use crate::instructions::accounts::{
    admin_record_at, check_seeds, check_wallet_and_tx, derive_address, derived, instance_at,
    load_admin_record, load_instance, load_signature, load_transaction, seeds_match, signature_at,
    take_transaction, transaction_at, transaction_ref, wallet_and_tx_match, with_data, missing_as, or_missing,
};
use crate::pda::{admin_record_seed_list, admin_record_seeds, sig_seed_list, sig_seeds};
use crate::program::{follows, AccountData, AccountDataView, AccountView, MajProgram, ProgramView, StepResult, StoredAccount};
use crate::pubkey::Pubkey;
use crate::state::transaction::MajTransactionView;

verus! {

/// The accounts of `revoke_signature`: the wallet, the transaction, and the
/// admin, who signs.
pub struct RevokeSignature {
    pub maj_instance: Pubkey,
    pub maj_transaction: Pubkey,
    pub admin: Pubkey,
}

/// `revoke_signature`: the wallet, the transaction, the admin's signature
/// record for it and the admin's record must exist and match their seeds; the
/// transaction must be active and belong to the wallet.  Then its count of
/// signatures drops by one and the signature record is closed.
pub open spec fn revoke_signature_step(p: ProgramView, ctx: RevokeSignature) -> StepResult {
    let key = ctx.maj_instance;
    let tx_key = ctx.maj_transaction;
    match instance_at(p.accounts, key) {
        Err(e) => Err(e),
        Ok(inst) => match transaction_at(p.accounts, tx_key) {
            Err(e) => Err(e),
            Ok(tx) => match derived(p, sig_seeds(tx_key, ctx.admin)) {
                Err(e) => Err(e),
                Ok((sig_key, _)) => match missing_as(signature_at(p.accounts, sig_key), MajError::UserHasNotSigned) {
                    Err(e) => Err(e),
                    Ok(sig) => match derived(p, admin_record_seeds(ctx.admin, key)) {
                        Err(e) => Err(e),
                        Ok((rec_key, _)) => match missing_as(admin_record_at(p.accounts, rec_key), MajError::OnlyAdmin) {
                            Err(e) => Err(e),
                            Ok(rec) => match wallet_and_tx_match(p, key, inst, tx_key, tx) {
                                Err(e) => Err(e),
                                Ok(()) => if !tx.active {
                                    Err(InstructionError::Maj(MajError::TransactionNotActive))
                                } else if tx.maj_instance != key {
                                    Err(InstructionError::Maj(MajError::OnlyAdmin))
                                } else {
                                    match seeds_match(p, sig_seeds(tx_key, ctx.admin), sig_key, sig.bump) {
                                        Err(e) => Err(e),
                                        Ok(()) => match seeds_match(p, admin_record_seeds(ctx.admin, key), rec_key, rec.bump) {
                                            Err(e) => Err(e),
                                            Ok(()) => if tx.num_signatures == 0 {
                                                Err(InstructionError::Aborted)
                                            } else {
                                                let n = (tx.num_signatures - 1) as u32;
                                                Ok((
                                                    with_data(p.accounts, tx_key, AccountDataView::Transaction(MajTransactionView {
                                                        num_signatures: n,
                                                        ..tx
                                                    })).remove(sig_key),
                                                    OutcomeView {
                                                        events: seq![MajEventView::SignatureRevoked(SignatureRevoked {
                                                            tx_index: tx.tx_index,
                                                            admin: ctx.admin,
                                                            num_signatures: n,
                                                        })],
                                                        execution: None,
                                                    },
                                                ))
                                            },
                                        },
                                    }
                                },
                            },
                        },
                    },
                },
            },
        },
    }
}

/// An admin withdraws a signature from an active transaction.
#[verifier::rlimit(30)]
pub fn handler(program: &mut MajProgram, ctx: &RevokeSignature) -> (r: Result<Outcome, InstructionError>)
    requires
        old(program).wf(),
    ensures
        final(program).wf(),
        follows(old(program)@, final(program)@, r, revoke_signature_step(old(program)@, *ctx)),
{
    let key = ctx.maj_instance;
    let tx_key = ctx.maj_transaction;
    let i = load_instance(program, &key)?;
    let j = load_transaction(program, &tx_key)?;
    let sig_seeds = sig_seed_list(&tx_key, &ctx.admin);
    let (sig_key, _) = derive_address(program, &sig_seeds)?;
    let (_, sig) = or_missing(load_signature(program, &sig_key), MajError::UserHasNotSigned)?;
    let rec_seeds = admin_record_seed_list(&ctx.admin, &key);
    let (rec_key, _) = derive_address(program, &rec_seeds)?;
    let rec = or_missing(load_admin_record(program, &rec_key), MajError::OnlyAdmin)?;
    check_wallet_and_tx(program, i, &key, j, &tx_key)?;
    let tx = transaction_ref(program, j);
    if !tx.active {
        return Err(InstructionError::Maj(MajError::TransactionNotActive));
    }
    if !tx.maj_instance.key_eq(&key) {
        return Err(InstructionError::Maj(MajError::OnlyAdmin));
    }
    check_seeds(program, &sig_seeds, &sig_key, sig.bump)?;
    check_seeds(program, &rec_seeds, &rec_key, rec.bump)?;
    if tx.num_signatures == 0 {
        return Err(InstructionError::Aborted);
    }
    let ghost pre = program@;
    let (k, seeds, space, mut tx) = take_transaction(program, j);
    tx.num_signatures = tx.num_signatures - 1;
    let tx_index = tx.tx_index;
    let n = tx.num_signatures;
    program.put(StoredAccount { key: k, seeds, space, data: AccountData::Transaction(tx) });
    assert(program@.accounts =~= with_data(pre.accounts, k, program@.accounts[k].data));
    let s = match program.find(&sig_key) {
        Some(s) => s,
        None => vstd::pervasive::unreached(),
    };
    let _closed = program.take(s);
    let out = Outcome {
        events: vec![MajEvent::SignatureRevoked(SignatureRevoked { tx_index, admin: ctx.admin, num_signatures: n })],
        execution: None,
    };
    assert(out@.events =~= revoke_signature_step(pre, *ctx)->Ok_0.1.events);
    Ok(out)
}

} // verus!
