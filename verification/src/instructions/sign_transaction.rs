use vstd::prelude::*;
use crate::errors::{InstructionError, MajError};
use crate::events::{MajEvent, MajEventView, Outcome, OutcomeView, TransactionSigned};
use crate::instructions::accounts::{
    admin_record_at, check_free, check_seeds, check_wallet_and_tx, derive_address, derived, free_at,
    instance_at, instance_ref, load_admin_record, load_instance, load_transaction, seeds_match,
    take_transaction, transaction_at, transaction_ref, wallet_and_tx_match, with_data, AccountRef,
    missing_as, or_missing, or_taken, taken_as,
};
use crate::instructions::execute_transaction::{execute_transaction_logic, executed_step, execution};
use crate::pda::{admin_record_seed_list, admin_record_seeds, sig_seed_list, sig_seeds};
use crate::program::{follows, AccountData, AccountDataView, AccountView, MajProgram, ProgramView, StepResult, StoredAccount};
use crate::pubkey::Pubkey;
use crate::state::instance::MajInstanceView;
use crate::state::transaction::{MajTransactionView, SignatureRecord};

verus! {

/// The accounts of `sign_transaction`: the wallet, the transaction, the admin
/// who signs, and the accounts an execution at the threshold needs.
pub struct SignTransaction {
    pub maj_instance: Pubkey,
    pub maj_transaction: Pubkey,
    pub admin: Pubkey,
    pub remaining_accounts: Vec<AccountRef>,
}

/// What follows once a signature was counted: with `signed` the transaction
/// with its new count, in the accounts `base`, it is executed if the count
/// reached the threshold (read as a 32-bit number), and only recorded if not.
pub open spec fn after_signature(
    p: ProgramView,
    base: Map<Pubkey, AccountView>,
    key: Pubkey,
    inst: MajInstanceView,
    tx_key: Pubkey,
    signed: MajTransactionView,
    events: Seq<MajEventView>,
    remaining: Seq<AccountRef>,
) -> StepResult {
    if signed.num_signatures >= inst.sigs_required as u32 {
        match execution(key, inst, signed, remaining) {
            Err(e) => Err(InstructionError::Maj(e)),
            Ok((done, exec, event)) => Ok(executed_step(
                ProgramView { program_id: p.program_id, accounts: base },
                tx_key,
                events,
                done,
                exec,
                event,
            )),
        }
    } else {
        Ok((
            with_data(base, tx_key, AccountDataView::Transaction(signed)),
            OutcomeView { events, execution: None },
        ))
    }
}

/// `sign_transaction`: the wallet, the transaction and the caller's admin
/// record must exist and match their seeds (a caller without an admin record
/// is refused as `OnlyAdmin`); the transaction must be active and belong to
/// the wallet; the caller's signature record must not exist yet (else
/// `DuplicateSignature`).
/// Then the record is created, the count of signatures grows by one, and the
/// transaction is executed if the count reached the threshold.
pub open spec fn sign_transaction_step(p: ProgramView, ctx: SignTransaction) -> StepResult {
    let key = ctx.maj_instance;
    let tx_key = ctx.maj_transaction;
    match instance_at(p.accounts, key) {
        Err(e) => Err(e),
        Ok(inst) => match transaction_at(p.accounts, tx_key) {
            Err(e) => Err(e),
            Ok(tx) => match derived(p, admin_record_seeds(ctx.admin, key)) {
                Err(e) => Err(e),
                Ok((rec_key, _)) => match missing_as(admin_record_at(p.accounts, rec_key), MajError::OnlyAdmin) {
                    Err(e) => Err(e),
                    Ok(rec) => match wallet_and_tx_match(p, key, inst, tx_key, tx) {
                        Err(e) => Err(e),
                        Ok(()) => if !tx.active {
                            Err(InstructionError::Maj(MajError::TransactionNotActive))
                        } else if tx.maj_instance != key {
                            Err(InstructionError::Maj(MajError::OnlyAdmin))
                        } else {
                            match derived(p, sig_seeds(tx_key, ctx.admin)) {
                                Err(e) => Err(e),
                                Ok((sig_key, sig_bump)) => match taken_as(free_at(p.accounts, sig_key), MajError::DuplicateSignature) {
                                    Err(e) => Err(e),
                                    Ok(()) => match seeds_match(p, admin_record_seeds(ctx.admin, key), rec_key, rec.bump) {
                                        Err(e) => Err(e),
                                        Ok(()) => if tx.num_signatures == u32::MAX {
                                            Err(InstructionError::Aborted)
                                        } else {
                                            let n = (tx.num_signatures + 1) as u32;
                                            let signed = MajTransactionView { num_signatures: n, ..tx };
                                            let base = p.accounts.insert(sig_key, AccountView {
                                                seeds: sig_seeds(tx_key, ctx.admin),
                                                space: 9,
                                                data: AccountDataView::Signature(SignatureRecord { bump: sig_bump }),
                                            });
                                            let ev = MajEventView::TransactionSigned(TransactionSigned {
                                                tx_index: tx.tx_index,
                                                admin: ctx.admin,
                                                num_signatures: n,
                                            });
                                            after_signature(p, base, key, inst, tx_key, signed, seq![ev], ctx.remaining_accounts@)
                                        },
                                    },
                                },
                            }
                        },
                    },
                },
            },
        },
    }
}

/// An admin approves an active transaction; reaching the threshold executes it.
#[verifier::rlimit(40)]
pub fn handler(program: &mut MajProgram, ctx: &SignTransaction) -> (r: Result<Outcome, InstructionError>)
    requires
        old(program).wf(),
    ensures
        final(program).wf(),
        follows(old(program)@, final(program)@, r, sign_transaction_step(old(program)@, *ctx)),
{
    let key = ctx.maj_instance;
    let tx_key = ctx.maj_transaction;
    let i = load_instance(program, &key)?;
    let j = load_transaction(program, &tx_key)?;
    let rec_seeds = admin_record_seed_list(&ctx.admin, &key);
    let (rec_key, _) = derive_address(program, &rec_seeds)?;
    let rec = or_missing(load_admin_record(program, &rec_key), MajError::OnlyAdmin)?;
    check_wallet_and_tx(program, i, &key, j, &tx_key)?;
    let tx = transaction_ref(program, j);
    if !tx.active {
        return Err(InstructionError::Maj(MajError::TransactionNotActive));
    }
    if !tx.maj_instance.key_eq(&key) {
        return Err(InstructionError::Maj(MajError::OnlyAdmin));
    }
    let sig_seeds = sig_seed_list(&tx_key, &ctx.admin);
    let (sig_key, sig_bump) = derive_address(program, &sig_seeds)?;
    or_taken(check_free(program, &sig_key), MajError::DuplicateSignature)?;
    check_seeds(program, &rec_seeds, &rec_key, rec.bump)?;
    if tx.num_signatures == u32::MAX {
        return Err(InstructionError::Aborted);
    }
    let ghost pre = program@;
    proof {
        program.lemma_index(i as int);
        program.lemma_index(j as int);
    }
    let (k, seeds, space, mut tx) = take_transaction(program, j);
    tx.num_signatures = tx.num_signatures + 1;
    let n = tx.num_signatures;
    let tx_index = tx.tx_index;
    let ghost signed = tx@;
    let i2 = match program.find(&key) {
        Some(i2) => i2,
        None => vstd::pervasive::unreached(),
    };
    let inst = instance_ref(program, i2);
    assert(inst@ == pre.accounts[key].data->Instance_0);
    let mut events = vec![MajEvent::TransactionSigned(TransactionSigned { tx_index, admin: ctx.admin, num_signatures: n })];
    let ghost ev = MajEventView::TransactionSigned(TransactionSigned { tx_index, admin: ctx.admin, num_signatures: n });
    let mut execution_request = None;
    let reached = n >= inst.sigs_required as u32;
    if reached {
        match execute_transaction_logic(&key, inst, &mut tx, &ctx.remaining_accounts) {
            Err(e) => {
                tx.num_signatures = tx.num_signatures - 1;
                program.put(StoredAccount { key: k, seeds, space, data: AccountData::Transaction(tx) });
                assert(program@.accounts =~= pre.accounts);
                return Err(InstructionError::Maj(e));
            },
            Ok((exec, event)) => {
                events.push(event);
                execution_request = Some(exec);
            },
        }
    }
    let ghost final_tx = tx@;
    program.put(StoredAccount { key: k, seeds, space, data: AccountData::Transaction(tx) });
    proof {
        assert(!program@.accounts.contains_key(sig_key));
    }
    program.put(StoredAccount {
        key: sig_key,
        seeds: sig_seeds,
        space: SignatureRecord::SPACE,
        data: AccountData::Signature(SignatureRecord { bump: sig_bump }),
    });
    let out = Outcome { events, execution: execution_request };
    proof {
        let base = pre.accounts.insert(sig_key, program@.accounts[sig_key]);
        assert(program@.accounts =~= with_data(base, tx_key, AccountDataView::Transaction(final_tx)));
        if reached {
            assert(out@.events =~= seq![ev].push(out@.events.last()));
        } else {
            assert(out@.events =~= seq![ev]);
        }
    }
    Ok(out)
}

} // verus!
