use vstd::prelude::*;
use crate::errors::{InstructionError, MajError};
use crate::events::{MajEvent, MajEventView, Outcome, OutcomeView, TransactionProposed, TransactionSigned};
use crate::instructions::accounts::{
    check_free, check_seeds, derive_address, derived, find_passed, first_passed, free_at, instance_at,
    instance_ref, load_instance, passed, seeds_match, take_instance, with_data, AccountRef,
};
use crate::instructions::execute_transaction::execute_transaction_logic;
use crate::instructions::sign_transaction::after_signature;
use crate::pda::{
    admin_record_seed_list, admin_record_seeds, blacklist_seed_list, blacklist_seeds, instance_seed_list,
    instance_seeds, sig_seed_list, sig_seeds, tx_seed_list, tx_seeds,
};
use crate::program::{follows, AccountData, AccountDataView, AccountView, MajProgram, ProgramView, StepResult, StoredAccount};
use crate::pubkey::Pubkey;
use crate::state::instance::MajInstanceView;
use crate::state::transaction::{transaction_space, MajTransaction, MajTransactionView, SerializedAccountMeta, SignatureRecord};

verus! {

/// The accounts of `propose_transaction`: the wallet, the proposer who signs,
/// and the accounts passed along (an admin's signature record, and what an
/// execution needs).
pub struct ProposeTransaction {
    pub maj_instance: Pubkey,
    pub proposer: Pubkey,
    pub remaining_accounts: Vec<AccountRef>,
}

/// `propose_transaction`: the wallet must exist and match its name; the new
/// transaction's address (from the wallet and its count) must be free.  The
/// proposer is refused as `AddressIsBlacklisted` if their blacklist record
/// for the wallet exists.  The transaction is created active with no
/// signatures and the wallet's count grows by one.  If the proposer's admin
/// record for the wallet exists, the proposer also signs: their signature
/// record must have been passed along (else `OnlyAdmin`) and its address be
/// free; it is created, the count of signatures becomes one, and the
/// transaction is executed if that reaches the threshold.
pub open spec fn propose_transaction_step(
    p: ProgramView,
    ctx: ProposeTransaction,
    to: Pubkey,
    value: u64,
    data: Seq<u8>,
    program_id: Option<Pubkey>,
    account_metas: Seq<SerializedAccountMeta>,
) -> StepResult {
    let key = ctx.maj_instance;
    let remaining = ctx.remaining_accounts@;
    match instance_at(p.accounts, key) {
        Err(e) => Err(e),
        Ok(inst) => match seeds_match(p, instance_seeds(inst.name), key, inst.bump) {
            Err(e) => Err(e),
            Ok(()) => if transaction_space(data.len(), account_metas.len()) > usize::MAX {
                Err(InstructionError::Aborted)
            } else {
                match derived(p, tx_seeds(key, inst.tx_count)) {
                    Err(e) => Err(e),
                    Ok((tx_key, tx_bump)) => match free_at(p.accounts, tx_key) {
                        Err(e) => Err(e),
                        Ok(()) => match derived(p, blacklist_seeds(key, ctx.proposer)) {
                            Err(e) => Err(e),
                            Ok((black_key, _)) => if p.accounts.contains_key(black_key) {
                                Err(InstructionError::Maj(MajError::AddressIsBlacklisted))
                            } else {
                                match derived(p, admin_record_seeds(ctx.proposer, key)) {
                                    Err(e) => Err(e),
                                    Ok((admin_key, _)) => if inst.tx_count == u64::MAX {
                                        Err(InstructionError::Aborted)
                                    } else {
                                        let tx = MajTransactionView {
                                            maj_instance: key,
                                            tx_index: inst.tx_count,
                                            to,
                                            value,
                                            proposed_by: ctx.proposer,
                                            active: true,
                                            executed: false,
                                            num_signatures: 0,
                                            program_id,
                                            data,
                                            account_metas,
                                            bump: tx_bump,
                                        };
                                        let counted = MajInstanceView { tx_count: (inst.tx_count + 1) as u64, ..inst };
                                        let base = with_data(p.accounts, key, AccountDataView::Instance(counted)).insert(
                                            tx_key,
                                            AccountView {
                                                seeds: tx_seeds(key, inst.tx_count),
                                                space: transaction_space(data.len(), account_metas.len()) as usize,
                                                data: AccountDataView::Transaction(tx),
                                            },
                                        );
                                        let proposed = MajEventView::TransactionProposed {
                                            tx_index: inst.tx_count,
                                            to,
                                            value,
                                            data,
                                            proposed_by: ctx.proposer,
                                        };
                                        if !p.accounts.contains_key(admin_key) {
                                            Ok((base, OutcomeView { events: seq![proposed], execution: None }))
                                        } else {
                                            match derived(p, sig_seeds(tx_key, ctx.proposer)) {
                                                Err(e) => Err(e),
                                                Ok((sig_key, sig_bump)) => if !passed(remaining, sig_key) {
                                                    Err(InstructionError::Maj(MajError::OnlyAdmin))
                                                } else {
                                                    match free_at(base, sig_key) {
                                                        Err(e) => Err(e),
                                                        Ok(()) => {
                                                            let with_sig = base.insert(sig_key, AccountView {
                                                                seeds: sig_seeds(tx_key, ctx.proposer),
                                                                space: 9,
                                                                data: AccountDataView::Signature(SignatureRecord { bump: sig_bump }),
                                                            });
                                                            let signed = MajTransactionView { num_signatures: 1, ..tx };
                                                            let ev = MajEventView::TransactionSigned(TransactionSigned {
                                                                tx_index: inst.tx_count,
                                                                admin: ctx.proposer,
                                                                num_signatures: 1,
                                                            });
                                                            after_signature(p, with_sig, key, counted, tx_key, signed, seq![proposed, ev], remaining)
                                                        },
                                                    }
                                                },
                                            }
                                        }
                                    },
                                }
                            },
                        },
                    },
                }
            },
        },
    }
}

/// Anyone not blacklisted proposes a transaction; an admin's proposal carries
/// their signature.
#[verifier::rlimit(60)]
pub fn handler(
    program: &mut MajProgram,
    ctx: &ProposeTransaction,
    to: Pubkey,
    value: u64,
    data: Vec<u8>,
    program_id: Option<Pubkey>,
    account_metas: Vec<SerializedAccountMeta>,
) -> (r: Result<Outcome, InstructionError>)
    requires
        old(program).wf(),
    ensures
        final(program).wf(),
        follows(
            old(program)@,
            final(program)@,
            r,
            propose_transaction_step(old(program)@, *ctx, to, value, data@, program_id, account_metas@),
        ),
{
    let key = ctx.maj_instance;
    let proposer = ctx.proposer;
    let i = load_instance(program, &key)?;
    let inst = instance_ref(program, i);
    let name_seeds = instance_seed_list(&inst.name);
    check_seeds(program, &name_seeds, &key, inst.bump)?;
    let dl = data.len();
    let ml = account_metas.len();
    if ml > (usize::MAX - 170) / 34 || dl > usize::MAX - 170 - 34 * ml {
        return Err(InstructionError::Aborted);
    }
    let space = MajTransaction::space_for(dl, ml);
    let tx_index = inst.tx_count;
    let sigs_required = inst.sigs_required;
    let tx_seed_bytes = tx_seed_list(&key, tx_index);
    let (tx_key, tx_bump) = derive_address(program, &tx_seed_bytes)?;
    check_free(program, &tx_key)?;
    let black_seeds = blacklist_seed_list(&key, &proposer);
    let (black_key, _) = derive_address(program, &black_seeds)?;
    if check_free(program, &black_key).is_err() {
        return Err(InstructionError::Maj(MajError::AddressIsBlacklisted));
    }
    let admin_seeds = admin_record_seed_list(&proposer, &key);
    let (admin_key, _) = derive_address(program, &admin_seeds)?;
    if tx_index == u64::MAX {
        return Err(InstructionError::Aborted);
    }
    let is_admin = check_free(program, &admin_key).is_err();
    let ghost pre = program@;
    let mut tx = MajTransaction {
        maj_instance: key,
        tx_index,
        to,
        value,
        proposed_by: proposer,
        active: true,
        executed: false,
        num_signatures: 0,
        program_id,
        data,
        account_metas,
        bump: tx_bump,
    };
    let ghost fresh = tx@;
    let mut events = vec![MajEvent::TransactionProposed(TransactionProposed {
        tx_index,
        to,
        value,
        data: tx.data.clone(),
        proposed_by: proposer,
    })];
    let mut sig: Option<StoredAccount> = None;
    let mut execution_request = None;
    if is_admin {
        let sig_seed_bytes = sig_seed_list(&tx_key, &proposer);
        let (sig_key, sig_bump) = derive_address(program, &sig_seed_bytes)?;
        match find_passed(&ctx.remaining_accounts, &sig_key) {
            Some(_) => {},
            None => {
                return Err(InstructionError::Maj(MajError::OnlyAdmin));
            },
        }
        if sig_key.key_eq(&tx_key) {
            return Err(InstructionError::AccountAlreadyInUse);
        }
        check_free(program, &sig_key)?;
        tx.num_signatures = 1;
        events.push(MajEvent::TransactionSigned(TransactionSigned { tx_index, admin: proposer, num_signatures: 1 }));
        if 1 >= sigs_required as u32 {
            match execute_transaction_logic(&key, instance_ref(program, i), &mut tx, &ctx.remaining_accounts) {
                Err(e) => {
                    return Err(InstructionError::Maj(e));
                },
                Ok((exec, event)) => {
                    events.push(event);
                    execution_request = Some(exec);
                },
            }
        }
        sig = Some(StoredAccount {
            key: sig_key,
            seeds: sig_seed_bytes,
            space: SignatureRecord::SPACE,
            data: AccountData::Signature(SignatureRecord { bump: sig_bump }),
        });
    }
    let (k, seeds, inst_space, mut inst) = take_instance(program, i);
    inst.tx_count = tx_index + 1;
    let ghost counted = inst@;
    program.put(StoredAccount { key: k, seeds, space: inst_space, data: AccountData::Instance(inst) });
    let ghost final_tx = tx@;
    program.put(StoredAccount { key: tx_key, seeds: tx_seed_bytes, space, data: AccountData::Transaction(tx) });
    let ghost base = with_data(pre.accounts, key, AccountDataView::Instance(counted)).insert(tx_key, AccountView {
        seeds: tx_seeds(key, tx_index),
        space,
        data: AccountDataView::Transaction(fresh),
    });
    assert(program@.accounts =~= with_data(pre.accounts, key, AccountDataView::Instance(counted)).insert(tx_key, program@.accounts[tx_key]));
    match sig {
        Some(a) => {
            let ghost sk = a.key;
            let ghost sv = a@;
            program.put(a);
            proof {
                let with_sig = base.insert(sk, sv);
                assert(program@.accounts =~= with_data(with_sig, tx_key, AccountDataView::Transaction(final_tx)));
            }
        },
        None => {
            assert(program@.accounts =~= base);
        },
    }
    let out = Outcome { events, execution: execution_request };
    proof {
        let proposed = MajEventView::TransactionProposed {
            tx_index,
            to,
            value,
            data: fresh.data,
            proposed_by: proposer,
        };
        if is_admin {
            let ev = MajEventView::TransactionSigned(TransactionSigned { tx_index, admin: proposer, num_signatures: 1 });
            if 1 >= sigs_required as u32 {
                assert(out@.events =~= seq![proposed, ev].push(out@.events.last()));
            } else {
                assert(out@.events =~= seq![proposed, ev]);
            }
        } else {
            assert(out@.events =~= seq![proposed]);
        }
    }
    Ok(out)
}

} // verus!
