use vstd::prelude::*;
use crate::errors::{InstructionError, MajError};
use crate::events::{Execution, ExecutionView, MajEvent, MajEventView, Outcome, OutcomeView, TransactionExecuted};
use crate::instructions::accounts::{
    admin_record_at, check_seeds, check_wallet_and_tx, derive_address, derived, find_passed,
    instance_at, instance_ref, load_admin_record, load_instance, load_transaction, passed, missing_as, or_missing,
    seeds_match, take_transaction, transaction_at, transaction_ref, wallet_and_tx_match, with_data,
    AccountRef,
};
use crate::pda::{admin_record_seed_list, admin_record_seeds};
use crate::program::{follows, AccountData, AccountDataView, AccountView, MajProgram, ProgramView, StepResult, StoredAccount};
use crate::pubkey::Pubkey;
use crate::state::instance::{MajInstance, MajInstanceView};
use crate::state::transaction::{MajTransaction, MajTransactionView, SerializedAccountMeta};

verus! {

/// Whether every account a call names is the wallet itself or was passed along.
pub open spec fn call_accounts_passed(key: Pubkey, metas: Seq<SerializedAccountMeta>, remaining: Seq<AccountRef>) -> bool {
    forall|m: int| 0 <= m < metas.len() ==> metas[m].pubkey == key || passed(remaining, #[trigger] metas[m].pubkey)
}

/// Executing an approved transaction of the wallet at `key`: it must be active
/// and hold at least the threshold of signatures (the threshold read as a
/// 32-bit number).  It becomes inactive and executed.  A transfer asks to move
/// its value from the wallet to `to`, which must have been passed along; a
/// call asks to invoke its program, which must have been passed along, over
/// its accounts, each of which must be the wallet or have been passed along,
/// with the wallet signing.
pub open spec fn execution(
    key: Pubkey,
    inst: MajInstanceView,
    tx: MajTransactionView,
    remaining: Seq<AccountRef>,
) -> Result<(MajTransactionView, ExecutionView, MajEventView), MajError> {
    if !tx.active {
        Err(MajError::TransactionNotActive)
    } else if tx.num_signatures < inst.sigs_required as u32 {
        Err(MajError::InsufficientSignatures)
    } else {
        let done = MajTransactionView { active: false, executed: true, ..tx };
        let event = MajEventView::TransactionExecuted { tx_index: tx.tx_index, to: tx.to, value: tx.value, data: tx.data };
        match tx.program_id {
            None => if !passed(remaining, tx.to) {
                Err(MajError::TransactionFailed)
            } else {
                Ok((done, ExecutionView::Transfer { from: key, to: tx.to, lamports: tx.value }, event))
            },
            Some(pid) => if !passed(remaining, pid) || !call_accounts_passed(key, tx.account_metas, remaining) {
                Err(MajError::TransactionFailed)
            } else {
                Ok((
                    done,
                    ExecutionView::Invoke { program_id: pid, accounts: tx.account_metas, data: tx.data, signer: key },
                    event,
                ))
            },
        }
    }
}

/// Whether every account a call names is the wallet or was passed along.
fn check_call_accounts(key: &Pubkey, metas: &Vec<SerializedAccountMeta>, remaining: &Vec<AccountRef>) -> (b: bool)
    ensures
        b == call_accounts_passed(*key, metas@, remaining@),
{
    let mut m: usize = 0;
    while m < metas.len()
        invariant
            m <= metas@.len(),
            forall|x: int| 0 <= x < m ==> metas@[x].pubkey == *key || passed(remaining@, #[trigger] metas@[x].pubkey),
        decreases metas@.len() - m,
    {
        let meta = metas[m];
        if !meta.pubkey.key_eq(key) {
            match find_passed(remaining, &meta.pubkey) {
                Some(_) => {},
                None => {
                    return false;
                },
            }
        }
        m = m + 1;
    }
    true
}

/// Executes an approved transaction of the wallet at `maj_instance_key`: marks
/// it executed and says what the runtime must do.  On failure the transaction
/// is unchanged.
pub fn execute_transaction_logic(
    maj_instance_key: &Pubkey,
    maj_instance: &MajInstance,
    tx: &mut MajTransaction,
    remaining_accounts: &Vec<AccountRef>,
) -> (r: Result<(Execution, MajEvent), MajError>)
    ensures
        match execution(*maj_instance_key, maj_instance@, old(tx)@, remaining_accounts@) {
            Ok((done, exec, event)) => match r {
                Ok((x, e)) => final(tx)@ == done && x@ == exec && e@ == event,
                Err(_) => false,
            },
            Err(e) => r == Err::<(Execution, MajEvent), MajError>(e) && final(tx)@ == old(tx)@,
        },
{
    if !tx.active {
        return Err(MajError::TransactionNotActive);
    }
    if tx.num_signatures < maj_instance.sigs_required as u32 {
        return Err(MajError::InsufficientSignatures);
    }
    let exec = match tx.program_id {
        None => {
            match find_passed(remaining_accounts, &tx.to) {
                Some(_) => {},
                None => {
                    return Err(MajError::TransactionFailed);
                },
            }
            Execution::Transfer { from: *maj_instance_key, to: tx.to, lamports: tx.value }
        },
        Some(pid) => {
            match find_passed(remaining_accounts, &pid) {
                Some(_) => {},
                None => {
                    return Err(MajError::TransactionFailed);
                },
            }
            if !check_call_accounts(maj_instance_key, &tx.account_metas, remaining_accounts) {
                return Err(MajError::TransactionFailed);
            }
            Execution::Invoke {
                program_id: pid,
                accounts: tx.account_metas.clone(),
                data: tx.data.clone(),
                signer: *maj_instance_key,
            }
        },
    };
    tx.active = false;
    tx.executed = true;
    let event = MajEvent::TransactionExecuted(TransactionExecuted {
        tx_index: tx.tx_index,
        to: tx.to,
        value: tx.value,
        data: tx.data.clone(),
    });
    Ok((exec, event))
}

/// The accounts of `execute_transaction`: the wallet, the transaction, the
/// admin who signs, and the accounts the execution needs.
pub struct ExecuteTransaction {
    pub maj_instance: Pubkey,
    pub maj_transaction: Pubkey,
    pub admin: Pubkey,
    pub remaining_accounts: Vec<AccountRef>,
}

/// The state and outcome after the wallet at `key` executed the transaction
/// at `tx_key`, given what `execution` produced.
pub open spec fn executed_step(
    p: ProgramView,
    tx_key: Pubkey,
    events: Seq<MajEventView>,
    done: MajTransactionView,
    exec: ExecutionView,
    event: MajEventView,
) -> (Map<Pubkey, AccountView>, OutcomeView) {
    (
        with_data(p.accounts, tx_key, AccountDataView::Transaction(done)),
        OutcomeView { events: events.push(event), execution: Some(exec) },
    )
}

/// `execute_transaction`: the wallet, the transaction and the caller's admin
/// record must exist and match their seeds; the transaction must be active,
/// hold the threshold of signatures and belong to the wallet.  Then it is
/// executed as `execution` says.
pub open spec fn execute_transaction_step(p: ProgramView, ctx: ExecuteTransaction) -> StepResult {
    let key = ctx.maj_instance;
    let tx_key = ctx.maj_transaction;
    match instance_at(p.accounts, key) {
        Err(e) => Err(e),
        Ok(inst) => match transaction_at(p.accounts, tx_key) {
            Err(e) => Err(e),
            Ok(tx) => match derived(p, admin_record_seeds(ctx.admin, key)) {
                Err(e) => Err(e),
                Ok((rec_key, _)) => match missing_as(admin_record_at(p.accounts, rec_key), MajError::OnlyAdmin) {
                    Err(e) => Err(e),
                    Ok(rec) => match wallet_and_tx_match(p, key, inst, tx_key, tx) {
                        Err(e) => Err(e),
                        Ok(()) => if !tx.active {
                            Err(InstructionError::Maj(MajError::TransactionNotActive))
                        } else if tx.num_signatures < inst.sigs_required as u32 {
                            Err(InstructionError::Maj(MajError::InsufficientSignatures))
                        } else if tx.maj_instance != key {
                            Err(InstructionError::Maj(MajError::OnlyAdmin))
                        } else {
                            match seeds_match(p, admin_record_seeds(ctx.admin, key), rec_key, rec.bump) {
                                Err(e) => Err(e),
                                Ok(()) => match execution(key, inst, tx, ctx.remaining_accounts@) {
                                    Err(e) => Err(InstructionError::Maj(e)),
                                    Ok((done, exec, event)) => Ok(executed_step(p, tx_key, Seq::empty(), done, exec, event)),
                                },
                            }
                        },
                    },
                },
            },
        },
    }
}

/// Executes the transaction at `j` of the wallet at `i`, recording `events`
/// before the execution's own event.
pub(crate) fn execute_in_place(
    program: &mut MajProgram,
    i: usize,
    j: usize,
    events: Vec<MajEvent>,
    remaining_accounts: &Vec<AccountRef>,
) -> (r: Result<Outcome, InstructionError>)
    requires
        old(program).wf(),
        i < old(program).accounts@.len(),
        old(program).accounts@[i as int].data is Instance,
        j < old(program).accounts@.len(),
        old(program).accounts@[j as int].data is Transaction,
    ensures
        final(program).wf(),
        ({
            let pre = old(program)@;
            let key = old(program).accounts@[i as int].key;
            let tx_key = old(program).accounts@[j as int].key;
            let inst = old(program).accounts@[i as int].data->Instance_0@;
            let tx = old(program).accounts@[j as int].data->Transaction_0@;
            follows(pre, final(program)@, r, match execution(key, inst, tx, remaining_accounts@) {
                Err(e) => Err(InstructionError::Maj(e)),
                Ok((done, exec, event)) => Ok(executed_step(pre, tx_key, crate::events::events_view(events@), done, exec, event)),
            })
        }),
{
    let ghost pre = program@;
    let key = program.at(i).key;
    proof {
        program.lemma_index(i as int);
        program.lemma_index(j as int);
    }
    let (k, seeds, space, mut tx) = take_transaction(program, j);
    let i2 = match program.find(&key) {
        Some(i2) => i2,
        None => vstd::pervasive::unreached(),
    };
    let ghost old_events = events@;
    let ghost old_tx = tx@;
    let inst = instance_ref(program, i2);
    assert(inst@ == old(program).accounts@[i as int].data->Instance_0@);
    match execute_transaction_logic(&key, inst, &mut tx, remaining_accounts) {
        Err(e) => {
            program.put(StoredAccount { key: k, seeds, space, data: AccountData::Transaction(tx) });
            assert(program@.accounts =~= pre.accounts);
            Err(InstructionError::Maj(e))
        },
        Ok((exec, event)) => {
            let ghost done = tx@;
            program.put(StoredAccount { key: k, seeds, space, data: AccountData::Transaction(tx) });
            assert(program@.accounts =~= with_data(pre.accounts, k, AccountDataView::Transaction(done)));
            let mut events = events;
            events.push(event);
            let out = Outcome { events, execution: Some(exec) };
            assert(out@.events =~= crate::events::events_view(old_events).push(event@));
            Ok(out)
        },
    }
}

/// An admin executes an approved transaction.
pub fn handler(program: &mut MajProgram, ctx: &ExecuteTransaction) -> (r: Result<Outcome, InstructionError>)
    requires
        old(program).wf(),
    ensures
        final(program).wf(),
        follows(old(program)@, final(program)@, r, execute_transaction_step(old(program)@, *ctx)),
{
    let key = ctx.maj_instance;
    let tx_key = ctx.maj_transaction;
    let i = load_instance(program, &key)?;
    let j = load_transaction(program, &tx_key)?;
    let rec_seeds = admin_record_seed_list(&ctx.admin, &key);
    let (rec_key, _) = derive_address(program, &rec_seeds)?;
    let rec = or_missing(load_admin_record(program, &rec_key), MajError::OnlyAdmin)?;
    check_wallet_and_tx(program, i, &key, j, &tx_key)?;
    let tx = transaction_ref(program, j);
    if !tx.active {
        return Err(InstructionError::Maj(MajError::TransactionNotActive));
    }
    if tx.num_signatures < instance_ref(program, i).sigs_required as u32 {
        return Err(InstructionError::Maj(MajError::InsufficientSignatures));
    }
    if !tx.maj_instance.key_eq(&key) {
        return Err(InstructionError::Maj(MajError::OnlyAdmin));
    }
    check_seeds(program, &rec_seeds, &rec_key, rec.bump)?;
    let r = execute_in_place(program, i, j, Vec::new(), &ctx.remaining_accounts);
    assert(crate::events::events_view(Seq::<MajEvent>::empty()) =~= Seq::<MajEventView>::empty());
    r
}

} // verus!
