//! What each instruction that manages a wallet or one of its transactions
//! comes to, stated by its inputs: when it succeeds, and what the wallet or
//! the transaction is afterwards.
use vstd::prelude::*;
use crate::errors::{InstructionError, MajError};
use crate::events::{
    AdminAdded, AdminRemoved, AdminStatusUpdated, ExecutionView, MajEventView, SignatureRevoked, SignaturesRequiredChanged,
    TransactionCancelled, TransactionSigned,
};
use crate::instructions::accounts::{
    admin_record_at, derived, free_at, instance_at, passed, seeds_match, signature_at, transaction_at, wallet_and_tx_match,
    AccountRef,
};
use crate::instructions::sign_transaction::{sign_transaction_step, SignTransaction};
use crate::instructions::revoke_signature::{revoke_signature_step, RevokeSignature};
use crate::pda::sig_seeds;
use crate::instructions::cancel_transaction::{cancel_transaction_step, CancelTransaction};
use crate::instructions::execute_transaction::{call_accounts_passed, execute_transaction_step, ExecuteTransaction};
use crate::instructions::governance::{
    add_admin_step, add_blacklist_step, change_sigs_required_step, governed, remove_admin_step, remove_blacklist_step,
    AddAdmin, AddBlacklist, ChangeSigsRequired, RemoveAdmin, RemoveBlacklist,
};
use crate::instructions::accounts::blacklist_at;
use crate::pda::blacklist_seeds;
use crate::state::instance::{instance_space, BlacklistRecord};
use crate::instructions::create_maj::{admin_records_created, create_maj_step, creation_base, CreateMaj};
use crate::instructions::propose_transaction::{propose_transaction_step, ProposeTransaction};
use crate::laws::{admin_record_in, lemma_admin_records_created, lemma_no_admin_fault};
use crate::pda::{admin_record_seeds as record_seeds_of, blacklist_seeds as blacklist_seeds_of, instance_seeds, tx_seeds};
use crate::state::transaction::{transaction_space, SerializedAccountMeta};
use crate::pda::admin_record_seeds;
use crate::program::{AccountDataView, ProgramView};
use crate::pubkey::Pubkey;
use crate::state::instance::MajInstanceView;
use crate::state::transaction::MajTransactionView;

verus! {

/// The accounts of an instruction that an admin gives on a transaction are in
/// order: the wallet at `key` and the transaction at `tx_key` exist and sit
/// where their seeds and stored bumps put them, `caller`'s admin record for
/// the wallet exists and does too, and the transaction belongs to the wallet.
pub open spec fn admin_call_in_order(p: ProgramView, key: Pubkey, tx_key: Pubkey, caller: Pubkey) -> bool {
    &&& instance_at(p.accounts, key) is Ok
    &&& transaction_at(p.accounts, tx_key) is Ok
    &&& wallet_and_tx_match(p, key, instance_at(p.accounts, key)->Ok_0, tx_key, transaction_at(p.accounts, tx_key)->Ok_0) is Ok
    &&& derived(p, admin_record_seeds(caller, key)) is Ok
    &&& admin_record_at(p.accounts, derived(p, admin_record_seeds(caller, key))->Ok_0.0) is Ok
    &&& seeds_match(
        p,
        admin_record_seeds(caller, key),
        derived(p, admin_record_seeds(caller, key))->Ok_0.0,
        admin_record_at(p.accounts, derived(p, admin_record_seeds(caller, key))->Ok_0.0)->Ok_0.bump,
    ) is Ok
    &&& transaction_at(p.accounts, tx_key)->Ok_0.maj_instance == key
}

/// The accounts an execution of `tx` needs were passed along: the
/// destination of a transfer, or the program of a call and every account it
/// names but the wallet.
pub open spec fn execution_accounts_passed(key: Pubkey, tx: MajTransactionView, remaining: Seq<AccountRef>) -> bool {
    match tx.program_id {
        None => passed(remaining, tx.to),
        Some(pid) => passed(remaining, pid) && call_accounts_passed(key, tx.account_metas, remaining),
    }
}

/// The execution a transaction of the wallet at `key` asks for.
pub open spec fn requested_execution(key: Pubkey, tx: MajTransactionView) -> ExecutionView {
    match tx.program_id {
        None => ExecutionView::Transfer { from: key, to: tx.to, lamports: tx.value },
        Some(pid) => ExecutionView::Invoke { program_id: pid, accounts: tx.account_metas, data: tx.data, signer: key },
    }
}

/// An admin executes an approved transaction: where the accounts are in
/// order and the transaction is active and holds at least its wallet's
/// threshold of signatures (the threshold read as a 32-bit number), with the
/// accounts its execution needs passed along, the execution succeeds; the
/// transaction becomes inactive and executed, nothing else of it changes, and
/// the transfer or call it carries is asked for, the wallet paying or
/// signing.  With fewer signatures it fails with `InsufficientSignatures`.
pub proof fn law_execute_at_threshold(p: ProgramView, ctx: ExecuteTransaction)
    requires
        admin_call_in_order(p, ctx.maj_instance, ctx.maj_transaction, ctx.admin),
        p.accounts[ctx.maj_transaction].data->Transaction_0.active,
        execution_accounts_passed(ctx.maj_instance, p.accounts[ctx.maj_transaction].data->Transaction_0, ctx.remaining_accounts@),
    ensures
        ({
            let key = ctx.maj_instance;
            let t = ctx.maj_transaction;
            let tx = p.accounts[t].data->Transaction_0;
            let threshold = p.accounts[key].data->Instance_0.sigs_required as u32;
            let r = execute_transaction_step(p, ctx);
            &&& tx.num_signatures >= threshold ==> {
                &&& r is Ok
                &&& r->Ok_0.0.contains_key(t)
                &&& r->Ok_0.0[t].data == AccountDataView::Transaction(MajTransactionView { active: false, executed: true, ..tx })
                &&& r->Ok_0.0.remove(t) == p.accounts.remove(t)
                &&& r->Ok_0.1.execution == Some(requested_execution(key, tx))
                &&& r->Ok_0.1.events == seq![MajEventView::TransactionExecuted {
                    tx_index: tx.tx_index,
                    to: tx.to,
                    value: tx.value,
                    data: tx.data,
                }]
            }
            &&& tx.num_signatures < threshold ==> r == Err::<(Map<Pubkey, crate::program::AccountView>, crate::events::OutcomeView), InstructionError>(
                InstructionError::Maj(MajError::InsufficientSignatures))
        }),
{
    let t = ctx.maj_transaction;
    let r = execute_transaction_step(p, ctx);
    if r is Ok {
        assert(r->Ok_0.0.remove(t) =~= p.accounts.remove(t));
    }
}

/// The proposer of an active transaction, an admin, cancels it whatever its
/// count of signatures: it becomes inactive and nothing else of it changes
/// (it stays unexecuted where it was), and no other account changes.
pub proof fn law_proposer_cancels(p: ProgramView, ctx: CancelTransaction)
    requires
        admin_call_in_order(p, ctx.maj_instance, ctx.maj_transaction, ctx.proposer),
        p.accounts[ctx.maj_transaction].data->Transaction_0.active,
        p.accounts[ctx.maj_transaction].data->Transaction_0.proposed_by == ctx.proposer,
    ensures
        ({
            let t = ctx.maj_transaction;
            let tx = p.accounts[t].data->Transaction_0;
            let r = cancel_transaction_step(p, ctx);
            &&& r is Ok
            &&& r->Ok_0.0.contains_key(t)
            &&& r->Ok_0.0[t].data == AccountDataView::Transaction(MajTransactionView { active: false, ..tx })
            &&& r->Ok_0.0[t].data->Transaction_0.executed == tx.executed
            &&& r->Ok_0.0[t].data->Transaction_0.num_signatures == tx.num_signatures
            &&& r->Ok_0.0.remove(t) == p.accounts.remove(t)
            &&& r->Ok_0.1.events == seq![MajEventView::TransactionCancelled(TransactionCancelled { tx_index: tx.tx_index })]
            &&& r->Ok_0.1.execution is None
        }),
{
    let t = ctx.maj_transaction;
    let r = cancel_transaction_step(p, ctx);
    assert(r is Ok);
    assert(r->Ok_0.0.remove(t) =~= p.accounts.remove(t));
}

/// A signed wallet that matches its seeds takes any threshold from two to
/// its number of admins, and no other: below two the change fails with
/// `TooFewSignaturesRequired`, above the number of admins with
/// `TooManySignaturesRequired`.  A change that succeeds sets the threshold
/// to the value asked for and leaves the rest of the wallet as it was.
pub proof fn law_threshold_range(p: ProgramView, ctx: ChangeSigsRequired, n: u64)
    requires
        instance_at(p.accounts, ctx.maj_instance) is Ok,
        governed(p, ctx.maj_instance, instance_at(p.accounts, ctx.maj_instance)->Ok_0, ctx.maj_instance_is_signer) is Ok,
    ensures
        ({
            let key = ctx.maj_instance;
            let inst = p.accounts[key].data->Instance_0;
            let r = change_sigs_required_step(p, ctx, n);
            &&& (2 <= n && n <= inst.admins.len()) ==> {
                &&& r is Ok
                &&& r->Ok_0.0.contains_key(key)
                &&& r->Ok_0.0[key].data == AccountDataView::Instance(MajInstanceView { sigs_required: n, ..inst })
                &&& r->Ok_0.0.remove(key) == p.accounts.remove(key)
                &&& r->Ok_0.1.events == seq![MajEventView::SignaturesRequiredChanged(SignaturesRequiredChanged {
                    maj_instance: key,
                    signatures_required: n,
                })]
            }
            &&& n < 2 ==> r == Err::<(Map<Pubkey, crate::program::AccountView>, crate::events::OutcomeView), InstructionError>(
                InstructionError::Maj(MajError::TooFewSignaturesRequired))
            &&& (n >= 2 && n > inst.admins.len()) ==> r == Err::<(Map<Pubkey, crate::program::AccountView>, crate::events::OutcomeView), InstructionError>(
                InstructionError::Maj(MajError::TooManySignaturesRequired))
        }),
{
    let key = ctx.maj_instance;
    let r = change_sigs_required_step(p, ctx, n);
    if r is Ok {
        assert(r->Ok_0.0.remove(key) =~= p.accounts.remove(key));
    }
}

/// Adding an admin only appends it to the admins: the wallet's threshold,
/// name, count of transactions and bump are what they were.
pub proof fn law_add_admin_only_appends(p: ProgramView, ctx: AddAdmin, new_admin: Pubkey)
    requires
        add_admin_step(p, ctx, new_admin) is Ok,
    ensures
        ({
            let key = ctx.maj_instance;
            let before = p.accounts[key].data->Instance_0;
            let m = add_admin_step(p, ctx, new_admin)->Ok_0.0;
            let after = m[key].data->Instance_0;
            &&& p.accounts.contains_key(key) && p.accounts[key].data is Instance
            &&& m.contains_key(key) && m[key].data is Instance
            &&& after.admins == before.admins.push(new_admin)
            &&& after.sigs_required == before.sigs_required
            &&& after.name == before.name
            &&& after.tx_count == before.tx_count
            &&& after.bump == before.bump
            &&& !before.admins.contains(new_admin)
            &&& !new_admin.spec_is_default()
            &&& add_admin_step(p, ctx, new_admin)->Ok_0.1.events == seq![
                MajEventView::AdminAdded(AdminAdded { maj_instance: key, new_admin }),
                MajEventView::AdminStatusUpdated(AdminStatusUpdated { admin: new_admin, maj_instance: key, status: true }),
            ]
        }),
{
    let key = ctx.maj_instance;
    let (rec_key, _) = derived(p, admin_record_seeds(new_admin, key))->Ok_0;
    assert(!p.accounts.contains_key(rec_key));
    assert(rec_key != key);
}

/// Removing an admin takes it out of the admins and lowers the threshold
/// only as far as it must: afterwards the threshold is the smaller of what
/// it was and the number of admins left.  The wallet loses exactly one
/// admin, and its name, count of transactions and bump are what they were.
pub proof fn law_remove_admin_threshold(p: ProgramView, ctx: RemoveAdmin, x: Pubkey)
    requires
        remove_admin_step(p, ctx, x) is Ok,
    ensures
        ({
            let key = ctx.maj_instance;
            let before = p.accounts[key].data->Instance_0;
            let m = remove_admin_step(p, ctx, x)->Ok_0.0;
            let after = m[key].data->Instance_0;
            &&& m.contains_key(key) && m[key].data is Instance
            &&& before.admins.contains(x)
            &&& after.admins.len() == before.admins.len() - 1
            &&& after.admins.len() >= 2
            &&& after.sigs_required <= before.sigs_required
            &&& after.sigs_required <= after.admins.len()
            &&& (after.sigs_required == before.sigs_required || after.sigs_required == after.admins.len())
            &&& before.sigs_required <= after.admins.len() ==> after.sigs_required == before.sigs_required
            &&& forall|k: Pubkey| k != x ==> (after.admins.contains(k) <==> before.admins.contains(k))
            &&& after.name == before.name
            &&& after.tx_count == before.tx_count
            &&& after.bump == before.bump
            &&& remove_admin_step(p, ctx, x)->Ok_0.1.events == seq![
                MajEventView::AdminRemoved(AdminRemoved { maj_instance: key, admin_removed: x }),
                MajEventView::AdminStatusUpdated(AdminStatusUpdated { admin: x, maj_instance: key, status: false }),
            ]
        }),
{
    let key = ctx.maj_instance;
    let inst = p.accounts[key].data->Instance_0;
    let (rec_key, _) = derived(p, admin_record_seeds(x, key))->Ok_0;
    assert(p.accounts[rec_key].data is Admin);
    assert(rec_key != key);
    crate::state::instance::lemma_first_position(inst.admins, x);
    let pos = crate::state::instance::first_position(inst.admins, x);
    let admins = crate::instructions::governance::swap_removed(inst.admins, pos);
    let m = remove_admin_step(p, ctx, x)->Ok_0.0;
    assert(m[key].data->Instance_0.admins == admins);
    assert(admins.len() == inst.admins.len() - 1);
    assert(forall|i: int| 0 <= i < admins.len() ==> #[trigger] admins[i] == if i == pos { inst.admins.last() } else { inst.admins[i] });
    assert forall|k: Pubkey| k != x implies (admins.contains(k) <==> inst.admins.contains(k)) by {
        if inst.admins.contains(k) {
            let i = choose|i: int| 0 <= i < inst.admins.len() && inst.admins[i] == k;
            if i == inst.admins.len() - 1 {
                assert(admins[pos] == k);
            } else {
                assert(i != pos);
                assert(admins[i] == k);
            }
        }
        if admins.contains(k) {
            let i = choose|i: int| 0 <= i < admins.len() && admins[i] == k;
            if i == pos {
                assert(inst.admins[inst.admins.len() - 1] == k);
            } else {
                assert(inst.admins[i] == k);
            }
        }
    }
}

/// A signature counts one more: where signing succeeds, the caller had not
/// signed the active transaction before, its signature record now exists,
/// the count of signatures is one more than it was, and the transaction is
/// executed exactly when that count reaches the threshold (read as a 32-bit
/// number), the rest of it unchanged.
pub proof fn law_sign_counts_one(p: ProgramView, ctx: SignTransaction)
    requires
        sign_transaction_step(p, ctx) is Ok,
    ensures
        ({
            let key = ctx.maj_instance;
            let t = ctx.maj_transaction;
            let tx = p.accounts[t].data->Transaction_0;
            let threshold = p.accounts[key].data->Instance_0.sigs_required as u32;
            let sig = derived(p, sig_seeds(t, ctx.admin))->Ok_0.0;
            let (m, out) = sign_transaction_step(p, ctx)->Ok_0;
            let n = (tx.num_signatures + 1) as u32;
            &&& tx.active
            &&& tx.num_signatures < u32::MAX
            &&& !p.accounts.contains_key(sig)
            &&& m.contains_key(sig) && m[sig].data is Signature
            &&& m.contains_key(t)
            &&& n >= threshold ==> m[t].data == AccountDataView::Transaction(
                MajTransactionView { num_signatures: n, active: false, executed: true, ..tx })
                && out.execution == Some(requested_execution(key, tx))
            &&& n < threshold ==> m[t].data == AccountDataView::Transaction(MajTransactionView { num_signatures: n, ..tx })
                && out.execution is None
            &&& m.remove(t).remove(sig) == p.accounts.remove(t)
            &&& out.events[0] == MajEventView::TransactionSigned(TransactionSigned {
                tx_index: tx.tx_index,
                admin: ctx.admin,
                num_signatures: n,
            })
            &&& n < threshold ==> out.events.len() == 1
            &&& n >= threshold ==> out.events == seq![
                MajEventView::TransactionSigned(TransactionSigned { tx_index: tx.tx_index, admin: ctx.admin, num_signatures: n }),
                MajEventView::TransactionExecuted { tx_index: tx.tx_index, to: tx.to, value: tx.value, data: tx.data },
            ]
        }),
{
    let t = ctx.maj_transaction;
    let sig = derived(p, sig_seeds(t, ctx.admin))->Ok_0.0;
    let m = sign_transaction_step(p, ctx)->Ok_0.0;
    assert(m.remove(t).remove(sig) =~= p.accounts.remove(t));
}

/// An admin signs an active transaction of the wallet whose signature record
/// is not there yet: where the accounts are in order, the signature succeeds
/// whenever it stays below the threshold, and also where it reaches the
/// threshold and the accounts the execution needs were passed along.
pub proof fn law_admin_signs(p: ProgramView, ctx: SignTransaction)
    requires
        admin_call_in_order(p, ctx.maj_instance, ctx.maj_transaction, ctx.admin),
        p.accounts[ctx.maj_transaction].data->Transaction_0.active,
        p.accounts[ctx.maj_transaction].data->Transaction_0.num_signatures < u32::MAX,
        derived(p, sig_seeds(ctx.maj_transaction, ctx.admin)) is Ok,
        !p.accounts.contains_key(derived(p, sig_seeds(ctx.maj_transaction, ctx.admin))->Ok_0.0),
        p.accounts[ctx.maj_transaction].data->Transaction_0.num_signatures + 1
            < p.accounts[ctx.maj_instance].data->Instance_0.sigs_required as u32
            || execution_accounts_passed(ctx.maj_instance, p.accounts[ctx.maj_transaction].data->Transaction_0,
                ctx.remaining_accounts@),
    ensures
        sign_transaction_step(p, ctx) is Ok,
{
}

/// A revocation takes one signature back: where it succeeds, the caller's
/// signature record for the active transaction existed and is gone, the
/// count of signatures is one less, and nothing else changes.
pub proof fn law_revoke_takes_one_back(p: ProgramView, ctx: RevokeSignature)
    requires
        revoke_signature_step(p, ctx) is Ok,
    ensures
        ({
            let t = ctx.maj_transaction;
            let tx = p.accounts[t].data->Transaction_0;
            let sig = derived(p, sig_seeds(t, ctx.admin))->Ok_0.0;
            let m = revoke_signature_step(p, ctx)->Ok_0.0;
            &&& tx.active
            &&& tx.num_signatures >= 1
            &&& p.accounts.contains_key(sig) && p.accounts[sig].data is Signature
            &&& !m.contains_key(sig)
            &&& m.contains_key(t)
            &&& m[t].data == AccountDataView::Transaction(MajTransactionView { num_signatures: (tx.num_signatures - 1) as u32, ..tx })
            &&& m.remove(t) == p.accounts.remove(t).remove(sig)
            &&& revoke_signature_step(p, ctx)->Ok_0.1.events == seq![MajEventView::SignatureRevoked(SignatureRevoked {
                tx_index: tx.tx_index,
                admin: ctx.admin,
                num_signatures: (tx.num_signatures - 1) as u32,
            })]
        }),
{
    let t = ctx.maj_transaction;
    let sig = derived(p, sig_seeds(t, ctx.admin))->Ok_0.0;
    let m = revoke_signature_step(p, ctx)->Ok_0.0;
    assert(m.remove(t) =~= p.accounts.remove(t).remove(sig));
}

/// An admin who signed an active transaction takes the signature back: where
/// the accounts are in order and the admin's signature record is there, at
/// its address with its stored bump, with at least one signature counted,
/// the revocation succeeds.
pub proof fn law_signer_revokes(p: ProgramView, ctx: RevokeSignature)
    requires
        admin_call_in_order(p, ctx.maj_instance, ctx.maj_transaction, ctx.admin),
        p.accounts[ctx.maj_transaction].data->Transaction_0.active,
        p.accounts[ctx.maj_transaction].data->Transaction_0.num_signatures >= 1,
        derived(p, sig_seeds(ctx.maj_transaction, ctx.admin)) is Ok,
        signature_at(p.accounts, derived(p, sig_seeds(ctx.maj_transaction, ctx.admin))->Ok_0.0) is Ok,
        seeds_match(
            p,
            sig_seeds(ctx.maj_transaction, ctx.admin),
            derived(p, sig_seeds(ctx.maj_transaction, ctx.admin))->Ok_0.0,
            signature_at(p.accounts, derived(p, sig_seeds(ctx.maj_transaction, ctx.admin))->Ok_0.0)->Ok_0.bump,
        ) is Ok,
    ensures
        revoke_signature_step(p, ctx) is Ok,
{
}

/// A signed wallet that matches its seeds takes a new admin that is nonzero
/// and not an admin yet, where the admin record's address derives and is
/// free (and the grown wallet's size fits a machine word); a zero address is
/// refused with `ZeroAddress`, an existing admin with
/// `DuplicateAdminAddress`.
pub proof fn law_add_admin_succeeds(p: ProgramView, ctx: AddAdmin, new_admin: Pubkey)
    requires
        instance_at(p.accounts, ctx.maj_instance) is Ok,
        governed(p, ctx.maj_instance, instance_at(p.accounts, ctx.maj_instance)->Ok_0, ctx.maj_instance_is_signer) is Ok,
    ensures
        ({
            let key = ctx.maj_instance;
            let inst = p.accounts[key].data->Instance_0;
            let r = add_admin_step(p, ctx, new_admin);
            let rec = derived(p, admin_record_seeds(new_admin, key));
            &&& new_admin.spec_is_default() ==> r == Err::<(Map<Pubkey, crate::program::AccountView>, crate::events::OutcomeView), InstructionError>(
                InstructionError::Maj(MajError::ZeroAddress))
            &&& (!new_admin.spec_is_default() && inst.admins.contains(new_admin)) ==> r
                == Err::<(Map<Pubkey, crate::program::AccountView>, crate::events::OutcomeView), InstructionError>(
                InstructionError::Maj(MajError::DuplicateAdminAddress))
            &&& (!new_admin.spec_is_default() && !inst.admins.contains(new_admin) && rec is Ok
                && !p.accounts.contains_key(rec->Ok_0.0) && instance_space(inst.admins.len() + 1) <= usize::MAX) ==> r is Ok
        }),
{
}

/// Removing an admin needs more than two admins: where the wallet is signed
/// and matches its seeds and the address is an admin whose record is there
/// at its address with its stored bump, the removal fails with
/// `TwoAdminMinimum` for a wallet of two admins and succeeds for more.
pub proof fn law_remove_admin_minimum(p: ProgramView, ctx: RemoveAdmin, x: Pubkey)
    requires
        instance_at(p.accounts, ctx.maj_instance) is Ok,
        governed(p, ctx.maj_instance, instance_at(p.accounts, ctx.maj_instance)->Ok_0, ctx.maj_instance_is_signer) is Ok,
        p.accounts[ctx.maj_instance].data->Instance_0.admins.contains(x),
        derived(p, admin_record_seeds(x, ctx.maj_instance)) is Ok,
        admin_record_at(p.accounts, derived(p, admin_record_seeds(x, ctx.maj_instance))->Ok_0.0) is Ok,
        seeds_match(
            p,
            admin_record_seeds(x, ctx.maj_instance),
            derived(p, admin_record_seeds(x, ctx.maj_instance))->Ok_0.0,
            admin_record_at(p.accounts, derived(p, admin_record_seeds(x, ctx.maj_instance))->Ok_0.0)->Ok_0.bump,
        ) is Ok,
    ensures
        p.accounts[ctx.maj_instance].data->Instance_0.admins.len() <= 2 ==> remove_admin_step(p, ctx, x)
            == Err::<(Map<Pubkey, crate::program::AccountView>, crate::events::OutcomeView), InstructionError>(
            InstructionError::Maj(MajError::TwoAdminMinimum)),
        p.accounts[ctx.maj_instance].data->Instance_0.admins.len() > 2 ==> remove_admin_step(p, ctx, x) is Ok,
{
}

/// Blacklisting creates the target's blacklist record for the wallet, at its
/// derived address, and changes nothing else; a signed wallet that matches
/// its seeds blacklists any target whose record address derives and is free.
pub proof fn law_add_blacklist(p: ProgramView, ctx: AddBlacklist, target: Pubkey)
    ensures
        add_blacklist_step(p, ctx, target) is Ok ==> ({
            let b = derived(p, blacklist_seeds(ctx.maj_instance, target))->Ok_0;
            let m = add_blacklist_step(p, ctx, target)->Ok_0.0;
            &&& !p.accounts.contains_key(b.0)
            &&& m == p.accounts.insert(b.0, crate::program::AccountView {
                seeds: blacklist_seeds(ctx.maj_instance, target),
                space: 9,
                data: AccountDataView::Blacklist(BlacklistRecord { bump: b.1 }),
            })
        }),
        (instance_at(p.accounts, ctx.maj_instance) is Ok
            && governed(p, ctx.maj_instance, instance_at(p.accounts, ctx.maj_instance)->Ok_0, ctx.maj_instance_is_signer) is Ok
            && derived(p, blacklist_seeds(ctx.maj_instance, target)) is Ok
            && !p.accounts.contains_key(derived(p, blacklist_seeds(ctx.maj_instance, target))->Ok_0.0))
            ==> add_blacklist_step(p, ctx, target) is Ok,
{
}

/// Lifting a blacklisting closes the target's blacklist record for the
/// wallet and changes nothing else; a signed wallet that matches its seeds
/// lifts it wherever the record is there at its address with its stored
/// bump, and refuses with `NotBlacklisted` where no account is there.
pub proof fn law_remove_blacklist(p: ProgramView, ctx: RemoveBlacklist, target: Pubkey)
    ensures
        remove_blacklist_step(p, ctx, target) is Ok ==> ({
            let b = derived(p, blacklist_seeds(ctx.maj_instance, target))->Ok_0.0;
            &&& p.accounts.contains_key(b) && p.accounts[b].data is Blacklist
            &&& remove_blacklist_step(p, ctx, target)->Ok_0.0 == p.accounts.remove(b)
        }),
        (instance_at(p.accounts, ctx.maj_instance) is Ok
            && derived(p, blacklist_seeds(ctx.maj_instance, target)) is Ok
            && !p.accounts.contains_key(derived(p, blacklist_seeds(ctx.maj_instance, target))->Ok_0.0))
            ==> remove_blacklist_step(p, ctx, target)
                == Err::<(Map<Pubkey, crate::program::AccountView>, crate::events::OutcomeView), InstructionError>(
                InstructionError::Maj(MajError::NotBlacklisted)),
        (instance_at(p.accounts, ctx.maj_instance) is Ok
            && governed(p, ctx.maj_instance, instance_at(p.accounts, ctx.maj_instance)->Ok_0, ctx.maj_instance_is_signer) is Ok
            && derived(p, blacklist_seeds(ctx.maj_instance, target)) is Ok
            && blacklist_at(p.accounts, derived(p, blacklist_seeds(ctx.maj_instance, target))->Ok_0.0) is Ok
            && seeds_match(
                p,
                blacklist_seeds(ctx.maj_instance, target),
                derived(p, blacklist_seeds(ctx.maj_instance, target))->Ok_0.0,
                blacklist_at(p.accounts, derived(p, blacklist_seeds(ctx.maj_instance, target))->Ok_0.0)->Ok_0.bump,
            ) is Ok)
            ==> remove_blacklist_step(p, ctx, target) is Ok,
{
}

/// A created wallet is what was asked for: where creation succeeds, the name
/// fits, there are at least two admins, none zero and no two alike, the
/// threshold lies between two and their number, and the wallet at the
/// address derived from its name holds exactly that name, those admins in
/// that order and that threshold, with no transactions yet; every admin has
/// its admin record for the wallet.
pub proof fn law_created_wallet(p: ProgramView, ctx: CreateMaj, name: Seq<u8>, admins: Seq<Pubkey>, sigs_required: u64)
    requires
        create_maj_step(p, ctx, name, admins, sigs_required) is Ok,
    ensures
        ({
            let inst_key = derived(p, instance_seeds(name))->Ok_0.0;
            let m = create_maj_step(p, ctx, name, admins, sigs_required)->Ok_0.0;
            &&& name.len() <= 64
            &&& admins.len() >= 2
            &&& 2 <= sigs_required <= admins.len()
            &&& forall|i: int, j: int| 0 <= i < j < admins.len() ==> admins[i] != admins[j]
            &&& forall|i: int| 0 <= i < admins.len() ==> !(#[trigger] admins[i]).spec_is_default()
            &&& !p.accounts.contains_key(inst_key)
            &&& m.contains_key(inst_key) && m[inst_key].data is Instance
            &&& m[inst_key].data->Instance_0.name == name
            &&& m[inst_key].data->Instance_0.admins == admins
            &&& m[inst_key].data->Instance_0.sigs_required == sigs_required
            &&& m[inst_key].data->Instance_0.tx_count == 0
            &&& forall|i: int| 0 <= i < admins.len() ==> admin_record_in(m, p.program_id, #[trigger] admins[i], inst_key)
        }),
{
    let (inst_key, _) = derived(p, instance_seeds(name))->Ok_0;
    let base = creation_base(p, name, admins, sigs_required);
    lemma_admin_records_created(p, base, admins, ctx.remaining_accounts@, inst_key, admins.len());
    lemma_no_admin_fault(admins, admins.len());
    assert(base.contains_key(inst_key));
}

/// Creating admin records works alike on two states with the same addresses
/// taken: it succeeds on both or on neither, and leaves the same addresses
/// taken, the records it adds being the same.
proof fn lemma_records_created_alike(
    p: ProgramView,
    b1: Map<Pubkey, crate::program::AccountView>,
    b2: Map<Pubkey, crate::program::AccountView>,
    admins: Seq<Pubkey>,
    remaining: Seq<AccountRef>,
    inst_key: Pubkey,
    n: nat,
)
    requires
        b1.dom() == b2.dom(),
    ensures
        (admin_records_created(p, b1, admins, remaining, inst_key, n) is Ok)
            == (admin_records_created(p, b2, admins, remaining, inst_key, n) is Ok),
        admin_records_created(p, b1, admins, remaining, inst_key, n) is Ok ==>
            admin_records_created(p, b1, admins, remaining, inst_key, n)->Ok_0.dom()
                == admin_records_created(p, b2, admins, remaining, inst_key, n)->Ok_0.dom(),
    decreases n,
{
    if n > 0 {
        lemma_records_created_alike(p, b1, b2, admins, remaining, inst_key, (n - 1) as nat);
        let r1 = admin_records_created(p, b1, admins, remaining, inst_key, (n - 1) as nat);
        let r2 = admin_records_created(p, b2, admins, remaining, inst_key, (n - 1) as nat);
        if r1 is Ok {
            let m1 = r1->Ok_0;
            let m2 = r2->Ok_0;
            assert(m1.dom() == m2.dom());
            if derived(p, record_seeds_of(admins[n - 1], inst_key)) is Ok {
                let (k, b) = derived(p, record_seeds_of(admins[n - 1], inst_key))->Ok_0;
                assert(m1.contains_key(k) == m2.contains_key(k));
                let v = crate::instructions::create_maj::admin_record_view(admins[n - 1], inst_key, b);
                assert(m1.insert(k, v).dom() =~= m2.insert(k, v).dom());
            }
        }
    }
}

/// A wallet created with one threshold could have been created with any
/// other from two to its number of admins, all else the same.
pub proof fn law_create_any_threshold(
    p: ProgramView,
    ctx: CreateMaj,
    name: Seq<u8>,
    admins: Seq<Pubkey>,
    sigs_required: u64,
    other: u64,
)
    requires
        create_maj_step(p, ctx, name, admins, sigs_required) is Ok,
        2 <= other <= admins.len(),
    ensures
        create_maj_step(p, ctx, name, admins, other) is Ok,
{
    let (inst_key, _) = derived(p, instance_seeds(name))->Ok_0;
    let b1 = creation_base(p, name, admins, sigs_required);
    let b2 = creation_base(p, name, admins, other);
    assert(b1.dom() =~= b2.dom());
    lemma_records_created_alike(p, b1, b2, admins, ctx.remaining_accounts@, inst_key, admins.len());
}

/// Anyone not blacklisted proposes: where the wallet is there at its address
/// and bump, the transaction's size fits, the address for the wallet's next
/// transaction derives and is free, and the proposer's blacklist record and
/// admin record addresses derive with no blacklist record there, a proposer
/// without an admin record for the wallet proposes with success; so does an
/// admin who passes their signature record, free, along, where a single
/// signature stays below the threshold or the accounts its execution needs
/// were passed along.
pub proof fn law_proposal_succeeds(
    p: ProgramView,
    ctx: ProposeTransaction,
    to: Pubkey,
    value: u64,
    data: Seq<u8>,
    program_id: Option<Pubkey>,
    account_metas: Seq<SerializedAccountMeta>,
)
    requires
        instance_at(p.accounts, ctx.maj_instance) is Ok,
        seeds_match(p, instance_seeds(instance_at(p.accounts, ctx.maj_instance)->Ok_0.name), ctx.maj_instance,
            instance_at(p.accounts, ctx.maj_instance)->Ok_0.bump) is Ok,
        transaction_space(data.len(), account_metas.len()) <= usize::MAX,
        p.accounts[ctx.maj_instance].data->Instance_0.tx_count < u64::MAX,
        derived(p, tx_seeds(ctx.maj_instance, p.accounts[ctx.maj_instance].data->Instance_0.tx_count)) is Ok,
        !p.accounts.contains_key(derived(p, tx_seeds(ctx.maj_instance, p.accounts[ctx.maj_instance].data->Instance_0.tx_count))->Ok_0.0),
        derived(p, blacklist_seeds_of(ctx.maj_instance, ctx.proposer)) is Ok,
        !p.accounts.contains_key(derived(p, blacklist_seeds_of(ctx.maj_instance, ctx.proposer))->Ok_0.0),
        derived(p, record_seeds_of(ctx.proposer, ctx.maj_instance)) is Ok,
    ensures
        ({
            let key = ctx.maj_instance;
            let inst = p.accounts[key].data->Instance_0;
            let t = derived(p, tx_seeds(key, inst.tx_count))->Ok_0.0;
            let admin = p.accounts.contains_key(derived(p, record_seeds_of(ctx.proposer, key))->Ok_0.0);
            let sig = derived(p, sig_seeds(t, ctx.proposer));
            let tx = MajTransactionView {
                maj_instance: key,
                tx_index: inst.tx_count,
                to,
                value,
                proposed_by: ctx.proposer,
                active: true,
                executed: false,
                num_signatures: 1,
                program_id,
                data,
                account_metas,
                bump: 0,
            };
            &&& !admin ==> propose_transaction_step(p, ctx, to, value, data, program_id, account_metas) is Ok
            &&& (admin && sig is Ok && passed(ctx.remaining_accounts@, sig->Ok_0.0) && !p.accounts.contains_key(sig->Ok_0.0)
                && sig->Ok_0.0 != t
                && (1 < inst.sigs_required as u32 || execution_accounts_passed(key, tx, ctx.remaining_accounts@)))
                ==> propose_transaction_step(p, ctx, to, value, data, program_id, account_metas) is Ok
        }),
{
    let key = ctx.maj_instance;
    let inst = p.accounts[key].data->Instance_0;
    let t = derived(p, tx_seeds(key, inst.tx_count))->Ok_0.0;
    assert(t != key);
}

} // verus!
