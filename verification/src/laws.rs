//! What holds of the program across instructions: the state every instruction
//! keeps sound, and the promises that relate instructions to one another.
use vstd::prelude::*;
use crate::errors::{InstructionError, MajError};
use crate::instructions::governance::{
    add_admin_step, add_blacklist_step, change_sigs_required_step, remove_admin_step,
    remove_blacklist_step, swap_removed, AddAdmin, AddBlacklist, ChangeSigsRequired, RemoveAdmin,
    RemoveBlacklist,
};
use crate::instructions::initialize_registry::initialize_registry_step;
use crate::pda::{admin_record_seeds, instance_seeds, program_address, registry_seeds, tx_seeds};
use crate::program::{AccountDataView, AccountView, ProgramView};
use crate::instructions::accounts::with_data;
use crate::instructions::cancel_transaction::{cancel_transaction_step, CancelTransaction};
use crate::instructions::execute_transaction::{execute_transaction_step, execution, ExecuteTransaction};
use crate::instructions::revoke_signature::{revoke_signature_step, RevokeSignature};
use crate::instructions::sign_transaction::{after_signature, sign_transaction_step, SignTransaction};
use crate::state::transaction::{transaction_space, MajTransactionView, SerializedAccountMeta};
use crate::instructions::accounts::{passed, AccountRef};
use crate::instructions::create_maj::{admin_record_view, admin_records_created, create_maj_step, creation_base, first_admin_fault, CreateMaj};
use crate::pda::name_seeds;
use crate::state::instance::MajNameRecord;
use crate::state::registry::MajRegistry;
use crate::maj_core::{step, Instruction};
use crate::calls::{call_decision, run, submitter, CallDecision};
use crate::events::ExecutionView;
use crate::instructions::propose_transaction::{propose_transaction_step, ProposeTransaction};
use crate::pubkey::Pubkey;
use crate::state::instance::{first_position, lemma_first_position, AdminRecord, MajInstanceView};

verus! {

broadcast use vstd::array::group_array_axioms;

/// A wallet's admins and threshold are sound: at least two admins, no two
/// alike, none zero, and a threshold between two and the number of admins.
pub open spec fn wallet_sound(inst: MajInstanceView) -> bool {
    &&& inst.admins.len() >= 2
    &&& 2 <= inst.sigs_required <= inst.admins.len()
    &&& forall|i: int, j: int| 0 <= i < j < inst.admins.len() ==> inst.admins[i] != inst.admins[j]
    &&& forall|i: int| 0 <= i < inst.admins.len() ==> !(#[trigger] inst.admins[i]).spec_is_default()
}

/// Every wallet is sound.
pub open spec fn wallets_sound(m: Map<Pubkey, AccountView>) -> bool {
    forall|k: Pubkey| #[trigger] m.contains_key(k) && m[k].data is Instance ==> wallet_sound(m[k].data->Instance_0)
}

/// The bump a record keeps.
pub open spec fn bump_of(data: AccountDataView) -> u8 {
    match data {
        AccountDataView::Registry(r) => r.bump,
        AccountDataView::NameRecord(r) => r.bump,
        AccountDataView::Instance(r) => r.bump,
        AccountDataView::Transaction(r) => r.bump,
        AccountDataView::Signature(r) => r.bump,
        AccountDataView::Admin(r) => r.bump,
        AccountDataView::Blacklist(r) => r.bump,
    }
}

/// Every account is at the address derived from its seeds, and keeps the bump
/// derived with it.
pub open spec fn keys_derived(m: Map<Pubkey, AccountView>, program_id: Pubkey) -> bool {
    forall|k: Pubkey| #[trigger] m.contains_key(k) ==> program_address(m[k].seeds, program_id) == Some((k, bump_of(m[k].data)))
}

/// The admin records agree with the wallets' admins: each admin of a wallet
/// has its record, at the address derived for it, naming it and the wallet;
/// and each admin record names a wallet that lists its admin.
pub open spec fn admin_records_agree(m: Map<Pubkey, AccountView>, program_id: Pubkey) -> bool {
    &&& forall|k: Pubkey, i: int|
        #![trigger m[k].data->Instance_0.admins[i]]
        m.contains_key(k) && m[k].data is Instance && 0 <= i < m[k].data->Instance_0.admins.len()
            ==> admin_record_in(m, program_id, m[k].data->Instance_0.admins[i], k)
    &&& forall|x: Pubkey| #[trigger] m.contains_key(x) && m[x].data is Admin ==> {
        let r = m[x].data->Admin_0;
        &&& m.contains_key(r.maj_instance)
        &&& m[r.maj_instance].data is Instance
        &&& m[r.maj_instance].data->Instance_0.admins.contains(r.admin)
    }
}

/// `admin`'s record in the wallet at `key` is where its seeds lead.
pub open spec fn admin_record_in(m: Map<Pubkey, AccountView>, program_id: Pubkey, admin: Pubkey, key: Pubkey) -> bool {
    match program_address(admin_record_seeds(admin, key), program_id) {
        Some((x, b)) => m.contains_key(x) && m[x].data == AccountDataView::Admin(
            AdminRecord { admin, maj_instance: key, bump: b },
        ),
        None => false,
    }
}

/// Every transaction belongs to a wallet, has an index below the wallet's
/// count, and is never both active and executed.
pub open spec fn transactions_sound(m: Map<Pubkey, AccountView>) -> bool {
    forall|t: Pubkey| #[trigger] m.contains_key(t) && m[t].data is Transaction ==> {
        let tx = m[t].data->Transaction_0;
        &&& m.contains_key(tx.maj_instance)
        &&& m[tx.maj_instance].data is Instance
        &&& tx.tx_index < m[tx.maj_instance].data->Instance_0.tx_count
        &&& !(tx.active && tx.executed)
    }
}

/// The seeds of registry, wallet, transaction and admin record accounts are
/// the ones their content calls for.
pub open spec fn seeds_fit(m: Map<Pubkey, AccountView>) -> bool {
    forall|k: Pubkey| #[trigger] m.contains_key(k) ==> match m[k].data {
        AccountDataView::Registry(_) => m[k].seeds == registry_seeds(),
        AccountDataView::Instance(inst) => m[k].seeds == instance_seeds(inst.name),
        AccountDataView::Transaction(tx) => m[k].seeds == tx_seeds(tx.maj_instance, tx.tx_index),
        AccountDataView::Admin(r) => m[k].seeds == admin_record_seeds(r.admin, r.maj_instance),
        _ => true,
    }
}

/// The state every instruction keeps.
pub open spec fn sound(p: ProgramView) -> bool {
    &&& wallets_sound(p.accounts)
    &&& keys_derived(p.accounts, p.program_id)
    &&& admin_records_agree(p.accounts, p.program_id)
    &&& transactions_sound(p.accounts)
    &&& seeds_fit(p.accounts)
}

/// The state after an instruction that succeeded.
pub open spec fn after(p: ProgramView, accounts: Map<Pubkey, AccountView>) -> ProgramView {
    ProgramView { program_id: p.program_id, accounts }
}

/// Creating the registry keeps the state sound.
pub proof fn lemma_initialize_registry_sound(p: ProgramView)
    requires
        sound(p),
        initialize_registry_step(p) is Ok,
    ensures
        sound(after(p, initialize_registry_step(p)->Ok_0.0)),
{
    let m = initialize_registry_step(p)->Ok_0.0;
    assert(forall|k: Pubkey| #[trigger] m.contains_key(k) && m[k].data is Instance ==> p.accounts.contains_key(k));
}

/// Changing a threshold keeps the state sound.
pub proof fn lemma_change_sigs_required_sound(p: ProgramView, ctx: ChangeSigsRequired, n: u64)
    requires
        sound(p),
        change_sigs_required_step(p, ctx, n) is Ok,
    ensures
        sound(after(p, change_sigs_required_step(p, ctx, n)->Ok_0.0)),
{
    let m = change_sigs_required_step(p, ctx, n)->Ok_0.0;
    let key = ctx.maj_instance;
    assert(m.dom() =~= p.accounts.dom());
    assert forall|k: Pubkey| #[trigger] m.contains_key(k) && m[k].data is Instance
        implies m[k].data->Instance_0.admins == p.accounts[k].data->Instance_0.admins
            && m[k].data->Instance_0.tx_count == p.accounts[k].data->Instance_0.tx_count by {
        if k == key {
        }
    }
}

/// Blacklisting keeps the state sound.
pub proof fn lemma_add_blacklist_sound(p: ProgramView, ctx: AddBlacklist, target: Pubkey)
    requires
        sound(p),
        add_blacklist_step(p, ctx, target) is Ok,
    ensures
        sound(after(p, add_blacklist_step(p, ctx, target)->Ok_0.0)),
{
}

/// Lifting a blacklisting keeps the state sound.
pub proof fn lemma_remove_blacklist_sound(p: ProgramView, ctx: RemoveBlacklist, target: Pubkey)
    requires
        sound(p),
        remove_blacklist_step(p, ctx, target) is Ok,
    ensures
        sound(after(p, remove_blacklist_step(p, ctx, target)->Ok_0.0)),
{
}

/// Adding an admin keeps the state sound.
pub proof fn lemma_add_admin_sound(p: ProgramView, ctx: AddAdmin, new_admin: Pubkey)
    requires
        sound(p),
        add_admin_step(p, ctx, new_admin) is Ok,
    ensures
        sound(after(p, add_admin_step(p, ctx, new_admin)->Ok_0.0)),
{
    let key = ctx.maj_instance;
    let pid = p.program_id;
    let old_m = p.accounts;
    let m = add_admin_step(p, ctx, new_admin)->Ok_0.0;
    let inst = old_m[key].data->Instance_0;
    let (rec_key, rec_bump) = program_address(admin_record_seeds(new_admin, key), pid)->Some_0;
    let new_inst = MajInstanceView { admins: inst.admins.push(new_admin), ..inst };
    assert(old_m.contains_key(key) && old_m[key].data is Instance);
    assert(!old_m.contains_key(rec_key));
    assert(m.contains_key(key) && m[key].data == AccountDataView::Instance(new_inst));
    assert(m[rec_key].data == AccountDataView::Admin(AdminRecord { admin: new_admin, maj_instance: key, bump: rec_bump }));
    assert(forall|k: Pubkey| k != key && k != rec_key ==> (#[trigger] m.contains_key(k) <==> old_m.contains_key(k)));
    assert(forall|k: Pubkey| k != key && k != rec_key && m.contains_key(k) ==> #[trigger] m[k] == old_m[k]);
    assert(wallet_sound(new_inst)) by {
        assert(!inst.admins.contains(new_admin));
        assert forall|i: int, j: int| 0 <= i < j < new_inst.admins.len() implies new_inst.admins[i] != new_inst.admins[j] by {
            if j == inst.admins.len() {
                assert(inst.admins.contains(inst.admins[i]));
            }
        }
    }
    assert(wallets_sound(m));
    assert(keys_derived(m, pid));
    assert forall|k: Pubkey, i: int|
        #![trigger m[k].data->Instance_0.admins[i]]
        m.contains_key(k) && m[k].data is Instance && 0 <= i < m[k].data->Instance_0.admins.len()
            implies admin_record_in(m, pid, m[k].data->Instance_0.admins[i], k) by {
        if k == key {
            if i < inst.admins.len() {
                assert(new_inst.admins[i] == inst.admins[i]);
                assert(admin_record_in(old_m, pid, old_m[k].data->Instance_0.admins[i], k));
            }
        } else {
            assert(admin_record_in(old_m, pid, old_m[k].data->Instance_0.admins[i], k));
        }
    }
    assert forall|x: Pubkey| #[trigger] m.contains_key(x) && m[x].data is Admin implies {
        let r = m[x].data->Admin_0;
        &&& m.contains_key(r.maj_instance)
        &&& m[r.maj_instance].data is Instance
        &&& m[r.maj_instance].data->Instance_0.admins.contains(r.admin)
    } by {
        if x == rec_key {
            assert(new_inst.admins[inst.admins.len() as int] == new_admin);
        } else {
            let r = old_m[x].data->Admin_0;
            if r.maj_instance == key {
                let i = choose|i: int| 0 <= i < inst.admins.len() && inst.admins[i] == r.admin;
                assert(new_inst.admins[i] == r.admin);
            }
        }
    }
    assert(transactions_sound(m));
    assert(seeds_fit(m));
}

/// Removing an admin keeps the state sound.
pub proof fn lemma_remove_admin_sound(p: ProgramView, ctx: RemoveAdmin, x: Pubkey)
    requires
        sound(p),
        remove_admin_step(p, ctx, x) is Ok,
    ensures
        sound(after(p, remove_admin_step(p, ctx, x)->Ok_0.0)),
{
    let key = ctx.maj_instance;
    let pid = p.program_id;
    let old_m = p.accounts;
    let m = remove_admin_step(p, ctx, x)->Ok_0.0;
    let inst = old_m[key].data->Instance_0;
    let (rec_key, rec_bump) = program_address(admin_record_seeds(x, key), pid)->Some_0;
    assert(old_m.contains_key(key) && old_m[key].data is Instance);
    assert(inst.admins.contains(x));
    lemma_first_position(inst.admins, x);
    let pos = first_position(inst.admins, x);
    let admins = swap_removed(inst.admins, pos);
    let sigs = if inst.sigs_required > admins.len() { admins.len() as u64 } else { inst.sigs_required };
    let new_inst = MajInstanceView { admins, sigs_required: sigs, ..inst };
    assert(admin_record_in(old_m, pid, inst.admins[pos], key));
    assert(old_m[rec_key].data == AccountDataView::Admin(AdminRecord { admin: x, maj_instance: key, bump: rec_bump }));
    assert(m.contains_key(key) && m[key].data == AccountDataView::Instance(new_inst));
    assert(!m.contains_key(rec_key));
    assert(forall|k: Pubkey| k != key && k != rec_key ==> (#[trigger] m.contains_key(k) <==> old_m.contains_key(k)));
    assert(forall|k: Pubkey| k != key && k != rec_key && m.contains_key(k) ==> #[trigger] m[k] == old_m[k]);
    assert(admins.len() == inst.admins.len() - 1);
    assert(forall|i: int| 0 <= i < admins.len() ==> #[trigger] admins[i] == if i == pos { inst.admins.last() } else { inst.admins[i] });
    assert(!admins.contains(x)) by {
        if admins.contains(x) {
            let i = choose|i: int| 0 <= i < admins.len() && admins[i] == x;
            if i == pos {
                assert(inst.admins[inst.admins.len() - 1] == inst.admins[pos]);
            } else {
                assert(inst.admins[i] == inst.admins[pos]);
            }
        }
    }
    assert(forall|a: Pubkey| #[trigger] admins.contains(a) ==> inst.admins.contains(a)) by {
        assert forall|a: Pubkey| #[trigger] admins.contains(a) implies inst.admins.contains(a) by {
            let i = choose|i: int| 0 <= i < admins.len() && admins[i] == a;
            if i == pos {
                assert(inst.admins[inst.admins.len() - 1] == a);
            } else {
                assert(inst.admins[i] == a);
            }
        }
    }
    assert(wallet_sound(new_inst)) by {
        assert forall|i: int, j: int| 0 <= i < j < admins.len() implies admins[i] != admins[j] by {
            if i == pos {
                assert(inst.admins[inst.admins.len() - 1] != inst.admins[j]);
            } else if j == pos {
                assert(inst.admins[i] != inst.admins[inst.admins.len() - 1]);
            }
        }
        assert forall|i: int| 0 <= i < admins.len() implies !(#[trigger] admins[i]).spec_is_default() by {
            if i == pos {
                assert(!inst.admins[inst.admins.len() - 1].spec_is_default());
            } else {
                assert(!inst.admins[i].spec_is_default());
            }
        }
    }
    assert(wallets_sound(m));
    assert(keys_derived(m, pid));
    assert forall|k: Pubkey, i: int|
        #![trigger m[k].data->Instance_0.admins[i]]
        m.contains_key(k) && m[k].data is Instance && 0 <= i < m[k].data->Instance_0.admins.len()
            implies admin_record_in(m, pid, m[k].data->Instance_0.admins[i], k) by {
        if k == key {
            let a = admins[i];
            let oi = if i == pos { inst.admins.len() - 1 } else { i };
            assert(inst.admins[oi] == a);
            assert(admin_record_in(old_m, pid, old_m[k].data->Instance_0.admins[oi], k));
            let (xa, ba) = program_address(admin_record_seeds(a, key), pid)->Some_0;
            assert(old_m[xa].data == AccountDataView::Admin(AdminRecord { admin: a, maj_instance: key, bump: ba }));
            assert(a != x);
            assert(xa != rec_key);
        } else {
            let a = old_m[k].data->Instance_0.admins[i];
            assert(admin_record_in(old_m, pid, a, k));
            let (xa, ba) = program_address(admin_record_seeds(a, k), pid)->Some_0;
            assert(old_m[xa].data == AccountDataView::Admin(AdminRecord { admin: a, maj_instance: k, bump: ba }));
            assert(xa != rec_key);
        }
    }
    assert forall|y: Pubkey| #[trigger] m.contains_key(y) && m[y].data is Admin implies {
        let r = m[y].data->Admin_0;
        &&& m.contains_key(r.maj_instance)
        &&& m[r.maj_instance].data is Instance
        &&& m[r.maj_instance].data->Instance_0.admins.contains(r.admin)
    } by {
        let r = old_m[y].data->Admin_0;
        if r.maj_instance == key {
            if r.admin == x {
                assert(old_m[y].seeds == admin_record_seeds(x, key));
                assert(program_address(old_m[y].seeds, pid) == Some((y, r.bump)));
                assert(y == rec_key);
            }
            let i = choose|i: int| 0 <= i < inst.admins.len() && inst.admins[i] == r.admin;
            if i == inst.admins.len() - 1 {
                assert(admins[pos] == r.admin);
            } else {
                assert(i != pos);
                assert(admins[i] == r.admin);
            }
        }
    }
    assert(transactions_sound(m));
    assert(seeds_fit(m));
}

/// Changing only the status or the count of signatures of a transaction,
/// never making it both active and executed, keeps the state sound.
pub proof fn lemma_transaction_update_sound(p: ProgramView, t: Pubkey, tx2: MajTransactionView)
    requires
        sound(p),
        p.accounts.contains_key(t),
        p.accounts[t].data is Transaction,
        tx2.maj_instance == p.accounts[t].data->Transaction_0.maj_instance,
        tx2.tx_index == p.accounts[t].data->Transaction_0.tx_index,
        tx2.bump == p.accounts[t].data->Transaction_0.bump,
        !(tx2.active && tx2.executed),
    ensures
        sound(after(p, with_data(p.accounts, t, AccountDataView::Transaction(tx2)))),
{
    let m = with_data(p.accounts, t, AccountDataView::Transaction(tx2));
    assert(forall|k: Pubkey| #[trigger] m.contains_key(k) <==> p.accounts.contains_key(k));
    assert(forall|k: Pubkey| k != t && m.contains_key(k) ==> #[trigger] m[k] == p.accounts[k]);
    assert forall|k: Pubkey, i: int|
        #![trigger m[k].data->Instance_0.admins[i]]
        m.contains_key(k) && m[k].data is Instance && 0 <= i < m[k].data->Instance_0.admins.len()
            implies admin_record_in(m, p.program_id, m[k].data->Instance_0.admins[i], k) by {
        let a = p.accounts[k].data->Instance_0.admins[i];
        assert(admin_record_in(p.accounts, p.program_id, a, k));
    }
}

/// Adding a signature record at a free address keeps the state sound, where
/// the record is at the address its seeds lead to.
pub proof fn lemma_signature_added_sound(p: ProgramView, x: Pubkey, v: AccountView)
    requires
        sound(p),
        !p.accounts.contains_key(x),
        v.data is Signature,
        program_address(v.seeds, p.program_id) == Some((x, bump_of(v.data))),
    ensures
        sound(after(p, p.accounts.insert(x, v))),
{
    let m = p.accounts.insert(x, v);
    assert forall|k: Pubkey, i: int|
        #![trigger m[k].data->Instance_0.admins[i]]
        m.contains_key(k) && m[k].data is Instance && 0 <= i < m[k].data->Instance_0.admins.len()
            implies admin_record_in(m, p.program_id, m[k].data->Instance_0.admins[i], k) by {
        let a = p.accounts[k].data->Instance_0.admins[i];
        assert(admin_record_in(p.accounts, p.program_id, a, k));
    }
}

/// Cancelling a transaction keeps the state sound.
pub proof fn lemma_cancel_transaction_sound(p: ProgramView, ctx: CancelTransaction)
    requires
        sound(p),
        cancel_transaction_step(p, ctx) is Ok,
    ensures
        sound(after(p, cancel_transaction_step(p, ctx)->Ok_0.0)),
{
    let t = ctx.maj_transaction;
    let tx = p.accounts[t].data->Transaction_0;
    lemma_transaction_update_sound(p, t, MajTransactionView { active: false, ..tx });
}

/// Revoking a signature keeps the state sound.
pub proof fn lemma_revoke_signature_sound(p: ProgramView, ctx: RevokeSignature)
    requires
        sound(p),
        revoke_signature_step(p, ctx) is Ok,
    ensures
        sound(after(p, revoke_signature_step(p, ctx)->Ok_0.0)),
{
    let t = ctx.maj_transaction;
    let tx = p.accounts[t].data->Transaction_0;
    let tx2 = MajTransactionView { num_signatures: (tx.num_signatures - 1) as u32, ..tx };
    lemma_transaction_update_sound(p, t, tx2);
    let m1 = with_data(p.accounts, t, AccountDataView::Transaction(tx2));
    let (sig_key, _) = program_address(crate::pda::sig_seeds(t, ctx.admin), p.program_id)->Some_0;
    let m = m1.remove(sig_key);
    assert(m == revoke_signature_step(p, ctx)->Ok_0.0);
    assert(p.accounts[sig_key].data is Signature);
    assert forall|k: Pubkey, i: int|
        #![trigger m[k].data->Instance_0.admins[i]]
        m.contains_key(k) && m[k].data is Instance && 0 <= i < m[k].data->Instance_0.admins.len()
            implies admin_record_in(m, p.program_id, m[k].data->Instance_0.admins[i], k) by {
        let a = m1[k].data->Instance_0.admins[i];
        assert(admin_record_in(m1, p.program_id, a, k));
    }
}

/// Executing a transaction keeps the state sound.
pub proof fn lemma_execute_transaction_sound(p: ProgramView, ctx: ExecuteTransaction)
    requires
        sound(p),
        execute_transaction_step(p, ctx) is Ok,
    ensures
        sound(after(p, execute_transaction_step(p, ctx)->Ok_0.0)),
{
    let t = ctx.maj_transaction;
    let key = ctx.maj_instance;
    let tx = p.accounts[t].data->Transaction_0;
    let inst = p.accounts[key].data->Instance_0;
    let done = execution(key, inst, tx, ctx.remaining_accounts@)->Ok_0.0;
    lemma_transaction_update_sound(p, t, done);
}

/// Signing a transaction keeps the state sound.
pub proof fn lemma_sign_transaction_sound(p: ProgramView, ctx: SignTransaction)
    requires
        sound(p),
        sign_transaction_step(p, ctx) is Ok,
    ensures
        sound(after(p, sign_transaction_step(p, ctx)->Ok_0.0)),
{
    let t = ctx.maj_transaction;
    let key = ctx.maj_instance;
    let tx = p.accounts[t].data->Transaction_0;
    let inst = p.accounts[key].data->Instance_0;
    let (sig_key, sig_bump) = program_address(crate::pda::sig_seeds(t, ctx.admin), p.program_id)->Some_0;
    let v = AccountView {
        seeds: crate::pda::sig_seeds(t, ctx.admin),
        space: 9,
        data: AccountDataView::Signature(crate::state::transaction::SignatureRecord { bump: sig_bump }),
    };
    lemma_signature_added_sound(p, sig_key, v);
    let p1 = after(p, p.accounts.insert(sig_key, v));
    let signed = MajTransactionView { num_signatures: (tx.num_signatures + 1) as u32, ..tx };
    if signed.num_signatures >= inst.sigs_required as u32 {
        let done = execution(key, inst, signed, ctx.remaining_accounts@)->Ok_0.0;
        lemma_transaction_update_sound(p1, t, done);
        assert(with_data(p1.accounts, t, AccountDataView::Transaction(done)) == sign_transaction_step(p, ctx)->Ok_0.0);
    } else {
        lemma_transaction_update_sound(p1, t, signed);
    }
}

/// Proposing a transaction keeps the state sound.
pub proof fn lemma_propose_transaction_sound(
    p: ProgramView,
    ctx: ProposeTransaction,
    to: Pubkey,
    value: u64,
    data: Seq<u8>,
    program_id: Option<Pubkey>,
    account_metas: Seq<SerializedAccountMeta>,
)
    requires
        sound(p),
        propose_transaction_step(p, ctx, to, value, data, program_id, account_metas) is Ok,
    ensures
        sound(after(p, propose_transaction_step(p, ctx, to, value, data, program_id, account_metas)->Ok_0.0)),
{
    let key = ctx.maj_instance;
    let pid = p.program_id;
    let old_m = p.accounts;
    let inst = old_m[key].data->Instance_0;
    let (tx_key, tx_bump) = program_address(tx_seeds(key, inst.tx_count), pid)->Some_0;
    let tx = MajTransactionView {
        maj_instance: key,
        tx_index: inst.tx_count,
        to,
        value,
        proposed_by: ctx.proposer,
        active: true,
        executed: false,
        num_signatures: 0,
        program_id,
        data,
        account_metas,
        bump: tx_bump,
    };
    let counted = MajInstanceView { tx_count: (inst.tx_count + 1) as u64, ..inst };
    let m0 = with_data(old_m, key, AccountDataView::Instance(counted));
    let base = m0.insert(tx_key, AccountView {
        seeds: tx_seeds(key, inst.tx_count),
        space: transaction_space(data.len(), account_metas.len()) as usize,
        data: AccountDataView::Transaction(tx),
    });
    assert(old_m.contains_key(key) && old_m[key].data is Instance);
    assert(!old_m.contains_key(tx_key));
    assert(forall|k: Pubkey| k != key && k != tx_key ==> (#[trigger] base.contains_key(k) <==> old_m.contains_key(k)));
    assert(forall|k: Pubkey| k != key && k != tx_key && base.contains_key(k) ==> #[trigger] base[k] == old_m[k]);
    let pb = after(p, base);
    assert(sound(pb)) by {
        assert forall|k: Pubkey, i: int|
            #![trigger base[k].data->Instance_0.admins[i]]
            base.contains_key(k) && base[k].data is Instance && 0 <= i < base[k].data->Instance_0.admins.len()
                implies admin_record_in(base, pid, base[k].data->Instance_0.admins[i], k) by {
            let a = old_m[k].data->Instance_0.admins[i];
            assert(admin_record_in(old_m, pid, a, k));
        }
        assert forall|y: Pubkey| #[trigger] base.contains_key(y) && base[y].data is Admin implies {
            let r = base[y].data->Admin_0;
            &&& base.contains_key(r.maj_instance)
            &&& base[r.maj_instance].data is Instance
            &&& base[r.maj_instance].data->Instance_0.admins.contains(r.admin)
        } by {
            assert(old_m[y].data is Admin);
        }
        assert forall|t: Pubkey| #[trigger] base.contains_key(t) && base[t].data is Transaction implies {
            let x = base[t].data->Transaction_0;
            &&& base.contains_key(x.maj_instance)
            &&& base[x.maj_instance].data is Instance
            &&& x.tx_index < base[x.maj_instance].data->Instance_0.tx_count
            &&& !(x.active && x.executed)
        } by {
            if t != tx_key {
                assert(old_m[t].data is Transaction);
            }
        }
    }
    let (admin_key, _) = program_address(admin_record_seeds(ctx.proposer, key), pid)->Some_0;
    if old_m.contains_key(admin_key) {
        let (sig_key, sig_bump) = program_address(crate::pda::sig_seeds(tx_key, ctx.proposer), pid)->Some_0;
        let v = AccountView {
            seeds: crate::pda::sig_seeds(tx_key, ctx.proposer),
            space: 9,
            data: AccountDataView::Signature(crate::state::transaction::SignatureRecord { bump: sig_bump }),
        };
        lemma_signature_added_sound(pb, sig_key, v);
        let p1 = after(p, base.insert(sig_key, v));
        let signed = MajTransactionView { num_signatures: 1, ..tx };
        if signed.num_signatures >= counted.sigs_required as u32 {
            let done = execution(key, counted, signed, ctx.remaining_accounts@)->Ok_0.0;
            lemma_transaction_update_sound(p1, tx_key, done);
        } else {
            lemma_transaction_update_sound(p1, tx_key, signed);
        }
    }
}

/// Admins without a fault are all nonzero and all distinct.
pub proof fn lemma_no_admin_fault(admins: Seq<Pubkey>, n: nat)
    requires
        n <= admins.len(),
        first_admin_fault(admins, n) is None,
    ensures
        forall|i: int, j: int| 0 <= i < j < n ==> admins[i] != admins[j],
        forall|i: int| 0 <= i < n ==> !(#[trigger] admins[i]).spec_is_default(),
    decreases n,
{
    if n > 0 {
        lemma_no_admin_fault(admins, (n - 1) as nat);
        assert forall|i: int| 0 <= i < n - 1 implies #[trigger] admins[i] != admins[n - 1] by {
            if admins[i] == admins[n - 1] {
                assert(admins.take(n - 1)[i] == admins[n - 1]);
            }
        }
    }
}

/// Creating admin records keeps the accounts that were there, adds only
/// admin records of the wallet at the addresses their seeds lead to, and
/// gives each of the first `n` admins its record.
pub proof fn lemma_admin_records_created(
    p: ProgramView,
    base: Map<Pubkey, AccountView>,
    admins: Seq<Pubkey>,
    remaining: Seq<AccountRef>,
    inst_key: Pubkey,
    n: nat,
)
    requires
        n <= admins.len(),
        admin_records_created(p, base, admins, remaining, inst_key, n) is Ok,
    ensures
        ({
            let m = admin_records_created(p, base, admins, remaining, inst_key, n)->Ok_0;
            &&& forall|k: Pubkey| #[trigger] base.contains_key(k) ==> m.contains_key(k) && m[k] == base[k]
            &&& forall|k: Pubkey| #[trigger] m.contains_key(k) && !base.contains_key(k) ==> {
                &&& m[k].data is Admin
                &&& m[k].data->Admin_0.maj_instance == inst_key
                &&& admins.take(n as int).contains(m[k].data->Admin_0.admin)
                &&& m[k].seeds == admin_record_seeds(m[k].data->Admin_0.admin, inst_key)
                &&& program_address(m[k].seeds, p.program_id) == Some((k, bump_of(m[k].data)))
            }
            &&& forall|i: int| 0 <= i < n ==> admin_record_in(m, p.program_id, #[trigger] admins[i], inst_key)
            &&& base.dom().finite() ==> m.dom().finite()
        }),
    decreases n,
{
    if n > 0 {
        lemma_admin_records_created(p, base, admins, remaining, inst_key, (n - 1) as nat);
        let m0 = admin_records_created(p, base, admins, remaining, inst_key, (n - 1) as nat)->Ok_0;
        let m = admin_records_created(p, base, admins, remaining, inst_key, n)->Ok_0;
        let a = admins[n - 1];
        let (k, b) = program_address(admin_record_seeds(a, inst_key), p.program_id)->Some_0;
        assert(!m0.contains_key(k));
        assert(m == m0.insert(k, admin_record_view(a, inst_key, b)));
        assert(m.dom() =~= m0.dom().insert(k));
        assert forall|q: Pubkey| #[trigger] m.contains_key(q) && !base.contains_key(q) implies {
            &&& m[q].data is Admin
            &&& m[q].data->Admin_0.maj_instance == inst_key
            &&& admins.take(n as int).contains(m[q].data->Admin_0.admin)
            &&& m[q].seeds == admin_record_seeds(m[q].data->Admin_0.admin, inst_key)
            &&& program_address(m[q].seeds, p.program_id) == Some((q, bump_of(m[q].data)))
        } by {
            if q == k {
                assert(admins.take(n as int)[n - 1] == a);
            } else {
                let c = m0[q].data->Admin_0.admin;
                let j = choose|j: int| 0 <= j < n - 1 && #[trigger] admins.take(n - 1)[j] == c;
                assert(admins.take(n as int)[j] == c);
            }
        }
        assert forall|i: int| 0 <= i < n implies admin_record_in(m, p.program_id, #[trigger] admins[i], inst_key) by {
            if i < n - 1 {
                assert(admin_record_in(m0, p.program_id, admins[i], inst_key));
            }
        }
    }
}

/// Creating a wallet keeps the state sound.
pub proof fn lemma_create_maj_sound(p: ProgramView, ctx: CreateMaj, name: Seq<u8>, admins: Seq<Pubkey>, sigs_required: u64)
    requires
        sound(p),
        create_maj_step(p, ctx, name, admins, sigs_required) is Ok,
    ensures
        sound(after(p, create_maj_step(p, ctx, name, admins, sigs_required)->Ok_0.0)),
{
    let pid = p.program_id;
    let old_m = p.accounts;
    let (reg_key, _) = program_address(registry_seeds(), pid)->Some_0;
    let (name_key, _) = program_address(name_seeds(name), pid)->Some_0;
    let (inst_key, inst_bump) = program_address(instance_seeds(name), pid)->Some_0;
    let new_inst = MajInstanceView { name, admins, sigs_required, tx_count: 0, bump: inst_bump };
    let base = creation_base(p, name, admins, sigs_required);
    assert(old_m.contains_key(reg_key) && old_m[reg_key].data is Registry);
    assert(!old_m.contains_key(name_key) && !old_m.contains_key(inst_key) && name_key != inst_key);
    lemma_admin_records_created(p, base, admins, ctx.remaining_accounts@, inst_key, admins.len());
    let m = admin_records_created(p, base, admins, ctx.remaining_accounts@, inst_key, admins.len())->Ok_0;
    assert(m == create_maj_step(p, ctx, name, admins, sigs_required)->Ok_0.0);
    assert(admins.take(admins.len() as int) =~= admins);
    lemma_no_admin_fault(admins, admins.len());
    assert(wallet_sound(new_inst));
    assert forall|k: Pubkey| #[trigger] old_m.contains_key(k) && k != reg_key implies m.contains_key(k) && m[k] == old_m[k] by {
        assert(base.contains_key(k) && base[k] == old_m[k]);
    }
    assert(base.contains_key(inst_key) && base.contains_key(reg_key) && base.contains_key(name_key));
    assert(m.contains_key(inst_key) && m[inst_key].data == AccountDataView::Instance(new_inst));
    assert(m.contains_key(reg_key) && m[reg_key].data is Registry && m[reg_key].seeds == old_m[reg_key].seeds);
    assert(m.contains_key(name_key) && m[name_key].data is NameRecord);
    assert(forall|k: Pubkey| #[trigger] m.contains_key(k) && !old_m.contains_key(k) && k != name_key && k != inst_key
        ==> m[k].data is Admin && m[k].data->Admin_0.maj_instance == inst_key);
    assert(wallets_sound(m));
    assert(keys_derived(m, pid));
    assert forall|k: Pubkey, i: int|
        #![trigger m[k].data->Instance_0.admins[i]]
        m.contains_key(k) && m[k].data is Instance && 0 <= i < m[k].data->Instance_0.admins.len()
            implies admin_record_in(m, pid, m[k].data->Instance_0.admins[i], k) by {
        if k != inst_key {
            let a = old_m[k].data->Instance_0.admins[i];
            assert(admin_record_in(old_m, pid, a, k));
        }
    }
    assert forall|y: Pubkey| #[trigger] m.contains_key(y) && m[y].data is Admin implies {
        let r = m[y].data->Admin_0;
        &&& m.contains_key(r.maj_instance)
        &&& m[r.maj_instance].data is Instance
        &&& m[r.maj_instance].data->Instance_0.admins.contains(r.admin)
    } by {
        if old_m.contains_key(y) {
            assert(old_m[y].data is Admin);
        }
    }
    assert forall|t: Pubkey| #[trigger] m.contains_key(t) && m[t].data is Transaction implies {
        let x = m[t].data->Transaction_0;
        &&& m.contains_key(x.maj_instance)
        &&& m[x.maj_instance].data is Instance
        &&& x.tx_index < m[x.maj_instance].data->Instance_0.tx_count
        &&& !(x.active && x.executed)
    } by {
        assert(old_m.contains_key(t));
        assert(old_m[t].data is Transaction);
    }
    assert(seeds_fit(m));
}

/// A program with no accounts yet is sound.
pub proof fn law_empty_state_sound(program_id: Pubkey)
    ensures
        sound(ProgramView { program_id, accounts: Map::empty() }),
{
}

/// Every instruction that succeeds keeps the state sound: wallets keep at
/// least two distinct nonzero admins and a threshold between two and their
/// number, admin records stay in step with the wallets' admins, transactions
/// stay attached to their wallet and are never both active and executed, and
/// every account stays at the address derived from its seeds.
pub proof fn law_step_keeps_sound(p: ProgramView, ins: Instruction)
    requires
        sound(p),
        step(p, ins) is Ok,
    ensures
        sound(after(p, step(p, ins)->Ok_0.0)),
{
    match ins {
        Instruction::InitializeRegistry(_) => lemma_initialize_registry_sound(p),
        Instruction::CreateMaj { accounts, name, admins, sigs_required } =>
            lemma_create_maj_sound(p, accounts, name@, admins@, sigs_required),
        Instruction::ProposeTransaction { accounts, to, value, data, program_id, account_metas } =>
            lemma_propose_transaction_sound(p, accounts, to, value, data@, program_id, account_metas@),
        Instruction::SignTransaction(accounts) => lemma_sign_transaction_sound(p, accounts),
        Instruction::ExecuteTransaction(accounts) => lemma_execute_transaction_sound(p, accounts),
        Instruction::RevokeSignature(accounts) => lemma_revoke_signature_sound(p, accounts),
        Instruction::CancelTransaction(accounts) => lemma_cancel_transaction_sound(p, accounts),
        Instruction::AddAdmin { accounts, new_admin } => lemma_add_admin_sound(p, accounts, new_admin),
        Instruction::RemoveAdmin { accounts, admin_to_remove } => lemma_remove_admin_sound(p, accounts, admin_to_remove),
        Instruction::ChangeSigsRequired { accounts, new_sigs_required } =>
            lemma_change_sigs_required_sound(p, accounts, new_sigs_required),
        Instruction::AddBlacklist { accounts, target } => lemma_add_blacklist_sound(p, accounts, target),
        Instruction::RemoveBlacklist { accounts, target } => lemma_remove_blacklist_sound(p, accounts, target),
    }
}

/// Whether an instruction is a governance call, and whether the wallet signed it.
pub open spec fn governance_signed(ins: Instruction) -> Option<bool> {
    match ins {
        Instruction::AddAdmin { accounts, .. } => Some(accounts.maj_instance_is_signer),
        Instruction::RemoveAdmin { accounts, .. } => Some(accounts.maj_instance_is_signer),
        Instruction::ChangeSigsRequired { accounts, .. } => Some(accounts.maj_instance_is_signer),
        Instruction::AddBlacklist { accounts, .. } => Some(accounts.maj_instance_is_signer),
        Instruction::RemoveBlacklist { accounts, .. } => Some(accounts.maj_instance_is_signer),
        _ => None,
    }
}

/// Governance only moves through the wallet itself: a governance call that the
/// wallet did not sign always fails.
pub proof fn law_governance_needs_wallet_signature(p: ProgramView, ins: Instruction)
    requires
        governance_signed(ins) == Some(false),
    ensures
        step(p, ins) is Err,
{
}

/// A blacklisted address cannot propose: where the proposer's blacklist record
/// for the wallet exists (and the wallet is in order, so that the proposal
/// gets as far as that check), the proposal fails with `AddressIsBlacklisted`;
/// and a proposal that succeeds found no such record.
pub proof fn law_blacklisted_cannot_propose(
    p: ProgramView,
    ctx: ProposeTransaction,
    to: Pubkey,
    value: u64,
    data: Seq<u8>,
    program_id: Option<Pubkey>,
    account_metas: Seq<SerializedAccountMeta>,
)
    ensures
        propose_transaction_step(p, ctx, to, value, data, program_id, account_metas) is Ok ==> (
            program_address(crate::pda::blacklist_seeds(ctx.maj_instance, ctx.proposer), p.program_id) matches Some((b, _))
                && !p.accounts.contains_key(b)),
        blacklisted_before_proposal(p, ctx, data, account_metas) ==>
            propose_transaction_step(p, ctx, to, value, data, program_id, account_metas)
                == Err::<(Map<Pubkey, AccountView>, crate::events::OutcomeView), InstructionError>(
                    InstructionError::Maj(MajError::AddressIsBlacklisted)),
{
}

/// The proposer's blacklist record for the wallet exists, and every check a
/// proposal makes before it looks for that record passes: the wallet exists
/// and matches its name, the transaction's size fits, and the new
/// transaction's address derives and is free.
pub open spec fn blacklisted_before_proposal(p: ProgramView, ctx: ProposeTransaction, data: Seq<u8>, account_metas: Seq<SerializedAccountMeta>) -> bool {
    let key = ctx.maj_instance;
    &&& crate::instructions::accounts::instance_at(p.accounts, key) is Ok
    &&& {
        let inst = crate::instructions::accounts::instance_at(p.accounts, key)->Ok_0;
        &&& crate::instructions::accounts::seeds_match(p, instance_seeds(inst.name), key, inst.bump) is Ok
        &&& transaction_space(data.len(), account_metas.len()) <= usize::MAX
        &&& (crate::instructions::accounts::derived(p, tx_seeds(key, inst.tx_count)) matches Ok((t, _))
            && !p.accounts.contains_key(t))
        &&& (crate::instructions::accounts::derived(p, crate::pda::blacklist_seeds(key, ctx.proposer)) matches Ok((b, _))
            && p.accounts.contains_key(b))
    }
}

/// A name is taken once: after a wallet is created under a name, creating
/// another one under it fails.
pub proof fn law_names_unique(
    p: ProgramView,
    ctx: CreateMaj,
    name: Seq<u8>,
    admins: Seq<Pubkey>,
    sigs_required: u64,
    ctx2: CreateMaj,
    admins2: Seq<Pubkey>,
    sigs_required2: u64,
)
    requires
        create_maj_step(p, ctx, name, admins, sigs_required) is Ok,
    ensures
        create_maj_step(after(p, create_maj_step(p, ctx, name, admins, sigs_required)->Ok_0.0), ctx2, name, admins2, sigs_required2) is Err,
{
    let pid = p.program_id;
    let (name_key, _) = program_address(name_seeds(name), pid)->Some_0;
    let (inst_key, _) = program_address(instance_seeds(name), pid)->Some_0;
    let base2 = creation_base(p, name, admins, sigs_required);
    lemma_admin_records_created(p, base2, admins, ctx.remaining_accounts@, inst_key, admins.len());
    assert(base2.contains_key(name_key));
}

/// The registry counts the wallets: creating one raises its count by one.
pub proof fn law_registry_counts_wallets(p: ProgramView, ctx: CreateMaj, name: Seq<u8>, admins: Seq<Pubkey>, sigs_required: u64)
    requires
        create_maj_step(p, ctx, name, admins, sigs_required) is Ok,
    ensures
        ({
            let m = create_maj_step(p, ctx, name, admins, sigs_required)->Ok_0.0;
            let reg_key = program_address(registry_seeds(), p.program_id)->Some_0.0;
            &&& m.contains_key(reg_key)
            &&& m[reg_key].data is Registry
            &&& m[reg_key].data->Registry_0.total_instances == p.accounts[reg_key].data->Registry_0.total_instances + 1
        }),
{
    let pid = p.program_id;
    let (reg_key, _) = program_address(registry_seeds(), pid)->Some_0;
    let (inst_key, _) = program_address(instance_seeds(name), pid)->Some_0;
    let base = creation_base(p, name, admins, sigs_required);
    lemma_admin_records_created(p, base, admins, ctx.remaining_accounts@, inst_key, admins.len());
    assert(base.contains_key(reg_key));
}

/// Whether `m` holds at `t` a transaction that is not active (executed or
/// cancelled).
pub open spec fn settled_at(m: Map<Pubkey, AccountView>, t: Pubkey) -> bool {
    m.contains_key(t) && m[t].data is Transaction && !m[t].data->Transaction_0.active
}

/// Whether `m` holds at `t` an executed transaction.
pub open spec fn executed_at(m: Map<Pubkey, AccountView>, t: Pubkey) -> bool {
    m.contains_key(t) && m[t].data is Transaction && m[t].data->Transaction_0.executed
}

/// A transaction that is no longer active (executed or cancelled) never changes
/// again: no instruction alters or closes it.
pub proof fn law_settled_transactions_frozen(p: ProgramView, ins: Instruction, t: Pubkey)
    requires
        step(p, ins) is Ok,
        settled_at(p.accounts, t),
    ensures
        step(p, ins)->Ok_0.0.contains_key(t),
        step(p, ins)->Ok_0.0[t] == p.accounts[t],
{
    match ins {
        Instruction::CreateMaj { accounts, name, admins, sigs_required } => {
            let pid = p.program_id;
            let (inst_key, _) = program_address(instance_seeds(name@), pid)->Some_0;
            let base = creation_base(p, name@, admins@, sigs_required);
            lemma_admin_records_created(p, base, admins@, accounts.remaining_accounts@, inst_key, admins@.len());
            assert(base.contains_key(t) && base[t] == p.accounts[t]);
        },
        _ => {},
    }
}

/// A transaction is executed only once it holds the threshold of signatures
/// of its wallet (the threshold read as a 32-bit number).
pub proof fn law_execution_needs_threshold(p: ProgramView, ins: Instruction, t: Pubkey)
    requires
        sound(p),
        step(p, ins) is Ok,
        executed_at(step(p, ins)->Ok_0.0, t),
        !executed_at(p.accounts, t),
    ensures
        ({
            let tx = step(p, ins)->Ok_0.0[t].data->Transaction_0;
            &&& p.accounts.contains_key(tx.maj_instance)
            &&& p.accounts[tx.maj_instance].data is Instance
            &&& tx.num_signatures >= p.accounts[tx.maj_instance].data->Instance_0.sigs_required as u32
        }),
{
    match ins {
        Instruction::CreateMaj { accounts, name, admins, sigs_required } => {
            let pid = p.program_id;
            let (inst_key, _) = program_address(instance_seeds(name@), pid)->Some_0;
            let base = creation_base(p, name@, admins@, sigs_required);
            lemma_admin_records_created(p, base, admins@, accounts.remaining_accounts@, inst_key, admins@.len());
            let m = step(p, ins)->Ok_0.0;
            if !base.contains_key(t) {
                assert(m[t].data is Admin);
            } else {
                assert(base[t] == p.accounts[t]);
            }
        },
        _ => {},
    }
}

/// The revocation that matches a signature.
pub open spec fn revocation_of(ctx: SignTransaction) -> RevokeSignature {
    RevokeSignature { maj_instance: ctx.maj_instance, maj_transaction: ctx.maj_transaction, admin: ctx.admin }
}

/// Revoking undoes signing: after an admin's signature that did not execute
/// the transaction, the same admin's revocation succeeds and leaves every
/// account as it was before the signature.
pub proof fn law_revoke_undoes_sign(p: ProgramView, ctx: SignTransaction)
    requires
        sign_transaction_step(p, ctx) is Ok,
        sign_transaction_step(p, ctx)->Ok_0.1.execution is None,
    ensures
        revoke_signature_step(after(p, sign_transaction_step(p, ctx)->Ok_0.0), revocation_of(ctx)) is Ok,
        revoke_signature_step(after(p, sign_transaction_step(p, ctx)->Ok_0.0), revocation_of(ctx))->Ok_0.0 == p.accounts,
{
    let key = ctx.maj_instance;
    let t = ctx.maj_transaction;
    let pid = p.program_id;
    let tx = p.accounts[t].data->Transaction_0;
    let inst = p.accounts[key].data->Instance_0;
    let (sig_key, sig_bump) = program_address(crate::pda::sig_seeds(t, ctx.admin), pid)->Some_0;
    let v = AccountView {
        seeds: crate::pda::sig_seeds(t, ctx.admin),
        space: 9,
        data: AccountDataView::Signature(crate::state::transaction::SignatureRecord { bump: sig_bump }),
    };
    let base = p.accounts.insert(sig_key, v);
    let signed = MajTransactionView { num_signatures: (tx.num_signatures + 1) as u32, ..tx };
    let m = sign_transaction_step(p, ctx)->Ok_0.0;
    assert(m == with_data(base, t, AccountDataView::Transaction(signed)));
    let q = after(p, m);
    let r = revoke_signature_step(q, revocation_of(ctx));
    assert(q.accounts[t].data == AccountDataView::Transaction(signed));
    assert(q.accounts[key] == p.accounts[key]);
    assert(r is Ok);
    let restored = MajTransactionView { num_signatures: (signed.num_signatures - 1) as u32, ..signed };
    assert(restored == tx);
    assert(r->Ok_0.0 =~= p.accounts);
}

/// An admin signs a transaction once: repeating a signature that succeeded
/// fails.
pub proof fn law_signature_not_repeated(p: ProgramView, ctx: SignTransaction)
    requires
        sign_transaction_step(p, ctx) is Ok,
    ensures
        sign_transaction_step(after(p, sign_transaction_step(p, ctx)->Ok_0.0), ctx) is Err,
{
    let key = ctx.maj_instance;
    let t = ctx.maj_transaction;
    let pid = p.program_id;
    let (sig_key, _) = program_address(crate::pda::sig_seeds(t, ctx.admin), pid)->Some_0;
    let m = sign_transaction_step(p, ctx)->Ok_0.0;
    assert(m.contains_key(sig_key));
    assert(m[key] == p.accounts[key]);
}

/// Reaching the threshold executes: a signature that brings the count to the
/// wallet's threshold (read as a 32-bit number) leaves the transaction
/// executed and asks the runtime for its execution.
pub proof fn law_threshold_executes(p: ProgramView, ctx: SignTransaction)
    requires
        sign_transaction_step(p, ctx) is Ok,
        p.accounts[ctx.maj_transaction].data->Transaction_0.num_signatures + 1
            >= p.accounts[ctx.maj_instance].data->Instance_0.sigs_required as u32,
    ensures
        executed_at(sign_transaction_step(p, ctx)->Ok_0.0, ctx.maj_transaction),
        !sign_transaction_step(p, ctx)->Ok_0.0[ctx.maj_transaction].data->Transaction_0.active,
        sign_transaction_step(p, ctx)->Ok_0.1.execution is Some,
{
}

/// A proposal creates the wallet's next transaction: at the address derived
/// from the wallet and its count, with that count as index, active, proposed
/// by the caller, with one signature if the caller's admin record for the
/// wallet exists and none otherwise (unless that signature executed it); and
/// the wallet's count grows by one.
pub proof fn law_proposal_is_next_transaction(
    p: ProgramView,
    ctx: ProposeTransaction,
    to: Pubkey,
    value: u64,
    data: Seq<u8>,
    program_id: Option<Pubkey>,
    account_metas: Seq<SerializedAccountMeta>,
)
    requires
        propose_transaction_step(p, ctx, to, value, data, program_id, account_metas) is Ok,
    ensures
        ({
            let m = propose_transaction_step(p, ctx, to, value, data, program_id, account_metas)->Ok_0.0;
            let key = ctx.maj_instance;
            let count = p.accounts[key].data->Instance_0.tx_count;
            let t = program_address(tx_seeds(key, count), p.program_id)->Some_0.0;
            let admin_key = program_address(admin_record_seeds(ctx.proposer, key), p.program_id)->Some_0.0;
            let tx = m[t].data->Transaction_0;
            &&& !p.accounts.contains_key(t)
            &&& m.contains_key(t) && m[t].data is Transaction
            &&& tx.maj_instance == key && tx.tx_index == count && tx.proposed_by == ctx.proposer
            &&& tx.to == to && tx.value == value && tx.data == data && tx.program_id == program_id
            &&& tx.account_metas == account_metas
            &&& (tx.executed || (tx.active && tx.num_signatures == if p.accounts.contains_key(admin_key) { 1u32 } else { 0u32 }))
            &&& (tx.num_signatures == 1 || tx.executed) <==> p.accounts.contains_key(admin_key)
            &&& !p.accounts.contains_key(admin_key) ==> {
                &&& tx.active && !tx.executed && tx.num_signatures == 0
                &&& m.dom() == p.accounts.dom().insert(t)
                &&& propose_transaction_step(p, ctx, to, value, data, program_id, account_metas)->Ok_0.1.execution is None
            }
            &&& m[key].data->Instance_0.tx_count == count + 1
        }),
{
}

/// Adding an admin keeps the wallet sound: a wallet with at least two
/// distinct nonzero admins and a threshold between two and their number
/// still has them after an admin is added.
pub proof fn law_add_admin_keeps_wallet_sound(p: ProgramView, ctx: AddAdmin, new_admin: Pubkey)
    requires
        add_admin_step(p, ctx, new_admin) is Ok,
        wallet_sound(p.accounts[ctx.maj_instance].data->Instance_0),
    ensures
        add_admin_step(p, ctx, new_admin)->Ok_0.0.contains_key(ctx.maj_instance),
        add_admin_step(p, ctx, new_admin)->Ok_0.0[ctx.maj_instance].data is Instance,
        wallet_sound(add_admin_step(p, ctx, new_admin)->Ok_0.0[ctx.maj_instance].data->Instance_0),
{
    let key = ctx.maj_instance;
    let inst = p.accounts[key].data->Instance_0;
    let m = add_admin_step(p, ctx, new_admin)->Ok_0.0;
    let (rec_key, _) = program_address(admin_record_seeds(new_admin, key), p.program_id)->Some_0;
    let new_inst = MajInstanceView { admins: inst.admins.push(new_admin), ..inst };
    assert(!p.accounts.contains_key(rec_key));
    assert(rec_key != key);
    assert(m[key].data == AccountDataView::Instance(new_inst));
    assert(!inst.admins.contains(new_admin));
    assert forall|i: int, j: int| 0 <= i < j < new_inst.admins.len() implies new_inst.admins[i] != new_inst.admins[j] by {
        if j == inst.admins.len() {
            assert(inst.admins.contains(inst.admins[i]));
        }
    }
}

/// Removing an admin keeps the wallet sound: a wallet with at least two
/// distinct nonzero admins and a threshold between two and their number
/// still has them after an admin is removed.
pub proof fn law_remove_admin_keeps_wallet_sound(p: ProgramView, ctx: RemoveAdmin, x: Pubkey)
    requires
        remove_admin_step(p, ctx, x) is Ok,
        wallet_sound(p.accounts[ctx.maj_instance].data->Instance_0),
    ensures
        remove_admin_step(p, ctx, x)->Ok_0.0.contains_key(ctx.maj_instance),
        remove_admin_step(p, ctx, x)->Ok_0.0[ctx.maj_instance].data is Instance,
        wallet_sound(remove_admin_step(p, ctx, x)->Ok_0.0[ctx.maj_instance].data->Instance_0),
        !remove_admin_step(p, ctx, x)->Ok_0.0[ctx.maj_instance].data->Instance_0.admins.contains(x),
{
    let key = ctx.maj_instance;
    let inst = p.accounts[key].data->Instance_0;
    let (rec_key, _) = program_address(admin_record_seeds(x, key), p.program_id)->Some_0;
    assert(p.accounts[rec_key].data is Admin);
    assert(rec_key != key);
    lemma_first_position(inst.admins, x);
    let pos = first_position(inst.admins, x);
    let admins = swap_removed(inst.admins, pos);
    let sigs = if inst.sigs_required > admins.len() { admins.len() as u64 } else { inst.sigs_required };
    let new_inst = MajInstanceView { admins, sigs_required: sigs, ..inst };
    let m = remove_admin_step(p, ctx, x)->Ok_0.0;
    assert(m[key].data == AccountDataView::Instance(new_inst));
    assert(admins.len() == inst.admins.len() - 1);
    assert(forall|i: int| 0 <= i < admins.len() ==> #[trigger] admins[i] == if i == pos { inst.admins.last() } else { inst.admins[i] });
    assert(!admins.contains(x)) by {
        if admins.contains(x) {
            let i = choose|i: int| 0 <= i < admins.len() && admins[i] == x;
            if i == pos {
                assert(inst.admins[inst.admins.len() - 1] == inst.admins[pos]);
            } else {
                assert(inst.admins[i] == inst.admins[pos]);
            }
        }
    }
    assert forall|i: int, j: int| 0 <= i < j < admins.len() implies admins[i] != admins[j] by {
        if i == pos {
            assert(inst.admins[inst.admins.len() - 1] != inst.admins[j]);
        } else if j == pos {
            assert(inst.admins[i] != inst.admins[inst.admins.len() - 1]);
        }
    }
    assert forall|i: int| 0 <= i < admins.len() implies !(#[trigger] admins[i]).spec_is_default() by {
        if i == pos {
            assert(!inst.admins[inst.admins.len() - 1].spec_is_default());
        } else {
            assert(!inst.admins[i].spec_is_default());
        }
    }
}

/// The admin records of the wallet at `key` are in step with its admins: an
/// address has its admin record for the wallet (at the address derived for
/// it, naming it and the wallet) exactly when it is one of the wallet's
/// admins.
pub open spec fn records_in_step(m: Map<Pubkey, AccountView>, program_id: Pubkey, key: Pubkey) -> bool {
    forall|k: Pubkey| #[trigger] admin_record_in(m, program_id, k, key) <==> m[key].data->Instance_0.admins.contains(k)
}

/// Adding an admin keeps a sound wallet sound and its admin records in step:
/// the wallet has one admin more, and afterwards an address has its admin
/// record exactly when it is an admin.
pub proof fn law_add_admin_keeps_records_in_step(p: ProgramView, ctx: AddAdmin, new_admin: Pubkey)
    requires
        add_admin_step(p, ctx, new_admin) is Ok,
        wallet_sound(p.accounts[ctx.maj_instance].data->Instance_0),
        records_in_step(p.accounts, p.program_id, ctx.maj_instance),
    ensures
        ({
            let m2 = add_admin_step(p, ctx, new_admin)->Ok_0.0;
            let key = ctx.maj_instance;
            &&& m2.contains_key(key) && m2[key].data is Instance
            &&& wallet_sound(m2[key].data->Instance_0)
            &&& m2[key].data->Instance_0.admins.len() == p.accounts[key].data->Instance_0.admins.len() + 1
            &&& records_in_step(m2, p.program_id, key)
        }),
{
    let key = ctx.maj_instance;
    let pid = p.program_id;
    let m = p.accounts;
    let inst = m[key].data->Instance_0;
    let m2 = add_admin_step(p, ctx, new_admin)->Ok_0.0;
    let (rec_key, rec_bump) = program_address(admin_record_seeds(new_admin, key), pid)->Some_0;
    law_add_admin_keeps_wallet_sound(p, ctx, new_admin);
    let admins2 = inst.admins.push(new_admin);
    assert(m2[key].data->Instance_0.admins == admins2);
    assert(!m.contains_key(rec_key));
    assert(m2[rec_key].data == AccountDataView::Admin(AdminRecord { admin: new_admin, maj_instance: key, bump: rec_bump }));
    assert forall|k: Pubkey| #[trigger] admin_record_in(m2, pid, k, key) <==> admins2.contains(k) by {
        if k == new_admin {
            assert(admins2[inst.admins.len() as int] == k);
        } else {
            assert(admins2.contains(k) <==> inst.admins.contains(k)) by {
                if inst.admins.contains(k) {
                    let i = choose|i: int| 0 <= i < inst.admins.len() && inst.admins[i] == k;
                    assert(admins2[i] == k);
                }
                if admins2.contains(k) {
                    let i = choose|i: int| 0 <= i < admins2.len() && admins2[i] == k;
                    assert(i < inst.admins.len());
                    assert(inst.admins[i] == k);
                }
            }
            assert(admin_record_in(m, pid, k, key) <==> inst.admins.contains(k));
            match program_address(admin_record_seeds(k, key), pid) {
                Some((x, b)) => {
                    if x == rec_key {
                        assert(!admin_record_in(m, pid, k, key));
                    } else if x == key {
                        assert(!admin_record_in(m, pid, k, key));
                    } else {
                        assert(m2.contains_key(x) == m.contains_key(x));
                        assert(m.contains_key(x) ==> m2[x] == m[x]);
                    }
                },
                None => {},
            }
        }
    }
}

/// Removing an admin keeps a sound wallet sound, with at least two admins,
/// and its admin records in step: the removed admin's record is closed, and
/// afterwards an address has its admin record exactly when it is an admin.
pub proof fn law_remove_admin_keeps_records_in_step(p: ProgramView, ctx: RemoveAdmin, x: Pubkey)
    requires
        remove_admin_step(p, ctx, x) is Ok,
        wallet_sound(p.accounts[ctx.maj_instance].data->Instance_0),
        records_in_step(p.accounts, p.program_id, ctx.maj_instance),
    ensures
        ({
            let m2 = remove_admin_step(p, ctx, x)->Ok_0.0;
            let key = ctx.maj_instance;
            &&& m2.contains_key(key) && m2[key].data is Instance
            &&& wallet_sound(m2[key].data->Instance_0)
            &&& m2[key].data->Instance_0.admins.len() >= 2
            &&& !admin_record_in(m2, p.program_id, x, key)
            &&& records_in_step(m2, p.program_id, key)
        }),
{
    let key = ctx.maj_instance;
    let pid = p.program_id;
    let m = p.accounts;
    let inst = m[key].data->Instance_0;
    let m2 = remove_admin_step(p, ctx, x)->Ok_0.0;
    let (rec_key, _) = program_address(admin_record_seeds(x, key), pid)->Some_0;
    law_remove_admin_keeps_wallet_sound(p, ctx, x);
    lemma_first_position(inst.admins, x);
    let pos = first_position(inst.admins, x);
    let admins2 = swap_removed(inst.admins, pos);
    assert(m2[key].data->Instance_0.admins == admins2);
    assert(admins2.len() == inst.admins.len() - 1);
    assert(forall|i: int| 0 <= i < admins2.len() ==> #[trigger] admins2[i] == if i == pos { inst.admins.last() } else { inst.admins[i] });
    assert(admin_record_in(m, pid, x, key));
    assert(!m2.contains_key(rec_key));
    assert forall|k: Pubkey| #[trigger] admin_record_in(m2, pid, k, key) <==> admins2.contains(k) by {
        if k == x {
            assert(!admins2.contains(x));
        } else {
            assert(admins2.contains(k) <==> inst.admins.contains(k)) by {
                if inst.admins.contains(k) {
                    let i = choose|i: int| 0 <= i < inst.admins.len() && inst.admins[i] == k;
                    if i == inst.admins.len() - 1 {
                        assert(admins2[pos] == k);
                    } else {
                        assert(i != pos);
                        assert(admins2[i] == k);
                    }
                }
                if admins2.contains(k) {
                    let i = choose|i: int| 0 <= i < admins2.len() && admins2[i] == k;
                    if i == pos {
                        assert(inst.admins[inst.admins.len() - 1] == k);
                    } else {
                        assert(inst.admins[i] == k);
                    }
                }
            }
            assert(admin_record_in(m, pid, k, key) <==> inst.admins.contains(k));
            match program_address(admin_record_seeds(k, key), pid) {
                Some((y, b)) => {
                    if y == rec_key {
                        assert(!admin_record_in(m, pid, k, key));
                    } else if y == key {
                        assert(!admin_record_in(m, pid, k, key));
                    } else {
                        assert(m2.contains_key(y) == m.contains_key(y));
                        assert(m.contains_key(y) ==> m2[y] == m[y]);
                    }
                },
                None => {},
            }
        }
    }
}

/// Changing the threshold keeps the wallet sound.
pub proof fn law_change_sigs_required_keeps_wallet_sound(p: ProgramView, ctx: ChangeSigsRequired, n: u64)
    requires
        change_sigs_required_step(p, ctx, n) is Ok,
        wallet_sound(p.accounts[ctx.maj_instance].data->Instance_0),
    ensures
        change_sigs_required_step(p, ctx, n)->Ok_0.0.contains_key(ctx.maj_instance),
        change_sigs_required_step(p, ctx, n)->Ok_0.0[ctx.maj_instance].data is Instance,
        wallet_sound(change_sigs_required_step(p, ctx, n)->Ok_0.0[ctx.maj_instance].data->Instance_0),
        change_sigs_required_step(p, ctx, n)->Ok_0.0[ctx.maj_instance].data->Instance_0.sigs_required == n,
{
}

/// A transaction account is large enough for what it stores: the space given
/// to a transaction covers its stored length, whatever its call data, call
/// accounts and program id.
pub proof fn law_transaction_space_covers(tx: MajTransactionView)
    ensures
        crate::state::transaction::serialized_len(tx) <= transaction_space(tx.data.len(), tx.account_metas.len()),
{
}

/// Every transaction a proposal creates is given the space its stored length
/// needs.
pub proof fn law_proposed_transaction_fits(
    p: ProgramView,
    ctx: ProposeTransaction,
    to: Pubkey,
    value: u64,
    data: Seq<u8>,
    program_id: Option<Pubkey>,
    account_metas: Seq<SerializedAccountMeta>,
)
    requires
        propose_transaction_step(p, ctx, to, value, data, program_id, account_metas) is Ok,
    ensures
        ({
            let m = propose_transaction_step(p, ctx, to, value, data, program_id, account_metas)->Ok_0.0;
            let key = ctx.maj_instance;
            let t = program_address(tx_seeds(key, p.accounts[key].data->Instance_0.tx_count), p.program_id)->Some_0.0;
            &&& m.contains_key(t) && m[t].data is Transaction
            &&& crate::state::transaction::serialized_len(m[t].data->Transaction_0) <= m[t].space
        }),
{
}

/// Seed lists with different bytes lead to different addresses.  The
/// derivation hashes the seeds' bytes one after another (then the bump and
/// the program id), so lists whose bytes, taken together, are the same give
/// the same address (`[x, y]` and `[x ++ y]`, say); the program rests on the
/// converse, which the hash makes overwhelmingly likely: where two lists
/// derive the same address, their bytes taken together are the same.
pub open spec fn addresses_distinct(program_id: Pubkey) -> bool {
    forall|s1: Seq<Seq<u8>>, s2: Seq<Seq<u8>>|
        #[trigger] program_address(s1, program_id) is Some && #[trigger] program_address(s2, program_id) is Some
            && program_address(s1, program_id)->Some_0.0 == program_address(s2, program_id)->Some_0.0
            ==> s1.flatten() == s2.flatten()
}

/// The bytes of three seeds taken together.
pub proof fn lemma_flatten_three(s: Seq<Seq<u8>>)
    requires
        s.len() == 3,
    ensures
        s.flatten() == s[0] + s[1] + s[2],
{
    let t1 = s.drop_first();
    let t2 = t1.drop_first();
    let t3 = t2.drop_first();
    assert(t3.len() == 0);
    assert(t3.flatten() == Seq::<u8>::empty());
    assert(t2.flatten() == t2.first() + t3.flatten());
    assert(t2.first() == s[2]);
    assert(t2.flatten() =~= s[2]);
    assert(t1.flatten() == t1.first() + t2.flatten());
    assert(t1.first() == s[1]);
    assert(s.flatten() == s.first() + t1.flatten());
    assert(s.flatten() =~= s[0] + s[1] + s[2]);
}

/// Three seeds are fixed by their bytes taken together where the first two
/// have fixed lengths.
pub proof fn lemma_three_seeds(s1: Seq<Seq<u8>>, s2: Seq<Seq<u8>>)
    requires
        s1.len() == 3,
        s2.len() == 3,
        s1[0].len() == s2[0].len(),
        s1[1].len() == s2[1].len(),
        s1.flatten() == s2.flatten(),
    ensures
        s1 == s2,
{
    lemma_flatten_three(s1);
    lemma_flatten_three(s2);
    let a = s1.flatten();
    let l0 = s1[0].len() as int;
    let l1 = s1[1].len() as int;
    assert(s1[0] =~= a.subrange(0, l0));
    assert(s2[0] =~= a.subrange(0, l0));
    assert(s1[1] =~= a.subrange(l0, l0 + l1));
    assert(s2[1] =~= a.subrange(l0, l0 + l1));
    assert(s1[2] =~= a.subrange(l0 + l1, a.len() as int));
    assert(s2[2] =~= a.subrange(l0 + l1, a.len() as int));
    assert(s1 =~= s2);
}

/// Two lists of three seeds, the first two of fixed lengths, that derive the
/// same address are the same (where different bytes give different
/// addresses).
pub proof fn lemma_same_address_same_seeds(program_id: Pubkey, s1: Seq<Seq<u8>>, s2: Seq<Seq<u8>>)
    requires
        addresses_distinct(program_id),
        program_address(s1, program_id) is Some,
        program_address(s2, program_id) is Some,
        program_address(s1, program_id)->Some_0.0 == program_address(s2, program_id)->Some_0.0,
        s1.len() == 3,
        s2.len() == 3,
        s1[0].len() == s2[0].len(),
        s1[1].len() == s2[1].len(),
    ensures
        s1 == s2,
{
    assert(s1.flatten() == s2.flatten());
    lemma_three_seeds(s1, s2);
}

/// Keys with the same bytes are the same key.
pub proof fn lemma_key_bytes(a: Pubkey, b: Pubkey)
    requires
        a.bytes@ == b.bytes@,
    ensures
        a == b,
{
    assert(a.bytes =~= b.bytes);
}

/// Where the admin record of `admin` in the wallet at `key` exists, `admin`
/// is one of the wallet's admins.
pub proof fn lemma_admin_record_means_admin(p: ProgramView, admin: Pubkey, key: Pubkey)
    requires
        sound(p),
        addresses_distinct(p.program_id),
        program_address(admin_record_seeds(admin, key), p.program_id) is Some,
        crate::instructions::accounts::admin_record_at(
            p.accounts,
            program_address(admin_record_seeds(admin, key), p.program_id)->Some_0.0,
        ) is Ok,
    ensures
        p.accounts.contains_key(key),
        p.accounts[key].data is Instance,
        p.accounts[key].data->Instance_0.admins.contains(admin),
{
    let x = program_address(admin_record_seeds(admin, key), p.program_id)->Some_0.0;
    let r = p.accounts[x].data->Admin_0;
    assert(p.accounts[x].seeds == admin_record_seeds(r.admin, r.maj_instance));
    assert(program_address(p.accounts[x].seeds, p.program_id) == Some((x, r.bump)));
    lemma_same_address_same_seeds(p.program_id, admin_record_seeds(r.admin, r.maj_instance), admin_record_seeds(admin, key));
    assert(admin_record_seeds(r.admin, r.maj_instance) == admin_record_seeds(admin, key));
    assert(admin_record_seeds(r.admin, r.maj_instance)[1] == admin_record_seeds(admin, key)[1]);
    assert(admin_record_seeds(r.admin, r.maj_instance)[2] == admin_record_seeds(admin, key)[2]);
    lemma_key_bytes(r.admin, admin);
    lemma_key_bytes(r.maj_instance, key);
}

/// The wallet and the caller of an instruction that only a wallet's admin may
/// give: signing, executing, revoking and cancelling.
pub open spec fn acting_admin(ins: Instruction) -> Option<(Pubkey, Pubkey)> {
    match ins {
        Instruction::SignTransaction(a) => Some((a.maj_instance, a.admin)),
        Instruction::ExecuteTransaction(a) => Some((a.maj_instance, a.admin)),
        Instruction::RevokeSignature(a) => Some((a.maj_instance, a.admin)),
        Instruction::CancelTransaction(a) => Some((a.maj_instance, a.proposer)),
        _ => None,
    }
}

/// Only admins act: signing, executing, revoking or cancelling succeeds only
/// for a caller who is one of the wallet's admins (where seed lists with
/// different bytes give different addresses).
pub proof fn law_only_admins_act(p: ProgramView, ins: Instruction)
    requires
        sound(p),
        addresses_distinct(p.program_id),
        step(p, ins) is Ok,
        acting_admin(ins) is Some,
    ensures
        ({
            let (key, caller) = acting_admin(ins)->Some_0;
            &&& p.accounts.contains_key(key)
            &&& p.accounts[key].data is Instance
            &&& p.accounts[key].data->Instance_0.admins.contains(caller)
        }),
{
    let (key, caller) = acting_admin(ins)->Some_0;
    lemma_admin_record_means_admin(p, caller, key);
}

/// A wallet's call into this program signs for that wallet alone: a
/// governance instruction read from an execution's call sees its wallet as
/// signer only where that wallet is the one whose execution makes the call.
pub proof fn law_self_calls_sign_only_for_the_calling_wallet(program_id: Pubkey, execution: ExecutionView, signer_of_call: Option<Pubkey>)
    ensures
        call_decision(program_id, Some(execution), signer_of_call) matches CallDecision::Runs(ins)
            ==> (governance_signed(ins) == Some(true) ==> (execution matches ExecutionView::Invoke { signer, .. }
                && governed_wallet(ins) == signer)),
{
}

/// The wallet a governance instruction acts on.
pub open spec fn governed_wallet(ins: Instruction) -> Pubkey {
    match ins {
        Instruction::AddAdmin { accounts, .. } => accounts.maj_instance,
        Instruction::RemoveAdmin { accounts, .. } => accounts.maj_instance,
        Instruction::ChangeSigsRequired { accounts, .. } => accounts.maj_instance,
        Instruction::AddBlacklist { accounts, .. } => accounts.maj_instance,
        Instruction::RemoveBlacklist { accounts, .. } => accounts.maj_instance,
        _ => arbitrary(),
    }
}

/// Every instruction that succeeds, with the calls into this program its
/// execution makes, keeps the state sound.
pub proof fn law_run_keeps_sound(p: ProgramView, ins: Instruction)
    requires
        sound(p),
        run(p, ins) is Ok,
    ensures
        sound(after(p, run(p, ins)->Ok_0.0)),
{
    law_step_keeps_sound(p, ins);
    let (m, out) = step(p, ins)->Ok_0;
    if let CallDecision::Runs(call) = call_decision(p.program_id, out.execution, submitter(ins)) {
        law_step_keeps_sound(after(p, m), call);
    }
}

/// Governance never moves from a submitted transaction: a governance
/// instruction that a transaction submits fails, whatever the state and the
/// balances; it only runs as a wallet's own executed call.
pub proof fn law_submitted_governance_fails(p: ProgramView, b: Map<Pubkey, u64>, ins: Instruction)
    requires
        governance_signed(ins) is Some,
    ensures
        crate::calls::chain_run(p, b, crate::calls::submitted(ins)) is Err,
{
    law_governance_needs_wallet_signature(p, crate::calls::submitted(ins));
}

} // verus!
