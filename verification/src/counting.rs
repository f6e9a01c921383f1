//! Signatures are counted twice: as a transaction's count and as the signature
//! records that exist for it.  The two stay equal.
use vstd::prelude::*;
use crate::instructions::accounts::with_data;
use crate::instructions::cancel_transaction::cancel_transaction_step;
use crate::instructions::create_maj::{admin_records_created, create_maj_step, creation_base};
use crate::instructions::execute_transaction::{execute_transaction_step, execution};
use crate::instructions::governance::{
    add_admin_step, add_blacklist_step, change_sigs_required_step, remove_admin_step, remove_blacklist_step,
};
use crate::instructions::initialize_registry::initialize_registry_step;
use crate::instructions::propose_transaction::{propose_transaction_step, ProposeTransaction};
use crate::instructions::revoke_signature::{revoke_signature_step, RevokeSignature};
use crate::instructions::sign_transaction::{sign_transaction_step, SignTransaction};
use crate::laws::{addresses_distinct, after, lemma_admin_records_created, lemma_key_bytes, sound};
use crate::maj_core::{step, Instruction};
use crate::pda::{instance_seeds, name_seeds, program_address, registry_seeds, sig_seeds, tag_sig, tx_seeds};
use crate::program::{AccountDataView, AccountView, ProgramView};
use crate::pubkey::Pubkey;
use crate::balances::lamports;
use crate::state::instance::{MajInstanceView, MajNameRecord};
use crate::state::registry::MajRegistry;
use crate::state::transaction::{transaction_space, MajTransactionView, SerializedAccountMeta, SignatureRecord};

verus! {

broadcast use vstd::array::group_array_axioms;

/// The addresses of the signature records of the transaction at `t`.
pub open spec fn signatures_of(m: Map<Pubkey, AccountView>, t: Pubkey) -> Set<Pubkey> {
    Set::new(|x: Pubkey| m.contains_key(x) && m[x].data is Signature && m[x].seeds.len() == 3 && m[x].seeds[1] == t.bytes@)
}

/// The signature record at `x` has signature seeds that name an existing
/// transaction.
pub open spec fn signature_owned(m: Map<Pubkey, AccountView>, x: Pubkey) -> bool {
    &&& m[x].seeds.len() == 3
    &&& m[x].seeds[0] == tag_sig()
    &&& m[x].seeds[1].len() == 32
    &&& forall|t: Pubkey| m[x].seeds[1] == #[trigger] t.bytes@ ==> m.contains_key(t) && m[t].data is Transaction
}

/// There are finitely many accounts; every signature record belongs to a
/// transaction; and every transaction's count of signatures is the number of
/// its signature records.
pub open spec fn signatures_counted(p: ProgramView) -> bool {
    &&& p.accounts.dom().finite()
    &&& forall|x: Pubkey| #[trigger] p.accounts.contains_key(x) && p.accounts[x].data is Signature
        ==> signature_owned(p.accounts, x)
    &&& forall|t: Pubkey| #[trigger] p.accounts.contains_key(t) && p.accounts[t].data is Transaction
        ==> p.accounts[t].data->Transaction_0.num_signatures == signatures_of(p.accounts, t).len()
}

/// The signature records of a transaction are finitely many.
proof fn lemma_signatures_finite(m: Map<Pubkey, AccountView>, t: Pubkey)
    requires
        m.dom().finite(),
    ensures
        signatures_of(m, t).finite(),
{
    assert(signatures_of(m, t).subset_of(m.dom()));
    vstd::set_lib::lemma_len_subset(signatures_of(m, t), m.dom());
}

/// Changes that leave every signature record and every transaction's owner
/// and count alone keep the counts.
proof fn lemma_counts_frame(p: ProgramView, m2: Map<Pubkey, AccountView>)
    requires
        signatures_counted(p),
        m2.dom().finite(),
        forall|x: Pubkey| (#[trigger] m2.contains_key(x) && m2[x].data is Signature)
            <==> (p.accounts.contains_key(x) && p.accounts[x].data is Signature),
        forall|x: Pubkey| #[trigger] m2.contains_key(x) && m2[x].data is Signature ==> m2[x].seeds == p.accounts[x].seeds,
        forall|t: Pubkey| (#[trigger] m2.contains_key(t) && m2[t].data is Transaction)
            <==> (p.accounts.contains_key(t) && p.accounts[t].data is Transaction),
        forall|t: Pubkey| #[trigger] m2.contains_key(t) && m2[t].data is Transaction
            ==> m2[t].data->Transaction_0.num_signatures == p.accounts[t].data->Transaction_0.num_signatures,
    ensures
        signatures_counted(after(p, m2)),
{
    assert forall|t: Pubkey| #[trigger] m2.contains_key(t) && m2[t].data is Transaction implies
        m2[t].data->Transaction_0.num_signatures == signatures_of(m2, t).len() by {
        assert(signatures_of(m2, t) =~= signatures_of(p.accounts, t));
    }
    assert forall|x: Pubkey| #[trigger] m2.contains_key(x) && m2[x].data is Signature implies signature_owned(m2, x) by {
        assert(signature_owned(p.accounts, x));
    }
}

/// The account of the signature record of `signer` for the transaction at `t`.
pub open spec fn signature_view(t: Pubkey, signer: Pubkey, bump: u8) -> AccountView {
    AccountView {
        seeds: sig_seeds(t, signer),
        space: 9,
        data: AccountDataView::Signature(SignatureRecord { bump }),
    }
}

/// A new signature record for the transaction at `t`, at a free address, with
/// `t`'s count raised by one, keeps the counts.
proof fn lemma_counts_signature_added(p: ProgramView, x: Pubkey, signer: Pubkey, bump: u8, t: Pubkey, tx2: MajTransactionView)
    requires
        signatures_counted(p),
        !p.accounts.contains_key(x),
        p.accounts.contains_key(t),
        p.accounts[t].data is Transaction,
        tx2.num_signatures == p.accounts[t].data->Transaction_0.num_signatures + 1,
    ensures
        signatures_counted(after(p, with_data(p.accounts.insert(x, signature_view(t, signer, bump)), t, AccountDataView::Transaction(tx2)))),
{
    let m = p.accounts;
    let base = m.insert(x, signature_view(t, signer, bump));
    let m2 = with_data(base, t, AccountDataView::Transaction(tx2));
    assert(m2.dom() =~= m.dom().insert(x));
    assert forall|u: Pubkey| #[trigger] m2.contains_key(u) && m2[u].data is Transaction implies
        m2[u].data->Transaction_0.num_signatures == signatures_of(m2, u).len() by {
        lemma_signatures_finite(m, u);
        if u == t {
            assert(signatures_of(m2, u) =~= signatures_of(m, u).insert(x));
        } else {
            assert(signatures_of(m2, u) =~= signatures_of(m, u)) by {
                if signatures_of(m2, u).contains(x) {
                    lemma_key_bytes(t, u);
                }
            }
        }
    }
    assert forall|y: Pubkey| #[trigger] m2.contains_key(y) && m2[y].data is Signature implies signature_owned(m2, y) by {
        if y == x {
            assert forall|u: Pubkey| m2[y].seeds[1] == #[trigger] u.bytes@ implies m2.contains_key(u) && m2[u].data is Transaction by {
                lemma_key_bytes(t, u);
            }
        } else {
            assert(signature_owned(m, y));
        }
    }
}

/// A new transaction with no signatures, at a free address, keeps the counts.
proof fn lemma_counts_transaction_added(p: ProgramView, t: Pubkey, v: AccountView)
    requires
        signatures_counted(p),
        !p.accounts.contains_key(t),
        v.data is Transaction,
        v.data->Transaction_0.num_signatures == 0,
    ensures
        signatures_counted(after(p, p.accounts.insert(t, v))),
{
    let m = p.accounts;
    let m2 = m.insert(t, v);
    assert(m2.dom() =~= m.dom().insert(t));
    assert forall|u: Pubkey| #[trigger] m2.contains_key(u) && m2[u].data is Transaction implies
        m2[u].data->Transaction_0.num_signatures == signatures_of(m2, u).len() by {
        if u == t {
            assert(signatures_of(m2, u) =~= Set::<Pubkey>::empty()) by {
                if exists|y: Pubkey| signatures_of(m2, u).contains(y) {
                    let y = choose|y: Pubkey| signatures_of(m2, u).contains(y);
                    assert(signature_owned(m, y));
                }
            }
        } else {
            assert(signatures_of(m2, u) =~= signatures_of(m, u));
        }
    }
    assert forall|y: Pubkey| #[trigger] m2.contains_key(y) && m2[y].data is Signature implies signature_owned(m2, y) by {
        assert(signature_owned(m, y));
    }
}

/// Signing keeps the counts.
proof fn lemma_counts_sign(p: ProgramView, ctx: SignTransaction)
    requires
        signatures_counted(p),
        sign_transaction_step(p, ctx) is Ok,
    ensures
        signatures_counted(after(p, sign_transaction_step(p, ctx)->Ok_0.0)),
{
    let key = ctx.maj_instance;
    let t = ctx.maj_transaction;
    let tx = p.accounts[t].data->Transaction_0;
    let inst = p.accounts[key].data->Instance_0;
    let (x, bump) = program_address(sig_seeds(t, ctx.admin), p.program_id)->Some_0;
    let signed = MajTransactionView { num_signatures: (tx.num_signatures + 1) as u32, ..tx };
    if signed.num_signatures >= inst.sigs_required as u32 {
        let done = execution(key, inst, signed, ctx.remaining_accounts@)->Ok_0.0;
        lemma_counts_signature_added(p, x, ctx.admin, bump, t, done);
    } else {
        lemma_counts_signature_added(p, x, ctx.admin, bump, t, signed);
    }
}

/// Revoking keeps the counts (where seed lists with different bytes give different addresses).
proof fn lemma_counts_revoke(p: ProgramView, ctx: RevokeSignature)
    requires
        sound(p),
        addresses_distinct(p.program_id),
        signatures_counted(p),
        revoke_signature_step(p, ctx) is Ok,
    ensures
        signatures_counted(after(p, revoke_signature_step(p, ctx)->Ok_0.0)),
{
    let m = p.accounts;
    let t = ctx.maj_transaction;
    let tx = m[t].data->Transaction_0;
    let (x, _) = program_address(sig_seeds(t, ctx.admin), p.program_id)->Some_0;
    let tx2 = MajTransactionView { num_signatures: (tx.num_signatures - 1) as u32, ..tx };
    let m2 = with_data(m, t, AccountDataView::Transaction(tx2)).remove(x);
    assert(m2 == revoke_signature_step(p, ctx)->Ok_0.0);
    assert(m[x].data is Signature);
    assert(program_address(m[x].seeds, p.program_id) == Some((x, crate::laws::bump_of(m[x].data))));
    assert(signature_owned(m, x));
    crate::laws::lemma_same_address_same_seeds(p.program_id, m[x].seeds, sig_seeds(t, ctx.admin));
    assert(m[x].seeds == sig_seeds(t, ctx.admin));
    assert(m2.dom() =~= m.dom().remove(x));
    assert forall|u: Pubkey| #[trigger] m2.contains_key(u) && m2[u].data is Transaction implies
        m2[u].data->Transaction_0.num_signatures == signatures_of(m2, u).len() by {
        lemma_signatures_finite(m, u);
        if u == t {
            assert(signatures_of(m, u).contains(x));
            assert(signatures_of(m2, u) =~= signatures_of(m, u).remove(x));
        } else {
            assert(m[x].seeds[1] == t.bytes@);
            if signatures_of(m, u).contains(x) {
                lemma_key_bytes(t, u);
            }
            assert(signatures_of(m2, u) =~= signatures_of(m, u));
        }
    }
    assert forall|y: Pubkey| #[trigger] m2.contains_key(y) && m2[y].data is Signature implies signature_owned(m2, y) by {
        assert(signature_owned(m, y));
    }
}

/// Proposing keeps the counts.
proof fn lemma_counts_propose(
    p: ProgramView,
    ctx: ProposeTransaction,
    to: Pubkey,
    value: u64,
    data: Seq<u8>,
    program_id: Option<Pubkey>,
    account_metas: Seq<SerializedAccountMeta>,
)
    requires
        signatures_counted(p),
        propose_transaction_step(p, ctx, to, value, data, program_id, account_metas) is Ok,
    ensures
        signatures_counted(after(p, propose_transaction_step(p, ctx, to, value, data, program_id, account_metas)->Ok_0.0)),
{
    let key = ctx.maj_instance;
    let pid = p.program_id;
    let m = p.accounts;
    let inst = m[key].data->Instance_0;
    let (tx_key, tx_bump) = program_address(tx_seeds(key, inst.tx_count), pid)->Some_0;
    let tx = MajTransactionView {
        maj_instance: key,
        tx_index: inst.tx_count,
        to,
        value,
        proposed_by: ctx.proposer,
        active: true,
        executed: false,
        num_signatures: 0,
        program_id,
        data,
        account_metas,
        bump: tx_bump,
    };
    let counted = MajInstanceView { tx_count: (inst.tx_count + 1) as u64, ..inst };
    let m0 = with_data(m, key, AccountDataView::Instance(counted));
    assert(m0.dom() =~= m.dom());
    lemma_counts_frame(p, m0);
    let p0 = after(p, m0);
    let v = AccountView {
        seeds: tx_seeds(key, inst.tx_count),
        space: transaction_space(data.len(), account_metas.len()) as usize,
        data: AccountDataView::Transaction(tx),
    };
    lemma_counts_transaction_added(p0, tx_key, v);
    let base = m0.insert(tx_key, v);
    let (admin_key, _) = program_address(crate::pda::admin_record_seeds(ctx.proposer, key), pid)->Some_0;
    if p.accounts.contains_key(admin_key) {
        let (x, bump) = program_address(sig_seeds(tx_key, ctx.proposer), pid)->Some_0;
        let signed = MajTransactionView { num_signatures: 1, ..tx };
        let pb = after(p, base);
        if signed.num_signatures >= counted.sigs_required as u32 {
            let done = execution(key, counted, signed, ctx.remaining_accounts@)->Ok_0.0;
            lemma_counts_signature_added(pb, x, ctx.proposer, bump, tx_key, done);
        } else {
            lemma_counts_signature_added(pb, x, ctx.proposer, bump, tx_key, signed);
        }
    }
}

/// Creating a wallet keeps the counts.
proof fn lemma_counts_create(p: ProgramView, ctx: crate::instructions::create_maj::CreateMaj, name: Seq<u8>, admins: Seq<Pubkey>, sigs_required: u64)
    requires
        signatures_counted(p),
        create_maj_step(p, ctx, name, admins, sigs_required) is Ok,
    ensures
        signatures_counted(after(p, create_maj_step(p, ctx, name, admins, sigs_required)->Ok_0.0)),
{
    let pid = p.program_id;
    let m = p.accounts;
    let (reg_key, _) = program_address(registry_seeds(), pid)->Some_0;
    let (name_key, name_bump) = program_address(name_seeds(name), pid)->Some_0;
    let (inst_key, inst_bump) = program_address(instance_seeds(name), pid)->Some_0;
    let reg = m[reg_key].data->Registry_0;
    let base = creation_base(p, name, admins, sigs_required);
    lemma_admin_records_created(p, base, admins, ctx.remaining_accounts@, inst_key, admins.len());
    let m2 = admin_records_created(p, base, admins, ctx.remaining_accounts@, inst_key, admins.len())->Ok_0;
    assert(m.contains_key(reg_key) && m[reg_key].data is Registry);
    assert(base.dom() =~= m.dom().insert(name_key).insert(inst_key));
    assert forall|k: Pubkey| #[trigger] m.contains_key(k) && k != reg_key implies base.contains_key(k) && base[k] == m[k] by {
        assert(k != name_key && k != inst_key);
    }
    lemma_counts_frame(p, m2);
}

/// Signature counts match signature records in a program with no accounts yet.
pub proof fn law_empty_state_counted(program_id: Pubkey)
    ensures
        signatures_counted(ProgramView { program_id, accounts: Map::empty() }),
{
    assert(Map::<Pubkey, AccountView>::empty().dom() =~= Set::<Pubkey>::empty());
}

/// Every instruction that succeeds keeps each transaction's count of
/// signatures equal to the number of its signature records, and every
/// signature record attached to a transaction (where seed lists with
/// different bytes give different addresses).
pub proof fn law_step_keeps_counts(p: ProgramView, ins: Instruction)
    requires
        sound(p),
        addresses_distinct(p.program_id),
        signatures_counted(p),
        step(p, ins) is Ok,
    ensures
        signatures_counted(after(p, step(p, ins)->Ok_0.0)),
{
    let m = p.accounts;
    let m2 = step(p, ins)->Ok_0.0;
    match ins {
        Instruction::CreateMaj { accounts, name, admins, sigs_required } =>
            lemma_counts_create(p, accounts, name@, admins@, sigs_required),
        Instruction::ProposeTransaction { accounts, to, value, data, program_id, account_metas } =>
            lemma_counts_propose(p, accounts, to, value, data@, program_id, account_metas@),
        Instruction::SignTransaction(accounts) => lemma_counts_sign(p, accounts),
        Instruction::RevokeSignature(accounts) => lemma_counts_revoke(p, accounts),
        Instruction::InitializeRegistry(_) => {
            let (k, _) = program_address(registry_seeds(), p.program_id)->Some_0;
            assert(m2.dom() =~= m.dom().insert(k));
            lemma_counts_frame(p, m2);
        },
        Instruction::AddAdmin { accounts, new_admin } => {
            let (k, _) = program_address(crate::pda::admin_record_seeds(new_admin, accounts.maj_instance), p.program_id)->Some_0;
            assert(m2.dom() =~= m.dom().insert(k));
            lemma_counts_frame(p, m2);
        },
        Instruction::RemoveAdmin { accounts, admin_to_remove } => {
            let (k, _) = program_address(crate::pda::admin_record_seeds(admin_to_remove, accounts.maj_instance), p.program_id)->Some_0;
            assert(m2.dom() =~= m.dom().remove(k));
            lemma_counts_frame(p, m2);
        },
        Instruction::AddBlacklist { accounts, target } => {
            let (k, _) = program_address(crate::pda::blacklist_seeds(accounts.maj_instance, target), p.program_id)->Some_0;
            assert(m2.dom() =~= m.dom().insert(k));
            lemma_counts_frame(p, m2);
        },
        Instruction::RemoveBlacklist { accounts, target } => {
            let (k, _) = program_address(crate::pda::blacklist_seeds(accounts.maj_instance, target), p.program_id)->Some_0;
            assert(m2.dom() =~= m.dom().remove(k));
            lemma_counts_frame(p, m2);
        },
        _ => {
            assert(m2.dom() =~= m.dom());
            lemma_counts_frame(p, m2);
        },
    }
}

/// Under counted signatures a revocation never fails for want of a signature
/// to take back: the transaction it applies to holds at least one.
pub proof fn law_revocation_has_a_signature(p: ProgramView, ctx: RevokeSignature)
    requires
        sound(p),
        addresses_distinct(p.program_id),
        signatures_counted(p),
        p.accounts.contains_key(ctx.maj_transaction),
        p.accounts[ctx.maj_transaction].data is Transaction,
        program_address(sig_seeds(ctx.maj_transaction, ctx.admin), p.program_id) matches Some((x, _))
            && p.accounts.contains_key(x) && p.accounts[x].data is Signature,
    ensures
        p.accounts[ctx.maj_transaction].data->Transaction_0.num_signatures >= 1,
{
    let m = p.accounts;
    let t = ctx.maj_transaction;
    let (x, _) = program_address(sig_seeds(t, ctx.admin), p.program_id)->Some_0;
    assert(program_address(m[x].seeds, p.program_id) == Some((x, crate::laws::bump_of(m[x].data))));
    assert(signature_owned(m, x));
    crate::laws::lemma_same_address_same_seeds(p.program_id, m[x].seeds, sig_seeds(t, ctx.admin));
    assert(m[x].seeds == sig_seeds(t, ctx.admin));
    assert(signatures_of(m, t).contains(x));
    lemma_signatures_finite(m, t);
    assert(signatures_of(m, t).len() >= 1) by {
        vstd::set_lib::lemma_len_subset(Set::empty().insert(x), signatures_of(m, t));
    }
}

/// Every instruction that succeeds, with the calls into this program its
/// execution makes, keeps each transaction's count of signatures equal to the
/// number of its signature records (where seed lists with different bytes
/// give different addresses).
pub proof fn law_run_keeps_counts(p: ProgramView, ins: Instruction)
    requires
        sound(p),
        addresses_distinct(p.program_id),
        signatures_counted(p),
        crate::calls::run(p, ins) is Ok,
    ensures
        signatures_counted(after(p, crate::calls::run(p, ins)->Ok_0.0)),
{
    law_step_keeps_counts(p, ins);
    crate::laws::law_step_keeps_sound(p, ins);
    let (m, out) = step(p, ins)->Ok_0;
    if let crate::calls::CallDecision::Runs(call) = crate::calls::call_decision(p.program_id, out.execution, crate::calls::submitter(ins)) {
        law_step_keeps_counts(after(p, m), call);
    }
}

/// An instruction that asks for no execution and closes no record moves no
/// lamports: on the chain it is its step.
proof fn lemma_quiet_chain_run(p: ProgramView, b: Map<Pubkey, u64>, ins: Instruction)
    requires
        step(p, ins) is Ok,
        step(p, ins)->Ok_0.1.execution is None,
        crate::calls::closing(p, ins) is None,
    ensures
        crate::calls::chain_run(p, b, ins) == Ok::<(Map<Pubkey, AccountView>, crate::events::OutcomeView, Map<Pubkey, u64>), crate::calls::ChainError>(
            (step(p, ins)->Ok_0.0, step(p, ins)->Ok_0.1, b)),
{
    let out = step(p, ins)->Ok_0.1;
    assert(crate::calls::call_decision(p.program_id, out.execution, crate::calls::submitter(ins)) is External);
    assert(crate::calls::run(p, ins) == step(p, ins));
    assert(crate::calls::refund_of(p, ins) is None);
}

/// On the chain, a revocation is its step, with the signature record's
/// lamports going back to the admin.
proof fn lemma_revoke_chain_run(p: ProgramView, b: Map<Pubkey, u64>, ctx: RevokeSignature)
    requires
        revoke_signature_step(p, ctx) is Ok,
    ensures
        ({
            let sig = program_address(sig_seeds(ctx.maj_transaction, ctx.admin), p.program_id)->Some_0.0;
            let ins = Instruction::RevokeSignature(ctx);
            crate::calls::chain_run(p, b, ins) == match crate::balances::transferred(b, sig, ctx.admin, lamports(b, sig) as u64) {
                Ok(b2) => Ok::<(Map<Pubkey, AccountView>, crate::events::OutcomeView, Map<Pubkey, u64>), crate::calls::ChainError>(
                    (step(p, ins)->Ok_0.0, step(p, ins)->Ok_0.1, b2)),
                Err(e) => Err(crate::calls::ChainError::Lamports(e)),
            }
        }),
{
    let ins = Instruction::RevokeSignature(ctx);
    let out = step(p, ins)->Ok_0.1;
    assert(out.execution is None);
    assert(crate::calls::call_decision(p.program_id, out.execution, crate::calls::submitter(ins)) is External);
    assert(crate::calls::run(p, ins) == step(p, ins));
    let sig = program_address(sig_seeds(ctx.maj_transaction, ctx.admin), p.program_id)->Some_0.0;
    assert(crate::calls::closing(p, ins) == Some((sig, ctx.admin)));
    assert(crate::calls::refund_of(p, ins) == Some((sig, ctx.admin)));
}

/// A signature that stays below the threshold is, on the chain, its step and
/// moves no lamports.
#[verifier::spinoff_prover]
proof fn lemma_quiet_sign_chain_run(p: ProgramView, b: Map<Pubkey, u64>, ctx: SignTransaction)
    requires
        sign_transaction_step(p, ctx) is Ok,
        p.accounts[ctx.maj_transaction].data->Transaction_0.num_signatures + 1
            < p.accounts[ctx.maj_instance].data->Instance_0.sigs_required as u32,
    ensures
        sign_transaction_step(p, ctx)->Ok_0.1.execution is None,
        crate::calls::chain_run(p, b, Instruction::SignTransaction(ctx)) is Ok,
        crate::calls::chain_run(p, b, Instruction::SignTransaction(ctx))->Ok_0.0 == sign_transaction_step(p, ctx)->Ok_0.0,
        crate::calls::chain_run(p, b, Instruction::SignTransaction(ctx))->Ok_0.2 == b,
{
    let ins = Instruction::SignTransaction(ctx);
    assert(sign_transaction_step(p, ctx)->Ok_0.1.execution is None);
    lemma_quiet_chain_run(p, b, ins);
}

/// Signing and then revoking is a round trip: after an admin's signature
/// that stays below the threshold (and so does not execute the
/// transaction), the same admin's revocation
/// succeeds; every account is as it was before the signature (the
/// transaction keeps its count and stays active, the signature record is
/// gone), the signature record's lamports go back to the admin, and where
/// the transaction's count matched its signature records before, it still
/// does.  (The admin's balance must be able to take the refund.)
#[verifier::spinoff_prover]
pub proof fn law_sign_then_revoke_round_trip(p: ProgramView, b: Map<Pubkey, u64>, ctx: SignTransaction)
    requires
        p.accounts[ctx.maj_transaction].data->Transaction_0.num_signatures
            == signatures_of(p.accounts, ctx.maj_transaction).len(),
        sign_transaction_step(p, ctx) is Ok,
        p.accounts[ctx.maj_transaction].data->Transaction_0.num_signatures + 1
            < p.accounts[ctx.maj_instance].data->Instance_0.sigs_required as u32,
        lamports(b, ctx.admin) + lamports(b, program_address(sig_seeds(ctx.maj_transaction, ctx.admin), p.program_id)->Some_0.0)
            <= u64::MAX,
    ensures
        ({
            let (m1, _, b1) = crate::calls::chain_run(p, b, Instruction::SignTransaction(ctx))->Ok_0;
            let sig = program_address(sig_seeds(ctx.maj_transaction, ctx.admin), p.program_id)->Some_0.0;
            let r = crate::calls::chain_run(after(p, m1), b1, Instruction::RevokeSignature(crate::laws::revocation_of(ctx)));
            &&& crate::calls::chain_run(p, b, Instruction::SignTransaction(ctx)) is Ok
            &&& b1 == b
            &&& m1.contains_key(sig)
            &&& m1[ctx.maj_transaction].data->Transaction_0.num_signatures
                == p.accounts[ctx.maj_transaction].data->Transaction_0.num_signatures + 1
            &&& r is Ok
            &&& r->Ok_0.0 == p.accounts
            &&& !r->Ok_0.0.contains_key(sig)
            &&& r->Ok_0.0[ctx.maj_transaction].data->Transaction_0.active
            &&& sig != ctx.admin ==> lamports(r->Ok_0.2, sig) == 0
                && lamports(r->Ok_0.2, ctx.admin) == lamports(b, ctx.admin) + lamports(b, sig)
            &&& r->Ok_0.0[ctx.maj_transaction].data->Transaction_0.num_signatures
                == p.accounts[ctx.maj_transaction].data->Transaction_0.num_signatures
            &&& r->Ok_0.0[ctx.maj_transaction].data->Transaction_0.num_signatures
                == signatures_of(r->Ok_0.0, ctx.maj_transaction).len()
        }),
{
    lemma_quiet_sign_chain_run(p, b, ctx);
    crate::laws::law_revoke_undoes_sign(p, ctx);
    let m1 = sign_transaction_step(p, ctx)->Ok_0.0;
    let p1 = after(p, m1);
    lemma_revoke_chain_run(p1, b, crate::laws::revocation_of(ctx));
    assert(after(p, p.accounts) == p);
}

} // verus!