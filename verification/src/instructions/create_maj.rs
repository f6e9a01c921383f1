use vstd::prelude::*;
use crate::errors::{InstructionError, MajError};
use crate::events::{AdminStatusUpdated, MajDeployed, MajEvent, MajEventView, Outcome, OutcomeView};
use crate::instructions::accounts::{
    check_free, check_seeds, derive_address, derived, free_at, load_registry, registry_at,
    seeds_match, with_data, AccountRef,
};
use crate::pda::{program_address, admin_record_seed_list, admin_record_seeds, instance_seed_list, instance_seeds, name_seed_list, name_seeds, registry_seed_list, registry_seeds};
use crate::program::{follows, AccountData, AccountDataView, AccountView, MajProgram, ProgramView, StepResult, StoredAccount};
use crate::pubkey::Pubkey;
use crate::state::instance::{instance_space, AdminRecord, MajInstance, MajInstanceView, MajNameRecord};
use crate::state::registry::MajRegistry;

verus! {

/// The accounts of `create_maj`: who pays, and the addresses of the admin
/// records to create, one per admin in order.
pub struct CreateMaj {
    pub payer: Pubkey,
    pub remaining_accounts: Vec<AccountRef>,
}

/// The first fault among the first `n` admins: a zero address, or an address
/// that came before.
pub open spec fn first_admin_fault(admins: Seq<Pubkey>, n: nat) -> Option<MajError>
    decreases n,
{
    if n == 0 {
        None
    } else {
        match first_admin_fault(admins, (n - 1) as nat) {
            Some(e) => Some(e),
            None => if admins[n - 1].spec_is_default() {
                Some(MajError::ZeroAddress)
            } else if admins.take(n - 1).contains(admins[n - 1]) {
                Some(MajError::DuplicateAdminAddress)
            } else {
                None
            },
        }
    }
}

/// The admin record of `admin` in the wallet at `inst_key`.
pub open spec fn admin_record_view(admin: Pubkey, inst_key: Pubkey, bump: u8) -> AccountView {
    AccountView {
        seeds: admin_record_seeds(admin, inst_key),
        space: 73,
        data: AccountDataView::Admin(AdminRecord { admin, maj_instance: inst_key, bump }),
    }
}

/// Creating the admin records of the first `n` admins, each at its derived
/// address, which must be the one passed along at its position and be free.
pub open spec fn admin_records_created(
    p: ProgramView,
    accounts: Map<Pubkey, AccountView>,
    admins: Seq<Pubkey>,
    remaining: Seq<AccountRef>,
    inst_key: Pubkey,
    n: nat,
) -> Result<Map<Pubkey, AccountView>, InstructionError>
    decreases n,
{
    if n == 0 {
        Ok(accounts)
    } else {
        match admin_records_created(p, accounts, admins, remaining, inst_key, (n - 1) as nat) {
            Err(e) => Err(e),
            Ok(m) => match derived(p, admin_record_seeds(admins[n - 1], inst_key)) {
                Err(e) => Err(e),
                Ok((k, b)) => if remaining[n - 1].key != k {
                    Err(InstructionError::Maj(MajError::ZeroAddress))
                } else if m.contains_key(k) {
                    Err(InstructionError::AccountAlreadyInUse)
                } else {
                    Ok(m.insert(k, admin_record_view(admins[n - 1], inst_key, b)))
                },
            },
        }
    }
}

/// The events of a wallet's creation: one status update per admin, then the
/// deployment.
pub open spec fn creation_events(inst_key: Pubkey, admins: Seq<Pubkey>, sigs_required: u64) -> Seq<MajEventView> {
    Seq::new(admins.len(), |i: int| MajEventView::AdminStatusUpdated(AdminStatusUpdated {
        admin: admins[i],
        maj_instance: inst_key,
        status: true,
    })).push(MajEventView::MajDeployed { maj_instance: inst_key, admins, sigs_required })
}

/// The accounts once a wallet is created under `name`, before its admin
/// records: the registry counts one more wallet, the name is reserved for the
/// wallet, and the wallet holds its admins and threshold, with room for more
/// than ten admins where it has them.
pub open spec fn creation_base(p: ProgramView, name: Seq<u8>, admins: Seq<Pubkey>, sigs_required: u64) -> Map<Pubkey, AccountView> {
    let (reg_key, _) = program_address(registry_seeds(), p.program_id)->Some_0;
    let reg = p.accounts[reg_key].data->Registry_0;
    let (name_key, name_bump) = program_address(name_seeds(name), p.program_id)->Some_0;
    let (inst_key, inst_bump) = program_address(instance_seeds(name), p.program_id)->Some_0;
    let space = if admins.len() > 10 { instance_space(admins.len()) as usize } else { 417usize };
    with_data(p.accounts, reg_key, AccountDataView::Registry(MajRegistry {
        total_instances: (reg.total_instances + 1) as u64,
        bump: reg.bump,
    })).insert(name_key, AccountView {
        seeds: name_seeds(name),
        space: 41,
        data: AccountDataView::NameRecord(MajNameRecord { maj_instance: inst_key, bump: name_bump }),
    }).insert(inst_key, AccountView {
        seeds: instance_seeds(name),
        space,
        data: AccountDataView::Instance(MajInstanceView { name, admins, sigs_required, tx_count: 0, bump: inst_bump }),
    })
}

/// `create_maj`: the registry must exist and match its seeds; the name record
/// and wallet addresses derived from the name must be free.  The name must be
/// at most 64 bytes; there must be at least two admins, a threshold between two
/// and their number, no zero and no repeated admin (the first fault decides the
/// error), and an address passed along per admin.  Then the wallet is created
/// (grown to fit more than ten admins), its name is reserved, the registry
/// counts it, and one admin record per admin is created.
pub open spec fn create_maj_step(
    p: ProgramView,
    ctx: CreateMaj,
    name: Seq<u8>,
    admins: Seq<Pubkey>,
    sigs_required: u64,
) -> StepResult {
    match derived(p, registry_seeds()) {
        Err(e) => Err(e),
        Ok((reg_key, _)) => match registry_at(p.accounts, reg_key) {
            Err(e) => Err(e),
            Ok(reg) => match seeds_match(p, registry_seeds(), reg_key, reg.bump) {
                Err(e) => Err(e),
                Ok(()) => match derived(p, name_seeds(name)) {
                    Err(e) => Err(e),
                    Ok((name_key, name_bump)) => match free_at(p.accounts, name_key) {
                        Err(e) => Err(e),
                        Ok(()) => match derived(p, instance_seeds(name)) {
                            Err(e) => Err(e),
                            Ok((inst_key, inst_bump)) => if inst_key == name_key || p.accounts.contains_key(inst_key) {
                                Err(InstructionError::AccountAlreadyInUse)
                            } else if name.len() > 64 {
                                Err(InstructionError::Maj(MajError::NameTooLong))
                            } else if admins.len() < 2 {
                                Err(InstructionError::Maj(MajError::TwoAdminMinimum))
                            } else if sigs_required < 2 {
                                Err(InstructionError::Maj(MajError::TooFewSignaturesRequired))
                            } else if sigs_required > admins.len() {
                                Err(InstructionError::Maj(MajError::TooManySignaturesRequired))
                            } else if first_admin_fault(admins, admins.len()) is Some {
                                Err(InstructionError::Maj(first_admin_fault(admins, admins.len())->Some_0))
                            } else if ctx.remaining_accounts@.len() < admins.len() {
                                Err(InstructionError::Maj(MajError::ZeroAddress))
                            } else if instance_space(admins.len()) > usize::MAX || reg.total_instances == u64::MAX {
                                Err(InstructionError::Aborted)
                            } else {
                                let base = creation_base(p, name, admins, sigs_required);
                                match admin_records_created(p, base, admins, ctx.remaining_accounts@, inst_key, admins.len()) {
                                    Err(e) => Err(e),
                                    Ok(accounts) => Ok((
                                        accounts,
                                        OutcomeView { events: creation_events(inst_key, admins, sigs_required), execution: None },
                                    )),
                                }
                            },
                        },
                    },
                },
            },
        },
    }
}

/// The accounts `base` with the accounts `recs` added in order.
pub open spec fn records_added(base: Map<Pubkey, AccountView>, recs: Seq<(Pubkey, AccountView)>) -> Map<Pubkey, AccountView>
    decreases recs.len(),
{
    if recs.len() == 0 {
        base
    } else {
        records_added(base, recs.drop_last()).insert(recs.last().0, recs.last().1)
    }
}

/// An address holds an account after adding `recs` exactly where it held one
/// before or one of `recs` is there.
proof fn lemma_records_added_keys(base: Map<Pubkey, AccountView>, recs: Seq<(Pubkey, AccountView)>, k: Pubkey)
    ensures
        records_added(base, recs).contains_key(k) <==> (base.contains_key(k)
            || exists|j: int| 0 <= j < recs.len() && recs[j].0 == k),
    decreases recs.len(),
{
    if recs.len() > 0 {
        lemma_records_added_keys(base, recs.drop_last(), k);
        if exists|j: int| 0 <= j < recs.len() && recs[j].0 == k {
            let j = choose|j: int| 0 <= j < recs.len() && recs[j].0 == k;
            if j < recs.len() - 1 {
                assert(recs.drop_last()[j].0 == k);
            }
        }
        if exists|j: int| 0 <= j < recs.drop_last().len() && recs.drop_last()[j].0 == k {
            let j = choose|j: int| 0 <= j < recs.drop_last().len() && recs.drop_last()[j].0 == k;
            assert(recs[j].0 == k);
        }
    }
}

/// Once creating the records fails at some admin, creating more fails the same way.
proof fn lemma_records_error_stays(
    p: ProgramView,
    accounts: Map<Pubkey, AccountView>,
    admins: Seq<Pubkey>,
    remaining: Seq<AccountRef>,
    inst_key: Pubkey,
    n: nat,
    m: nat,
)
    requires
        n <= m,
        admin_records_created(p, accounts, admins, remaining, inst_key, n) is Err,
    ensures
        admin_records_created(p, accounts, admins, remaining, inst_key, m)
            == admin_records_created(p, accounts, admins, remaining, inst_key, n),
    decreases m - n,
{
    if m > n {
        lemma_records_error_stays(p, accounts, admins, remaining, inst_key, n, (m - 1) as nat);
    }
}

/// Once a fault is found among the first `n` admins, more admins keep it.
proof fn lemma_fault_stays(admins: Seq<Pubkey>, n: nat, m: nat)
    requires
        n <= m,
        first_admin_fault(admins, n) is Some,
    ensures
        first_admin_fault(admins, m) == first_admin_fault(admins, n),
    decreases m - n,
{
    if m > n {
        lemma_fault_stays(admins, n, (m - 1) as nat);
    }
}

/// The first fault among the admins, if any.
fn find_admin_fault(admins: &Vec<Pubkey>) -> (r: Option<MajError>)
    ensures
        r == first_admin_fault(admins@, admins@.len()),
{
    let mut i: usize = 0;
    while i < admins.len()
        invariant
            i <= admins@.len(),
            first_admin_fault(admins@, i as nat) is None,
        decreases admins@.len() - i,
    {
        let a = admins[i];
        if a.is_default() {
            proof {
                lemma_fault_stays(admins@, (i + 1) as nat, admins@.len());
            }
            return Some(MajError::ZeroAddress);
        }
        let mut j: usize = 0;
        while j < i
            invariant
                i < admins@.len(),
                j <= i,
                forall|x: int| 0 <= x < j ==> admins@[x] != a,
                a == admins@[i as int],
                !a.spec_is_default(),
                first_admin_fault(admins@, i as nat) is None,
            decreases i - j,
        {
            if admins[j].key_eq(&a) {
                assert(admins@.take(i as int)[j as int] == a);
                assert(admins@.take(i as int).contains(a));
                assert(first_admin_fault(admins@, (i + 1) as nat) == Some(MajError::DuplicateAdminAddress));
                proof {
                    lemma_fault_stays(admins@, (i + 1) as nat, admins@.len());
                }
                return Some(MajError::DuplicateAdminAddress);
            }
            j = j + 1;
        }
        assert(!admins@.take(i as int).contains(a)) by {
            if admins@.take(i as int).contains(a) {
                let x = choose|x: int| 0 <= x < i && admins@.take(i as int)[x] == a;
                assert(admins@[x] == a);
            }
        }
        i = i + 1;
    }
    None
}

/// Creates a named multisig wallet with its admins and threshold.
#[verifier::rlimit(80)]
pub fn handler(
    program: &mut MajProgram,
    ctx: &CreateMaj,
    name: Vec<u8>,
    admins: Vec<Pubkey>,
    sigs_required: u64,
) -> (r: Result<Outcome, InstructionError>)
    requires
        old(program).wf(),
    ensures
        final(program).wf(),
        follows(old(program)@, final(program)@, r, create_maj_step(old(program)@, *ctx, name@, admins@, sigs_required)),
{
    let reg_seeds = registry_seed_list();
    let (reg_key, _) = derive_address(program, &reg_seeds)?;
    let (ri, reg) = load_registry(program, &reg_key)?;
    check_seeds(program, &reg_seeds, &reg_key, reg.bump)?;
    let name_seed_bytes = name_seed_list(&name);
    let (name_key, name_bump) = derive_address(program, &name_seed_bytes)?;
    check_free(program, &name_key)?;
    let inst_seed_bytes = instance_seed_list(&name);
    let (inst_key, inst_bump) = derive_address(program, &inst_seed_bytes)?;
    if inst_key.key_eq(&name_key) {
        return Err(InstructionError::AccountAlreadyInUse);
    }
    check_free(program, &inst_key)?;
    if name.len() > 64 {
        return Err(InstructionError::Maj(MajError::NameTooLong));
    }
    let n = admins.len();
    if n < 2 {
        return Err(InstructionError::Maj(MajError::TwoAdminMinimum));
    }
    if sigs_required < 2 {
        return Err(InstructionError::Maj(MajError::TooFewSignaturesRequired));
    }
    if sigs_required > n as u64 {
        return Err(InstructionError::Maj(MajError::TooManySignaturesRequired));
    }
    match find_admin_fault(&admins) {
        Some(e) => {
            return Err(InstructionError::Maj(e));
        },
        None => {},
    }
    if ctx.remaining_accounts.len() < n {
        return Err(InstructionError::Maj(MajError::ZeroAddress));
    }
    if n > (usize::MAX - 97) / 32 || reg.total_instances == u64::MAX {
        return Err(InstructionError::Aborted);
    }
    let space = if n > 10 { MajInstance::space_for(n) } else { MajInstance::INITIAL_SPACE };
    let ghost pre = program@;
    let ghost base = creation_base(pre, name@, admins@, sigs_required);
    assert(base.contains_key(reg_key));
    assert(forall|q: Pubkey| #[trigger] base.contains_key(q) <==> (pre.accounts.contains_key(q) || q == name_key || q == inst_key));
    let ghost outcome = OutcomeView { events: creation_events(inst_key, admins@, sigs_required), execution: None };
    assert(create_maj_step(pre, *ctx, name@, admins@, sigs_required) == match admin_records_created(
        pre, base, admins@, ctx.remaining_accounts@, inst_key, n as nat) {
        Err(e) => Err(e),
        Ok(accounts) => Ok((accounts, outcome)),
    });
    let mut keys: Vec<Pubkey> = Vec::new();
    let mut bumps: Vec<u8> = Vec::new();
    let ghost mut recs: Seq<(Pubkey, AccountView)> = Seq::empty();
    let mut idx: usize = 0;
    while idx < n
        invariant
            program@ == pre,
            program.wf(),
            pre.accounts.contains_key(reg_key),
            forall|q: Pubkey| #[trigger] base.contains_key(q) <==> (pre.accounts.contains_key(q) || q == name_key || q == inst_key),
            n == admins@.len(),
            n <= ctx.remaining_accounts@.len(),
            idx <= n,
            keys@.len() == idx,
            bumps@.len() == idx,
            recs.len() == idx,
            forall|j: int| 0 <= j < idx ==> #[trigger] recs[j] == (keys@[j], admin_record_view(admins@[j], inst_key, bumps@[j])),
            forall|j: int| 0 <= j < idx ==> !base.contains_key(#[trigger] keys@[j]),
            forall|j: int, l: int| 0 <= j < l < idx ==> #[trigger] keys@[j] != #[trigger] keys@[l],
            admin_records_created(pre, base, admins@, ctx.remaining_accounts@, inst_key, idx as nat)
                == Ok::<Map<Pubkey, AccountView>, InstructionError>(records_added(base, recs)),
            create_maj_step(pre, *ctx, name@, admins@, sigs_required) == match admin_records_created(
                pre, base, admins@, ctx.remaining_accounts@, inst_key, n as nat) {
                Err(e) => Err(e),
                Ok(accounts) => Ok((accounts, outcome)),
            },
        decreases n - idx,
    {
        let a = admins[idx];
        let seeds = admin_record_seed_list(&a, &inst_key);
        let (k, b) = match derive_address(program, &seeds) {
            Ok(kb) => kb,
            Err(e) => {
                proof {
                    lemma_records_error_stays(pre, base, admins@, ctx.remaining_accounts@, inst_key, (idx + 1) as nat, n as nat);
                }
                return Err(e);
            },
        };
        if !ctx.remaining_accounts[idx].key.key_eq(&k) {
            proof {
                lemma_records_error_stays(pre, base, admins@, ctx.remaining_accounts@, inst_key, (idx + 1) as nat, n as nat);
            }
            return Err(InstructionError::Maj(MajError::ZeroAddress));
        }
        proof {
            lemma_records_added_keys(base, recs, k);
            if exists|j: int| 0 <= j < recs.len() && recs[j].0 == k {
                let j = choose|j: int| 0 <= j < recs.len() && recs[j].0 == k;
                assert(keys@[j] == k);
                assert(keys@.contains(k));
            }
            if keys@.contains(k) {
                let j = choose|j: int| 0 <= j < keys@.len() && keys@[j] == k;
                assert(recs[j].0 == k);
            }
        }
        let in_use = k.key_eq(&name_key) || k.key_eq(&inst_key) || program.find(&k).is_some()
            || crate::state::instance::keys_contain(&keys, &k);
        if in_use {
            proof {
                lemma_records_error_stays(pre, base, admins@, ctx.remaining_accounts@, inst_key, (idx + 1) as nat, n as nat);
            }
            return Err(InstructionError::AccountAlreadyInUse);
        }
        proof {
            let v = admin_record_view(a, inst_key, b);
            let recs2 = recs.push((k, v));
            assert(recs2.drop_last() =~= recs);
            recs = recs2;
        }
        keys.push(k);
        bumps.push(b);
        idx = idx + 1;
    }
    let mut reg_account = program.take(ri);
    reg_account.data = AccountData::Registry(MajRegistry { total_instances: reg.total_instances + 1, bump: reg.bump });
    program.put(reg_account);
    program.put(StoredAccount {
        key: name_key,
        seeds: name_seed_bytes,
        space: MajNameRecord::SPACE,
        data: AccountData::NameRecord(MajNameRecord { maj_instance: inst_key, bump: name_bump }),
    });
    let mut events: Vec<MajEvent> = Vec::new();
    let mut e: usize = 0;
    while e < n
        invariant
            e <= n,
            n == admins@.len(),
            crate::events::events_view(events@) =~= Seq::new(e as nat, |i: int| MajEventView::AdminStatusUpdated(AdminStatusUpdated {
                admin: admins@[i],
                maj_instance: inst_key,
                status: true,
            })),
        decreases n - e,
    {
        let ghost before = events@;
        events.push(MajEvent::AdminStatusUpdated(AdminStatusUpdated { admin: admins[e], maj_instance: inst_key, status: true }));
        assert(crate::events::events_view(events@) =~= crate::events::events_view(before).push(events@.last()@));
        e = e + 1;
    }
    let listed = admins.clone();
    assert(listed@ =~= admins@);
    program.put(StoredAccount {
        key: inst_key,
        seeds: inst_seed_bytes,
        space,
        data: AccountData::Instance(MajInstance { name, admins, sigs_required, tx_count: 0, bump: inst_bump }),
    });
    assert(program@.accounts =~= base);
    let mut idx: usize = 0;
    while idx < n
        invariant
            program.wf(),
            program@.program_id == pre.program_id,
            n == listed@.len(),
            idx <= n,
            keys@.len() == n,
            bumps@.len() == n,
            recs.len() == n,
            forall|j: int| 0 <= j < n ==> #[trigger] recs[j] == (keys@[j], admin_record_view(listed@[j], inst_key, bumps@[j])),
            forall|j: int| 0 <= j < n ==> !base.contains_key(#[trigger] keys@[j]),
            forall|j: int, l: int| 0 <= j < l < n ==> #[trigger] keys@[j] != #[trigger] keys@[l],
            program@.accounts == records_added(base, recs.take(idx as int)),
        decreases n - idx,
    {
        let k = keys[idx];
        let seeds = admin_record_seed_list(&listed[idx], &inst_key);
        proof {
            lemma_records_added_keys(base, recs.take(idx as int), k);
            if exists|j: int| 0 <= j < recs.take(idx as int).len() && recs.take(idx as int)[j].0 == k {
                let j = choose|j: int| 0 <= j < recs.take(idx as int).len() && recs.take(idx as int)[j].0 == k;
                assert(keys@[j] == k);
            }
            assert(recs.take(idx + 1).drop_last() =~= recs.take(idx as int));
        }
        program.put(StoredAccount {
            key: k,
            seeds,
            space: AdminRecord::SPACE,
            data: AccountData::Admin(AdminRecord { admin: listed[idx], maj_instance: inst_key, bump: bumps[idx] }),
        });
        idx = idx + 1;
    }
    assert(recs.take(n as int) =~= recs);
    events.push(MajEvent::MajDeployed(MajDeployed { maj_instance: inst_key, admins: listed, sigs_required }));
    let out = Outcome { events, execution: None };
    assert(out@.events =~= creation_events(inst_key, admins@, sigs_required));
    Ok(out)
}

} // verus!
