//! The wallet's governance: admins, threshold and blacklist.  Each call needs
//! the wallet itself as a signer, which only the wallet's own execution of an
//! approved transaction can provide.
use vstd::prelude::*;
use crate::errors::{InstructionError, MajError};
use crate::events::{
    AdminAdded, AdminRemoved, AdminStatusUpdated, MajEvent, MajEventView, Outcome, OutcomeView,
    SignaturesRequiredChanged,
};
use crate::instructions::accounts::{
    blacklist_at, check_free, check_seeds, derive_address, derived, free_at, instance_at, instance_ref,
    load_admin_record, load_blacklist, load_instance, seeds_match, take_instance, with_data, admin_record_at, missing_as, or_missing,
};
use crate::instructions::initialize_registry::quiet;
use crate::pda::{admin_record_seed_list, admin_record_seeds, blacklist_seed_list, blacklist_seeds, instance_seed_list, instance_seeds};
use crate::program::{follows, AccountData, AccountDataView, AccountView, MajProgram, ProgramView, StepResult, StoredAccount};
use crate::pubkey::Pubkey;
use crate::state::instance::{
    first_position, instance_space, key_position, keys_contain, AdminRecord, BlacklistRecord,
    MajInstance, MajInstanceView,
};

verus! {

/// The accounts of `add_admin`.
pub struct AddAdmin {
    pub maj_instance: Pubkey,
    pub maj_instance_is_signer: bool,
    pub payer: Pubkey,
}

/// The accounts of `remove_admin`.
pub struct RemoveAdmin {
    pub maj_instance: Pubkey,
    pub maj_instance_is_signer: bool,
    pub rent_receiver: Pubkey,
}

/// The accounts of `change_sigs_required`.
pub struct ChangeSigsRequired {
    pub maj_instance: Pubkey,
    pub maj_instance_is_signer: bool,
}

/// The accounts of `add_blacklist`.
pub struct AddBlacklist {
    pub maj_instance: Pubkey,
    pub maj_instance_is_signer: bool,
    pub payer: Pubkey,
}

/// The accounts of `remove_blacklist`.
pub struct RemoveBlacklist {
    pub maj_instance: Pubkey,
    pub maj_instance_is_signer: bool,
    pub rent_receiver: Pubkey,
}

/// The checks of the wallet account in a governance call: its address matches
/// its name, and it signed.
pub open spec fn governed(p: ProgramView, key: Pubkey, inst: MajInstanceView, is_signer: bool) -> Result<(), InstructionError> {
    match seeds_match(p, instance_seeds(inst.name), key, inst.bump) {
        Err(e) => Err(e),
        Ok(()) => if !is_signer {
            Err(InstructionError::ConstraintSigner)
        } else {
            Ok(())
        },
    }
}

/// Checks the wallet at position `i` as a governance call's wallet.
fn check_governed(program: &MajProgram, i: usize, key: &Pubkey, is_signer: bool) -> (r: Result<(), InstructionError>)
    requires
        program.wf(),
        i < program.accounts@.len(),
        program.accounts@[i as int].data is Instance,
    ensures
        r == governed(program@, *key, program.accounts@[i as int].data->Instance_0@, is_signer),
{
    let inst = instance_ref(program, i);
    let seeds = instance_seed_list(&inst.name);
    check_seeds(program, &seeds, key, inst.bump)?;
    if !is_signer {
        return Err(InstructionError::ConstraintSigner);
    }
    Ok(())
}

/// `add_admin`: the wallet must exist, match its name and have signed;
/// `new_admin` must be nonzero and not an admin yet; the admin record's
/// address must be free.  Then it is appended to the admins, the wallet account grows to
/// fit them if it is too small, and its admin record is created.
pub open spec fn add_admin_step(p: ProgramView, ctx: AddAdmin, new_admin: Pubkey) -> StepResult {
    let key = ctx.maj_instance;
    match instance_at(p.accounts, key) {
        Err(e) => Err(e),
        Ok(inst) => match governed(p, key, inst, ctx.maj_instance_is_signer) {
            Err(e) => Err(e),
            Ok(()) => if new_admin.spec_is_default() {
                Err(InstructionError::Maj(MajError::ZeroAddress))
            } else if inst.admins.contains(new_admin) {
                Err(InstructionError::Maj(MajError::DuplicateAdminAddress))
            } else {
                match derived(p, admin_record_seeds(new_admin, key)) {
                    Err(e) => Err(e),
                    Ok((rec_key, rec_bump)) => match free_at(p.accounts, rec_key) {
                        Err(e) => Err(e),
                        Ok(()) => if instance_space(inst.admins.len() + 1) > usize::MAX {
                            Err(InstructionError::Aborted)
                        } else {
                            let old_space = p.accounts[key].space;
                            let needed = instance_space(inst.admins.len() + 1);
                            let space = if needed > old_space { needed as usize } else { old_space };
                            let grown = AccountView {
                                seeds: p.accounts[key].seeds,
                                space,
                                data: AccountDataView::Instance(MajInstanceView {
                                    admins: inst.admins.push(new_admin),
                                    ..inst
                                }),
                            };
                            let record = AccountView {
                                seeds: admin_record_seeds(new_admin, key),
                                space: 73,
                                data: AccountDataView::Admin(AdminRecord {
                                    admin: new_admin,
                                    maj_instance: key,
                                    bump: rec_bump,
                                }),
                            };
                            Ok((
                                p.accounts.insert(key, grown).insert(rec_key, record),
                                OutcomeView {
                                    events: seq![
                                        MajEventView::AdminAdded(AdminAdded { maj_instance: key, new_admin }),
                                        MajEventView::AdminStatusUpdated(AdminStatusUpdated {
                                            admin: new_admin,
                                            maj_instance: key,
                                            status: true,
                                        }),
                                    ],
                                    execution: None,
                                },
                            ))
                        },
                    },
                }
            },
        },
    }
}

/// Adds an admin to a wallet.
pub fn add_admin_handler(program: &mut MajProgram, ctx: &AddAdmin, new_admin: Pubkey) -> (r: Result<Outcome, InstructionError>)
    requires
        old(program).wf(),
    ensures
        final(program).wf(),
        follows(old(program)@, final(program)@, r, add_admin_step(old(program)@, *ctx, new_admin)),
{
    let key = ctx.maj_instance;
    let i = load_instance(program, &key)?;
    check_governed(program, i, &key, ctx.maj_instance_is_signer)?;
    if new_admin.is_default() {
        return Err(InstructionError::Maj(MajError::ZeroAddress));
    }
    if keys_contain(&instance_ref(program, i).admins, &new_admin) {
        return Err(InstructionError::Maj(MajError::DuplicateAdminAddress));
    }
    let rec_seeds = admin_record_seed_list(&new_admin, &key);
    let (rec_key, rec_bump) = derive_address(program, &rec_seeds)?;
    check_free(program, &rec_key)?;
    let count = instance_ref(program, i).admins.len();
    if count > (usize::MAX - 97) / 32 - 1 {
        return Err(InstructionError::Aborted);
    }
    let needed = MajInstance::space_for(count + 1);
    let ghost pre = program@;
    let (k, seeds, old_space, mut inst) = take_instance(program, i);
    let space = if needed > old_space { needed } else { old_space };
    inst.admins.push(new_admin);
    program.put(StoredAccount { key: k, seeds, space, data: AccountData::Instance(inst) });
    proof {
        assert(!program@.accounts.contains_key(rec_key));
    }
    program.put(StoredAccount {
        key: rec_key,
        seeds: rec_seeds,
        space: AdminRecord::SPACE,
        data: AccountData::Admin(AdminRecord { admin: new_admin, maj_instance: key, bump: rec_bump }),
    });
    let events = vec![
        MajEvent::AdminAdded(AdminAdded { maj_instance: key, new_admin }),
        MajEvent::AdminStatusUpdated(AdminStatusUpdated { admin: new_admin, maj_instance: key, status: true }),
    ];
    let out = Outcome { events, execution: None };
    proof {
        assert(pre.accounts.remove(k).insert(k, program@.accounts[k]) =~= pre.accounts.insert(k, program@.accounts[k]));
    }
    assert(out@.events =~= add_admin_step(pre, *ctx, new_admin)->Ok_0.1.events);
    Ok(out)
}

/// The admins after removing the one at `pos`: the last admin takes its place.
pub open spec fn swap_removed(admins: Seq<Pubkey>, pos: int) -> Seq<Pubkey> {
    admins.update(pos, admins.last()).drop_last()
}

/// `remove_admin`: the wallet and the admin record of `admin_to_remove` must
/// exist (a missing admin record is refused as `AddressIsNotAdmin`);
/// the wallet must match its name and have signed and the record its
/// seeds; the address must be an admin and more than two admins must remain
/// before the removal.  Then the admin's place is taken by the last admin, the
/// threshold drops to the number of admins left if it exceeded it, and the
/// admin record is closed.
pub open spec fn remove_admin_step(p: ProgramView, ctx: RemoveAdmin, admin_to_remove: Pubkey) -> StepResult {
    let key = ctx.maj_instance;
    match instance_at(p.accounts, key) {
        Err(e) => Err(e),
        Ok(inst) => match derived(p, admin_record_seeds(admin_to_remove, key)) {
            Err(e) => Err(e),
            Ok((rec_key, _)) => match missing_as(admin_record_at(p.accounts, rec_key), MajError::AddressIsNotAdmin) {
                Err(e) => Err(e),
                Ok(rec) => match governed(p, key, inst, ctx.maj_instance_is_signer) {
                    Err(e) => Err(e),
                    Ok(()) => match seeds_match(p, admin_record_seeds(admin_to_remove, key), rec_key, rec.bump) {
                        Err(e) => Err(e),
                        Ok(()) => if !inst.admins.contains(admin_to_remove) {
                            Err(InstructionError::Maj(MajError::AddressIsNotAdmin))
                        } else if inst.admins.len() <= 2 {
                            Err(InstructionError::Maj(MajError::TwoAdminMinimum))
                        } else {
                            let admins = swap_removed(inst.admins, first_position(inst.admins, admin_to_remove));
                            let sigs = if inst.sigs_required > admins.len() {
                                admins.len() as u64
                            } else {
                                inst.sigs_required
                            };
                            Ok((
                                with_data(p.accounts, key, AccountDataView::Instance(MajInstanceView {
                                    admins,
                                    sigs_required: sigs,
                                    ..inst
                                })).remove(rec_key),
                                OutcomeView {
                                    events: seq![
                                        MajEventView::AdminRemoved(AdminRemoved {
                                            maj_instance: key,
                                            admin_removed: admin_to_remove,
                                        }),
                                        MajEventView::AdminStatusUpdated(AdminStatusUpdated {
                                            admin: admin_to_remove,
                                            maj_instance: key,
                                            status: false,
                                        }),
                                    ],
                                    execution: None,
                                },
                            ))
                        },
                    },
                },
            },
        },
    }
}

/// Removes an admin from a wallet.
#[verifier::rlimit(30)]
pub fn remove_admin_handler(program: &mut MajProgram, ctx: &RemoveAdmin, admin_to_remove: Pubkey) -> (r: Result<Outcome, InstructionError>)
    requires
        old(program).wf(),
    ensures
        final(program).wf(),
        follows(old(program)@, final(program)@, r, remove_admin_step(old(program)@, *ctx, admin_to_remove)),
{
    let key = ctx.maj_instance;
    let i = load_instance(program, &key)?;
    let rec_seeds = admin_record_seed_list(&admin_to_remove, &key);
    let (rec_key, _) = derive_address(program, &rec_seeds)?;
    let rec = or_missing(load_admin_record(program, &rec_key), MajError::AddressIsNotAdmin)?;
    check_governed(program, i, &key, ctx.maj_instance_is_signer)?;
    check_seeds(program, &rec_seeds, &rec_key, rec.bump)?;
    let pos = match key_position(&instance_ref(program, i).admins, &admin_to_remove) {
        Some(pos) => pos,
        None => {
            return Err(InstructionError::Maj(MajError::AddressIsNotAdmin));
        },
    };
    if instance_ref(program, i).admins.len() <= 2 {
        return Err(InstructionError::Maj(MajError::TwoAdminMinimum));
    }
    let ghost pre = program@;
    let (k, seeds, space, mut inst) = take_instance(program, i);
    let ghost old_inst = inst@;
    inst.admins.swap_remove(pos);
    let left = inst.admins.len() as u64;
    if inst.sigs_required > left {
        inst.sigs_required = left;
    }
    let ghost newv = AccountView {
        seeds: pre.accounts[k].seeds,
        space: pre.accounts[k].space,
        data: AccountDataView::Instance(inst@),
    };
    proof {
        assert(inst@.admins == swap_removed(old_inst.admins, pos as int));
    }
    program.put(StoredAccount { key: k, seeds, space, data: AccountData::Instance(inst) });
    assert(program@.accounts =~= pre.accounts.insert(k, newv));
    let j = match program.find(&rec_key) {
        Some(j) => j,
        None => vstd::pervasive::unreached(),
    };
    let _closed = program.take(j);
    let events = vec![
        MajEvent::AdminRemoved(AdminRemoved { maj_instance: key, admin_removed: admin_to_remove }),
        MajEvent::AdminStatusUpdated(AdminStatusUpdated { admin: admin_to_remove, maj_instance: key, status: false }),
    ];
    let out = Outcome { events, execution: None };
    assert(out@.events =~= remove_admin_step(pre, *ctx, admin_to_remove)->Ok_0.1.events);
    Ok(out)
}

/// `change_sigs_required`: the wallet must exist, match its name and have
/// signed; the new threshold must be at least two and at most the number of
/// admins.  Then it replaces the threshold.
pub open spec fn change_sigs_required_step(p: ProgramView, ctx: ChangeSigsRequired, new_sigs_required: u64) -> StepResult {
    let key = ctx.maj_instance;
    match instance_at(p.accounts, key) {
        Err(e) => Err(e),
        Ok(inst) => match governed(p, key, inst, ctx.maj_instance_is_signer) {
            Err(e) => Err(e),
            Ok(()) => if new_sigs_required < 2 {
                Err(InstructionError::Maj(MajError::TooFewSignaturesRequired))
            } else if new_sigs_required > inst.admins.len() {
                Err(InstructionError::Maj(MajError::TooManySignaturesRequired))
            } else {
                Ok((
                    with_data(p.accounts, key, AccountDataView::Instance(MajInstanceView {
                        sigs_required: new_sigs_required,
                        ..inst
                    })),
                    OutcomeView {
                        events: seq![MajEventView::SignaturesRequiredChanged(SignaturesRequiredChanged {
                            maj_instance: key,
                            signatures_required: new_sigs_required,
                        })],
                        execution: None,
                    },
                ))
            },
        },
    }
}

/// Changes a wallet's threshold.
pub fn change_sigs_required_handler(program: &mut MajProgram, ctx: &ChangeSigsRequired, new_sigs_required: u64) -> (r: Result<Outcome, InstructionError>)
    requires
        old(program).wf(),
    ensures
        final(program).wf(),
        follows(old(program)@, final(program)@, r, change_sigs_required_step(old(program)@, *ctx, new_sigs_required)),
{
    let key = ctx.maj_instance;
    let i = load_instance(program, &key)?;
    check_governed(program, i, &key, ctx.maj_instance_is_signer)?;
    if new_sigs_required < 2 {
        return Err(InstructionError::Maj(MajError::TooFewSignaturesRequired));
    }
    if new_sigs_required > instance_ref(program, i).admins.len() as u64 {
        return Err(InstructionError::Maj(MajError::TooManySignaturesRequired));
    }
    let ghost pre = program@;
    let (k, seeds, space, mut inst) = take_instance(program, i);
    inst.sigs_required = new_sigs_required;
    program.put(StoredAccount { key: k, seeds, space, data: AccountData::Instance(inst) });
    let events = vec![
        MajEvent::SignaturesRequiredChanged(SignaturesRequiredChanged {
            maj_instance: key,
            signatures_required: new_sigs_required,
        }),
    ];
    let out = Outcome { events, execution: None };
    proof {
        assert(pre.accounts.remove(k).insert(k, program@.accounts[k]) =~= with_data(pre.accounts, k, program@.accounts[k].data));
    }
    assert(out@.events =~= change_sigs_required_step(pre, *ctx, new_sigs_required)->Ok_0.1.events);
    Ok(out)
}

/// `add_blacklist`: the wallet must exist, match its name and have signed, and
/// the blacklist record's address must be free; then the record is created.
pub open spec fn add_blacklist_step(p: ProgramView, ctx: AddBlacklist, target: Pubkey) -> StepResult {
    let key = ctx.maj_instance;
    match instance_at(p.accounts, key) {
        Err(e) => Err(e),
        Ok(inst) => match governed(p, key, inst, ctx.maj_instance_is_signer) {
            Err(e) => Err(e),
            Ok(()) => match derived(p, blacklist_seeds(key, target)) {
                Err(e) => Err(e),
                Ok((rec_key, rec_bump)) => match free_at(p.accounts, rec_key) {
                    Err(e) => Err(e),
                    Ok(()) => Ok((
                        p.accounts.insert(rec_key, AccountView {
                            seeds: blacklist_seeds(key, target),
                            space: 9,
                            data: AccountDataView::Blacklist(BlacklistRecord { bump: rec_bump }),
                        }),
                        quiet(),
                    )),
                },
            },
        },
    }
}

/// Blacklists an address in a wallet.
pub fn add_blacklist_handler(program: &mut MajProgram, ctx: &AddBlacklist, target: Pubkey) -> (r: Result<Outcome, InstructionError>)
    requires
        old(program).wf(),
    ensures
        final(program).wf(),
        follows(old(program)@, final(program)@, r, add_blacklist_step(old(program)@, *ctx, target)),
{
    let key = ctx.maj_instance;
    let i = load_instance(program, &key)?;
    check_governed(program, i, &key, ctx.maj_instance_is_signer)?;
    let rec_seeds = blacklist_seed_list(&key, &target);
    let (rec_key, rec_bump) = derive_address(program, &rec_seeds)?;
    check_free(program, &rec_key)?;
    program.put(StoredAccount {
        key: rec_key,
        seeds: rec_seeds,
        space: BlacklistRecord::SPACE,
        data: AccountData::Blacklist(BlacklistRecord { bump: rec_bump }),
    });
    let out = Outcome { events: Vec::new(), execution: None };
    assert(out@.events =~= Seq::<MajEventView>::empty());
    Ok(out)
}

/// `remove_blacklist`: the wallet and the blacklist record must exist (a
/// missing record is refused as `NotBlacklisted`), the
/// wallet must match its name and have signed and the record its seeds; then
/// the record is closed.
pub open spec fn remove_blacklist_step(p: ProgramView, ctx: RemoveBlacklist, target: Pubkey) -> StepResult {
    let key = ctx.maj_instance;
    match instance_at(p.accounts, key) {
        Err(e) => Err(e),
        Ok(inst) => match derived(p, blacklist_seeds(key, target)) {
            Err(e) => Err(e),
            Ok((rec_key, _)) => match missing_as(blacklist_at(p.accounts, rec_key), MajError::NotBlacklisted) {
                Err(e) => Err(e),
                Ok(rec) => match governed(p, key, inst, ctx.maj_instance_is_signer) {
                    Err(e) => Err(e),
                    Ok(()) => match seeds_match(p, blacklist_seeds(key, target), rec_key, rec.bump) {
                        Err(e) => Err(e),
                        Ok(()) => Ok((p.accounts.remove(rec_key), quiet())),
                    },
                },
            },
        },
    }
}

/// Lifts a blacklisting in a wallet.
pub fn remove_blacklist_handler(program: &mut MajProgram, ctx: &RemoveBlacklist, target: Pubkey) -> (r: Result<Outcome, InstructionError>)
    requires
        old(program).wf(),
    ensures
        final(program).wf(),
        follows(old(program)@, final(program)@, r, remove_blacklist_step(old(program)@, *ctx, target)),
{
    let key = ctx.maj_instance;
    let i = load_instance(program, &key)?;
    let rec_seeds = blacklist_seed_list(&key, &target);
    let (rec_key, _) = derive_address(program, &rec_seeds)?;
    let (j, rec) = or_missing(load_blacklist(program, &rec_key), MajError::NotBlacklisted)?;
    check_governed(program, i, &key, ctx.maj_instance_is_signer)?;
    check_seeds(program, &rec_seeds, &rec_key, rec.bump)?;
    let _closed = program.take(j);
    let out = Outcome { events: Vec::new(), execution: None };
    assert(out@.events =~= Seq::<MajEventView>::empty());
    Ok(out)
}

} // verus!
