use vstd::prelude::*;
use crate::errors::InstructionError;
use crate::events::{MajEvent, Outcome, OutcomeView};
use crate::instructions::accounts::{check_free, derived, derive_address, free_at};
use crate::pda::{registry_seed_list, registry_seeds};
use crate::program::{follows, AccountData, AccountDataView, AccountView, MajProgram, ProgramView, StepResult, StoredAccount};
use crate::pubkey::Pubkey;
use crate::state::registry::MajRegistry;

verus! {

/// The accounts of `initialize_registry`: who pays for the registry.
pub struct InitializeRegistry {
    pub payer: Pubkey,
}

/// An outcome with no events and no execution.
pub open spec fn quiet() -> OutcomeView {
    OutcomeView { events: Seq::empty(), execution: None }
}

/// `initialize_registry`: creates the registry at its address with a count of
/// zero, unless an account is already there.
pub open spec fn initialize_registry_step(p: ProgramView) -> StepResult {
    match derived(p, registry_seeds()) {
        Err(e) => Err(e),
        Ok((key, bump)) => match free_at(p.accounts, key) {
            Err(e) => Err(e),
            Ok(()) => Ok((
                p.accounts.insert(key, AccountView {
                    seeds: registry_seeds(),
                    space: 17,
                    data: AccountDataView::Registry(MajRegistry { total_instances: 0, bump }),
                }),
                quiet(),
            )),
        },
    }
}

/// Creates the registry singleton.
pub fn handler(program: &mut MajProgram, ctx: &InitializeRegistry) -> (r: Result<Outcome, InstructionError>)
    requires
        old(program).wf(),
    ensures
        final(program).wf(),
        follows(old(program)@, final(program)@, r, initialize_registry_step(old(program)@)),
{
    let seeds = registry_seed_list();
    let (key, bump) = derive_address(program, &seeds)?;
    check_free(program, &key)?;
    program.put(StoredAccount {
        key,
        seeds,
        space: MajRegistry::SPACE,
        data: AccountData::Registry(MajRegistry { total_instances: 0, bump }),
    });
    let out = Outcome { events: Vec::new(), execution: None };
    assert(out@.events =~= Seq::<crate::events::MajEventView>::empty());
    Ok(out)
}

} // verus!
