use vstd::prelude::*;
use crate::pubkey::Pubkey;
use crate::state::transaction::SerializedAccountMeta;

verus! {

#[derive(Debug)]
pub struct TransactionProposed {
    pub tx_index: u64,
    pub to: Pubkey,
    pub value: u64,
    pub data: Vec<u8>,
    pub proposed_by: Pubkey,
}

#[derive(Clone, Copy, Debug)]
pub struct TransactionSigned {
    pub tx_index: u64,
    pub admin: Pubkey,
    pub num_signatures: u32,
}

#[derive(Debug)]
pub struct TransactionExecuted {
    pub tx_index: u64,
    pub to: Pubkey,
    pub value: u64,
    pub data: Vec<u8>,
}

#[derive(Clone, Copy, Debug)]
pub struct SignatureRevoked {
    pub tx_index: u64,
    pub admin: Pubkey,
    pub num_signatures: u32,
}

#[derive(Clone, Copy, Debug)]
pub struct TransactionCancelled {
    pub tx_index: u64,
}

#[derive(Clone, Copy, Debug)]
pub struct AdminAdded {
    pub maj_instance: Pubkey,
    pub new_admin: Pubkey,
}

#[derive(Clone, Copy, Debug)]
pub struct AdminRemoved {
    pub maj_instance: Pubkey,
    pub admin_removed: Pubkey,
}

#[derive(Clone, Copy, Debug)]
pub struct SignaturesRequiredChanged {
    pub maj_instance: Pubkey,
    pub signatures_required: u64,
}

#[derive(Debug)]
pub struct MajDeployed {
    pub maj_instance: Pubkey,
    pub admins: Vec<Pubkey>,
    pub sigs_required: u64,
}

#[derive(Clone, Copy, Debug)]
pub struct AdminStatusUpdated {
    pub admin: Pubkey,
    pub maj_instance: Pubkey,
    pub status: bool,
}

/// An event the program emits.
#[derive(Debug)]
pub enum MajEvent {
    TransactionProposed(TransactionProposed),
    TransactionSigned(TransactionSigned),
    TransactionExecuted(TransactionExecuted),
    SignatureRevoked(SignatureRevoked),
    TransactionCancelled(TransactionCancelled),
    AdminAdded(AdminAdded),
    AdminRemoved(AdminRemoved),
    SignaturesRequiredChanged(SignaturesRequiredChanged),
    MajDeployed(MajDeployed),
    AdminStatusUpdated(AdminStatusUpdated),
}

/// The content of an event.
pub enum MajEventView {
    TransactionProposed { tx_index: u64, to: Pubkey, value: u64, data: Seq<u8>, proposed_by: Pubkey },
    TransactionSigned(TransactionSigned),
    TransactionExecuted { tx_index: u64, to: Pubkey, value: u64, data: Seq<u8> },
    SignatureRevoked(SignatureRevoked),
    TransactionCancelled(TransactionCancelled),
    AdminAdded(AdminAdded),
    AdminRemoved(AdminRemoved),
    SignaturesRequiredChanged(SignaturesRequiredChanged),
    MajDeployed { maj_instance: Pubkey, admins: Seq<Pubkey>, sigs_required: u64 },
    AdminStatusUpdated(AdminStatusUpdated),
}

impl View for MajEvent {
    type V = MajEventView;

    open spec fn view(&self) -> MajEventView {
        match self {
            MajEvent::TransactionProposed(e) => MajEventView::TransactionProposed {
                tx_index: e.tx_index,
                to: e.to,
                value: e.value,
                data: e.data@,
                proposed_by: e.proposed_by,
            },
            MajEvent::TransactionSigned(e) => MajEventView::TransactionSigned(*e),
            MajEvent::TransactionExecuted(e) => MajEventView::TransactionExecuted {
                tx_index: e.tx_index,
                to: e.to,
                value: e.value,
                data: e.data@,
            },
            MajEvent::SignatureRevoked(e) => MajEventView::SignatureRevoked(*e),
            MajEvent::TransactionCancelled(e) => MajEventView::TransactionCancelled(*e),
            MajEvent::AdminAdded(e) => MajEventView::AdminAdded(*e),
            MajEvent::AdminRemoved(e) => MajEventView::AdminRemoved(*e),
            MajEvent::SignaturesRequiredChanged(e) => MajEventView::SignaturesRequiredChanged(*e),
            MajEvent::MajDeployed(e) => MajEventView::MajDeployed {
                maj_instance: e.maj_instance,
                admins: e.admins@,
                sigs_required: e.sigs_required,
            },
            MajEvent::AdminStatusUpdated(e) => MajEventView::AdminStatusUpdated(*e),
        }
    }
}

/// What executing a transaction asks of the runtime, on behalf of the wallet.
#[derive(Debug)]
pub enum Execution {
    /// Move `lamports` from the wallet `from` to `to`.
    Transfer { from: Pubkey, to: Pubkey, lamports: u64 },
    /// Call `program_id` with `data` over `accounts`, the wallet `signer`
    /// signing with its seeds.
    Invoke {
        program_id: Pubkey,
        accounts: Vec<SerializedAccountMeta>,
        data: Vec<u8>,
        signer: Pubkey,
    },
}

/// The content of an execution request.
pub enum ExecutionView {
    Transfer { from: Pubkey, to: Pubkey, lamports: u64 },
    Invoke { program_id: Pubkey, accounts: Seq<SerializedAccountMeta>, data: Seq<u8>, signer: Pubkey },
}

impl View for Execution {
    type V = ExecutionView;

    open spec fn view(&self) -> ExecutionView {
        match self {
            Execution::Transfer { from, to, lamports } => ExecutionView::Transfer {
                from: *from,
                to: *to,
                lamports: *lamports,
            },
            Execution::Invoke { program_id, accounts, data, signer } => ExecutionView::Invoke {
                program_id: *program_id,
                accounts: accounts@,
                data: data@,
                signer: *signer,
            },
        }
    }
}

/// What a successful instruction produced: the events it emitted, in order,
/// and the execution it asks of the runtime, if any.
#[derive(Debug)]
pub struct Outcome {
    pub events: Vec<MajEvent>,
    pub execution: Option<Execution>,
}

/// The content of an outcome.
pub struct OutcomeView {
    pub events: Seq<MajEventView>,
    pub execution: Option<ExecutionView>,
}

/// The contents of a list of events.
pub open spec fn events_view(events: Seq<MajEvent>) -> Seq<MajEventView> {
    events.map_values(|e: MajEvent| e@)
}

impl View for Outcome {
    type V = OutcomeView;

    open spec fn view(&self) -> OutcomeView {
        OutcomeView {
            events: events_view(self.events@),
            execution: match &self.execution {
                Some(x) => Some(x@),
                None => None,
            },
        }
    }
}

} // verus!
