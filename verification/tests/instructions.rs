use std::str::FromStr;

use anchor_lang::prelude::Pubkey as AnchorPubkey;
use maj_core::errors::{InstructionError, MajError};
use maj_core::events::{Execution, MajEvent};
use maj_core::instructions::accounts::AccountRef;
use maj_core::instructions::cancel_transaction::CancelTransaction;
use maj_core::instructions::create_maj::CreateMaj;
use maj_core::instructions::execute_transaction::ExecuteTransaction;
use maj_core::instructions::governance::{AddAdmin, AddBlacklist, ChangeSigsRequired, RemoveAdmin, RemoveBlacklist};
use maj_core::instructions::initialize_registry::InitializeRegistry;
use maj_core::instructions::propose_transaction::ProposeTransaction;
use maj_core::instructions::revoke_signature::RevokeSignature;
use maj_core::instructions::sign_transaction::SignTransaction;
use maj_core::balances::{BalanceError, Balances};
use maj_core::calls::{finish_transaction, start_transaction, ChainError};
use maj_core::maj_core as entry;
use maj_core::maj_core::Instruction;
use maj_core::program::{AccountData, MajProgram};
use maj_core::pubkey::Pubkey;
use maj_core::state::instance::MajInstance;
use maj_core::state::transaction::{MajTransaction, SerializedAccountMeta};

fn program_id() -> Pubkey {
    let id = AnchorPubkey::from_str("Fg6PaFpoGXkYsidMpWTK6W2BeZ7FEfcYkg476zPFsLnS").unwrap();
    Pubkey::new_from_array(id.to_bytes())
}

fn key(n: u8) -> Pubkey {
    Pubkey::new_from_array([n; 32])
}

fn pda(seeds: &[&[u8]]) -> Pubkey {
    let pid = AnchorPubkey::new_from_array(program_id().bytes);
    let (k, _) = AnchorPubkey::find_program_address(seeds, &pid);
    Pubkey::new_from_array(k.to_bytes())
}

fn instance_key(name: &str) -> Pubkey {
    pda(&[b"maj_instance", name.as_bytes()])
}

fn tx_key(instance: &Pubkey, index: u64) -> Pubkey {
    pda(&[b"maj_tx", &instance.bytes, &index.to_le_bytes()])
}

fn admin_record_key(admin: &Pubkey, instance: &Pubkey) -> Pubkey {
    pda(&[b"admin_record", &admin.bytes, &instance.bytes])
}

fn sig_key(tx: &Pubkey, signer: &Pubkey) -> Pubkey {
    pda(&[b"sig", &tx.bytes, &signer.bytes])
}

fn blacklist_key(instance: &Pubkey, target: &Pubkey) -> Pubkey {
    pda(&[b"blacklist", &instance.bytes, &target.bytes])
}

fn passed(k: Pubkey) -> AccountRef {
    AccountRef { key: k }
}

fn fresh_program() -> MajProgram {
    let mut program = MajProgram::new(program_id());
    entry::initialize_registry(&mut program, &InitializeRegistry { payer: key(200) }).unwrap();
    program
}

fn create(program: &mut MajProgram, name: &str, admins: &[Pubkey], sigs_required: u64) -> Result<Pubkey, InstructionError> {
    let inst = instance_key(name);
    let remaining: Vec<AccountRef> = admins.iter().map(|a| passed(admin_record_key(a, &inst))).collect();
    entry::create_maj(
        program,
        &CreateMaj { payer: key(200), remaining_accounts: remaining },
        name.as_bytes().to_vec(),
        admins.to_vec(),
        sigs_required,
    )?;
    Ok(inst)
}

fn instance<'a>(program: &'a MajProgram, k: &Pubkey) -> &'a MajInstance {
    match &program.account(k).expect("wallet").data {
        AccountData::Instance(i) => i,
        _ => panic!("not a wallet"),
    }
}

fn transaction<'a>(program: &'a MajProgram, k: &Pubkey) -> &'a MajTransaction {
    match &program.account(k).expect("transaction").data {
        AccountData::Transaction(t) => t,
        _ => panic!("not a transaction"),
    }
}

fn propose_transfer(program: &mut MajProgram, inst: &Pubkey, proposer: Pubkey, to: Pubkey, value: u64, pass_signature: bool) -> Result<Pubkey, InstructionError> {
    let index = instance(program, inst).tx_count;
    let t = tx_key(inst, index);
    let mut remaining = Vec::new();
    if pass_signature {
        remaining.push(passed(sig_key(&t, &proposer)));
    }
    remaining.push(passed(to));
    entry::propose_transaction(
        program,
        &ProposeTransaction { maj_instance: *inst, proposer, remaining_accounts: remaining },
        to,
        value,
        Vec::new(),
        None,
        Vec::new(),
    )?;
    Ok(t)
}

fn sign(program: &mut MajProgram, inst: &Pubkey, t: &Pubkey, admin: Pubkey, remaining: Vec<AccountRef>) -> Result<maj_core::events::Outcome, InstructionError> {
    entry::sign_transaction(
        program,
        &SignTransaction { maj_instance: *inst, maj_transaction: *t, admin, remaining_accounts: remaining },
    )
}

#[test]
fn initialize_registry_once() {
    let mut program = MajProgram::new(program_id());
    assert!(entry::initialize_registry(&mut program, &InitializeRegistry { payer: key(1) }).is_ok());
    let registry = pda(&[b"maj_registry"]);
    match &program.account(&registry).expect("registry").data {
        AccountData::Registry(r) => assert_eq!(r.total_instances, 0),
        _ => panic!("not the registry"),
    }
    assert_eq!(
        entry::initialize_registry(&mut program, &InitializeRegistry { payer: key(1) }).unwrap_err(),
        InstructionError::AccountAlreadyInUse
    );
}

#[test]
fn create_maj_happy_path() {
    let mut program = fresh_program();
    let admins = [key(1), key(2), key(3)];
    let inst = create(&mut program, "treasury", &admins, 2).unwrap();
    let wallet = instance(&program, &inst);
    assert_eq!(wallet.admins, admins.to_vec());
    assert_eq!(wallet.sigs_required, 2);
    assert_eq!(wallet.tx_count, 0);
    assert_eq!(wallet.name, b"treasury".to_vec());
    for a in admins.iter() {
        match &program.account(&admin_record_key(a, &inst)).expect("admin record").data {
            AccountData::Admin(r) => {
                assert_eq!(r.admin, *a);
                assert_eq!(r.maj_instance, inst);
            },
            _ => panic!("not an admin record"),
        }
    }
    match &program.account(&pda(&[b"maj_name", b"treasury"])).expect("name record").data {
        AccountData::NameRecord(r) => assert_eq!(r.maj_instance, inst),
        _ => panic!("not a name record"),
    }
    match &program.account(&pda(&[b"maj_registry"])).unwrap().data {
        AccountData::Registry(r) => assert_eq!(r.total_instances, 1),
        _ => panic!("not the registry"),
    }
}

#[test]
fn create_maj_duplicate_name() {
    let mut program = fresh_program();
    create(&mut program, "dao", &[key(1), key(2)], 2).unwrap();
    assert_eq!(create(&mut program, "dao", &[key(3), key(4)], 2).unwrap_err(), InstructionError::AccountAlreadyInUse);
}

#[test]
fn create_maj_invalid_threshold() {
    let mut program = fresh_program();
    assert_eq!(
        create(&mut program, "low", &[key(1), key(2)], 1).unwrap_err(),
        InstructionError::Maj(MajError::TooFewSignaturesRequired)
    );
    assert_eq!(
        create(&mut program, "high", &[key(1), key(2)], 3).unwrap_err(),
        InstructionError::Maj(MajError::TooManySignaturesRequired)
    );
    assert_eq!(
        create(&mut program, "alone", &[key(1)], 2).unwrap_err(),
        InstructionError::Maj(MajError::TwoAdminMinimum)
    );
}

#[test]
fn create_maj_duplicate_admin() {
    let mut program = fresh_program();
    assert_eq!(
        create(&mut program, "dup", &[key(1), key(2), key(1)], 2).unwrap_err(),
        InstructionError::Maj(MajError::DuplicateAdminAddress)
    );
    assert_eq!(
        create(&mut program, "zero", &[key(1), key(0)], 2).unwrap_err(),
        InstructionError::Maj(MajError::ZeroAddress)
    );
    // A failed creation leaves nothing behind.
    assert!(program.account(&instance_key("dup")).is_none());
}

#[test]
fn create_maj_without_admin_records_passed() {
    let mut program = fresh_program();
    let err = entry::create_maj(
        &mut program,
        &CreateMaj { payer: key(200), remaining_accounts: vec![passed(key(9))] },
        b"short".to_vec(),
        vec![key(1), key(2)],
        2,
    )
    .unwrap_err();
    assert_eq!(err, InstructionError::Maj(MajError::ZeroAddress));
}

#[test]
fn create_maj_name_longer_than_a_seed() {
    let mut program = fresh_program();
    let name = "a".repeat(40);
    let err = entry::create_maj(
        &mut program,
        &CreateMaj { payer: key(200), remaining_accounts: vec![] },
        name.as_bytes().to_vec(),
        vec![key(1), key(2)],
        2,
    )
    .unwrap_err();
    assert_eq!(err, InstructionError::Aborted);
}

#[test]
fn create_maj_with_many_admins_grows_wallet() {
    let mut program = fresh_program();
    let admins: Vec<Pubkey> = (1..=12).map(key).collect();
    let inst = create(&mut program, "big", &admins, 7).unwrap();
    assert_eq!(program.account(&inst).unwrap().space, MajInstance::space_for(12));
    let small = create(&mut program, "small", &[key(1), key(2)], 2).unwrap();
    assert_eq!(program.account(&small).unwrap().space, MajInstance::INITIAL_SPACE);
}

#[test]
fn propose_by_non_admin_does_not_sign() {
    let mut program = fresh_program();
    let inst = create(&mut program, "w", &[key(1), key(2)], 2).unwrap();
    let t = propose_transfer(&mut program, &inst, key(50), key(60), 10, false).unwrap();
    let tx = transaction(&program, &t);
    assert_eq!(tx.num_signatures, 0);
    assert!(tx.active);
    assert!(!tx.executed);
    assert_eq!(tx.proposed_by, key(50));
    assert_eq!(tx.tx_index, 0);
    assert_eq!(instance(&program, &inst).tx_count, 1);
}

#[test]
fn propose_by_non_admin_passing_a_record_address_does_not_sign() {
    let mut program = fresh_program();
    let inst = create(&mut program, "w", &[key(1), key(2)], 2).unwrap();
    let t = tx_key(&inst, 0);
    let remaining = vec![
        passed(admin_record_key(&key(50), &inst)),
        passed(sig_key(&t, &key(50))),
    ];
    entry::propose_transaction(
        &mut program,
        &ProposeTransaction { maj_instance: inst, proposer: key(50), remaining_accounts: remaining },
        key(60),
        1,
        Vec::new(),
        None,
        Vec::new(),
    )
    .unwrap();
    let tx = transaction(&program, &t);
    assert_eq!(tx.num_signatures, 0);
    assert!(tx.active);
    assert!(!tx.executed);
    assert!(program.account(&sig_key(&t, &key(50))).is_none());
}

#[test]
fn propose_by_admin_signs() {
    let mut program = fresh_program();
    let inst = create(&mut program, "w", &[key(1), key(2)], 2).unwrap();
    let t = propose_transfer(&mut program, &inst, key(1), key(60), 10, true).unwrap();
    assert_eq!(transaction(&program, &t).num_signatures, 1);
    assert!(program.account(&sig_key(&t, &key(1))).is_some());
}

#[test]
fn propose_by_admin_without_signature_account() {
    let mut program = fresh_program();
    let inst = create(&mut program, "w", &[key(1), key(2)], 2).unwrap();
    let proposer = key(1);
    let remaining = vec![passed(admin_record_key(&proposer, &inst))];
    let err = entry::propose_transaction(
        &mut program,
        &ProposeTransaction { maj_instance: inst, proposer, remaining_accounts: remaining },
        key(60),
        1,
        Vec::new(),
        None,
        Vec::new(),
    )
    .unwrap_err();
    assert_eq!(err, InstructionError::Maj(MajError::OnlyAdmin));
    assert_eq!(instance(&program, &inst).tx_count, 0);
}

#[test]
fn sign_reaches_threshold_and_executes_transfer() {
    let mut program = fresh_program();
    let inst = create(&mut program, "w", &[key(1), key(2), key(3)], 2).unwrap();
    let t = propose_transfer(&mut program, &inst, key(1), key(60), 500, true).unwrap();
    let out = sign(&mut program, &inst, &t, key(2), vec![passed(key(60))]).unwrap();
    let tx = transaction(&program, &t);
    assert!(tx.executed);
    assert!(!tx.active);
    assert_eq!(tx.num_signatures, 2);
    match out.execution {
        Some(Execution::Transfer { from, to, lamports }) => {
            assert_eq!(from, inst);
            assert_eq!(to, key(60));
            assert_eq!(lamports, 500);
        },
        _ => panic!("expected a transfer"),
    }
    assert_eq!(out.events.len(), 2);
    assert!(matches!(out.events[0], MajEvent::TransactionSigned(_)));
    assert!(matches!(out.events[1], MajEvent::TransactionExecuted(_)));
}

#[test]
fn sign_at_threshold_without_destination_fails_whole() {
    let mut program = fresh_program();
    let inst = create(&mut program, "w", &[key(1), key(2)], 2).unwrap();
    let t = propose_transfer(&mut program, &inst, key(1), key(60), 500, true).unwrap();
    let err = sign(&mut program, &inst, &t, key(2), vec![]).unwrap_err();
    assert_eq!(err, InstructionError::Maj(MajError::TransactionFailed));
    assert_eq!(transaction(&program, &t).num_signatures, 1);
    assert!(program.account(&sig_key(&t, &key(2))).is_none());
}

#[test]
fn sign_twice_is_refused() {
    let mut program = fresh_program();
    let inst = create(&mut program, "w", &[key(1), key(2), key(3)], 3).unwrap();
    let t = propose_transfer(&mut program, &inst, key(50), key(60), 1, false).unwrap();
    sign(&mut program, &inst, &t, key(2), vec![]).unwrap();
    assert_eq!(sign(&mut program, &inst, &t, key(2), vec![]).unwrap_err(), InstructionError::Maj(MajError::DuplicateSignature));
    assert_eq!(transaction(&program, &t).num_signatures, 1);
    assert!(transaction(&program, &t).active);
}

#[test]
fn sign_by_non_admin_is_refused() {
    let mut program = fresh_program();
    let inst = create(&mut program, "w", &[key(1), key(2)], 2).unwrap();
    let t = propose_transfer(&mut program, &inst, key(50), key(60), 1, false).unwrap();
    assert_eq!(sign(&mut program, &inst, &t, key(9), vec![]).unwrap_err(), InstructionError::Maj(MajError::OnlyAdmin));
    assert_eq!(transaction(&program, &t).num_signatures, 0);
    assert!(program.account(&sig_key(&t, &key(9))).is_none());
}

#[test]
fn revoke_signature_decrements_and_closes() {
    let mut program = fresh_program();
    let inst = create(&mut program, "w", &[key(1), key(2), key(3)], 3).unwrap();
    let t = propose_transfer(&mut program, &inst, key(1), key(60), 1, true).unwrap();
    let ctx = RevokeSignature { maj_instance: inst, maj_transaction: t, admin: key(1) };
    entry::revoke_signature(&mut program, &ctx).unwrap();
    assert_eq!(transaction(&program, &t).num_signatures, 0);
    assert!(program.account(&sig_key(&t, &key(1))).is_none());
    assert_eq!(entry::revoke_signature(&mut program, &ctx).unwrap_err(), InstructionError::Maj(MajError::UserHasNotSigned));
}

#[test]
fn revoke_after_sign_restores_count() {
    let mut program = fresh_program();
    let inst = create(&mut program, "w", &[key(1), key(2), key(3)], 3).unwrap();
    let t = propose_transfer(&mut program, &inst, key(50), key(60), 1, false).unwrap();
    sign(&mut program, &inst, &t, key(3), vec![]).unwrap();
    assert_eq!(transaction(&program, &t).num_signatures, 1);
    entry::revoke_signature(&mut program, &RevokeSignature { maj_instance: inst, maj_transaction: t, admin: key(3) }).unwrap();
    assert_eq!(transaction(&program, &t).num_signatures, 0);
    assert!(program.account(&sig_key(&t, &key(3))).is_none());
}

#[test]
fn cancel_by_proposer_and_not_by_others() {
    let mut program = fresh_program();
    let inst = create(&mut program, "w", &[key(1), key(2)], 2).unwrap();
    let t = propose_transfer(&mut program, &inst, key(1), key(60), 1, true).unwrap();
    assert_eq!(
        entry::cancel_transaction(&mut program, &CancelTransaction { maj_instance: inst, maj_transaction: t, proposer: key(2) })
            .unwrap_err(),
        InstructionError::Maj(MajError::OnlyProposerCanCancel)
    );
    entry::cancel_transaction(&mut program, &CancelTransaction { maj_instance: inst, maj_transaction: t, proposer: key(1) })
        .unwrap();
    let tx = transaction(&program, &t);
    assert!(!tx.active);
    assert!(!tx.executed);
    assert_eq!(
        sign(&mut program, &inst, &t, key(2), vec![passed(key(60))]).unwrap_err(),
        InstructionError::Maj(MajError::TransactionNotActive)
    );
}

#[test]
fn execute_transaction_after_threshold() {
    let mut program = fresh_program();
    let inst = create(&mut program, "w", &[key(1), key(2), key(3)], 2).unwrap();
    let t = propose_transfer(&mut program, &inst, key(50), key(60), 7, false).unwrap();
    let exec = ExecuteTransaction { maj_instance: inst, maj_transaction: t, admin: key(1), remaining_accounts: vec![passed(key(60))] };
    assert_eq!(
        entry::execute_transaction(&mut program, &exec).unwrap_err(),
        InstructionError::Maj(MajError::InsufficientSignatures)
    );
    // Signatures without the destination: reaching the threshold fails, so sign below it first.
    sign(&mut program, &inst, &t, key(1), vec![]).unwrap();
    let out = sign(&mut program, &inst, &t, key(2), vec![passed(key(60))]).unwrap();
    assert!(out.execution.is_some());
    assert_eq!(
        entry::execute_transaction(&mut program, &exec).unwrap_err(),
        InstructionError::Maj(MajError::TransactionNotActive)
    );
}

#[test]
fn execute_call_names_its_accounts() {
    let mut program = fresh_program();
    let inst = create(&mut program, "w", &[key(1), key(2)], 2).unwrap();
    let index = instance(&program, &inst).tx_count;
    let t = tx_key(&inst, index);
    let metas = vec![
        SerializedAccountMeta { pubkey: inst, is_signer: true, is_writable: true },
        SerializedAccountMeta { pubkey: key(70), is_signer: false, is_writable: true },
    ];
    entry::propose_transaction(
        &mut program,
        &ProposeTransaction { maj_instance: inst, proposer: key(50), remaining_accounts: vec![] },
        program_id(),
        0,
        vec![1, 2, 3],
        Some(program_id()),
        metas,
    )
    .unwrap();
    sign(&mut program, &inst, &t, key(1), vec![]).unwrap();
    let err = sign(&mut program, &inst, &t, key(2), vec![passed(program_id())]).unwrap_err();
    assert_eq!(err, InstructionError::Maj(MajError::TransactionFailed));
    let out = sign(&mut program, &inst, &t, key(2), vec![passed(program_id()), passed(key(70))]).unwrap();
    match out.execution {
        Some(Execution::Invoke { program_id: pid, accounts, data, signer }) => {
            assert_eq!(pid, program_id());
            assert_eq!(accounts.len(), 2);
            assert_eq!(data, vec![1, 2, 3]);
            assert_eq!(signer, inst);
        },
        _ => panic!("expected a call"),
    }
}

#[test]
fn add_admin_direct_call_is_rejected() {
    let mut program = fresh_program();
    let inst = create(&mut program, "w", &[key(1), key(2)], 2).unwrap();
    let err = entry::add_admin(
        &mut program,
        &AddAdmin { maj_instance: inst, maj_instance_is_signer: false, payer: key(1) },
        key(3),
    )
    .unwrap_err();
    assert_eq!(err, InstructionError::ConstraintSigner);
    assert_eq!(instance(&program, &inst).admins.len(), 2);
}

#[test]
fn governance_instructions_signed_by_the_wallet() {
    let mut program = fresh_program();
    let inst = create(&mut program, "w", &[key(1), key(2)], 2).unwrap();
    entry::add_admin(&mut program, &AddAdmin { maj_instance: inst, maj_instance_is_signer: true, payer: key(1) }, key(3)).unwrap();
    assert_eq!(instance(&program, &inst).admins, vec![key(1), key(2), key(3)]);
    assert!(program.account(&admin_record_key(&key(3), &inst)).is_some());
    assert_eq!(
        entry::add_admin(&mut program, &AddAdmin { maj_instance: inst, maj_instance_is_signer: true, payer: key(1) }, key(3))
            .unwrap_err(),
        InstructionError::Maj(MajError::DuplicateAdminAddress)
    );
    assert_eq!(
        entry::add_admin(&mut program, &AddAdmin { maj_instance: inst, maj_instance_is_signer: true, payer: key(1) }, key(0))
            .unwrap_err(),
        InstructionError::Maj(MajError::ZeroAddress)
    );
    let change = ChangeSigsRequired { maj_instance: inst, maj_instance_is_signer: true };
    entry::change_sigs_required(&mut program, &change, 3).unwrap();
    assert_eq!(instance(&program, &inst).sigs_required, 3);
    assert_eq!(
        entry::change_sigs_required(&mut program, &change, 4).unwrap_err(),
        InstructionError::Maj(MajError::TooManySignaturesRequired)
    );
    let remove = RemoveAdmin { maj_instance: inst, maj_instance_is_signer: true, rent_receiver: key(1) };
    entry::remove_admin(&mut program, &remove, key(1)).unwrap();
    // The last admin takes the removed one's place; the threshold follows the admins.
    assert_eq!(instance(&program, &inst).admins, vec![key(3), key(2)]);
    assert_eq!(instance(&program, &inst).sigs_required, 2);
    assert!(program.account(&admin_record_key(&key(1), &inst)).is_none());
    assert_eq!(
        entry::remove_admin(&mut program, &remove, key(2)).unwrap_err(),
        InstructionError::Maj(MajError::TwoAdminMinimum)
    );
    assert_eq!(
        entry::remove_admin(&mut program, &remove, key(1)).unwrap_err(),
        InstructionError::Maj(MajError::AddressIsNotAdmin)
    );
}

#[test]
fn blacklisted_address_cannot_propose() {
    let mut program = fresh_program();
    let inst = create(&mut program, "w", &[key(1), key(2)], 2).unwrap();
    let add = AddBlacklist { maj_instance: inst, maj_instance_is_signer: true, payer: key(1) };
    entry::add_blacklist(&mut program, &add, key(50)).unwrap();
    assert!(program.account(&blacklist_key(&inst, &key(50))).is_some());
    // The record the program holds decides; nothing about it needs to be passed along.
    let remaining = vec![passed(blacklist_key(&inst, &key(50)))];
    let err = entry::propose_transaction(
        &mut program,
        &ProposeTransaction { maj_instance: inst, proposer: key(50), remaining_accounts: Vec::new() },
        key(60),
        1,
        Vec::new(),
        None,
        Vec::new(),
    )
    .unwrap_err();
    assert_eq!(err, InstructionError::Maj(MajError::AddressIsBlacklisted));
    let err = entry::propose_transaction(
        &mut program,
        &ProposeTransaction { maj_instance: inst, proposer: key(50), remaining_accounts: remaining },
        key(60),
        1,
        Vec::new(),
        None,
        Vec::new(),
    )
    .unwrap_err();
    assert_eq!(err, InstructionError::Maj(MajError::AddressIsBlacklisted));
    let remove = RemoveBlacklist { maj_instance: inst, maj_instance_is_signer: true, rent_receiver: key(1) };
    entry::remove_blacklist(&mut program, &remove, key(50)).unwrap();
    assert!(program.account(&blacklist_key(&inst, &key(50))).is_none());
    assert_eq!(entry::remove_blacklist(&mut program, &remove, key(50)).unwrap_err(), InstructionError::Maj(MajError::NotBlacklisted));
    assert!(propose_transfer(&mut program, &inst, key(50), key(60), 1, false).is_ok());
    let unsigned = AddBlacklist { maj_instance: inst, maj_instance_is_signer: false, payer: key(1) };
    assert_eq!(entry::add_blacklist(&mut program, &unsigned, key(50)).unwrap_err(), InstructionError::ConstraintSigner);
}

#[test]
fn error_codes_and_messages() {
    assert_eq!(MajError::DuplicateAdminAddress.code(), 6000);
    assert_eq!(MajError::OnlyAdmin.code(), 6004);
    assert_eq!(MajError::TwoAdminMinimum.code(), 6013);
    assert_eq!(MajError::NameTooLong.code(), 6018);
    assert_eq!(MajError::AddressIsBlacklisted.message(), "Address is blacklisted");
    assert_eq!(MajError::TooFewSignaturesRequired.message(), "Too few signatures required (minimum 2)");
}

#[test]
fn account_sizes() {
    assert_eq!(MajInstance::INITIAL_SPACE, 417);
    assert_eq!(MajInstance::space_for(10), 417);
    assert_eq!(MajInstance::space_for(11), 449);
    assert_eq!(MajTransaction::INITIAL_SPACE, 170);
    assert_eq!(MajTransaction::space_for(0, 0), 170);
    assert_eq!(MajTransaction::space_for(10, 2), 248);
    assert_eq!(maj_core::state::registry::MajRegistry::SPACE, 17);
    assert_eq!(maj_core::state::instance::AdminRecord::SPACE, 73);
}

#[test]
fn keys() {
    assert!(Pubkey::default_key().is_default());
    assert!(!key(1).is_default());
    assert!(key(3).key_eq(&key(3)));
    assert!(!key(3).key_eq(&key(4)));
    assert_eq!(key(5).to_seed(), vec![5u8; 32]);
}

#[test]
fn program_addresses_match_the_runtime() {
    let seeds = maj_core::pda::tx_seed_list(&key(4), 258);
    assert_eq!(seeds[2], 258u64.to_le_bytes().to_vec());
    let program = MajProgram::new(program_id());
    assert_eq!(program.program_id(), program_id());
    let mut p2 = MajProgram::new(program_id());
    entry::initialize_registry(&mut p2, &InitializeRegistry { payer: key(1) }).unwrap();
    assert!(p2.account(&pda(&[b"maj_registry"])).is_some());
    assert!(p2.account(&program_id()).is_none());
}

const ADD_ADMIN_TAG: [u8; 8] = [177, 236, 33, 205, 124, 152, 55, 186];
const REMOVE_ADMIN_TAG: [u8; 8] = [74, 202, 71, 106, 252, 31, 72, 183];
const CHANGE_SIGS_TAG: [u8; 8] = [8, 249, 20, 80, 102, 23, 158, 61];
const REMOVE_BLACKLIST_TAG: [u8; 8] = [39, 82, 241, 133, 41, 2, 161, 21];

fn call_data(tag: [u8; 8], arg: &[u8]) -> Vec<u8> {
    let mut d = tag.to_vec();
    d.extend_from_slice(arg);
    d
}

fn meta(pubkey: Pubkey, is_signer: bool) -> SerializedAccountMeta {
    SerializedAccountMeta { pubkey, is_signer, is_writable: true }
}

/// Proposes a call of this program from `key(1)` (who signs at once) and
/// returns the transaction's address and the accounts an execution needs.
fn propose_call(program: &mut MajProgram, inst: &Pubkey, data: Vec<u8>, metas: Vec<SerializedAccountMeta>) -> (Pubkey, Vec<AccountRef>) {
    let index = instance(program, inst).tx_count;
    let t = tx_key(inst, index);
    let mut needed = vec![passed(program_id())];
    for m in metas.iter() {
        needed.push(passed(m.pubkey));
    }
    entry::propose_transaction(
        program,
        &ProposeTransaction { maj_instance: *inst, proposer: key(1), remaining_accounts: vec![passed(sig_key(&t, &key(1)))] },
        program_id(),
        0,
        data,
        Some(program_id()),
        metas,
    )
    .unwrap();
    (t, needed)
}

/// Runs a submitted instruction to its end, where any call of another
/// program it hands back succeeds or fails as `call_succeeds` says.
fn on_chain(program: &mut MajProgram, balances: &mut Balances, ins: Instruction, call_succeeds: bool) -> Result<maj_core::events::Outcome, ChainError> {
    let pending = start_transaction(program, balances, ins)?;
    finish_transaction(program, balances, pending, call_succeeds)
}

fn sign_on_chain(program: &mut MajProgram, balances: &mut Balances, inst: &Pubkey, t: &Pubkey, admin: Pubkey, remaining: Vec<AccountRef>) -> Result<maj_core::events::Outcome, ChainError> {
    on_chain(
        program,
        balances,
        Instruction::SignTransaction(SignTransaction { maj_instance: *inst, maj_transaction: *t, admin, remaining_accounts: remaining }),
        true,
    )
}

#[test]
fn governance_through_an_executed_transaction() {
    let mut program = fresh_program();
    let mut balances = Balances::new();
    let inst = create(&mut program, "w", &[key(1), key(2)], 2).unwrap();
    let metas = vec![
        meta(inst, true),
        meta(admin_record_key(&key(3), &inst), false),
        meta(key(2), true),
        meta(Pubkey::default_key(), false),
    ];
    let (t, needed) = propose_call(&mut program, &inst, call_data(ADD_ADMIN_TAG, &key(3).bytes), metas);
    let out = sign_on_chain(&mut program, &mut balances, &inst, &t, key(2), needed).unwrap();
    assert_eq!(instance(&program, &inst).admins, vec![key(1), key(2), key(3)]);
    assert!(program.account(&admin_record_key(&key(3), &inst)).is_some());
    assert!(transaction(&program, &t).executed);
    assert!(out.execution.is_none());
    assert_eq!(out.events.len(), 4);
    assert!(matches!(out.events[0], MajEvent::TransactionSigned(_)));
    assert!(matches!(out.events[1], MajEvent::AdminAdded(_)));
    assert!(matches!(out.events[2], MajEvent::AdminStatusUpdated(_)));
    assert!(matches!(out.events[3], MajEvent::TransactionExecuted(_)));

    // The new admin counts at once: a threshold of three now passes.
    let metas = vec![meta(inst, true)];
    let (t2, needed) = propose_call(&mut program, &inst, call_data(CHANGE_SIGS_TAG, &3u64.to_le_bytes()), metas);
    sign_on_chain(&mut program, &mut balances, &inst, &t2, key(3), needed).unwrap();
    assert_eq!(instance(&program, &inst).sigs_required, 3);
}

#[test]
fn duplicate_admin_through_execution_fails_whole() {
    let mut program = fresh_program();
    let mut balances = Balances::new();
    let inst = create(&mut program, "w", &[key(1), key(2)], 2).unwrap();
    let metas = vec![
        meta(inst, true),
        meta(admin_record_key(&key(1), &inst), false),
        meta(key(2), true),
        meta(Pubkey::default_key(), false),
    ];
    let (t, needed) = propose_call(&mut program, &inst, call_data(ADD_ADMIN_TAG, &key(1).bytes), metas);
    let err = sign_on_chain(&mut program, &mut balances, &inst, &t, key(2), needed).unwrap_err();
    assert_eq!(err, ChainError::Program(InstructionError::Maj(MajError::TransactionFailed)));
    // The inner refusal is the duplicate admin.
    assert_eq!(
        entry::add_admin(&mut program, &AddAdmin { maj_instance: inst, maj_instance_is_signer: true, payer: key(1) }, key(1))
            .unwrap_err(),
        InstructionError::Maj(MajError::DuplicateAdminAddress)
    );
    let tx = transaction(&program, &t);
    assert!(tx.active);
    assert_eq!(tx.num_signatures, 1);
    assert!(program.account(&sig_key(&t, &key(2))).is_none());
    assert_eq!(instance(&program, &inst).admins, vec![key(1), key(2)]);
}

#[test]
fn call_without_the_wallet_signing_fails() {
    let mut program = fresh_program();
    let mut balances = Balances::new();
    let inst = create(&mut program, "w", &[key(1), key(2)], 2).unwrap();
    let metas = vec![meta(inst, false)];
    let (t, needed) = propose_call(&mut program, &inst, call_data(CHANGE_SIGS_TAG, &2u64.to_le_bytes()), metas);
    let err = sign_on_chain(&mut program, &mut balances, &inst, &t, key(2), needed).unwrap_err();
    assert_eq!(err, ChainError::Program(InstructionError::Maj(MajError::TransactionFailed)));
    assert!(transaction(&program, &t).active);
}

#[test]
fn remove_blacklist_through_execution_needs_the_record() {
    let mut program = fresh_program();
    let mut balances = Balances::new();
    let inst = create(&mut program, "w", &[key(1), key(2)], 2).unwrap();
    let metas = vec![meta(inst, true), meta(blacklist_key(&inst, &key(50)), false), meta(key(1), false)];
    let (t, needed) = propose_call(&mut program, &inst, call_data(REMOVE_BLACKLIST_TAG, &key(50).bytes), metas);
    let err = sign_on_chain(&mut program, &mut balances, &inst, &t, key(2), needed).unwrap_err();
    assert_eq!(err, ChainError::Program(InstructionError::Maj(MajError::TransactionFailed)));
    let remove = RemoveBlacklist { maj_instance: inst, maj_instance_is_signer: true, rent_receiver: key(1) };
    assert_eq!(entry::remove_blacklist(&mut program, &remove, key(50)).unwrap_err(), InstructionError::Maj(MajError::NotBlacklisted));
}

#[test]
fn remove_admin_through_execution_refunds_the_record() {
    let mut program = fresh_program();
    let mut balances = Balances::new();
    let inst = create(&mut program, "w", &[key(1), key(2), key(3)], 2).unwrap();
    let record = admin_record_key(&key(3), &inst);
    balances.deposit(record, 1_000).unwrap();
    balances.deposit(key(7), 5).unwrap();
    let metas = vec![meta(inst, true), meta(record, false), meta(key(7), false), meta(Pubkey::default_key(), false)];
    let (t, needed) = propose_call(&mut program, &inst, call_data(REMOVE_ADMIN_TAG, &key(3).bytes), metas);
    sign_on_chain(&mut program, &mut balances, &inst, &t, key(2), needed).unwrap();
    assert_eq!(instance(&program, &inst).admins, vec![key(1), key(2)]);
    assert_eq!(balances.balance(&record), 0);
    assert_eq!(balances.balance(&key(7)), 1_005);
}

#[test]
fn transfer_moves_lamports() {
    let mut program = fresh_program();
    let mut balances = Balances::new();
    let inst = create(&mut program, "w", &[key(1), key(2)], 2).unwrap();
    balances.deposit(inst, 1_000).unwrap();
    let t = propose_transfer(&mut program, &inst, key(1), key(60), 300, true).unwrap();
    let out = sign_on_chain(&mut program, &mut balances, &inst, &t, key(2), vec![passed(key(60))]).unwrap();
    assert!(matches!(out.execution, Some(Execution::Transfer { .. })));
    assert_eq!(balances.balance(&inst), 700);
    assert_eq!(balances.balance(&key(60)), 300);
    assert_eq!(balances.balance(&key(2)), 0);
}

#[test]
fn transfer_beyond_the_wallet_fails_whole() {
    let mut program = fresh_program();
    let mut balances = Balances::new();
    let inst = create(&mut program, "w", &[key(1), key(2)], 2).unwrap();
    balances.deposit(inst, 100).unwrap();
    let t = propose_transfer(&mut program, &inst, key(1), key(60), 300, true).unwrap();
    let err = sign_on_chain(&mut program, &mut balances, &inst, &t, key(2), vec![passed(key(60))]).unwrap_err();
    assert_eq!(err, ChainError::Lamports(BalanceError::Insufficient));
    assert_eq!(balances.balance(&inst), 100);
    assert_eq!(balances.balance(&key(60)), 0);
    assert!(transaction(&program, &t).active);
    assert_eq!(transaction(&program, &t).num_signatures, 1);
}

#[test]
fn revoke_refunds_the_signature_record() {
    let mut program = fresh_program();
    let mut balances = Balances::new();
    let inst = create(&mut program, "w", &[key(1), key(2), key(3)], 3).unwrap();
    let t = propose_transfer(&mut program, &inst, key(1), key(60), 1, true).unwrap();
    balances.deposit(sig_key(&t, &key(1)), 900).unwrap();
    on_chain(
        &mut program,
        &mut balances,
        Instruction::RevokeSignature(RevokeSignature { maj_instance: inst, maj_transaction: t, admin: key(1) }),
        true,
    )
    .unwrap();
    assert_eq!(balances.balance(&sig_key(&t, &key(1))), 0);
    assert_eq!(balances.balance(&key(1)), 900);
    assert_eq!(transaction(&program, &t).num_signatures, 0);
}

#[test]
fn submitted_governance_is_refused() {
    let mut program = fresh_program();
    let mut balances = Balances::new();
    let inst = create(&mut program, "w", &[key(1), key(2)], 2).unwrap();
    let ins = Instruction::AddAdmin {
        accounts: AddAdmin { maj_instance: inst, maj_instance_is_signer: true, payer: key(1) },
        new_admin: key(3),
    };
    assert_eq!(
        on_chain(&mut program, &mut balances, ins, true).unwrap_err(),
        ChainError::Program(InstructionError::ConstraintSigner)
    );
    assert_eq!(instance(&program, &inst).admins, vec![key(1), key(2)]);
}

fn add_admin_metas(inst: &Pubkey, new_admin: &Pubkey, payer: Pubkey) -> Vec<SerializedAccountMeta> {
    vec![
        meta(*inst, true),
        meta(admin_record_key(new_admin, inst), false),
        meta(payer, true),
        meta(Pubkey::default_key(), false),
    ]
}

#[test]
fn governance_call_with_wrong_accounts_fails() {
    let mut program = fresh_program();
    let mut balances = Balances::new();
    let inst = create(&mut program, "w", &[key(1), key(2)], 2).unwrap();
    // A record address other than the one derived for the new admin.
    let mut metas = add_admin_metas(&inst, &key(3), key(2));
    metas[1] = meta(key(77), false);
    let (t, needed) = propose_call(&mut program, &inst, call_data(ADD_ADMIN_TAG, &key(3).bytes), metas);
    assert_eq!(
        sign_on_chain(&mut program, &mut balances, &inst, &t, key(2), needed).unwrap_err(),
        ChainError::Program(InstructionError::Maj(MajError::TransactionFailed))
    );
    // A payer who did not sign the instruction making the call.
    let metas = add_admin_metas(&inst, &key(3), key(8));
    let (t2, needed) = propose_call(&mut program, &inst, call_data(ADD_ADMIN_TAG, &key(3).bytes), metas);
    assert_eq!(
        sign_on_chain(&mut program, &mut balances, &inst, &t2, key(2), needed).unwrap_err(),
        ChainError::Program(InstructionError::Maj(MajError::TransactionFailed))
    );
    // No system program in fourth place.
    let mut metas = add_admin_metas(&inst, &key(3), key(2));
    metas[3] = meta(key(99), false);
    let (t3, needed) = propose_call(&mut program, &inst, call_data(ADD_ADMIN_TAG, &key(3).bytes), metas);
    assert_eq!(
        sign_on_chain(&mut program, &mut balances, &inst, &t3, key(2), needed).unwrap_err(),
        ChainError::Program(InstructionError::Maj(MajError::TransactionFailed))
    );
    assert_eq!(instance(&program, &inst).admins, vec![key(1), key(2)]);
    assert!(transaction(&program, &t).active);
    assert!(transaction(&program, &t3).active);
}

fn propose_external_call(program: &mut MajProgram, inst: &Pubkey) -> Pubkey {
    let index = instance(program, inst).tx_count;
    let t = tx_key(inst, index);
    entry::propose_transaction(
        program,
        &ProposeTransaction { maj_instance: *inst, proposer: key(1), remaining_accounts: vec![passed(sig_key(&t, &key(1)))] },
        key(80),
        0,
        vec![9, 9],
        Some(key(80)),
        vec![meta(key(81), false)],
    )
    .unwrap();
    t
}

#[test]
fn failed_call_of_another_program_leaves_the_transaction_active() {
    let mut program = fresh_program();
    let mut balances = Balances::new();
    let inst = create(&mut program, "w", &[key(1), key(2)], 2).unwrap();
    let t = propose_external_call(&mut program, &inst);
    let ins = Instruction::SignTransaction(SignTransaction {
        maj_instance: inst,
        maj_transaction: t,
        admin: key(2),
        remaining_accounts: vec![passed(key(80)), passed(key(81))],
    });
    let pending = start_transaction(&mut program, &mut balances, ins).unwrap();
    assert!(matches!(pending.outcome().execution, Some(Execution::Invoke { .. })));
    let err = finish_transaction(&mut program, &mut balances, pending, false).unwrap_err();
    assert_eq!(err, ChainError::Program(InstructionError::Maj(MajError::TransactionFailed)));
    let tx = transaction(&program, &t);
    assert!(tx.active);
    assert!(!tx.executed);
    assert_eq!(tx.num_signatures, 1);
    assert!(program.account(&sig_key(&t, &key(2))).is_none());
}

#[test]
fn succeeded_call_of_another_program_executes_the_transaction() {
    let mut program = fresh_program();
    let mut balances = Balances::new();
    let inst = create(&mut program, "w", &[key(1), key(2)], 2).unwrap();
    let t = propose_external_call(&mut program, &inst);
    let ins = Instruction::SignTransaction(SignTransaction {
        maj_instance: inst,
        maj_transaction: t,
        admin: key(2),
        remaining_accounts: vec![passed(key(80)), passed(key(81))],
    });
    let out = on_chain(&mut program, &mut balances, ins, true).unwrap();
    match out.execution {
        Some(Execution::Invoke { program_id: pid, data, signer, .. }) => {
            assert_eq!(pid, key(80));
            assert_eq!(data, vec![9, 9]);
            assert_eq!(signer, inst);
        },
        _ => panic!("expected a call"),
    }
    assert!(transaction(&program, &t).executed);
}

#[test]
fn seed_lists_with_the_same_bytes_share_an_address() {
    // Derivation hashes the seeds' bytes one after another: what keeps the
    // program's accounts apart is that their seed bytes differ.
    assert_eq!(pda(&[b"maj_", b"registry"]), pda(&[b"maj_registry"]));
    assert_ne!(pda(&[b"maj_registry"]), instance_key(""));
}
