use vstd::prelude::*;

verus! {

/// The multisig's own refusals, in the order of their codes (6000 upward).
#[derive(Clone, Copy, Debug, PartialEq, Eq, Structural)]
pub enum MajError {
    DuplicateAdminAddress,
    ZeroAddress,
    TooManySignaturesRequired,
    TooFewSignaturesRequired,
    OnlyAdmin,
    TransactionNotActive,
    DuplicateSignature,
    InsufficientSignatures,
    TransactionFailed,
    UserHasNotSigned,
    OnlyProposerCanCancel,
    OnlyMaj,
    AddressIsNotAdmin,
    TwoAdminMinimum,
    NameTaken,
    NameNotFound,
    NotBlacklisted,
    AddressIsBlacklisted,
    NameTooLong,
}

/// The position of an error in the list of the multisig's errors.
pub open spec fn error_index(e: MajError) -> u32 {
    match e {
        MajError::DuplicateAdminAddress => 0,
        MajError::ZeroAddress => 1,
        MajError::TooManySignaturesRequired => 2,
        MajError::TooFewSignaturesRequired => 3,
        MajError::OnlyAdmin => 4,
        MajError::TransactionNotActive => 5,
        MajError::DuplicateSignature => 6,
        MajError::InsufficientSignatures => 7,
        MajError::TransactionFailed => 8,
        MajError::UserHasNotSigned => 9,
        MajError::OnlyProposerCanCancel => 10,
        MajError::OnlyMaj => 11,
        MajError::AddressIsNotAdmin => 12,
        MajError::TwoAdminMinimum => 13,
        MajError::NameTaken => 14,
        MajError::NameNotFound => 15,
        MajError::NotBlacklisted => 16,
        MajError::AddressIsBlacklisted => 17,
        MajError::NameTooLong => 18,
    }
}

/// The text that accompanies each error.
pub open spec fn error_message(e: MajError) -> Seq<char> {
    match e {
        MajError::DuplicateAdminAddress => "Duplicate admin address"@,
        MajError::ZeroAddress => "Zero address not allowed"@,
        MajError::TooManySignaturesRequired => "Too many signatures required"@,
        MajError::TooFewSignaturesRequired => "Too few signatures required (minimum 2)"@,
        MajError::OnlyAdmin => "Caller is not an admin"@,
        MajError::TransactionNotActive => "Transaction is not active"@,
        MajError::DuplicateSignature => "Admin has already signed this transaction"@,
        MajError::InsufficientSignatures => "Insufficient signatures to execute"@,
        MajError::TransactionFailed => "CPI call failed"@,
        MajError::UserHasNotSigned => "Admin has not signed this transaction"@,
        MajError::OnlyProposerCanCancel => "Only the proposer can cancel this transaction"@,
        MajError::OnlyMaj => "Instruction must be called via multisig execution (onlyMaj)"@,
        MajError::AddressIsNotAdmin => "Address is not an admin"@,
        MajError::TwoAdminMinimum => "Minimum two admins required"@,
        MajError::NameTaken => "A Maj with this name already exists"@,
        MajError::NameNotFound => "No Maj found with this name"@,
        MajError::NotBlacklisted => "Address is not blacklisted"@,
        MajError::AddressIsBlacklisted => "Address is blacklisted"@,
        MajError::NameTooLong => "Name exceeds maximum length (64 chars)"@,
    }
}

impl MajError {
    /// The error's number: 6000 plus its position.
    pub fn code(&self) -> (c: u32)
        ensures
            c == 6000 + error_index(*self),
    {
        match self {
            MajError::DuplicateAdminAddress => 6000,
            MajError::ZeroAddress => 6001,
            MajError::TooManySignaturesRequired => 6002,
            MajError::TooFewSignaturesRequired => 6003,
            MajError::OnlyAdmin => 6004,
            MajError::TransactionNotActive => 6005,
            MajError::DuplicateSignature => 6006,
            MajError::InsufficientSignatures => 6007,
            MajError::TransactionFailed => 6008,
            MajError::UserHasNotSigned => 6009,
            MajError::OnlyProposerCanCancel => 6010,
            MajError::OnlyMaj => 6011,
            MajError::AddressIsNotAdmin => 6012,
            MajError::TwoAdminMinimum => 6013,
            MajError::NameTaken => 6014,
            MajError::NameNotFound => 6015,
            MajError::NotBlacklisted => 6016,
            MajError::AddressIsBlacklisted => 6017,
            MajError::NameTooLong => 6018,
        }
    }

    /// The error's text.
    pub fn message(&self) -> (m: &'static str)
        ensures
            m@ == error_message(*self),
    {
        match self {
            MajError::DuplicateAdminAddress => "Duplicate admin address",
            MajError::ZeroAddress => "Zero address not allowed",
            MajError::TooManySignaturesRequired => "Too many signatures required",
            MajError::TooFewSignaturesRequired => "Too few signatures required (minimum 2)",
            MajError::OnlyAdmin => "Caller is not an admin",
            MajError::TransactionNotActive => "Transaction is not active",
            MajError::DuplicateSignature => "Admin has already signed this transaction",
            MajError::InsufficientSignatures => "Insufficient signatures to execute",
            MajError::TransactionFailed => "CPI call failed",
            MajError::UserHasNotSigned => "Admin has not signed this transaction",
            MajError::OnlyProposerCanCancel => "Only the proposer can cancel this transaction",
            MajError::OnlyMaj => "Instruction must be called via multisig execution (onlyMaj)",
            MajError::AddressIsNotAdmin => "Address is not an admin",
            MajError::TwoAdminMinimum => "Minimum two admins required",
            MajError::NameTaken => "A Maj with this name already exists",
            MajError::NameNotFound => "No Maj found with this name",
            MajError::NotBlacklisted => "Address is not blacklisted",
            MajError::AddressIsBlacklisted => "Address is blacklisted",
            MajError::NameTooLong => "Name exceeds maximum length (64 chars)",
        }
    }
}

/// Why an instruction fails.  Besides the multisig's own errors, the account
/// checks that the program declares on each instruction refuse a call when a
/// required account is missing or holds another kind of record, when an account
/// that is to be created already exists, when an address does not match its
/// seeds, or when the wallet has not signed a governance call; `Aborted` stands
/// for a failure of the program itself (no address can be derived from the
/// seeds).  A failed instruction changes nothing.
#[derive(Clone, Copy, Debug, PartialEq, Eq, Structural)]
pub enum InstructionError {
    Maj(MajError),
    AccountNotInitialized,
    AccountDiscriminatorMismatch,
    AccountAlreadyInUse,
    ConstraintSeeds,
    ConstraintSigner,
    Aborted,
}

} // verus!
