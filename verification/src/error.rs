//! The closed set of failures an operation can report.

use vstd::prelude::*;

verus! {

/// Why an operation was refused. A refused operation leaves the ledger
/// exactly as it found it.
#[derive(Clone, Copy, Debug, PartialEq, Eq, Structural)]
pub enum Error {
    // Authorization
    Unauthorized,
    AdminNotSet,
    FeeRecipientNotSet,
    UsdcTokenNotSet,
    FeePercentageNotSet,
    // Cycle state
    CycleNotFound,
    CycleAlreadyExists,
    CycleNotActive,
    CycleAlreadyEnded,
    InvalidCycleDuration,
    InsufficientFunds,
    // Bill state
    BillNotFound,
    BillAlreadyPaid,
    InvalidBillAmount,
    InvalidDueDate,
    BillLeadTimeTooShort,
    EmergencyBillLimitExceeded,
    MonthlyAdjustmentLimitReached,
    InvalidRecurrence,
    // Timing
    CycleNotEnded,
    EarlyWithdrawalNotAllowed,
    BillNotDueYet,
    // Admin transfer
    NoPendingAdminTransfer,
    AdminTransferExpired,
    PendingAdminTransferExists,
    // Validation
    InvalidFeePercentage,
    InvalidAddress,
    InvalidTimestamp,
    // Concurrency
    Reentrancy,
}

impl Error {
    /// The stable numeric code of each failure, grouped by tens: authorization
    /// from 1, cycle state from 10, bill state from 20, timing from 30, admin
    /// transfer from 40, validation from 50, concurrency from 60.
    pub open spec fn spec_code(self) -> u32 {
        match self {
            Error::Unauthorized => 1,
            Error::AdminNotSet => 2,
            Error::FeeRecipientNotSet => 3,
            Error::UsdcTokenNotSet => 4,
            Error::FeePercentageNotSet => 5,
            Error::CycleNotFound => 10,
            Error::CycleAlreadyExists => 11,
            Error::CycleNotActive => 12,
            Error::CycleAlreadyEnded => 13,
            Error::InvalidCycleDuration => 14,
            Error::InsufficientFunds => 15,
            Error::BillNotFound => 20,
            Error::BillAlreadyPaid => 21,
            Error::InvalidBillAmount => 22,
            Error::InvalidDueDate => 23,
            Error::BillLeadTimeTooShort => 24,
            Error::EmergencyBillLimitExceeded => 25,
            Error::MonthlyAdjustmentLimitReached => 26,
            Error::InvalidRecurrence => 27,
            Error::CycleNotEnded => 30,
            Error::EarlyWithdrawalNotAllowed => 31,
            Error::BillNotDueYet => 32,
            Error::NoPendingAdminTransfer => 40,
            Error::AdminTransferExpired => 41,
            Error::PendingAdminTransferExists => 42,
            Error::InvalidFeePercentage => 50,
            Error::InvalidAddress => 51,
            Error::InvalidTimestamp => 52,
            Error::Reentrancy => 60,
        }
    }

    /// Returns the numeric code under which the failure is reported.
    pub fn code(self) -> (c: u32)
        ensures
            c == self.spec_code(),
    {
        match self {
            Error::Unauthorized => 1,
            Error::AdminNotSet => 2,
            Error::FeeRecipientNotSet => 3,
            Error::UsdcTokenNotSet => 4,
            Error::FeePercentageNotSet => 5,
            Error::CycleNotFound => 10,
            Error::CycleAlreadyExists => 11,
            Error::CycleNotActive => 12,
            Error::CycleAlreadyEnded => 13,
            Error::InvalidCycleDuration => 14,
            Error::InsufficientFunds => 15,
            Error::BillNotFound => 20,
            Error::BillAlreadyPaid => 21,
            Error::InvalidBillAmount => 22,
            Error::InvalidDueDate => 23,
            Error::BillLeadTimeTooShort => 24,
            Error::EmergencyBillLimitExceeded => 25,
            Error::MonthlyAdjustmentLimitReached => 26,
            Error::InvalidRecurrence => 27,
            Error::CycleNotEnded => 30,
            Error::EarlyWithdrawalNotAllowed => 31,
            Error::BillNotDueYet => 32,
            Error::NoPendingAdminTransfer => 40,
            Error::AdminTransferExpired => 41,
            Error::PendingAdminTransferExists => 42,
            Error::InvalidFeePercentage => 50,
            Error::InvalidAddress => 51,
            Error::InvalidTimestamp => 52,
            Error::Reentrancy => 60,
        }
    }

    /// Distinct failures have distinct codes.
    pub proof fn lemma_code_injective(a: Error, b: Error)
        requires
            a.spec_code() == b.spec_code(),
        ensures
            a == b,
    {
    }
}

} // verus!
