//! The errors of the ledger, each with its numeric code and short symbol.

use vstd::prelude::*;

verus! {

/// Why an operation of the ledger was refused.
#[derive(Clone, Copy, Debug, PartialEq, Eq, PartialOrd, Ord, Hash, Structural)]
pub enum QuickLendXError {
    // Invoice errors (1000 to 1099)
    InvoiceNotFound,
    InvoiceAlreadyExists,
    InvoiceNotAvailableForFunding,
    InvoiceAlreadyFunded,
    InvoiceAmountInvalid,
    InvoiceDueDateInvalid,
    InvoiceNotVerified,
    InvoiceNotFunded,
    InvoiceAlreadyPaid,
    InvoiceAlreadyDefaulted,
    // Authorization errors (1100 to 1199)
    Unauthorized,
    NotBusinessOwner,
    NotInvestor,
    NotAdmin,
    // Validation errors (1200 to 1299)
    InvalidAmount,
    InvalidAddress,
    InvalidCurrency,
    InvalidTimestamp,
    InvalidDescription,
    // Storage errors (1300 to 1399)
    StorageError,
    StorageKeyNotFound,
    // Business logic errors (1400 to 1499)
    InsufficientFunds,
    InvalidStatus,
    OperationNotAllowed,
    // Rating errors (1500 to 1599)
    InvalidRating,
    NotFunded,
    AlreadyRated,
    NotRater,
    // Business verification errors (1600 to 1699)
    BusinessNotVerified,
    KYCAlreadyPending,
    KYCAlreadyVerified,
    KYCNotFound,
    InvalidKYCStatus,
    // Audit errors (1700 to 1799)
    AuditLogNotFound,
    AuditValidationFailed,
    AuditIntegrityError,
    AuditQueryError,
}

impl QuickLendXError {
    /// The numeric code under which the error is reported.
    pub open spec fn spec_code(self) -> u32 {
        match self {
            QuickLendXError::InvoiceNotFound => 1000,
            QuickLendXError::InvoiceAlreadyExists => 1001,
            QuickLendXError::InvoiceNotAvailableForFunding => 1002,
            QuickLendXError::InvoiceAlreadyFunded => 1003,
            QuickLendXError::InvoiceAmountInvalid => 1004,
            QuickLendXError::InvoiceDueDateInvalid => 1005,
            QuickLendXError::InvoiceNotVerified => 1006,
            QuickLendXError::InvoiceNotFunded => 1007,
            QuickLendXError::InvoiceAlreadyPaid => 1008,
            QuickLendXError::InvoiceAlreadyDefaulted => 1009,
            QuickLendXError::Unauthorized => 1100,
            QuickLendXError::NotBusinessOwner => 1101,
            QuickLendXError::NotInvestor => 1102,
            QuickLendXError::NotAdmin => 1103,
            QuickLendXError::InvalidAmount => 1200,
            QuickLendXError::InvalidAddress => 1201,
            QuickLendXError::InvalidCurrency => 1202,
            QuickLendXError::InvalidTimestamp => 1203,
            QuickLendXError::InvalidDescription => 1204,
            QuickLendXError::StorageError => 1300,
            QuickLendXError::StorageKeyNotFound => 1301,
            QuickLendXError::InsufficientFunds => 1400,
            QuickLendXError::InvalidStatus => 1401,
            QuickLendXError::OperationNotAllowed => 1402,
            QuickLendXError::InvalidRating => 1500,
            QuickLendXError::NotFunded => 1501,
            QuickLendXError::AlreadyRated => 1502,
            QuickLendXError::NotRater => 1503,
            QuickLendXError::BusinessNotVerified => 1600,
            QuickLendXError::KYCAlreadyPending => 1601,
            QuickLendXError::KYCAlreadyVerified => 1602,
            QuickLendXError::KYCNotFound => 1603,
            QuickLendXError::InvalidKYCStatus => 1604,
            QuickLendXError::AuditLogNotFound => 1700,
            QuickLendXError::AuditValidationFailed => 1701,
            QuickLendXError::AuditIntegrityError => 1702,
            QuickLendXError::AuditQueryError => 1703,
        }
    }

    /// The short symbol under which the error is published. Two errors share
    /// the symbol `INV_NF`.
    pub open spec fn spec_symbol(self) -> Seq<char> {
        match self {
            QuickLendXError::InvoiceNotFound => "INV_NF"@,
            QuickLendXError::InvoiceAlreadyExists => "INV_EX"@,
            QuickLendXError::InvoiceNotAvailableForFunding => "INV_NA"@,
            QuickLendXError::InvoiceAlreadyFunded => "INV_FD"@,
            QuickLendXError::InvoiceAmountInvalid => "INV_AI"@,
            QuickLendXError::InvoiceDueDateInvalid => "INV_DI"@,
            QuickLendXError::InvoiceNotVerified => "INV_NV"@,
            QuickLendXError::InvoiceNotFunded => "INV_NF"@,
            QuickLendXError::InvoiceAlreadyPaid => "INV_PD"@,
            QuickLendXError::InvoiceAlreadyDefaulted => "INV_DF"@,
            QuickLendXError::Unauthorized => "UNAUTH"@,
            QuickLendXError::NotBusinessOwner => "NOT_OWN"@,
            QuickLendXError::NotInvestor => "NOT_INV"@,
            QuickLendXError::NotAdmin => "NOT_ADM"@,
            QuickLendXError::InvalidAmount => "INV_AMT"@,
            QuickLendXError::InvalidAddress => "INV_ADR"@,
            QuickLendXError::InvalidCurrency => "INV_CR"@,
            QuickLendXError::InvalidTimestamp => "INV_TM"@,
            QuickLendXError::InvalidDescription => "INV_DS"@,
            QuickLendXError::StorageError => "STORE"@,
            QuickLendXError::StorageKeyNotFound => "KEY_NF"@,
            QuickLendXError::InsufficientFunds => "INSUF"@,
            QuickLendXError::InvalidStatus => "INV_ST"@,
            QuickLendXError::OperationNotAllowed => "OP_NA"@,
            QuickLendXError::InvalidRating => "INV_RT"@,
            QuickLendXError::NotFunded => "NOT_FD"@,
            QuickLendXError::AlreadyRated => "ALR_RT"@,
            QuickLendXError::NotRater => "NOT_RT"@,
            QuickLendXError::BusinessNotVerified => "BUS_NV"@,
            QuickLendXError::KYCAlreadyPending => "KYC_PD"@,
            QuickLendXError::KYCAlreadyVerified => "KYC_VF"@,
            QuickLendXError::KYCNotFound => "KYC_NF"@,
            QuickLendXError::InvalidKYCStatus => "KYC_IS"@,
            QuickLendXError::AuditLogNotFound => "AUD_NF"@,
            QuickLendXError::AuditValidationFailed => "AUD_VF"@,
            QuickLendXError::AuditIntegrityError => "AUD_IE"@,
            QuickLendXError::AuditQueryError => "AUD_QE"@,
        }
    }

    /// The numeric code under which the error is reported.
    #[verifier::when_used_as_spec(spec_code)]
    pub fn code(self) -> (code: u32)
        ensures
            code == self.spec_code(),
            1000 <= code < 1800,
    {
        match self {
            QuickLendXError::InvoiceNotFound => 1000,
            QuickLendXError::InvoiceAlreadyExists => 1001,
            QuickLendXError::InvoiceNotAvailableForFunding => 1002,
            QuickLendXError::InvoiceAlreadyFunded => 1003,
            QuickLendXError::InvoiceAmountInvalid => 1004,
            QuickLendXError::InvoiceDueDateInvalid => 1005,
            QuickLendXError::InvoiceNotVerified => 1006,
            QuickLendXError::InvoiceNotFunded => 1007,
            QuickLendXError::InvoiceAlreadyPaid => 1008,
            QuickLendXError::InvoiceAlreadyDefaulted => 1009,
            QuickLendXError::Unauthorized => 1100,
            QuickLendXError::NotBusinessOwner => 1101,
            QuickLendXError::NotInvestor => 1102,
            QuickLendXError::NotAdmin => 1103,
            QuickLendXError::InvalidAmount => 1200,
            QuickLendXError::InvalidAddress => 1201,
            QuickLendXError::InvalidCurrency => 1202,
            QuickLendXError::InvalidTimestamp => 1203,
            QuickLendXError::InvalidDescription => 1204,
            QuickLendXError::StorageError => 1300,
            QuickLendXError::StorageKeyNotFound => 1301,
            QuickLendXError::InsufficientFunds => 1400,
            QuickLendXError::InvalidStatus => 1401,
            QuickLendXError::OperationNotAllowed => 1402,
            QuickLendXError::InvalidRating => 1500,
            QuickLendXError::NotFunded => 1501,
            QuickLendXError::AlreadyRated => 1502,
            QuickLendXError::NotRater => 1503,
            QuickLendXError::BusinessNotVerified => 1600,
            QuickLendXError::KYCAlreadyPending => 1601,
            QuickLendXError::KYCAlreadyVerified => 1602,
            QuickLendXError::KYCNotFound => 1603,
            QuickLendXError::InvalidKYCStatus => 1604,
            QuickLendXError::AuditLogNotFound => 1700,
            QuickLendXError::AuditValidationFailed => 1701,
            QuickLendXError::AuditIntegrityError => 1702,
            QuickLendXError::AuditQueryError => 1703,
        }
    }

    /// The short symbol under which the error is published.
    pub fn symbol(self) -> (symbol: &'static str)
        ensures
            symbol@ == self.spec_symbol(),
    {
        match self {
            QuickLendXError::InvoiceNotFound => "INV_NF",
            QuickLendXError::InvoiceAlreadyExists => "INV_EX",
            QuickLendXError::InvoiceNotAvailableForFunding => "INV_NA",
            QuickLendXError::InvoiceAlreadyFunded => "INV_FD",
            QuickLendXError::InvoiceAmountInvalid => "INV_AI",
            QuickLendXError::InvoiceDueDateInvalid => "INV_DI",
            QuickLendXError::InvoiceNotVerified => "INV_NV",
            QuickLendXError::InvoiceNotFunded => "INV_NF",
            QuickLendXError::InvoiceAlreadyPaid => "INV_PD",
            QuickLendXError::InvoiceAlreadyDefaulted => "INV_DF",
            QuickLendXError::Unauthorized => "UNAUTH",
            QuickLendXError::NotBusinessOwner => "NOT_OWN",
            QuickLendXError::NotInvestor => "NOT_INV",
            QuickLendXError::NotAdmin => "NOT_ADM",
            QuickLendXError::InvalidAmount => "INV_AMT",
            QuickLendXError::InvalidAddress => "INV_ADR",
            QuickLendXError::InvalidCurrency => "INV_CR",
            QuickLendXError::InvalidTimestamp => "INV_TM",
            QuickLendXError::InvalidDescription => "INV_DS",
            QuickLendXError::StorageError => "STORE",
            QuickLendXError::StorageKeyNotFound => "KEY_NF",
            QuickLendXError::InsufficientFunds => "INSUF",
            QuickLendXError::InvalidStatus => "INV_ST",
            QuickLendXError::OperationNotAllowed => "OP_NA",
            QuickLendXError::InvalidRating => "INV_RT",
            QuickLendXError::NotFunded => "NOT_FD",
            QuickLendXError::AlreadyRated => "ALR_RT",
            QuickLendXError::NotRater => "NOT_RT",
            QuickLendXError::BusinessNotVerified => "BUS_NV",
            QuickLendXError::KYCAlreadyPending => "KYC_PD",
            QuickLendXError::KYCAlreadyVerified => "KYC_VF",
            QuickLendXError::KYCNotFound => "KYC_NF",
            QuickLendXError::InvalidKYCStatus => "KYC_IS",
            QuickLendXError::AuditLogNotFound => "AUD_NF",
            QuickLendXError::AuditValidationFailed => "AUD_VF",
            QuickLendXError::AuditIntegrityError => "AUD_IE",
            QuickLendXError::AuditQueryError => "AUD_QE",
        }
    }
}

/// Errors with different names have different codes.
pub proof fn lemma_codes_distinct(first: QuickLendXError, second: QuickLendXError)
    requires
        first != second,
    ensures
        first.spec_code() != second.spec_code(),
{
}

} // verus!
