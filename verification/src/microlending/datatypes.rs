//! Records kept by the microlending contract.
use crate::common::{Address, Bytes32};
use vstd::prelude::*;

verus! {

/// The collateral pledged for a loan.
#[derive(Clone, Debug)]
pub struct CollateralInfo {
    /// E.g. "Savings", "Future harvest", "Equipment".
    pub asset_type: String,
    pub estimated_value: i128,
    /// Hash of the verification documents.
    pub verification_data: Bytes32,
}

/// How a loan is repaid: `installments` payments of `per_installment_amount`,
/// one every `frequency_days` days; no installments for loans shorter than 30 days.
#[derive(Clone, Copy, Debug, PartialEq, Eq, Structural)]
pub struct RepaymentSchedule {
    pub installments: u32,
    pub frequency_days: u32,
    pub per_installment_amount: i128,
}

/// A loan request and its progress.
#[derive(Clone, Debug)]
pub struct LoanRequest {
    pub id: u32,
    pub borrower: Address,
    pub amount: i128,
    pub purpose: String,
    pub duration_days: u32,
    /// Basis points (1000 = 10%).
    pub interest_rate: u32,
    pub collateral: CollateralInfo,
    pub status: LoanStatus,
    pub funded_amount: i128,
    pub creation_timestamp: u64,
    pub funded_timestamp: Option<u64>,
    pub repayment_due_timestamp: Option<u64>,
    pub repayment_schedule: RepaymentSchedule,
}

/// One lender's contribution to a loan.
#[derive(Clone, Copy, Debug, PartialEq, Eq, Structural)]
pub struct FundingContribution {
    pub lender: Address,
    pub amount: i128,
    pub timestamp: u64,
    /// Whether a repayment or collateral share has been paid on it.
    pub claimed: bool,
}

/// The life cycle of a loan.
#[derive(Clone, Copy, Debug, PartialEq, Eq, Structural)]
pub enum LoanStatus {
    Pending,
    Funded,
    Repaying,
    Completed,
    Defaulted,
    Cancelled,
}

/// One repayment of a loan.
#[derive(Clone, Copy, Debug, PartialEq, Eq, Structural)]
pub struct Repayment {
    pub amount: i128,
    pub timestamp: u64,
}

/// Counts of a borrower's loans.
#[derive(Clone, Copy, Debug, PartialEq, Eq, Structural)]
pub struct BorrowerMetrics {
    pub total_loans: u32,
    pub completed_loans: u32,
    pub defaulted_loans: u32,
}

/// Totals over all loans.
#[derive(Clone, Copy, Debug, PartialEq, Eq, Structural)]
pub struct SystemStats {
    pub total_loans: u32,
    pub total_funded: i128,
    pub total_repaid: i128,
    pub default_rate: u32,
}

/// Everything known about a loan, with derived totals.
#[derive(Clone, Debug)]
pub struct LoanHistory {
    pub loan_request: LoanRequest,
    pub funding_contributions: Vec<FundingContribution>,
    pub repayments: Vec<Repayment>,
    pub total_due: i128,
    pub total_repaid: i128,
    pub interest_earned: i128,
    pub status: LoanStatus,
}

/// A token movement the contract makes: `amount` from `from` to `to`.
#[derive(Clone, Copy, Debug, PartialEq, Eq, Structural)]
pub struct TokenTransfer {
    pub from: Address,
    pub to: Address,
    pub amount: i128,
}

/// Why a microlending operation was refused.
#[derive(Clone, Copy, Debug, PartialEq, Eq, Structural)]
pub enum MicrolendingError {
    AlreadyInitialized,
    InvalidAmount,
    InvalidDuration,
    InvalidInterestRate,
    InvalidCollateral,
    LoanNotFound,
    Unauthorized,
    InvalidLoanStatus,
    LoanFullyFunded,
    LoanNotRepayable,
    RepaymentExceedsDue,
    NotInDefault,
    NoContribution,
    InvalidRepaymentSchedule,
    RepaymentScheduleViolation,
    TokenNotConfigured,
    InsufficientBalance,
}

} // verus!
