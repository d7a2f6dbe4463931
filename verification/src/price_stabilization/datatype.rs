//! Records kept by the price stabilization contract.
use crate::common::{Address, Bytes32};
use vstd::prelude::*;

verus! {

/// Why a price stabilization operation was refused.
#[derive(Clone, Copy, Debug, PartialEq, Eq, Structural)]
pub enum StabilizationError {
    FundNotFound,
    FundAlreadyExists,
    InsufficientFunds,
    Unauthorized,
    InvalidInput,
    OracleNotRegistered,
    PriceDataNotAvailable,
    FarmerNotRegistered,
    FarmerAlreadyRegistered,
    NoPayoutNeeded,
    PayoutAlreadyProcessed,
    ThresholdNotReached,
    ChainlinkFeedNotFound,
    StalePriceData,
    InvalidChainlinkResponse,
    ChainlinkFeedNotRegistered,
    ChainlinkFeedAlreadyRegistered,
    CropAlreadyRegistered,
}

/// The contract error number of each refusal, as the ledger reports it.
pub open spec fn error_code(e: StabilizationError) -> u32 {
    match e {
        StabilizationError::FundNotFound => 1,
        StabilizationError::FundAlreadyExists => 2,
        StabilizationError::InsufficientFunds => 3,
        StabilizationError::Unauthorized => 4,
        StabilizationError::InvalidInput => 5,
        StabilizationError::OracleNotRegistered => 6,
        StabilizationError::PriceDataNotAvailable => 7,
        StabilizationError::FarmerNotRegistered => 8,
        StabilizationError::FarmerAlreadyRegistered => 9,
        StabilizationError::NoPayoutNeeded => 10,
        StabilizationError::PayoutAlreadyProcessed => 11,
        StabilizationError::ThresholdNotReached => 12,
        StabilizationError::ChainlinkFeedNotFound => 13,
        StabilizationError::StalePriceData => 14,
        StabilizationError::InvalidChainlinkResponse => 15,
        StabilizationError::ChainlinkFeedNotRegistered => 16,
        StabilizationError::ChainlinkFeedAlreadyRegistered => 17,
        StabilizationError::CropAlreadyRegistered => 18,
    }
}

impl StabilizationError {
    /// The contract error number of this error, as the ledger reports it.
    pub fn code(&self) -> (c: u32)
        ensures
            c == error_code(*self),
    {
        match self {
            StabilizationError::FundNotFound => 1,
            StabilizationError::FundAlreadyExists => 2,
            StabilizationError::InsufficientFunds => 3,
            StabilizationError::Unauthorized => 4,
            StabilizationError::InvalidInput => 5,
            StabilizationError::OracleNotRegistered => 6,
            StabilizationError::PriceDataNotAvailable => 7,
            StabilizationError::FarmerNotRegistered => 8,
            StabilizationError::FarmerAlreadyRegistered => 9,
            StabilizationError::NoPayoutNeeded => 10,
            StabilizationError::PayoutAlreadyProcessed => 11,
            StabilizationError::ThresholdNotReached => 12,
            StabilizationError::ChainlinkFeedNotFound => 13,
            StabilizationError::StalePriceData => 14,
            StabilizationError::InvalidChainlinkResponse => 15,
            StabilizationError::ChainlinkFeedNotRegistered => 16,
            StabilizationError::ChainlinkFeedAlreadyRegistered => 17,
            StabilizationError::CropAlreadyRegistered => 18,
        }
    }
}

/// A fund that pays farmers when the market price of a crop falls below a threshold.
#[derive(Clone, Debug)]
pub struct StabilizationFund {
    pub fund_id: Bytes32,
    pub fund_name: String,
    pub admin: Address,
    pub total_balance: i128,
    pub price_threshold: i128,
    pub crop_type: String,
    pub active: bool,
    pub creation_time: u64,
    pub last_payout_time: Option<u64>,
}

/// What one account has contributed to one fund.
#[derive(Clone, Copy, Debug, PartialEq, Eq, Structural)]
pub struct Contributor {
    pub address: Address,
    pub total_contribution: i128,
    pub last_contribution_time: u64,
}

/// The latest market price of a crop, as reported by its oracle.
#[derive(Clone, Copy, Debug, PartialEq, Eq, Structural)]
pub struct PriceData {
    pub price: i128,
    pub timestamp: u64,
    pub oracle: Address,
}

/// A farmer registered for the stabilization program.
#[derive(Clone, Copy, Debug, PartialEq, Eq, Structural)]
pub struct Farmer {
    pub address: Address,
    pub registered_time: u64,
    pub total_received_payouts: i128,
    pub active: bool,
}

/// A crop a farmer grows and how much of it.
#[derive(Clone, Debug)]
pub struct FarmerCrop {
    pub crop_type: String,
    pub production_capacity: i128,
}

/// One payment from a fund to a farmer.
#[derive(Clone, Copy, Debug, PartialEq, Eq, Structural)]
pub struct Payout {
    pub farmer_id: Address,
    pub fund_id: Bytes32,
    pub amount: i128,
    pub timestamp: u64,
    pub market_price: i128,
    pub threshold_price: i128,
}

/// A Chainlink price feed registered for a crop.
#[derive(Clone, Debug)]
pub struct ChainlinkPriceFeed {
    pub feed_address: Address,
    pub decimals: u32,
    pub description: String,
    pub crop_type: String,
    pub registered_time: u64,
    pub active: bool,
}

/// The latest answer of a Chainlink feed.
#[derive(Clone, Copy, Debug, PartialEq, Eq, Structural)]
pub struct ChainlinkPriceData {
    pub price: i128,
    pub timestamp: u64,
    pub feed_address: Address,
    pub round_id: u64,
    pub decimals: u32,
}

} // verus!
