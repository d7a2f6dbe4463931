//! Errors of the market demand forecasting contract.
use vstd::prelude::*;

verus! {

/// Why a forecasting operation was refused.
#[derive(Clone, Copy, Debug, PartialEq, Eq, Structural)]
pub enum ContractError {
    AlreadyInitialized,
    Unauthorized,
    OracleNotSet,
    ProductNotFound,
    ForecastNotFound,
    InvalidData,
    RegionNotFound,
    HashError,
}

} // verus!
