//! Verified business logic of a family of agricultural smart contracts:
//! a loyalty-points program, a market demand forecasting registry, a
//! microlending marketplace, a price stabilization fund and a product auction
//! house.  Each contract keeps its persistent state in a plain Rust value and
//! every entry point is a function from that state (plus the caller, the ledger
//! time and the arguments) to a new state and a result.
pub mod common;
pub mod price_stabilization;
pub mod auction;
pub mod forecasting;
pub mod loyalty;
pub mod microlending;
