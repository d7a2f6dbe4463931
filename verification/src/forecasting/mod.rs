//! A registry of agricultural products and oracle-provided demand forecasts,
//! with planting recommendations drawn from recent forecasts.
pub mod data;
pub mod encoding;
pub mod error;
pub mod forecasting;
pub mod laws;
pub mod recommendations;
pub mod storage;

use crate::common::{Address, Bytes32};
use error::ContractError;
use forecasting::{forecast_id_for, listed, listing_ids, record_model};
use recommendations::{product_views, recommend_fits, recommendation_of};
use storage::{forecast_of, product_of, region_ids, upsert_product, DemandForecast, Product, ProductView, RegionForecast};
use vstd::prelude::*;

verus! {

/// The most characters in a product name or a region that the contract
/// encodes into an identifier.  The ledger host meters the encoding and the
/// hashing after it, and this keeps both well inside its default budget.
pub const TEXT_LIMIT: usize = 65536;

/// The most forecasts listed under a region that a recommendation reads.
/// The demands are grouped in a ledger map, whose every operation the host
/// meters against its default budget; this many forecasts keep the map
/// within [`recommendations::DEMAND_LOAD_LIMIT`], at which each operation
/// stays far inside that budget.
pub const REGION_READ_LIMIT: usize = 512;

/// The persistent state of the forecasting contract.
pub struct MarketDemandForecastingContract {
    pub admin: Option<Address>,
    /// The account allowed to submit forecasts.
    pub oracle: Option<Address>,
    pub products: Vec<Product>,
    /// The identifiers of the products, in the order registered.
    pub all_products: Vec<Bytes32>,
    pub forecasts: Vec<DemandForecast>,
    /// The identifiers of the forecasts, in the order made.
    pub all_forecasts: Vec<Bytes32>,
    /// The forecasts of each region, in the order made.
    pub region_forecasts: Vec<RegionForecast>,
}

/// The mathematical content of the contract's state.
pub struct ForecastingState {
    pub admin: Option<Address>,
    pub oracle: Option<Address>,
    pub products: Seq<ProductView>,
    pub all_products: Seq<Bytes32>,
    pub forecasts: Seq<DemandForecast>,
    pub all_forecasts: Seq<Bytes32>,
    pub region_forecasts: Seq<RegionForecast>,
}

pub open spec fn product_view(p: Product) -> ProductView {
    p@
}

impl View for MarketDemandForecastingContract {
    type V = ForecastingState;

    open spec fn view(&self) -> ForecastingState {
        ForecastingState {
            admin: self.admin,
            oracle: self.oracle,
            products: self.products@.map_values(|p: Product| product_view(p)),
            all_products: self.all_products@,
            forecasts: self.forecasts@,
            all_forecasts: self.all_forecasts@,
            region_forecasts: self.region_forecasts@,
        }
    }
}

impl MarketDemandForecastingContract {
    /// A contract with no administrator, no oracle and nothing registered.
    pub fn new() -> (c: Self)
        ensures
            c@ == (ForecastingState {
                admin: None,
                oracle: None,
                products: Seq::empty(),
                all_products: Seq::empty(),
                forecasts: Seq::empty(),
                all_forecasts: Seq::empty(),
                region_forecasts: Seq::empty(),
            }),
    {
        let c = MarketDemandForecastingContract {
            admin: None,
            oracle: None,
            products: Vec::new(),
            all_products: Vec::new(),
            forecasts: Vec::new(),
            all_forecasts: Vec::new(),
            region_forecasts: Vec::new(),
        };
        assert(c@.products =~= Seq::<ProductView>::empty());
        c
    }
}


impl MarketDemandForecastingContract {
    /// Sets the administrator, once.
    pub fn initialize(&mut self, admin: Address) -> (r: Result<(), ContractError>)
        ensures
            old(self)@.admin is Some ==> r == Err::<(), ContractError>(ContractError::AlreadyInitialized)
                && final(self)@ == old(self)@,
            old(self)@.admin is None ==> r == Ok::<(), ContractError>(())
                && final(self)@ == (ForecastingState { admin: Some(admin), ..old(self)@ }),
    {
        if storage::has_admin(self) {
            return Err(ContractError::AlreadyInitialized);
        }
        storage::set_admin(self, admin);
        Ok(())
    }

    /// The administrator sets the oracle that provides forecasts.
    pub fn set_oracle(&mut self, admin: Address, oracle: Address) -> (r: Result<(), ContractError>)
        ensures
            old(self)@.admin != Some(admin) ==> r == Err::<(), ContractError>(ContractError::Unauthorized)
                && final(self)@ == old(self)@,
            old(self)@.admin == Some(admin) ==> r == Ok::<(), ContractError>(())
                && final(self)@ == (ForecastingState { oracle: Some(oracle), ..old(self)@ }),
    {
        if !storage::is_admin(self, admin) {
            return Err(ContractError::Unauthorized);
        }
        storage::set_oracle(self, oracle);
        Ok(())
    }

    /// Registers a product; see [`data::register_product`].
    pub fn register_product(&mut self, name: String, historical_demand: Vec<i128>, now: u64) -> (r: Result<Bytes32, ContractError>)
        requires
            name@.len() <= TEXT_LIMIT,
        ensures
            name@.len() == 0 ==> r == Err::<Bytes32, ContractError>(ContractError::InvalidData) && final(self)@ == old(self)@,
            name@.len() > 0 ==> {
                let id = data::product_id_for(name@, now);
                &&& r == Ok::<Bytes32, ContractError>(id)
                &&& final(self)@ == (ForecastingState {
                    products: upsert_product(old(self)@.products, ProductView { product_id: id, name, historical_demand: historical_demand@ }),
                    all_products: old(self)@.all_products.push(id),
                    ..old(self)@
                })
            },
    {
        data::register_product(self, name, historical_demand, now)
    }

    /// The oracle makes a forecast of positive demand for a registered
    /// product in a region, at `now`.
    pub fn generate_forecast(
        &mut self,
        oracle: Address,
        product_id: Bytes32,
        region: String,
        predicted_demand: i128,
        data_hash: Bytes32,
        now: u64,
    ) -> (r: Result<Bytes32, ContractError>)
        requires
            region@.len() <= TEXT_LIMIT,
        ensures
            old(self)@.oracle is None ==> r == Err::<Bytes32, ContractError>(ContractError::OracleNotSet)
                && final(self)@ == old(self)@,
            (old(self)@.oracle matches Some(o) && o != oracle) ==> r == Err::<Bytes32, ContractError>(ContractError::Unauthorized)
                && final(self)@ == old(self)@,
            old(self)@.oracle == Some(oracle) ==> {
                &&& product_of(old(self)@, product_id) is None ==> r == Err::<Bytes32, ContractError>(ContractError::ProductNotFound)
                    && final(self)@ == old(self)@
                &&& product_of(old(self)@, product_id) is Some && predicted_demand <= 0 ==> r == Err::<Bytes32, ContractError>(
                    ContractError::InvalidData,
                ) && final(self)@ == old(self)@
                &&& product_of(old(self)@, product_id) is Some && predicted_demand > 0 ==> {
                    let id = forecast_id_for(product_id, region@, now);
                    &&& r == Ok::<Bytes32, ContractError>(id)
                    &&& final(self)@ == record_model(old(self)@, DemandForecast {
                        forecast_id: id,
                        product_id,
                        region,
                        predicted_demand,
                        data_hash,
                        timestamp: now,
                    })
                }
            },
    {
        let registered = match storage::get_oracle(self) {
            Ok(o) => o,
            Err(e) => return Err(e),
        };
        if registered != oracle {
            return Err(ContractError::Unauthorized);
        }
        forecasting::generate_forecast(self, product_id, region, predicted_demand, data_hash, now)
    }

    /// The forecast with an identifier.
    pub fn get_forecast(&self, forecast_id: Bytes32) -> (r: Result<DemandForecast, ContractError>)
        ensures
            r == (match forecast_of(self@, forecast_id) {
                Some(f) => Ok::<DemandForecast, ContractError>(f),
                None => Err(ContractError::ForecastNotFound),
            }),
    {
        storage::get_forecast(self, forecast_id)
    }

    /// The product with an identifier.
    pub fn get_product(&self, product_id: Bytes32) -> (r: Result<Product, ContractError>)
        ensures
            match product_of(self@, product_id) {
                Some(p) => r matches Ok(q) && q@ == p,
                None => r == Err::<Product, ContractError>(ContractError::ProductNotFound),
            },
    {
        storage::get_product(self, product_id)
    }

    /// The forecasts, optionally only those of one product and of one region.
    pub fn list_forecasts(&self, product_id: Option<Bytes32>, region: Option<String>) -> (r: Vec<DemandForecast>)
        ensures
            r@ == listed(self@, listing_ids(self@, region), product_id),
    {
        forecasting::list_forecasts(self, product_id, region)
    }

    /// The products to plant in a region; see
    /// [`recommendations::generate_recommendation`].
    pub fn generate_recommendation(&self, region: String, time_window_days: u64, now: u64) -> (r: Result<Vec<Product>, ContractError>)
        requires
            recommend_fits(self@, region@, time_window_days, now),
        ensures
            region_ids(self@.region_forecasts, region@).len() == 0 ==> r == Err::<Vec<Product>, ContractError>(
                ContractError::RegionNotFound,
            ),
            region_ids(self@.region_forecasts, region@).len() > 0 ==> (r matches Ok(v) && product_views(v@)
                == recommendation_of(self@, region@, time_window_days, now)),
    {
        recommendations::generate_recommendation(self, &region, time_window_days, now)
    }
}
} // verus!
