//! The records of the forecasting contract and the reads and writes of its state.
use super::error::ContractError;
use super::{ForecastingState, MarketDemandForecastingContract};
use crate::common::{
    as_index, first_match, lemma_first_match_at, lemma_first_match_none, Address, Bytes32,
};
use vstd::prelude::*;

verus! {

/// An agricultural product that can be forecasted.
pub struct Product {
    pub product_id: Bytes32,
    pub name: String,
    pub historical_demand: Vec<i128>,
}

/// The mathematical content of a [`Product`].
pub struct ProductView {
    pub product_id: Bytes32,
    pub name: String,
    pub historical_demand: Seq<i128>,
}

impl View for Product {
    type V = ProductView;

    open spec fn view(&self) -> ProductView {
        ProductView { product_id: self.product_id, name: self.name, historical_demand: self.historical_demand@ }
    }
}

/// A demand forecast for a product in a region, provided by the oracle.
#[derive(Clone, Debug)]
pub struct DemandForecast {
    pub forecast_id: Bytes32,
    pub product_id: Bytes32,
    pub region: String,
    /// Predicted demand, in units, kilograms or the like.
    pub predicted_demand: i128,
    /// Hash of the off-chain market data the forecast rests on.
    pub data_hash: Bytes32,
    pub timestamp: u64,
}

/// A forecast listed under its region, in the order forecasts were made.
#[derive(Clone, Debug)]
pub struct RegionForecast {
    pub region: String,
    pub forecast_id: Bytes32,
}

pub open spec fn product_key(id: Bytes32) -> spec_fn(ProductView) -> bool {
    |p: ProductView| p.product_id == id
}

pub open spec fn forecast_key(id: Bytes32) -> spec_fn(DemandForecast) -> bool {
    |f: DemandForecast| f.forecast_id == id
}

/// The product with an identifier, if any.
pub open spec fn product_of(s: ForecastingState, id: Bytes32) -> Option<ProductView> {
    match first_match(s.products, product_key(id)) {
        Some(i) => Some(s.products[i]),
        None => None,
    }
}

/// The forecast with an identifier, if any.
pub open spec fn forecast_of(s: ForecastingState, id: Bytes32) -> Option<DemandForecast> {
    match first_match(s.forecasts, forecast_key(id)) {
        Some(i) => Some(s.forecasts[i]),
        None => None,
    }
}

/// The identifiers of the forecasts listed under a region, in order.
pub open spec fn region_ids(rs: Seq<RegionForecast>, region: Seq<char>) -> Seq<Bytes32>
    decreases rs.len(),
{
    if rs.len() == 0 {
        Seq::empty()
    } else {
        let rest = region_ids(rs.drop_last(), region);
        if rs.last().region@ == region {
            rest.push(rs.last().forecast_id)
        } else {
            rest
        }
    }
}

/// The product list after storing a product under its identifier.
pub open spec fn upsert_product(ps: Seq<ProductView>, p: ProductView) -> Seq<ProductView> {
    match first_match(ps, product_key(p.product_id)) {
        Some(i) => ps.update(i, p),
        None => ps.push(p),
    }
}

/// The forecast list after storing a forecast under its identifier.
pub open spec fn upsert_forecast(fs: Seq<DemandForecast>, f: DemandForecast) -> Seq<DemandForecast> {
    match first_match(fs, forecast_key(f.forecast_id)) {
        Some(i) => fs.update(i, f),
        None => fs.push(f),
    }
}

/// A copy of a list of demands.
pub fn copy_demands(v: &Vec<i128>) -> (r: Vec<i128>)
    ensures
        r@ == v@,
{
    let mut r: Vec<i128> = Vec::new();
    let mut i: usize = 0;
    while i < v.len()
        invariant
            i <= v@.len(),
            r@ == v@.take(i as int),
        decreases v@.len() - i,
    {
        r.push(v[i]);
        i += 1;
        assert(r@ == v@.take(i as int));
    }
    assert(v@.take(v@.len() as int) == v@);
    r
}

/// A copy of a product.
pub fn copy_product(p: &Product) -> (r: Product)
    ensures
        r@ == p@,
{
    Product { product_id: p.product_id, name: p.name.clone(), historical_demand: copy_demands(&p.historical_demand) }
}

/// A copy of a list of identifiers.
pub fn copy_ids(v: &Vec<Bytes32>) -> (r: Vec<Bytes32>)
    ensures
        r@ == v@,
{
    let mut r: Vec<Bytes32> = Vec::new();
    let mut i: usize = 0;
    while i < v.len()
        invariant
            i <= v@.len(),
            r@ == v@.take(i as int),
        decreases v@.len() - i,
    {
        r.push(v[i]);
        i += 1;
        assert(r@ == v@.take(i as int));
    }
    assert(v@.take(v@.len() as int) == v@);
    r
}

/// Whether an administrator has been set.
pub fn has_admin(state: &MarketDemandForecastingContract) -> (b: bool)
    ensures
        b == state@.admin is Some,
{
    state.admin.is_some()
}

/// Sets the administrator.
pub fn set_admin(state: &mut MarketDemandForecastingContract, admin: Address)
    ensures
        final(state)@ == (ForecastingState { admin: Some(admin), ..old(state)@ }),
{
    state.admin = Some(admin);
}

/// Whether `address` is the administrator; never, before one is set.
pub fn is_admin(state: &MarketDemandForecastingContract, address: Address) -> (b: bool)
    ensures
        b == (state@.admin == Some(address)),
{
    match state.admin {
        Some(a) => a == address,
        None => false,
    }
}

/// Sets the oracle.
pub fn set_oracle(state: &mut MarketDemandForecastingContract, oracle: Address)
    ensures
        final(state)@ == (ForecastingState { oracle: Some(oracle), ..old(state)@ }),
{
    state.oracle = Some(oracle);
}

/// The oracle, or `OracleNotSet`.
pub fn get_oracle(state: &MarketDemandForecastingContract) -> (r: Result<Address, ContractError>)
    ensures
        r == (match state@.oracle {
            Some(o) => Ok::<Address, ContractError>(o),
            None => Err(ContractError::OracleNotSet),
        }),
{
    match state.oracle {
        Some(o) => Ok(o),
        None => Err(ContractError::OracleNotSet),
    }
}

/// The identifiers of all products, in the order registered.
pub fn get_all_product_ids(state: &MarketDemandForecastingContract) -> (r: Vec<Bytes32>)
    ensures
        r@ == state@.all_products,
{
    copy_ids(&state.all_products)
}

/// Lists a product identifier.
pub fn add_product_id(state: &mut MarketDemandForecastingContract, product_id: Bytes32)
    ensures
        final(state)@ == (ForecastingState { all_products: old(state)@.all_products.push(product_id), ..old(state)@ }),
{
    state.all_products.push(product_id);
    assert(state@.products == old(state)@.products);
}

/// The position of a product, if any.
fn find_product(state: &MarketDemandForecastingContract, id: Bytes32) -> (r: Option<usize>)
    ensures
        as_index(r) == first_match(state@.products, product_key(id)),
{
    let ghost v = state@.products;
    let mut i: usize = 0;
    while i < state.products.len()
        invariant
            v == state@.products,
            v.len() == state.products@.len(),
            i <= v.len(),
            forall|j: int| 0 <= j < i ==> !product_key(id)(#[trigger] v[j]),
        decreases v.len() - i,
    {
        assert(v[i as int] == state.products@[i as int]@);
        if state.products[i].product_id == id {
            proof { lemma_first_match_at(v, product_key(id), i as int); }
            return Some(i);
        }
        i += 1;
    }
    proof { lemma_first_match_none(v, product_key(id)); }
    None
}

/// The product with an identifier, or `ProductNotFound`.
pub fn get_product(state: &MarketDemandForecastingContract, product_id: Bytes32) -> (r: Result<Product, ContractError>)
    ensures
        match product_of(state@, product_id) {
            Some(p) => r matches Ok(q) && q@ == p,
            None => r == Err::<Product, ContractError>(ContractError::ProductNotFound),
        },
{
    match find_product(state, product_id) {
        Some(i) => {
            assert(state@.products[i as int] == state.products@[i as int]@);
            Ok(copy_product(&state.products[i]))
        },
        None => Err(ContractError::ProductNotFound),
    }
}

/// Stores a product under its identifier, replacing any stored before.
pub fn set_product(state: &mut MarketDemandForecastingContract, product: Product)
    ensures
        final(state)@ == (ForecastingState { products: upsert_product(old(state)@.products, product@), ..old(state)@ }),
{
    let ghost pv = product@;
    match find_product(state, product.product_id) {
        Some(i) => {
            state.products.set(i, product);
            assert(state@.products =~= old(state)@.products.update(i as int, pv));
        },
        None => {
            state.products.push(product);
            assert(state@.products =~= old(state)@.products.push(pv));
        },
    }
}

/// The identifiers of all forecasts, in the order made.
pub fn get_all_forecast_ids(state: &MarketDemandForecastingContract) -> (r: Vec<Bytes32>)
    ensures
        r@ == state@.all_forecasts,
{
    copy_ids(&state.all_forecasts)
}

/// Lists a forecast identifier.
pub fn add_forecast_id(state: &mut MarketDemandForecastingContract, forecast_id: Bytes32)
    ensures
        final(state)@ == (ForecastingState { all_forecasts: old(state)@.all_forecasts.push(forecast_id), ..old(state)@ }),
{
    state.all_forecasts.push(forecast_id);
    assert(state@.products == old(state)@.products);
}

/// The position of a forecast, if any.
fn find_forecast(state: &MarketDemandForecastingContract, id: Bytes32) -> (r: Option<usize>)
    ensures
        as_index(r) == first_match(state@.forecasts, forecast_key(id)),
{
    let mut i: usize = 0;
    while i < state.forecasts.len()
        invariant
            i <= state.forecasts@.len(),
            forall|j: int| 0 <= j < i ==> !forecast_key(id)(#[trigger] state.forecasts@[j]),
        decreases state.forecasts@.len() - i,
    {
        if state.forecasts[i].forecast_id == id {
            proof { lemma_first_match_at(state.forecasts@, forecast_key(id), i as int); }
            return Some(i);
        }
        i += 1;
    }
    proof { lemma_first_match_none(state.forecasts@, forecast_key(id)); }
    None
}

/// A copy of a forecast.
pub fn copy_forecast(f: &DemandForecast) -> (r: DemandForecast)
    ensures
        r == *f,
{
    DemandForecast {
        forecast_id: f.forecast_id,
        product_id: f.product_id,
        region: f.region.clone(),
        predicted_demand: f.predicted_demand,
        data_hash: f.data_hash,
        timestamp: f.timestamp,
    }
}

/// The forecast with an identifier, or `ForecastNotFound`.
pub fn get_forecast(state: &MarketDemandForecastingContract, forecast_id: Bytes32) -> (r: Result<DemandForecast, ContractError>)
    ensures
        r == (match forecast_of(state@, forecast_id) {
            Some(f) => Ok::<DemandForecast, ContractError>(f),
            None => Err(ContractError::ForecastNotFound),
        }),
{
    match find_forecast(state, forecast_id) {
        Some(i) => Ok(copy_forecast(&state.forecasts[i])),
        None => Err(ContractError::ForecastNotFound),
    }
}

/// Stores a forecast under its identifier, replacing any stored before.
pub fn set_forecast(state: &mut MarketDemandForecastingContract, forecast: DemandForecast)
    ensures
        final(state)@ == (ForecastingState { forecasts: upsert_forecast(old(state)@.forecasts, forecast), ..old(state)@ }),
{
    let ghost f = forecast;
    match find_forecast(state, forecast.forecast_id) {
        Some(i) => state.forecasts.set(i, forecast),
        None => state.forecasts.push(forecast),
    }
    assert(state@.products == old(state)@.products);
}

/// The identifiers of the forecasts made for a region, in order.
pub fn get_region_forecast_ids(state: &MarketDemandForecastingContract, region: &String) -> (r: Vec<Bytes32>)
    ensures
        r@ == region_ids(state@.region_forecasts, region@),
{
    let mut r: Vec<Bytes32> = Vec::new();
    let mut i: usize = 0;
    while i < state.region_forecasts.len()
        invariant
            i <= state.region_forecasts@.len(),
            r@ == region_ids(state.region_forecasts@.take(i as int), region@),
        decreases state.region_forecasts@.len() - i,
    {
        assert(state.region_forecasts@.take(i + 1 as int).drop_last() == state.region_forecasts@.take(i as int));
        if state.region_forecasts[i].region == *region {
            r.push(state.region_forecasts[i].forecast_id);
        }
        i += 1;
    }
    assert(state.region_forecasts@.take(state.region_forecasts@.len() as int) == state.region_forecasts@);
    r
}

/// Lists a forecast under its region.
pub fn add_forecast_to_region(state: &mut MarketDemandForecastingContract, region: &String, forecast_id: Bytes32)
    ensures
        final(state)@ == (ForecastingState {
            region_forecasts: old(state)@.region_forecasts.push(RegionForecast { region: *region, forecast_id }),
            ..old(state)@
        }),
{
    state.region_forecasts.push(RegionForecast { region: region.clone(), forecast_id });
    assert(state@.products == old(state)@.products);
}

} // verus!
