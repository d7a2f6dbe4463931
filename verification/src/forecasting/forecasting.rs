//! Making demand forecasts and listing them.
use super::error::ContractError;
use super::storage::{
    self, forecast_of, product_of, region_ids, upsert_forecast, DemandForecast, RegionForecast,
};
use super::{ForecastingState, MarketDemandForecastingContract, TEXT_LIMIT};
use super::encoding::{lemma_fixed_lens, lemma_xdr_string_len, xdr_id, xdr_string, xdr_triple, xdr_u64};
use crate::common::{bytes32_of, generate_id, sha256_digest, Bytes32};
use soroban_sdk::xdr::ToXdr;
use vstd::prelude::*;

verus! {

/// Serializes the triple `(product_id, region, timestamp)` as a ledger value
/// with `soroban_sdk::xdr::ToXdr::to_xdr`, the identifier taken as its 32
/// bytes, most significant first.  Claimed: the bytes are its XDR encoding, a
/// vector of a byte string, a string and an unsigned 64-bit integer.
#[verifier::external_body]
fn forecast_seed(product_id: Bytes32, region: &String, timestamp: u64) -> (bytes: Vec<u8>)
    requires
        region@.len() <= TEXT_LIMIT,
    ensures
        bytes@ == forecast_seed_xdr(product_id, region@, timestamp),
{
    let env = soroban_sdk::Env::default();
    let mut id = [0u8; 32];
    id[..16].copy_from_slice(&product_id.hi.to_be_bytes());
    id[16..].copy_from_slice(&product_id.lo.to_be_bytes());
    let product = soroban_sdk::BytesN::from_array(&env, &id);
    let triple = (product, soroban_sdk::String::from_str(&env, region.as_str()), timestamp);
    let encoded = triple.to_xdr(&env);
    let mut bytes = vec![0u8; encoded.len() as usize];
    encoded.copy_into_slice(&mut bytes);
    bytes
}

/// The ledger encoding of the triple `(product_id, region, timestamp)`.
pub open spec fn forecast_seed_xdr(product_id: Bytes32, region: Seq<char>, timestamp: u64) -> Seq<u8> {
    xdr_triple(xdr_id(product_id), xdr_string(region), xdr_u64(timestamp))
}

/// The identifier of a forecast for a product and region made at `timestamp`:
/// the SHA-256 digest of the encoded triple.
pub open spec fn forecast_id_for(product_id: Bytes32, region: Seq<char>, timestamp: u64) -> Bytes32 {
    bytes32_of(sha256_digest(forecast_seed_xdr(product_id, region, timestamp)))
}

/// The state after storing a forecast and listing it, globally and under its region.
pub open spec fn record_model(s: ForecastingState, f: DemandForecast) -> ForecastingState {
    ForecastingState {
        forecasts: upsert_forecast(s.forecasts, f),
        all_forecasts: s.all_forecasts.push(f.forecast_id),
        region_forecasts: s.region_forecasts.push(RegionForecast { region: f.region, forecast_id: f.forecast_id }),
        ..s
    }
}

/// Stores a forecast under `forecast_id` and lists it globally and under its region.
pub fn record_forecast(
    state: &mut MarketDemandForecastingContract,
    forecast_id: Bytes32,
    product_id: Bytes32,
    region: String,
    predicted_demand: i128,
    data_hash: Bytes32,
    now: u64,
) -> (id: Bytes32)
    ensures
        id == forecast_id,
        final(state)@ == record_model(old(state)@, DemandForecast {
            forecast_id,
            product_id,
            region,
            predicted_demand,
            data_hash,
            timestamp: now,
        }),
{
    storage::add_forecast_id(state, forecast_id);
    storage::add_forecast_to_region(state, &region, forecast_id);
    let forecast = DemandForecast { forecast_id, product_id, region, predicted_demand, data_hash, timestamp: now };
    storage::set_forecast(state, forecast);
    forecast_id
}

/// Makes a forecast of positive demand for a registered product in a region,
/// at `now`, and returns its identifier.
pub fn generate_forecast(
    state: &mut MarketDemandForecastingContract,
    product_id: Bytes32,
    region: String,
    predicted_demand: i128,
    data_hash: Bytes32,
    now: u64,
) -> (r: Result<Bytes32, ContractError>)
    requires
        region@.len() <= TEXT_LIMIT,
    ensures
        product_of(old(state)@, product_id) is None ==> r == Err::<Bytes32, ContractError>(ContractError::ProductNotFound)
            && final(state)@ == old(state)@,
        product_of(old(state)@, product_id) is Some && predicted_demand <= 0 ==> r == Err::<Bytes32, ContractError>(
            ContractError::InvalidData,
        ) && final(state)@ == old(state)@,
        product_of(old(state)@, product_id) is Some && predicted_demand > 0 ==> {
            let id = forecast_id_for(product_id, region@, now);
            &&& r == Ok::<Bytes32, ContractError>(id)
            &&& final(state)@ == record_model(old(state)@, DemandForecast {
                forecast_id: id,
                product_id,
                region,
                predicted_demand,
                data_hash,
                timestamp: now,
            })
        },
{
    match storage::get_product(state, product_id) {
        Ok(_) => {},
        Err(e) => return Err(e),
    }
    if predicted_demand <= 0 {
        return Err(ContractError::InvalidData);
    }
    let seed = forecast_seed(product_id, &region, now);
    proof {
        lemma_xdr_string_len(region@);
        lemma_fixed_lens(now, product_id);
    }
    let forecast_id = generate_id(&seed);
    Ok(record_forecast(state, forecast_id, product_id, region, predicted_demand, data_hash, now))
}

/// Whether a forecast passes the product filter.
pub open spec fn product_matches(f: DemandForecast, product_filter: Option<Bytes32>) -> bool {
    match product_filter {
        Some(p) => f.product_id == p,
        None => true,
    }
}

/// The stored forecasts among `ids`, in their order, that pass the product filter.
pub open spec fn listed(s: ForecastingState, ids: Seq<Bytes32>, product_filter: Option<Bytes32>) -> Seq<DemandForecast>
    decreases ids.len(),
{
    if ids.len() == 0 {
        Seq::empty()
    } else {
        let rest = listed(s, ids.drop_last(), product_filter);
        match forecast_of(s, ids.last()) {
            Some(f) => if product_matches(f, product_filter) { rest.push(f) } else { rest },
            None => rest,
        }
    }
}

/// The identifiers a listing walks: those of a region, or all of them.
pub open spec fn listing_ids(s: ForecastingState, region_filter: Option<String>) -> Seq<Bytes32> {
    match region_filter {
        Some(region) => region_ids(s.region_forecasts, region@),
        None => s.all_forecasts,
    }
}

/// The forecasts, in the order made, optionally only those of one product
/// and of one region.
pub fn list_forecasts(
    state: &MarketDemandForecastingContract,
    product_id_filter: Option<Bytes32>,
    region_filter: Option<String>,
) -> (r: Vec<DemandForecast>)
    ensures
        r@ == listed(state@, listing_ids(state@, region_filter), product_id_filter),
{
    let ids = match &region_filter {
        Some(region) => storage::get_region_forecast_ids(state, region),
        None => storage::get_all_forecast_ids(state),
    };
    let mut forecasts: Vec<DemandForecast> = Vec::new();
    let mut i: usize = 0;
    while i < ids.len()
        invariant
            i <= ids@.len(),
            forecasts@ == listed(state@, ids@.take(i as int), product_id_filter),
        decreases ids@.len() - i,
    {
        assert(ids@.take(i + 1 as int).drop_last() == ids@.take(i as int));
        match storage::get_forecast(state, ids[i]) {
            Ok(forecast) => {
                let product_match = match product_id_filter {
                    Some(p_id) => forecast.product_id == p_id,
                    None => true,
                };
                if product_match {
                    forecasts.push(forecast);
                }
            },
            Err(_) => {},
        }
        i += 1;
    }
    assert(ids@.take(ids@.len() as int) == ids@);
    forecasts
}

} // verus!
