//! Registering products.
use super::error::ContractError;
use super::storage::{self, upsert_product, Product, ProductView};
use super::{ForecastingState, MarketDemandForecastingContract, TEXT_LIMIT};
use super::encoding::{lemma_fixed_lens, lemma_xdr_string_len, xdr_pair, xdr_string, xdr_u64};
use crate::common::{bytes32_of, generate_id, sha256_digest, Bytes32};
use soroban_sdk::xdr::ToXdr;
use vstd::prelude::*;

verus! {

/// Serializes the pair `(name, timestamp)` as a ledger value with
/// `soroban_sdk::xdr::ToXdr::to_xdr`.  Claimed: the bytes are its XDR
/// encoding, a vector of a string and an unsigned 64-bit integer.
#[verifier::external_body]
fn product_seed(name: &String, timestamp: u64) -> (bytes: Vec<u8>)
    requires
        name@.len() <= TEXT_LIMIT,
    ensures
        bytes@ == product_seed_xdr(name@, timestamp),
{
    let env = soroban_sdk::Env::default();
    let pair = (soroban_sdk::String::from_str(&env, name.as_str()), timestamp);
    let encoded = pair.to_xdr(&env);
    let mut bytes = vec![0u8; encoded.len() as usize];
    encoded.copy_into_slice(&mut bytes);
    bytes
}

/// The ledger encoding of the pair `(name, timestamp)`.
pub open spec fn product_seed_xdr(name: Seq<char>, timestamp: u64) -> Seq<u8> {
    xdr_pair(xdr_string(name), xdr_u64(timestamp))
}

/// The identifier of a product registered under `name` at `timestamp`: the
/// SHA-256 digest of the encoded pair.
pub open spec fn product_id_for(name: Seq<char>, timestamp: u64) -> Bytes32 {
    bytes32_of(sha256_digest(product_seed_xdr(name, timestamp)))
}

/// Stores a product under `product_id` and lists the identifier.
pub fn store_product(
    state: &mut MarketDemandForecastingContract,
    product_id: Bytes32,
    name: String,
    historical_demand: Vec<i128>,
) -> (id: Bytes32)
    ensures
        id == product_id,
        final(state)@ == (ForecastingState {
            products: upsert_product(old(state)@.products, ProductView { product_id, name, historical_demand: historical_demand@ }),
            all_products: old(state)@.all_products.push(product_id),
            ..old(state)@
        }),
{
    let product = Product { product_id, name, historical_demand };
    storage::set_product(state, product);
    storage::add_product_id(state, product_id);
    product_id
}

/// Registers a product with a non-empty name at `now`; its identifier is
/// derived from the name and the time.
pub fn register_product(
    state: &mut MarketDemandForecastingContract,
    name: String,
    historical_demand: Vec<i128>,
    now: u64,
) -> (r: Result<Bytes32, ContractError>)
    requires
        name@.len() <= TEXT_LIMIT,
    ensures
        name@.len() == 0 ==> r == Err::<Bytes32, ContractError>(ContractError::InvalidData) && final(state)@ == old(state)@,
        name@.len() > 0 ==> {
            let id = product_id_for(name@, now);
            &&& r == Ok::<Bytes32, ContractError>(id)
            &&& final(state)@ == (ForecastingState {
                products: upsert_product(old(state)@.products, ProductView { product_id: id, name, historical_demand: historical_demand@ }),
                all_products: old(state)@.all_products.push(id),
                ..old(state)@
            })
        },
{
    if name.as_str().is_empty() {
        return Err(ContractError::InvalidData);
    }
    let seed = product_seed(&name, now);
    proof {
        lemma_xdr_string_len(name@);
        lemma_fixed_lens(now, Bytes32 { hi: 0, lo: 0 });
    }
    let product_id = generate_id(&seed);
    Ok(store_product(state, product_id, name, historical_demand))
}

} // verus!
