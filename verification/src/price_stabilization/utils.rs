//! Price calculations shared by the price stabilization entry points.
use super::datatype::{ChainlinkPriceData, ChainlinkPriceFeed, StabilizationError, StabilizationFund};
use super::{
    chainlink_price_key, farmer_crop_key, feed_key, fund_key, market_price_key,
    PriceStabilizationContract, PriceStabilizationState,
};
use crate::common::{first_match, Address, Bytes32};
use vstd::prelude::*;

verus! {

/// Price calculations and oracle look-ups of the price stabilization contract.
pub struct PriceUtils;

/// `10^n`.
pub open spec fn pow10(n: nat) -> int
    decreases n,
{
    if n == 0 {
        1
    } else {
        10 * pow10((n - 1) as nat)
    }
}

/// The least value of twelve digits.  A converted Chainlink price below it is
/// written with more digits, by powers of ten, until it reaches it.
pub const PRICE_SCALE_FLOOR: i128 = 100_000_000_000;

/// `v` multiplied by ten, at most `n` times, while it is positive and below
/// [`PRICE_SCALE_FLOOR`].
pub open spec fn scale_up(v: int, n: nat) -> int
    decreases n,
{
    if n == 0 || v <= 0 || v >= PRICE_SCALE_FLOOR {
        v
    } else {
        scale_up(v * 10, (n - 1) as nat)
    }
}

/// A Chainlink answer in the contract's price format: brought from
/// `decimals` to eight decimals (multiplied by `10^(8 - decimals)`), then, if
/// positive and shorter than twelve digits, multiplied by ten until it has
/// twelve.
pub open spec fn chainlink_conversion(price: int, decimals: u32) -> Result<i128, StabilizationError> {
    if decimals > 8 {
        Err(StabilizationError::InvalidChainlinkResponse)
    } else {
        let v = price * pow10((8 - decimals) as nat);
        if fits_i128(v) {
            Ok(scale_up(v, 11) as i128)
        } else {
            Err(StabilizationError::InvalidInput)
        }
    }
}

/// Scaling up keeps a value that starts in range within twelve digits.
pub proof fn lemma_scale_up_bound(v: int, n: nat)
    ensures
        0 < v < PRICE_SCALE_FLOOR ==> 0 < scale_up(v, n) < 10 * PRICE_SCALE_FLOOR,
        !(0 < v < PRICE_SCALE_FLOOR) ==> scale_up(v, n) == v,
    decreases n,
{
    if n > 0 && 0 < v < PRICE_SCALE_FLOOR {
        lemma_scale_up_bound(v * 10, (n - 1) as nat);
    }
}

/// Whether `x` fits in an `i128`.
pub open spec fn fits_i128(x: int) -> bool {
    i128::MIN <= x <= i128::MAX
}

/// The fund with the identifier, if any.
pub open spec fn fund_of(s: PriceStabilizationState, id: Bytes32) -> Option<StabilizationFund> {
    match first_match(s.funds, fund_key(id)) {
        Some(i) => Some(s.funds[i]),
        None => None,
    }
}

/// The latest market price of the crop, if any.
pub open spec fn market_price_of(s: PriceStabilizationState, crop: Seq<char>) -> Option<i128> {
    match first_match(s.market_prices, market_price_key(crop)) {
        Some(i) => Some(s.market_prices[i].data.price),
        None => None,
    }
}

/// The registered production capacity of a farmer for a crop, if any.
pub open spec fn capacity_of(s: PriceStabilizationState, a: Address, crop: Seq<char>) -> Option<i128> {
    match first_match(s.farmer_crops, farmer_crop_key(a, crop)) {
        Some(i) => Some(s.farmer_crops[i].crop.production_capacity),
        None => None,
    }
}

/// The Chainlink feed registered for the crop, if any.
pub open spec fn feed_of(s: PriceStabilizationState, crop: Seq<char>) -> Option<ChainlinkPriceFeed> {
    match first_match(s.chainlink_feeds, feed_key(crop)) {
        Some(i) => Some(s.chainlink_feeds[i]),
        None => None,
    }
}

/// The latest Chainlink answer for the crop, if any.
pub open spec fn chainlink_data_of(s: PriceStabilizationState, crop: Seq<char>) -> Option<ChainlinkPriceData> {
    match first_match(s.chainlink_prices, chainlink_price_key(crop)) {
        Some(i) => Some(s.chainlink_prices[i].data),
        None => None,
    }
}

/// The shortfall of the market price below a fund's threshold (zero when the
/// price is at or above it), or the error the look-ups give.
pub open spec fn price_difference_spec(s: PriceStabilizationState, id: Bytes32) -> Result<i128, StabilizationError> {
    match fund_of(s, id) {
        None => Err(StabilizationError::FundNotFound),
        Some(f) => match market_price_of(s, f.crop_type@) {
            None => Err(StabilizationError::PriceDataNotAvailable),
            Some(p) => {
                let d = f.price_threshold - p;
                if !fits_i128(d) {
                    Err(StabilizationError::InvalidInput)
                } else if d <= 0 {
                    Ok(0)
                } else {
                    Ok(d as i128)
                }
            },
        },
    }
}

/// Sum of the production capacities, for the fund's crop, of the listed farmers
/// that grow it; `None` if a partial sum leaves the `i128` range.
pub open spec fn total_capacity(s: PriceStabilizationState, farmers: Seq<Address>, crop: Seq<char>) -> Option<int>
    decreases farmers.len(),
{
    if farmers.len() == 0 {
        Some(0)
    } else {
        match total_capacity(s, farmers.drop_last(), crop) {
            None => None,
            Some(t) => match capacity_of(s, farmers.last(), crop) {
                None => Some(t),
                Some(c) => if fits_i128(t + c) { Some(t + c) } else { None },
            },
        }
    }
}

/// Whether a fund holds enough for the payout the listed farmers would get.
pub open spec fn fund_sufficiency_spec(s: PriceStabilizationState, id: Bytes32, farmers: Seq<Address>) -> Result<bool, StabilizationError> {
    match price_difference_spec(s, id) {
        Err(e) => Err(e),
        Ok(d) => if d <= 0 {
            Ok(true)
        } else {
            let f = fund_of(s, id).unwrap();
            match total_capacity(s, farmers, f.crop_type@) {
                None => Err(StabilizationError::InvalidInput),
                Some(t) => if !fits_i128(d * t) {
                    Err(StabilizationError::InvalidInput)
                } else {
                    Ok(f.total_balance >= d * t)
                },
            }
        },
    }
}

/// A reported timestamp is acceptable: not in the future and at most an hour old.
pub open spec fn timestamp_valid(now: u64, timestamp: u64) -> bool {
    timestamp <= now && now - timestamp <= 3600
}

/// The outcome of validating a Chainlink answer.
pub open spec fn chainlink_response_spec(now: u64, price: i128, timestamp: u64, round_id: u64, staleness_period: u64) -> Result<bool, StabilizationError> {
    if price <= 0 {
        Err(StabilizationError::InvalidChainlinkResponse)
    } else if timestamp > now {
        Err(StabilizationError::InvalidChainlinkResponse)
    } else if now - timestamp > staleness_period {
        Err(StabilizationError::StalePriceData)
    } else if round_id == 0 {
        Err(StabilizationError::InvalidChainlinkResponse)
    } else {
        Ok(true)
    }
}

impl PriceUtils {
    /// The stored market price of a crop.
    pub fn get_market_price(state: &PriceStabilizationContract, crop_type: &String) -> (r: Result<i128, StabilizationError>)
        ensures
            r == (match market_price_of(state@, crop_type@) {
                Some(p) => Ok::<i128, StabilizationError>(p),
                None => Err(StabilizationError::PriceDataNotAvailable),
            }),
    {
        match state.find_market_price(crop_type) {
            Some(i) => Ok(state.market_prices[i].data.price),
            None => Err(StabilizationError::PriceDataNotAvailable),
        }
    }

    /// How far the market price of the fund's crop is below its threshold.
    pub fn calculate_price_difference(state: &PriceStabilizationContract, fund_id: &Bytes32) -> (r: Result<i128, StabilizationError>)
        ensures
            r == price_difference_spec(state@, *fund_id),
    {
        let fi = match state.find_fund(*fund_id) {
            Some(i) => i,
            None => return Err(StabilizationError::FundNotFound),
        };
        let current_price = match Self::get_market_price(state, &state.funds[fi].crop_type) {
            Ok(p) => p,
            Err(e) => return Err(e),
        };
        let difference = match state.funds[fi].price_threshold.checked_sub(current_price) {
            Some(d) => d,
            None => return Err(StabilizationError::InvalidInput),
        };
        if difference <= 0 {
            return Ok(0);
        }
        Ok(difference)
    }

    /// Whether the fund's balance covers the current shortfall times the
    /// listed farmers' total capacity for its crop.
    pub fn check_fund_sufficiency(state: &PriceStabilizationContract, fund_id: &Bytes32, farmers: &Vec<Address>) -> (r: Result<bool, StabilizationError>)
        ensures
            r == fund_sufficiency_spec(state@, *fund_id, farmers@),
    {
        let fi = match state.find_fund(*fund_id) {
            Some(i) => i,
            None => return Err(StabilizationError::FundNotFound),
        };
        let price_difference = match Self::calculate_price_difference(state, fund_id) {
            Ok(d) => d,
            Err(e) => return Err(e),
        };
        if price_difference <= 0 {
            return Ok(true);
        }
        let crop = &state.funds[fi].crop_type;
        let mut total_cap: i128 = 0;
        let mut k: usize = 0;
        while k < farmers.len()
            invariant
                0 <= k <= farmers@.len(),
                fi < state.funds@.len(),
                first_match(state.funds@, fund_key(*fund_id)) == Some(fi as int),
                price_difference_spec(state@, *fund_id) == Ok::<i128, StabilizationError>(price_difference),
                price_difference > 0,
                crop@ == state.funds@[fi as int].crop_type@,
                total_capacity(state@, farmers@.take(k as int), crop@) == Some(total_cap as int),
            decreases farmers@.len() - k,
        {
            proof {
                assert(farmers@.take(k + 1).drop_last() == farmers@.take(k as int));
                assert(farmers@.take(k + 1).last() == farmers@[k as int]);
            }
            let found = state.find_farmer_crop(farmers[k], crop);
            match found {
                Some(ci) => {
                    match total_cap.checked_add(state.farmer_crops[ci].crop.production_capacity) {
                        Some(t) => total_cap = t,
                        None => {
                            proof {
                                assert(capacity_of(state@, farmers@[k as int], crop@) == Some(state.farmer_crops@[ci as int].crop.production_capacity));
                                assert(total_capacity(state@, farmers@.take(k + 1), crop@) is None);
                                lemma_total_capacity_none(state@, farmers@, crop@, (k + 1) as nat);
                                assert(fund_of(state@, *fund_id) == Some(state.funds@[fi as int]));
                                assert(total_capacity(state@, farmers@, state.funds@[fi as int].crop_type@) is None);
                            }
                            return Err(StabilizationError::InvalidInput);
                        },
                    }
                },
                None => {},
            }
            k += 1;
        }
        proof { assert(farmers@.take(farmers@.len() as int) == farmers@); }
        match price_difference.checked_mul(total_cap) {
            Some(total_payout_needed) => Ok(state.funds[fi].total_balance >= total_payout_needed),
            None => Err(StabilizationError::InvalidInput),
        }
    }

    /// A reported timestamp is not in the future and at most an hour old.
    pub fn validate_timestamp(now: u64, timestamp: u64) -> (ok: bool)
        ensures
            ok == timestamp_valid(now, timestamp),
    {
        if timestamp > now {
            return false;
        }
        now - timestamp <= 3600
    }

    /// The Chainlink feed registered for a crop.
    pub fn get_chainlink_feed(state: &PriceStabilizationContract, crop_type: &String) -> (r: Result<ChainlinkPriceFeed, StabilizationError>)
        ensures
            r == (match feed_of(state@, crop_type@) {
                Some(f) => Ok::<ChainlinkPriceFeed, StabilizationError>(f),
                None => Err(StabilizationError::ChainlinkFeedNotFound),
            }),
    {
        match state.find_feed(crop_type) {
            Some(i) => {
                let f = &state.chainlink_feeds[i];
                Ok(ChainlinkPriceFeed {
                    feed_address: f.feed_address,
                    decimals: f.decimals,
                    description: f.description.clone(),
                    crop_type: f.crop_type.clone(),
                    registered_time: f.registered_time,
                    active: f.active,
                })
            },
            None => Err(StabilizationError::ChainlinkFeedNotFound),
        }
    }

    /// The latest Chainlink answer for a crop.
    pub fn get_chainlink_price_data(state: &PriceStabilizationContract, crop_type: &String) -> (r: Result<ChainlinkPriceData, StabilizationError>)
        ensures
            r == (match chainlink_data_of(state@, crop_type@) {
                Some(d) => Ok::<ChainlinkPriceData, StabilizationError>(d),
                None => Err(StabilizationError::PriceDataNotAvailable),
            }),
    {
        match state.find_chainlink_price(crop_type) {
            Some(i) => Ok(state.chainlink_prices[i].data),
            None => Err(StabilizationError::PriceDataNotAvailable),
        }
    }

    /// Checks a Chainlink answer: positive price, timestamp not in the future
    /// and within the staleness period, non-zero round.
    pub fn validate_chainlink_response(now: u64, price: i128, timestamp: u64, round_id: u64, staleness_period: u64) -> (r: Result<bool, StabilizationError>)
        ensures
            r == chainlink_response_spec(now, price, timestamp, round_id, staleness_period),
    {
        if price <= 0 {
            return Err(StabilizationError::InvalidChainlinkResponse);
        }
        if timestamp > now {
            return Err(StabilizationError::InvalidChainlinkResponse);
        }
        if now - timestamp > staleness_period {
            return Err(StabilizationError::StalePriceData);
        }
        if round_id == 0 {
            return Err(StabilizationError::InvalidChainlinkResponse);
        }
        Ok(true)
    }

    /// Converts a Chainlink answer with `decimals` decimals to the contract's
    /// price format, as [`chainlink_conversion`] describes.
    pub fn convert_chainlink_price(price: i128, decimals: u32) -> (r: Result<i128, StabilizationError>)
        ensures
            r == chainlink_conversion(price as int, decimals),
    {
        if decimals > 8 {
            return Err(StabilizationError::InvalidChainlinkResponse);
        }
        let n = 8 - decimals;
        let factor = pow10_exec(n);
        let v = match price.checked_mul(factor) {
            Some(v) => v,
            None => return Err(StabilizationError::InvalidInput),
        };
        let mut w = v;
        let mut i: u32 = 0;
        while i < 11
            invariant
                i <= 11,
                scale_up(v as int, 11) == scale_up(w as int, (11 - i) as nat),
            decreases 11 - i,
        {
            if 0 < w && w < PRICE_SCALE_FLOOR {
                w = w * 10;
            } else {
                proof { lemma_scale_up_bound(w as int, (10 - i) as nat); }
            }
            i += 1;
        }
        Ok(w)
    }

    /// Whether the Chainlink feed of a crop is active.
    pub fn is_chainlink_feed_active(state: &PriceStabilizationContract, crop_type: &String) -> (r: Result<bool, StabilizationError>)
        ensures
            r == (match feed_of(state@, crop_type@) {
                Some(f) => Ok::<bool, StabilizationError>(f.active),
                None => Err(StabilizationError::ChainlinkFeedNotFound),
            }),
    {
        match state.find_feed(crop_type) {
            Some(i) => Ok(state.chainlink_feeds[i].active),
            None => Err(StabilizationError::ChainlinkFeedNotFound),
        }
    }
}

/// Once a partial capacity sum overflows, so do all longer ones.
proof fn lemma_total_capacity_none(s: PriceStabilizationState, farmers: Seq<Address>, crop: Seq<char>, k: nat)
    requires
        k <= farmers.len(),
        total_capacity(s, farmers.take(k as int), crop) is None,
    ensures
        total_capacity(s, farmers, crop) is None,
    decreases farmers.len() - k,
{
    if k < farmers.len() {
        assert(farmers.take(k + 1 as int).drop_last() == farmers.take(k as int));
        lemma_total_capacity_none(s, farmers, crop, k + 1);
    } else {
        assert(farmers.take(k as int) == farmers);
    }
}

/// `10^n` for `n <= 8`.
fn pow10_exec(n: u32) -> (f: i128)
    requires
        n <= 8,
    ensures
        f == pow10(n as nat),
{
    reveal_with_fuel(pow10, 9);
    if n == 0 {
        1
    } else if n == 1 {
        10
    } else if n == 2 {
        100
    } else if n == 3 {
        1_000
    } else if n == 4 {
        10_000
    } else if n == 5 {
        100_000
    } else if n == 6 {
        1_000_000
    } else if n == 7 {
        10_000_000
    } else {
        100_000_000
    }
}

} // verus!
