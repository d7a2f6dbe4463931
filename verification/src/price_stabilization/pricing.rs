//! Price oracles, market prices and Chainlink feeds.
use super::datatype::{ChainlinkPriceData, ChainlinkPriceFeed, PriceData, StabilizationError};
use super::utils::{
    chainlink_conversion, chainlink_data_of, chainlink_response_spec, feed_of, fits_i128, fund_of, market_price_of,
    timestamp_valid, PriceUtils,
};
use super::{
    chainlink_price_key, market_price_key, oracle_key, ChainlinkPrice, MarketPrice, PriceOracle,
    PriceStabilizationContract, PriceStabilizationState,
};
use crate::common::{first_match, Address, Bytes32};
use vstd::prelude::*;

verus! {

/// The oracle registered for a crop, if any.
pub open spec fn oracle_of(s: PriceStabilizationState, crop: Seq<char>) -> Option<Address> {
    match first_match(s.price_oracles, oracle_key(crop)) {
        Some(i) => Some(s.price_oracles[i].oracle),
        None => None,
    }
}

/// The oracle list after registering `oracle` for `crop`.
pub open spec fn set_oracle_entry(os: Seq<PriceOracle>, crop: String, oracle: Address) -> Seq<PriceOracle> {
    match first_match(os, oracle_key(crop@)) {
        Some(i) => os.update(i, PriceOracle { crop_type: crop, oracle }),
        None => os.push(PriceOracle { crop_type: crop, oracle }),
    }
}

/// The price list after recording `data` for `crop`.
pub open spec fn set_market_price_entry(ps: Seq<MarketPrice>, crop: String, data: PriceData) -> Seq<MarketPrice> {
    match first_match(ps, market_price_key(crop@)) {
        Some(i) => ps.update(i, MarketPrice { crop_type: crop, data }),
        None => ps.push(MarketPrice { crop_type: crop, data }),
    }
}

/// The Chainlink answer list after recording `data` for `crop`.
pub open spec fn set_chainlink_entry(ps: Seq<ChainlinkPrice>, crop: String, data: ChainlinkPriceData) -> Seq<ChainlinkPrice> {
    match first_match(ps, chainlink_price_key(crop@)) {
        Some(i) => ps.update(i, ChainlinkPrice { crop_type: crop, data }),
        None => ps.push(ChainlinkPrice { crop_type: crop, data }),
    }
}

/// What reading the Chainlink price of a crop gives.
pub open spec fn chainlink_price_spec(s: PriceStabilizationState, crop: Seq<char>) -> Result<(i128, u64), StabilizationError> {
    if crop.len() == 0 {
        Err(StabilizationError::InvalidInput)
    } else {
        match feed_of(s, crop) {
            None => Err(StabilizationError::ChainlinkFeedNotFound),
            Some(f) => if !f.active {
                Err(StabilizationError::ChainlinkFeedNotRegistered)
            } else {
                match chainlink_data_of(s, crop) {
                    None => Err(StabilizationError::PriceDataNotAvailable),
                    Some(d) => match chainlink_conversion(d.price as int, d.decimals) {
                        Ok(v) => Ok((v, d.timestamp)),
                        Err(e) => Err(e),
                    },
                }
            },
        }
    }
}

impl PriceStabilizationContract {
    /// Registers (or replaces) the oracle of a crop; contract admin only.
    pub fn register_price_oracle(&mut self, admin: Address, oracle_address: Address, crop_type: String) -> (r: Result<(), StabilizationError>)
        requires
            old(self).admin is Some,
        ensures
            old(self).admin != Some(admin) ==> r == Err::<(), StabilizationError>(StabilizationError::Unauthorized),
            old(self).admin == Some(admin) && crop_type@.len() == 0 ==> r == Err::<(), StabilizationError>(StabilizationError::InvalidInput),
            old(self).admin == Some(admin) && crop_type@.len() > 0 ==> {
                &&& r == Ok::<(), StabilizationError>(())
                &&& final(self)@ == (PriceStabilizationState {
                    price_oracles: set_oracle_entry(old(self)@.price_oracles, crop_type, oracle_address),
                    ..old(self)@
                })
            },
            r is Err ==> final(self)@ == old(self)@,
    {
        if self.admin != Some(admin) {
            return Err(StabilizationError::Unauthorized);
        }
        if crop_type.as_str().is_empty() {
            return Err(StabilizationError::InvalidInput);
        }
        match self.find_oracle(&crop_type) {
            Some(i) => self.price_oracles.set(i, PriceOracle { crop_type, oracle: oracle_address }),
            None => self.price_oracles.push(PriceOracle { crop_type, oracle: oracle_address }),
        }
        Ok(())
    }

    /// Records a market price reported by the crop's registered oracle.
    pub fn update_market_price(&mut self, oracle: Address, crop_type: String, price: i128, timestamp: u64, now: u64) -> (r: Result<(), StabilizationError>)
        ensures
            (price <= 0 || crop_type@.len() == 0 || !timestamp_valid(now, timestamp)) ==> r
                == Err::<(), StabilizationError>(StabilizationError::InvalidInput),
            price > 0 && crop_type@.len() > 0 && timestamp_valid(now, timestamp) ==> match oracle_of(old(self)@, crop_type@) {
                None => r == Err::<(), StabilizationError>(StabilizationError::OracleNotRegistered),
                Some(o) => if o != oracle {
                    r == Err::<(), StabilizationError>(StabilizationError::Unauthorized)
                } else {
                    &&& r == Ok::<(), StabilizationError>(())
                    &&& final(self)@ == (PriceStabilizationState {
                        market_prices: set_market_price_entry(
                            old(self)@.market_prices,
                            crop_type,
                            PriceData { price, timestamp, oracle },
                        ),
                        ..old(self)@
                    })
                },
            },
            r is Err ==> final(self)@ == old(self)@,
    {
        if price <= 0 || crop_type.as_str().is_empty() {
            return Err(StabilizationError::InvalidInput);
        }
        if !PriceUtils::validate_timestamp(now, timestamp) {
            return Err(StabilizationError::InvalidInput);
        }
        let oi = match self.find_oracle(&crop_type) {
            Some(i) => i,
            None => return Err(StabilizationError::OracleNotRegistered),
        };
        if oracle != self.price_oracles[oi].oracle {
            return Err(StabilizationError::Unauthorized);
        }
        let data = PriceData { price, timestamp, oracle };
        match self.find_market_price(&crop_type) {
            Some(i) => self.market_prices.set(i, MarketPrice { crop_type, data }),
            None => self.market_prices.push(MarketPrice { crop_type, data }),
        }
        Ok(())
    }

    /// The latest market price of a crop and when it was reported.
    pub fn get_market_price(&self, crop_type: &String) -> (r: Result<(i128, u64), StabilizationError>)
        ensures
            crop_type@.len() == 0 ==> r == Err::<(i128, u64), StabilizationError>(StabilizationError::InvalidInput),
            crop_type@.len() > 0 ==> r == (match first_match(self@.market_prices, market_price_key(crop_type@)) {
                None => Err::<(i128, u64), StabilizationError>(StabilizationError::PriceDataNotAvailable),
                Some(i) => Ok((self@.market_prices[i].data.price, self@.market_prices[i].data.timestamp)),
            }),
    {
        if crop_type.as_str().is_empty() {
            return Err(StabilizationError::InvalidInput);
        }
        match self.find_market_price(crop_type) {
            Some(i) => Ok((self.market_prices[i].data.price, self.market_prices[i].data.timestamp)),
            None => Err(StabilizationError::PriceDataNotAvailable),
        }
    }

    /// Whether the current price of a fund's crop is below the fund's
    /// threshold: the market price, or, where the crop has none, the price of
    /// the latest Chainlink answer as reported.
    pub fn check_price_threshold(&self, fund_id: Bytes32) -> (r: Result<bool, StabilizationError>)
        ensures
            r == (match fund_of(self@, fund_id) {
                None => Err::<bool, StabilizationError>(StabilizationError::FundNotFound),
                Some(f) => match market_price_of(self@, f.crop_type@) {
                    Some(p) => Ok(p < f.price_threshold),
                    None => match chainlink_data_of(self@, f.crop_type@) {
                        Some(d) => Ok(d.price < f.price_threshold),
                        None => Err(StabilizationError::PriceDataNotAvailable),
                    },
                },
            }),
    {
        let fi = match self.find_fund(fund_id) {
            Some(i) => i,
            None => return Err(StabilizationError::FundNotFound),
        };
        match self.find_market_price(&self.funds[fi].crop_type) {
            Some(pi) => Ok(self.market_prices[pi].data.price < self.funds[fi].price_threshold),
            None => match PriceUtils::get_chainlink_price_data(self, &self.funds[fi].crop_type) {
                Ok(d) => Ok(d.price < self.funds[fi].price_threshold),
                Err(_) => Err(StabilizationError::PriceDataNotAvailable),
            },
        }
    }

    /// Registers the Chainlink feed of a crop; contract admin only, once per crop.
    pub fn register_chainlink_feed(
        &mut self,
        admin: Address,
        crop_type: String,
        feed_address: Address,
        decimals: u32,
        description: String,
        now: u64,
    ) -> (r: Result<(), StabilizationError>)
        requires
            old(self).admin is Some,
        ensures
            old(self).admin != Some(admin) ==> r == Err::<(), StabilizationError>(StabilizationError::Unauthorized),
            old(self).admin == Some(admin) && (crop_type@.len() == 0 || description@.len() == 0) ==> r
                == Err::<(), StabilizationError>(StabilizationError::InvalidInput),
            old(self).admin == Some(admin) && crop_type@.len() > 0 && description@.len() > 0 ==> {
                &&& (feed_of(old(self)@, crop_type@) is Some ==> r == Err::<(), StabilizationError>(StabilizationError::FundAlreadyExists))
                &&& (feed_of(old(self)@, crop_type@) is None ==> {
                    &&& r == Ok::<(), StabilizationError>(())
                    &&& final(self)@ == (PriceStabilizationState {
                        chainlink_feeds: old(self)@.chainlink_feeds.push(ChainlinkPriceFeed {
                            feed_address,
                            decimals,
                            description,
                            crop_type,
                            registered_time: now,
                            active: true,
                        }),
                        ..old(self)@
                    })
                })
            },
            r is Err ==> final(self)@ == old(self)@,
    {
        if self.admin != Some(admin) {
            return Err(StabilizationError::Unauthorized);
        }
        if crop_type.as_str().is_empty() || description.as_str().is_empty() {
            return Err(StabilizationError::InvalidInput);
        }
        if self.find_feed(&crop_type).is_some() {
            return Err(StabilizationError::FundAlreadyExists);
        }
        self.chainlink_feeds.push(ChainlinkPriceFeed {
            feed_address,
            decimals,
            description,
            crop_type,
            registered_time: now,
            active: true,
        });
        Ok(())
    }

    /// The latest Chainlink price of a crop in the contract's price format, and its time.
    pub fn get_chainlink_price(&self, crop_type: &String) -> (r: Result<(i128, u64), StabilizationError>)
        ensures
            r == chainlink_price_spec(self@, crop_type@),
    {
        if crop_type.as_str().is_empty() {
            return Err(StabilizationError::InvalidInput);
        }
        match PriceUtils::is_chainlink_feed_active(self, crop_type) {
            Ok(true) => {},
            Ok(false) => return Err(StabilizationError::ChainlinkFeedNotRegistered),
            Err(e) => return Err(e),
        }
        let price_data = match PriceUtils::get_chainlink_price_data(self, crop_type) {
            Ok(d) => d,
            Err(e) => return Err(e),
        };
        match PriceUtils::convert_chainlink_price(price_data.price, price_data.decimals) {
            Ok(p) => Ok((p, price_data.timestamp)),
            Err(e) => Err(e),
        }
    }

    /// Records a Chainlink answer sent by the crop's feed address, after
    /// validating it with a one-hour staleness period.
    pub fn update_chainlink_price(
        &mut self,
        oracle: Address,
        crop_type: String,
        price: i128,
        timestamp: u64,
        round_id: u64,
        decimals: u32,
        now: u64,
    ) -> (r: Result<(), StabilizationError>)
        ensures
            price <= 0 || crop_type@.len() == 0 ==> r == Err::<(), StabilizationError>(StabilizationError::InvalidInput),
            price > 0 && crop_type@.len() > 0 ==> match feed_of(old(self)@, crop_type@) {
                None => r == Err::<(), StabilizationError>(StabilizationError::ChainlinkFeedNotFound),
                Some(f) => if f.feed_address != oracle {
                    r == Err::<(), StabilizationError>(StabilizationError::Unauthorized)
                } else {
                    match chainlink_response_spec(now, price, timestamp, round_id, 3600) {
                        Err(e) => r == Err::<(), StabilizationError>(e),
                        Ok(_) => {
                            &&& r == Ok::<(), StabilizationError>(())
                            &&& final(self)@ == (PriceStabilizationState {
                                chainlink_prices: set_chainlink_entry(
                                    old(self)@.chainlink_prices,
                                    crop_type,
                                    ChainlinkPriceData { price, timestamp, feed_address: oracle, round_id, decimals },
                                ),
                                ..old(self)@
                            })
                        },
                    }
                },
            },
            r is Err ==> final(self)@ == old(self)@,
    {
        if price <= 0 || crop_type.as_str().is_empty() {
            return Err(StabilizationError::InvalidInput);
        }
        let fi = match self.find_feed(&crop_type) {
            Some(i) => i,
            None => return Err(StabilizationError::ChainlinkFeedNotFound),
        };
        if oracle != self.chainlink_feeds[fi].feed_address {
            return Err(StabilizationError::Unauthorized);
        }
        let staleness_period: u64 = 3600;
        match PriceUtils::validate_chainlink_response(now, price, timestamp, round_id, staleness_period) {
            Ok(_) => {},
            Err(e) => return Err(e),
        }
        let data = ChainlinkPriceData { price, timestamp, feed_address: oracle, round_id, decimals };
        match self.find_chainlink_price(&crop_type) {
            Some(i) => self.chainlink_prices.set(i, ChainlinkPrice { crop_type, data }),
            None => self.chainlink_prices.push(ChainlinkPrice { crop_type, data }),
        }
        Ok(())
    }
}

} // verus!
