//! A fund that protects farmers against low crop prices: contributors pay in,
//! oracles report market prices and the fund pays farmers the shortfall below
//! a threshold price times their production capacity.
pub mod datatype;
pub mod distribution;
pub mod fund;
pub mod laws;
pub mod pricing;
pub mod utils;

use crate::common::{
    as_index, first_match, lemma_first_match_at, lemma_first_match_none, Address, Bytes32,
};
use datatype::{
    ChainlinkPriceData, ChainlinkPriceFeed, Contributor, Farmer, FarmerCrop, Payout, PriceData,
    StabilizationFund,
};
use vstd::prelude::*;

verus! {

/// A contribution record of one account to one fund.
#[derive(Clone, Copy, Debug, PartialEq, Eq, Structural)]
pub struct FundContributor {
    pub fund_id: Bytes32,
    pub record: Contributor,
}

/// The oracle allowed to report prices of a crop.
#[derive(Clone, Debug)]
pub struct PriceOracle {
    pub crop_type: String,
    pub oracle: Address,
}

/// The latest reported market price of a crop.
#[derive(Clone, Debug)]
pub struct MarketPrice {
    pub crop_type: String,
    pub data: PriceData,
}

/// A crop registered for a farmer.
#[derive(Clone, Debug)]
pub struct FarmerCropRecord {
    pub farmer: Address,
    pub crop: FarmerCrop,
}

/// The latest Chainlink answer for a crop.
#[derive(Clone, Debug)]
pub struct ChainlinkPrice {
    pub crop_type: String,
    pub data: ChainlinkPriceData,
}

/// The persistent state of the price stabilization contract.  Each list is
/// read by key; a key stands for its first entry in the list.
pub struct PriceStabilizationContract {
    pub admin: Option<Address>,
    pub funds: Vec<StabilizationFund>,
    pub contributors: Vec<FundContributor>,
    pub price_oracles: Vec<PriceOracle>,
    pub market_prices: Vec<MarketPrice>,
    pub farmers: Vec<Farmer>,
    pub farmer_crops: Vec<FarmerCropRecord>,
    pub payouts: Vec<Payout>,
    pub chainlink_feeds: Vec<ChainlinkPriceFeed>,
    pub chainlink_prices: Vec<ChainlinkPrice>,
}

/// The mathematical content of the contract's state.
pub struct PriceStabilizationState {
    pub admin: Option<Address>,
    pub funds: Seq<StabilizationFund>,
    pub contributors: Seq<FundContributor>,
    pub price_oracles: Seq<PriceOracle>,
    pub market_prices: Seq<MarketPrice>,
    pub farmers: Seq<Farmer>,
    pub farmer_crops: Seq<FarmerCropRecord>,
    pub payouts: Seq<Payout>,
    pub chainlink_feeds: Seq<ChainlinkPriceFeed>,
    pub chainlink_prices: Seq<ChainlinkPrice>,
}

impl View for PriceStabilizationContract {
    type V = PriceStabilizationState;

    open spec fn view(&self) -> PriceStabilizationState {
        PriceStabilizationState {
            admin: self.admin,
            funds: self.funds@,
            contributors: self.contributors@,
            price_oracles: self.price_oracles@,
            market_prices: self.market_prices@,
            farmers: self.farmers@,
            farmer_crops: self.farmer_crops@,
            payouts: self.payouts@,
            chainlink_feeds: self.chainlink_feeds@,
            chainlink_prices: self.chainlink_prices@,
        }
    }
}

pub open spec fn fund_key(id: Bytes32) -> spec_fn(StabilizationFund) -> bool {
    |f: StabilizationFund| f.fund_id == id
}

pub open spec fn contributor_key(id: Bytes32, a: Address) -> spec_fn(FundContributor) -> bool {
    |c: FundContributor| c.fund_id == id && c.record.address == a
}

pub open spec fn oracle_key(crop: Seq<char>) -> spec_fn(PriceOracle) -> bool {
    |o: PriceOracle| o.crop_type@ == crop
}

pub open spec fn market_price_key(crop: Seq<char>) -> spec_fn(MarketPrice) -> bool {
    |m: MarketPrice| m.crop_type@ == crop
}

pub open spec fn farmer_key(a: Address) -> spec_fn(Farmer) -> bool {
    |f: Farmer| f.address == a
}

pub open spec fn farmer_crop_key(a: Address, crop: Seq<char>) -> spec_fn(FarmerCropRecord) -> bool {
    |r: FarmerCropRecord| r.farmer == a && r.crop.crop_type@ == crop
}

pub open spec fn payout_key(fund: Bytes32, farmer: Address, t: u64) -> spec_fn(Payout) -> bool {
    |p: Payout| p.fund_id == fund && p.farmer_id == farmer && p.timestamp == t
}

pub open spec fn feed_key(crop: Seq<char>) -> spec_fn(ChainlinkPriceFeed) -> bool {
    |f: ChainlinkPriceFeed| f.crop_type@ == crop
}

pub open spec fn chainlink_price_key(crop: Seq<char>) -> spec_fn(ChainlinkPrice) -> bool {
    |c: ChainlinkPrice| c.crop_type@ == crop
}

/// The state of a freshly deployed contract.
pub open spec fn empty_state() -> PriceStabilizationState {
    PriceStabilizationState {
        admin: None,
        funds: Seq::empty(),
        contributors: Seq::empty(),
        price_oracles: Seq::empty(),
        market_prices: Seq::empty(),
        farmers: Seq::empty(),
        farmer_crops: Seq::empty(),
        payouts: Seq::empty(),
        chainlink_feeds: Seq::empty(),
        chainlink_prices: Seq::empty(),
    }
}

impl PriceStabilizationContract {
    /// A contract with no admin and nothing stored.
    pub fn new() -> (c: Self)
        ensures
            c@ == empty_state(),
    {
        PriceStabilizationContract {
            admin: None,
            funds: Vec::new(),
            contributors: Vec::new(),
            price_oracles: Vec::new(),
            market_prices: Vec::new(),
            farmers: Vec::new(),
            farmer_crops: Vec::new(),
            payouts: Vec::new(),
            chainlink_feeds: Vec::new(),
            chainlink_prices: Vec::new(),
        }
    }

    /// Sets the contract admin once; `false`, and nothing changed, if an admin
    /// is already set.
    pub fn init(&mut self, admin: Address) -> (ok: bool)
        ensures
            ok == (old(self).admin is None),
            ok ==> final(self)@ == (PriceStabilizationState { admin: Some(admin), ..old(self)@ }),
            !ok ==> final(self)@ == old(self)@,
    {
        if self.admin.is_some() {
            return false;
        }
        self.admin = Some(admin);
        true
    }

    /// The first fund with the identifier, if any.
    pub fn find_fund(&self, id: Bytes32) -> (r: Option<usize>)
        ensures
            as_index(r) == first_match(self.funds@, fund_key(id)),
    {
        let mut i: usize = 0;
        while i < self.funds.len()
            invariant
                i <= self.funds@.len(),
                forall|j: int| 0 <= j < i ==> !fund_key(id)(#[trigger] self.funds@[j]),
            decreases self.funds@.len() - i,
        {
            if self.funds[i].fund_id == id {
                proof { lemma_first_match_at(self.funds@, fund_key(id), i as int); }
                return Some(i);
            }
            i += 1;
        }
        proof { lemma_first_match_none(self.funds@, fund_key(id)); }
        None
    }

    /// The first entry of `contributors` under the key, if any.
    pub fn find_contributor(&self, id: Bytes32, a: Address) -> (r: Option<usize>)
        ensures
            as_index(r) == first_match(self.contributors@, contributor_key(id, a)),
    {
        let mut i: usize = 0;
        while i < self.contributors.len()
            invariant
                i <= self.contributors@.len(),
                forall|j: int| 0 <= j < i ==> !contributor_key(id, a)(#[trigger] self.contributors@[j]),
            decreases self.contributors@.len() - i,
        {
            if self.contributors[i].fund_id == id && self.contributors[i].record.address == a {
                proof { lemma_first_match_at(self.contributors@, contributor_key(id, a), i as int); }
                return Some(i);
            }
            i += 1;
        }
        proof { lemma_first_match_none(self.contributors@, contributor_key(id, a)); }
        None
    }

    /// The first entry of `price_oracles` under the key, if any.
    pub fn find_oracle(&self, crop: &String) -> (r: Option<usize>)
        ensures
            as_index(r) == first_match(self.price_oracles@, oracle_key(crop@)),
    {
        let mut i: usize = 0;
        while i < self.price_oracles.len()
            invariant
                i <= self.price_oracles@.len(),
                forall|j: int| 0 <= j < i ==> !oracle_key(crop@)(#[trigger] self.price_oracles@[j]),
            decreases self.price_oracles@.len() - i,
        {
            if self.price_oracles[i].crop_type == *crop {
                proof { lemma_first_match_at(self.price_oracles@, oracle_key(crop@), i as int); }
                return Some(i);
            }
            i += 1;
        }
        proof { lemma_first_match_none(self.price_oracles@, oracle_key(crop@)); }
        None
    }

    /// The first entry of `market_prices` under the key, if any.
    pub fn find_market_price(&self, crop: &String) -> (r: Option<usize>)
        ensures
            as_index(r) == first_match(self.market_prices@, market_price_key(crop@)),
    {
        let mut i: usize = 0;
        while i < self.market_prices.len()
            invariant
                i <= self.market_prices@.len(),
                forall|j: int| 0 <= j < i ==> !market_price_key(crop@)(#[trigger] self.market_prices@[j]),
            decreases self.market_prices@.len() - i,
        {
            if self.market_prices[i].crop_type == *crop {
                proof { lemma_first_match_at(self.market_prices@, market_price_key(crop@), i as int); }
                return Some(i);
            }
            i += 1;
        }
        proof { lemma_first_match_none(self.market_prices@, market_price_key(crop@)); }
        None
    }

    /// The first entry of `farmers` under the key, if any.
    pub fn find_farmer(&self, a: Address) -> (r: Option<usize>)
        ensures
            as_index(r) == first_match(self.farmers@, farmer_key(a)),
    {
        let mut i: usize = 0;
        while i < self.farmers.len()
            invariant
                i <= self.farmers@.len(),
                forall|j: int| 0 <= j < i ==> !farmer_key(a)(#[trigger] self.farmers@[j]),
            decreases self.farmers@.len() - i,
        {
            if self.farmers[i].address == a {
                proof { lemma_first_match_at(self.farmers@, farmer_key(a), i as int); }
                return Some(i);
            }
            i += 1;
        }
        proof { lemma_first_match_none(self.farmers@, farmer_key(a)); }
        None
    }

    /// The first entry of `farmer_crops` under the key, if any.
    pub fn find_farmer_crop(&self, a: Address, crop: &String) -> (r: Option<usize>)
        ensures
            as_index(r) == first_match(self.farmer_crops@, farmer_crop_key(a, crop@)),
    {
        let mut i: usize = 0;
        while i < self.farmer_crops.len()
            invariant
                i <= self.farmer_crops@.len(),
                forall|j: int| 0 <= j < i ==> !farmer_crop_key(a, crop@)(#[trigger] self.farmer_crops@[j]),
            decreases self.farmer_crops@.len() - i,
        {
            if self.farmer_crops[i].farmer == a && self.farmer_crops[i].crop.crop_type == *crop {
                proof { lemma_first_match_at(self.farmer_crops@, farmer_crop_key(a, crop@), i as int); }
                return Some(i);
            }
            i += 1;
        }
        proof { lemma_first_match_none(self.farmer_crops@, farmer_crop_key(a, crop@)); }
        None
    }

    /// The first entry of `payouts` under the key, if any.
    pub fn find_payout(&self, fund: Bytes32, farmer: Address, t: u64) -> (r: Option<usize>)
        ensures
            as_index(r) == first_match(self.payouts@, payout_key(fund, farmer, t)),
    {
        let mut i: usize = 0;
        while i < self.payouts.len()
            invariant
                i <= self.payouts@.len(),
                forall|j: int| 0 <= j < i ==> !payout_key(fund, farmer, t)(#[trigger] self.payouts@[j]),
            decreases self.payouts@.len() - i,
        {
            if self.payouts[i].fund_id == fund && self.payouts[i].farmer_id == farmer && self.payouts[i].timestamp == t {
                proof { lemma_first_match_at(self.payouts@, payout_key(fund, farmer, t), i as int); }
                return Some(i);
            }
            i += 1;
        }
        proof { lemma_first_match_none(self.payouts@, payout_key(fund, farmer, t)); }
        None
    }

    /// The first entry of `chainlink_feeds` under the key, if any.
    pub fn find_feed(&self, crop: &String) -> (r: Option<usize>)
        ensures
            as_index(r) == first_match(self.chainlink_feeds@, feed_key(crop@)),
    {
        let mut i: usize = 0;
        while i < self.chainlink_feeds.len()
            invariant
                i <= self.chainlink_feeds@.len(),
                forall|j: int| 0 <= j < i ==> !feed_key(crop@)(#[trigger] self.chainlink_feeds@[j]),
            decreases self.chainlink_feeds@.len() - i,
        {
            if self.chainlink_feeds[i].crop_type == *crop {
                proof { lemma_first_match_at(self.chainlink_feeds@, feed_key(crop@), i as int); }
                return Some(i);
            }
            i += 1;
        }
        proof { lemma_first_match_none(self.chainlink_feeds@, feed_key(crop@)); }
        None
    }

    /// The first entry of `chainlink_prices` under the key, if any.
    pub fn find_chainlink_price(&self, crop: &String) -> (r: Option<usize>)
        ensures
            as_index(r) == first_match(self.chainlink_prices@, chainlink_price_key(crop@)),
    {
        let mut i: usize = 0;
        while i < self.chainlink_prices.len()
            invariant
                i <= self.chainlink_prices@.len(),
                forall|j: int| 0 <= j < i ==> !chainlink_price_key(crop@)(#[trigger] self.chainlink_prices@[j]),
            decreases self.chainlink_prices@.len() - i,
        {
            if self.chainlink_prices[i].crop_type == *crop {
                proof { lemma_first_match_at(self.chainlink_prices@, chainlink_price_key(crop@), i as int); }
                return Some(i);
            }
            i += 1;
        }
        proof { lemma_first_match_none(self.chainlink_prices@, chainlink_price_key(crop@)); }
        None
    }
}

} // verus!
