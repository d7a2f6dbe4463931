//! Registering farmers and paying them out of a fund when prices are low.
use super::datatype::{Farmer, FarmerCrop, Payout, StabilizationError, StabilizationFund};
use super::utils::{capacity_of, fits_i128, fund_of, market_price_of};
use super::{
    farmer_key, fund_key, payout_key, FarmerCropRecord, PriceStabilizationContract,
    PriceStabilizationState,
};
use crate::common::{
    as_index, first_match, lemma_first_match_at, lemma_first_match_none, trunc_div, Address, Bytes32,
};
use vstd::prelude::*;

verus! {

/// A farmer takes part in a payout for `crop`: registered, active and growing it.
pub open spec fn eligible(s: PriceStabilizationState, a: Address, crop: Seq<char>) -> bool {
    match first_match(s.farmers, farmer_key(a)) {
        Some(i) => s.farmers[i].active && capacity_of(s, a, crop) is Some,
        None => false,
    }
}

/// The listed farmers that take part in a payout for `crop`, in list order.
pub open spec fn eligible_farmers(s: PriceStabilizationState, farmers: Seq<Address>, crop: Seq<char>) -> Seq<Address>
    decreases farmers.len(),
{
    if farmers.len() == 0 {
        Seq::empty()
    } else {
        let rest = eligible_farmers(s, farmers.drop_last(), crop);
        if eligible(s, farmers.last(), crop) {
            rest.push(farmers.last())
        } else {
            rest
        }
    }
}

/// The price shortfall times a farmer's capacity for `crop`.
pub open spec fn shortfall_volume(s: PriceStabilizationState, a: Address, crop: Seq<char>, diff: int) -> int {
    diff * capacity_of(s, a, crop).unwrap()
}

/// A farmer's payout: the farmer's capacity times the fraction by which the
/// price fell below the threshold, `diff * capacity / threshold`, rounded
/// toward zero.
pub open spec fn payout_amount(s: PriceStabilizationState, a: Address, crop: Seq<char>, diff: int, threshold: int) -> int {
    trunc_div(shortfall_volume(s, a, crop, diff), threshold)
}

/// The sum of the payouts of the eligible farmers; `None` if a shortfall
/// volume or a partial sum leaves the `i128` range.
pub open spec fn payout_total(s: PriceStabilizationState, valid: Seq<Address>, crop: Seq<char>, diff: int, threshold: int) -> Option<int>
    decreases valid.len(),
{
    if valid.len() == 0 {
        Some(0)
    } else {
        match payout_total(s, valid.drop_last(), crop, diff, threshold) {
            None => None,
            Some(t) => {
                let p = payout_amount(s, valid.last(), crop, diff, threshold);
                if fits_i128(shortfall_volume(s, valid.last(), crop, diff)) && fits_i128(t + p) {
                    Some(t + p)
                } else {
                    None
                }
            },
        }
    }
}

/// The payout records after recording `p`, which replaces a record with the
/// same fund, farmer and time.
pub open spec fn upsert_payout(ps: Seq<Payout>, p: Payout) -> Seq<Payout> {
    match first_match(ps, payout_key(p.fund_id, p.farmer_id, p.timestamp)) {
        Some(i) => ps.update(i, p),
        None => ps.push(p),
    }
}

/// Pays the eligible farmers one by one: records each payout and adds it to
/// the farmer's total; `None` if an amount or a total leaves the `i128` range.
pub open spec fn distribute(
    s: PriceStabilizationState,
    farmers: Seq<Farmer>,
    payouts: Seq<Payout>,
    valid: Seq<Address>,
    fund: StabilizationFund,
    price: i128,
    diff: int,
    now: u64,
) -> Option<(Seq<Farmer>, Seq<Payout>)>
    decreases valid.len(),
{
    if valid.len() == 0 {
        Some((farmers, payouts))
    } else {
        match distribute(s, farmers, payouts, valid.drop_last(), fund, price, diff, now) {
            None => None,
            Some((fs, ps)) => {
                let a = valid.last();
                let amount = payout_amount(s, a, fund.crop_type@, diff, fund.price_threshold as int);
                if !fits_i128(shortfall_volume(s, a, fund.crop_type@, diff)) {
                    None
                } else {
                    let ps2 = upsert_payout(ps, Payout {
                        farmer_id: a,
                        fund_id: fund.fund_id,
                        amount: amount as i128,
                        timestamp: now,
                        market_price: price,
                        threshold_price: fund.price_threshold,
                    });
                    match first_match(fs, farmer_key(a)) {
                        None => None,
                        Some(i) => {
                            let total = fs[i].total_received_payouts + amount;
                            if !fits_i128(total) {
                                None
                            } else {
                                Some((fs.update(i, Farmer { total_received_payouts: total as i128, ..fs[i] }), ps2))
                            }
                        },
                    }
                }
            },
        }
    }
}

/// The state after a payout, or why it is refused.
pub open spec fn trigger_payout_spec(
    s: PriceStabilizationState,
    admin: Address,
    fund_id: Bytes32,
    farmers: Seq<Address>,
    now: u64,
) -> Result<PriceStabilizationState, StabilizationError> {
    match fund_of(s, fund_id) {
        None => Err(StabilizationError::FundNotFound),
        Some(f) => if admin != f.admin {
            Err(StabilizationError::Unauthorized)
        } else if farmers.len() == 0 {
            Err(StabilizationError::InvalidInput)
        } else {
            match market_price_of(s, f.crop_type@) {
                None => Err(StabilizationError::PriceDataNotAvailable),
                Some(p) => if p >= f.price_threshold {
                    Err(StabilizationError::ThresholdNotReached)
                } else if f.price_threshold <= 0 || !fits_i128(f.price_threshold - p) {
                    Err(StabilizationError::InvalidInput)
                } else {
                    let d = f.price_threshold - p;
                    let valid = eligible_farmers(s, farmers, f.crop_type@);
                    if valid.len() == 0 {
                        Err(StabilizationError::FarmerNotRegistered)
                    } else {
                        match payout_total(s, valid, f.crop_type@, d, f.price_threshold as int) {
                            None => Err(StabilizationError::InvalidInput),
                            Some(t) => if f.total_balance < t {
                                Err(StabilizationError::InsufficientFunds)
                            } else {
                                match distribute(s, s.farmers, s.payouts, valid, f, p, d, now) {
                                    None => Err(StabilizationError::InvalidInput),
                                    Some((fs, ps)) => if !fits_i128(f.total_balance - t) {
                                        Err(StabilizationError::InvalidInput)
                                    } else {
                                        Ok(PriceStabilizationState {
                                            funds: s.funds.update(
                                                first_match(s.funds, fund_key(fund_id)).unwrap(),
                                                StabilizationFund {
                                                    total_balance: (f.total_balance - t) as i128,
                                                    last_payout_time: Some(now),
                                                    ..f
                                                },
                                            ),
                                            farmers: fs,
                                            payouts: ps,
                                            ..s
                                        })
                                    },
                                }
                            },
                        }
                    }
                },
            }
        },
    }
}

proof fn lemma_eligible_farmers(s: PriceStabilizationState, farmers: Seq<Address>, crop: Seq<char>)
    ensures
        forall|j: int| 0 <= j < eligible_farmers(s, farmers, crop).len() ==> eligible(s, #[trigger] eligible_farmers(s, farmers, crop)[j], crop),
    decreases farmers.len(),
{
    if farmers.len() > 0 {
        lemma_eligible_farmers(s, farmers.drop_last(), crop);
        let rest = eligible_farmers(s, farmers.drop_last(), crop);
        let all = eligible_farmers(s, farmers, crop);
        assert forall|j: int| 0 <= j < all.len() implies eligible(s, #[trigger] all[j], crop) by {
            if j < rest.len() {
                assert(all[j] == rest[j]);
            }
        }
    }
}

proof fn lemma_payout_total_none(s: PriceStabilizationState, valid: Seq<Address>, crop: Seq<char>, diff: int, threshold: int, k: nat)
    requires
        k <= valid.len(),
        payout_total(s, valid.take(k as int), crop, diff, threshold) is None,
    ensures
        payout_total(s, valid, crop, diff, threshold) is None,
    decreases valid.len() - k,
{
    if k < valid.len() {
        assert(valid.take(k + 1 as int).drop_last() == valid.take(k as int));
        lemma_payout_total_none(s, valid, crop, diff, threshold, k + 1);
    } else {
        assert(valid.take(k as int) == valid);
    }
}

proof fn lemma_distribute_none(
    s: PriceStabilizationState,
    farmers: Seq<Farmer>,
    payouts: Seq<Payout>,
    valid: Seq<Address>,
    fund: StabilizationFund,
    price: i128,
    diff: int,
    now: u64,
    k: nat,
)
    requires
        k <= valid.len(),
        distribute(s, farmers, payouts, valid.take(k as int), fund, price, diff, now) is None,
    ensures
        distribute(s, farmers, payouts, valid, fund, price, diff, now) is None,
    decreases valid.len() - k,
{
    if k < valid.len() {
        assert(valid.take(k + 1 as int).drop_last() == valid.take(k as int));
        lemma_distribute_none(s, farmers, payouts, valid, fund, price, diff, now, k + 1);
    } else {
        assert(valid.take(k as int) == valid);
    }
}

/// The first farmer record of `a` in `v`, if any.
fn find_farmer_in(v: &Vec<Farmer>, a: Address) -> (r: Option<usize>)
    ensures
        as_index(r) == first_match(v@, farmer_key(a)),
{
    let mut i: usize = 0;
    while i < v.len()
        invariant
            i <= v@.len(),
            forall|j: int| 0 <= j < i ==> !farmer_key(a)(#[trigger] v@[j]),
        decreases v@.len() - i,
    {
        if v[i].address == a {
            proof { lemma_first_match_at(v@, farmer_key(a), i as int); }
            return Some(i);
        }
        i += 1;
    }
    proof { lemma_first_match_none(v@, farmer_key(a)); }
    None
}

/// The first payout record with the fund, farmer and time, if any.
fn find_payout_in(v: &Vec<Payout>, fund: Bytes32, farmer: Address, t: u64) -> (r: Option<usize>)
    ensures
        as_index(r) == first_match(v@, payout_key(fund, farmer, t)),
{
    let mut i: usize = 0;
    while i < v.len()
        invariant
            i <= v@.len(),
            forall|j: int| 0 <= j < i ==> !payout_key(fund, farmer, t)(#[trigger] v@[j]),
        decreases v@.len() - i,
    {
        if v[i].fund_id == fund && v[i].farmer_id == farmer && v[i].timestamp == t {
            proof { lemma_first_match_at(v@, payout_key(fund, farmer, t), i as int); }
            return Some(i);
        }
        i += 1;
    }
    proof { lemma_first_match_none(v@, payout_key(fund, farmer, t)); }
    None
}

/// A copy of a list of records.
fn copy_vec<T: Copy>(v: &Vec<T>) -> (r: Vec<T>)
    ensures
        r@ == v@,
{
    let mut r: Vec<T> = Vec::new();
    let mut i: usize = 0;
    while i < v.len()
        invariant
            i <= v@.len(),
            r@ == v@.take(i as int),
        decreases v@.len() - i,
    {
        r.push(v[i]);
        i += 1;
        assert(r@ == v@.take(i as int));
    }
    assert(v@.take(v@.len() as int) == v@);
    r
}

impl PriceStabilizationContract {
    /// Whether a farmer takes part in a payout for `crop`.
    fn is_eligible(&self, a: Address, crop: &String) -> (b: bool)
        ensures
            b == eligible(self@, a, crop@),
    {
        match self.find_farmer(a) {
            Some(i) => self.farmers[i].active && self.find_farmer_crop(a, crop).is_some(),
            None => false,
        }
    }

    /// Pays each eligible listed farmer its capacity times the fraction by
    /// which the market price fell below the fund's threshold, if the fund
    /// holds all of it; fund admin only.
    pub fn trigger_payout(&mut self, admin: Address, fund_id: Bytes32, farmers: &Vec<Address>, now: u64) -> (r: Result<(), StabilizationError>)
        ensures
            match trigger_payout_spec(old(self)@, admin, fund_id, farmers@, now) {
                Ok(ns) => r == Ok::<(), StabilizationError>(()) && final(self)@ == ns,
                Err(e) => r == Err::<(), StabilizationError>(e) && final(self)@ == old(self)@,
            },
    {
        let ghost s = self@;
        let fi = match self.find_fund(fund_id) {
            Some(i) => i,
            None => return Err(StabilizationError::FundNotFound),
        };
        if admin != self.funds[fi].admin {
            return Err(StabilizationError::Unauthorized);
        }
        if farmers.len() == 0 {
            return Err(StabilizationError::InvalidInput);
        }
        let pi = match self.find_market_price(&self.funds[fi].crop_type) {
            Some(i) => i,
            None => return Err(StabilizationError::PriceDataNotAvailable),
        };
        let price = self.market_prices[pi].data.price;
        let threshold = self.funds[fi].price_threshold;
        if price >= threshold {
            return Err(StabilizationError::ThresholdNotReached);
        }
        if threshold <= 0 {
            return Err(StabilizationError::InvalidInput);
        }
        let price_difference = match threshold.checked_sub(price) {
            Some(d) => d,
            None => return Err(StabilizationError::InvalidInput),
        };
        let ghost f = s.funds[fi as int];
        let ghost crop = f.crop_type@;

        // The eligible farmers, in list order.
        let mut valid: Vec<Address> = Vec::new();
        let mut k: usize = 0;
        while k < farmers.len()
            invariant
                self@ == s,
                fi < s.funds.len(),
                s.funds[fi as int].crop_type@ == crop,
                k <= farmers@.len(),
                valid@ == eligible_farmers(s, farmers@.take(k as int), crop),
            decreases farmers@.len() - k,
        {
            proof {
                assert(farmers@.take(k + 1 as int).drop_last() == farmers@.take(k as int));
            }
            if self.is_eligible(farmers[k], &self.funds[fi].crop_type) {
                valid.push(farmers[k]);
            }
            k += 1;
        }
        proof { assert(farmers@.take(farmers@.len() as int) == farmers@); }
        if valid.len() == 0 {
            return Err(StabilizationError::FarmerNotRegistered);
        }

        proof { lemma_eligible_farmers(s, farmers@, crop); }
        // The total to pay.
        let mut total_payout_needed: i128 = 0;
        let mut k: usize = 0;
        while k < valid.len()
            invariant
                self@ == s,
                fi < s.funds.len(),
                s.funds[fi as int].crop_type@ == crop,
                k <= valid@.len(),
                valid@ == eligible_farmers(s, farmers@, crop),
                forall|j: int| 0 <= j < valid@.len() ==> eligible(s, #[trigger] valid@[j], crop),
                old(self)@ == s,
                fund_of(s, fund_id) == Some(f),
                f.crop_type@ == crop,
                f.admin == admin,
                farmers@.len() > 0,
                market_price_of(s, crop) == Some(price),
                price < threshold,
                threshold > 0,
                f.price_threshold == threshold,
                price_difference == threshold - price,
                valid@.len() > 0,
                payout_total(s, valid@.take(k as int), crop, price_difference as int, threshold as int) == Some(total_payout_needed as int),
            decreases valid@.len() - k,
        {
            proof {
                assert(valid@.take(k + 1 as int).drop_last() == valid@.take(k as int));
                assert(eligible(s, valid@[k as int], crop));
            }
            let ci = self.find_farmer_crop(valid[k], &self.funds[fi].crop_type).unwrap();
            let capacity = self.farmer_crops[ci].crop.production_capacity;
            let step = match price_difference.checked_mul(capacity) {
                Some(p) => p / threshold,
                None => {
                    proof {
                        assert(capacity_of(s, valid@[k as int], crop) == Some(capacity));
                        assert(payout_total(s, valid@.take(k + 1 as int), crop, price_difference as int, threshold as int) is None);
                        lemma_payout_total_none(s, valid@, crop, price_difference as int, threshold as int, (k + 1) as nat);
                        assert(trigger_payout_spec(s, admin, fund_id, farmers@, now) == Err::<PriceStabilizationState, StabilizationError>(StabilizationError::InvalidInput));
                    }
                    return Err(StabilizationError::InvalidInput);
                },
            };
            total_payout_needed = match total_payout_needed.checked_add(step) {
                Some(t) => t,
                None => {
                    proof {
                        assert(capacity_of(s, valid@[k as int], crop) == Some(capacity));
                        assert(payout_total(s, valid@.take(k + 1 as int), crop, price_difference as int, threshold as int) is None);
                        lemma_payout_total_none(s, valid@, crop, price_difference as int, threshold as int, (k + 1) as nat);
                        assert(trigger_payout_spec(s, admin, fund_id, farmers@, now) == Err::<PriceStabilizationState, StabilizationError>(StabilizationError::InvalidInput));
                    }
                    return Err(StabilizationError::InvalidInput);
                },
            };
            k += 1;
        }
        proof { assert(valid@.take(valid@.len() as int) == valid@); }
        if self.funds[fi].total_balance < total_payout_needed {
            return Err(StabilizationError::InsufficientFunds);
        }

        // Pay each farmer.
        let mut new_farmers = copy_vec(&self.farmers);
        let mut new_payouts = copy_vec(&self.payouts);
        let fund_key_id = self.funds[fi].fund_id;
        let mut k: usize = 0;
        while k < valid.len()
            invariant
                self@ == s,
                fi < s.funds.len(),
                s.funds[fi as int] == f,
                f.crop_type@ == crop,
                f.fund_id == fund_key_id,
                f.price_threshold == threshold,
                k <= valid@.len(),
                valid@ == eligible_farmers(s, farmers@, crop),
                forall|j: int| 0 <= j < valid@.len() ==> eligible(s, #[trigger] valid@[j], crop),
                old(self)@ == s,
                fund_of(s, fund_id) == Some(f),
                f.crop_type@ == crop,
                f.admin == admin,
                farmers@.len() > 0,
                market_price_of(s, crop) == Some(price),
                price < threshold,
                threshold > 0,
                f.price_threshold == threshold,
                price_difference == threshold - price,
                valid@.len() > 0,
                payout_total(s, valid@, crop, price_difference as int, threshold as int) == Some(total_payout_needed as int),
                f.total_balance >= total_payout_needed,
                distribute(s, s.farmers, s.payouts, valid@.take(k as int), f, price, price_difference as int, now)
                    == Some((new_farmers@, new_payouts@)),
            decreases valid@.len() - k,
        {
            proof {
                assert(valid@.take(k + 1 as int).drop_last() == valid@.take(k as int));
                assert(eligible(s, valid@[k as int], crop));
            }
            let a = valid[k];
            let ci = self.find_farmer_crop(a, &self.funds[fi].crop_type).unwrap();
            let capacity = self.farmer_crops[ci].crop.production_capacity;
            let payout_amount = match price_difference.checked_mul(capacity) {
                Some(p) => p / threshold,
                None => {
                    proof { lemma_distribute_none(s, s.farmers, s.payouts, valid@, f, price, price_difference as int, now, (k + 1) as nat); }
                    return Err(StabilizationError::InvalidInput);
                },
            };
            let payout = Payout {
                farmer_id: a,
                fund_id: fund_key_id,
                amount: payout_amount,
                timestamp: now,
                market_price: price,
                threshold_price: threshold,
            };
            match find_payout_in(&new_payouts, fund_key_id, a, now) {
                Some(pi2) => new_payouts.set(pi2, payout),
                None => new_payouts.push(payout),
            }
            let fr = match find_farmer_in(&new_farmers, a) {
                Some(i) => i,
                None => {
                    proof { lemma_distribute_none(s, s.farmers, s.payouts, valid@, f, price, price_difference as int, now, (k + 1) as nat); }
                    return Err(StabilizationError::InvalidInput);
                },
            };
            let old_rec = new_farmers[fr];
            let new_total = match old_rec.total_received_payouts.checked_add(payout_amount) {
                Some(t) => t,
                None => {
                    proof { lemma_distribute_none(s, s.farmers, s.payouts, valid@, f, price, price_difference as int, now, (k + 1) as nat); }
                    return Err(StabilizationError::InvalidInput);
                },
            };
            new_farmers.set(fr, Farmer { total_received_payouts: new_total, ..old_rec });
            k += 1;
        }
        proof { assert(valid@.take(valid@.len() as int) == valid@); }
        let new_balance = match self.funds[fi].total_balance.checked_sub(total_payout_needed) {
            Some(b) => b,
            None => return Err(StabilizationError::InvalidInput),
        };
        self.set_fund_figures(fi, new_balance, threshold, Some(now));
        self.farmers = new_farmers;
        self.payouts = new_payouts;
        Ok(())
    }

    /// Registers a farmer; contract admin only, once per farmer.
    pub fn register_farmer(&mut self, admin: Address, farmer: Address, now: u64) -> (r: Result<(), StabilizationError>)
        ensures
            old(self).admin != Some(admin) ==> r == Err::<(), StabilizationError>(StabilizationError::Unauthorized),
            old(self).admin == Some(admin) ==> match first_match(old(self)@.farmers, farmer_key(farmer)) {
                Some(_) => r == Err::<(), StabilizationError>(StabilizationError::FarmerAlreadyRegistered),
                None => r == Ok::<(), StabilizationError>(()) && final(self)@ == (PriceStabilizationState {
                    farmers: old(self)@.farmers.push(Farmer {
                        address: farmer,
                        registered_time: now,
                        total_received_payouts: 0,
                        active: true,
                    }),
                    ..old(self)@
                }),
            },
            r is Err ==> final(self)@ == old(self)@,
    {
        if self.admin != Some(admin) {
            return Err(StabilizationError::Unauthorized);
        }
        if self.find_farmer(farmer).is_some() {
            return Err(StabilizationError::FarmerAlreadyRegistered);
        }
        self.farmers.push(Farmer { address: farmer, registered_time: now, total_received_payouts: 0, active: true });
        Ok(())
    }

    /// Registers a crop a registered farmer grows, once per farmer and crop.
    pub fn register_farmer_crop(&mut self, admin: Address, farmer: Address, crop_type: String, production_capacity: i128) -> (r: Result<(), StabilizationError>)
        ensures
            crop_type@.len() == 0 || production_capacity <= 0 ==> r == Err::<(), StabilizationError>(StabilizationError::InvalidInput),
            crop_type@.len() > 0 && production_capacity > 0 ==> {
                if first_match(old(self)@.farmers, farmer_key(farmer)) is None {
                    r == Err::<(), StabilizationError>(StabilizationError::FarmerNotRegistered)
                } else if capacity_of(old(self)@, farmer, crop_type@) is Some {
                    r == Err::<(), StabilizationError>(StabilizationError::CropAlreadyRegistered)
                } else {
                    r == Ok::<(), StabilizationError>(()) && final(self)@ == (PriceStabilizationState {
                        farmer_crops: old(self)@.farmer_crops.push(FarmerCropRecord {
                            farmer,
                            crop: FarmerCrop { crop_type, production_capacity },
                        }),
                        ..old(self)@
                    })
                }
            },
            r is Err ==> final(self)@ == old(self)@,
    {
        if crop_type.as_str().is_empty() || production_capacity <= 0 {
            return Err(StabilizationError::InvalidInput);
        }
        if self.find_farmer(farmer).is_none() {
            return Err(StabilizationError::FarmerNotRegistered);
        }
        if self.find_farmer_crop(farmer, &crop_type).is_some() {
            return Err(StabilizationError::CropAlreadyRegistered);
        }
        self.farmer_crops.push(FarmerCropRecord { farmer, crop: FarmerCrop { crop_type, production_capacity } });
        Ok(())
    }

    /// The payout history of a farmer in a fund.  No history is kept, so once
    /// the farmer and the fund are found the list is empty.
    pub fn get_farmer_payouts(&self, fund_id: Bytes32, farmer: Address) -> (r: Result<Vec<Payout>, StabilizationError>)
        ensures
            first_match(self@.farmers, farmer_key(farmer)) is None ==> r == Err::<Vec<Payout>, StabilizationError>(StabilizationError::FarmerNotRegistered),
            first_match(self@.farmers, farmer_key(farmer)) is Some ==> match fund_of(self@, fund_id) {
                None => r == Err::<Vec<Payout>, StabilizationError>(StabilizationError::FundNotFound),
                Some(_) => r matches Ok(v) && v@.len() == 0,
            },
    {
        if self.find_farmer(farmer).is_none() {
            return Err(StabilizationError::FarmerNotRegistered);
        }
        if self.find_fund(fund_id).is_none() {
            return Err(StabilizationError::FundNotFound);
        }
        Ok(Vec::new())
    }
}

} // verus!
