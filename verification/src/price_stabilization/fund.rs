//! Creating funds, contributing to them and adjusting their thresholds.
use super::datatype::{Contributor, StabilizationError, StabilizationFund};
use super::utils::{fits_i128, fund_of};
use super::{contributor_key, fund_key, FundContributor, PriceStabilizationContract, PriceStabilizationState};
use crate::common::{bytes32_of, first_match, generate_id, sha256_digest, Address, Bytes32};
use vstd::prelude::*;

verus! {

/// The big-endian bytes of a 64-bit number.
pub open spec fn be_bytes_u64(x: u64) -> Seq<u8> {
    seq![
        (x >> 56u64) as u8, (x >> 48u64) as u8, (x >> 40u64) as u8, (x >> 32u64) as u8,
        (x >> 24u64) as u8, (x >> 16u64) as u8, (x >> 8u64) as u8, x as u8,
    ]
}

/// The big-endian bytes of a 32-bit number.
pub open spec fn be_bytes_u32(x: u32) -> Seq<u8> {
    seq![(x >> 24u32) as u8, (x >> 16u32) as u8, (x >> 8u32) as u8, x as u8]
}

/// The bytes a fund identifier is hashed from: ledger time, then ledger sequence.
pub open spec fn fund_seed(now: u64, sequence: u32) -> Seq<u8> {
    be_bytes_u64(now) + be_bytes_u32(sequence)
}

/// The identifier of a fund created at the given ledger time and sequence.
pub open spec fn fund_id_for(now: u64, sequence: u32) -> Bytes32 {
    bytes32_of(sha256_digest(fund_seed(now, sequence)))
}

/// A fund's status figures: balance, threshold, creation time and, once it
/// has paid out, the time of the last payout.
#[derive(Clone, Copy, Debug, PartialEq, Eq, Structural)]
pub struct FundStatus {
    pub total_balance: i128,
    pub price_threshold: i128,
    pub creation_time: i128,
    pub last_payout_time: Option<i128>,
}

/// The contribution records after `amount` more from `a` to fund `id` at `now`.
pub open spec fn record_contribution(cs: Seq<FundContributor>, id: Bytes32, a: Address, amount: i128, now: u64) -> Seq<FundContributor> {
    match first_match(cs, contributor_key(id, a)) {
        Some(i) => cs.update(i, FundContributor {
            fund_id: id,
            record: Contributor {
                address: a,
                total_contribution: (cs[i].record.total_contribution + amount) as i128,
                last_contribution_time: now,
            },
        }),
        None => cs.push(FundContributor {
            fund_id: id,
            record: Contributor { address: a, total_contribution: amount, last_contribution_time: now },
        }),
    }
}

/// A contribution would not overflow the fund balance or the contributor total.
pub open spec fn contribution_fits(s: PriceStabilizationState, id: Bytes32, a: Address, amount: i128) -> bool {
    &&& (fund_of(s, id) matches Some(f) ==> fits_i128(f.total_balance + amount))
    &&& (first_match(s.contributors, contributor_key(id, a)) matches Some(i) ==> fits_i128(
        s.contributors[i].record.total_contribution + amount,
    ))
}

/// A copy of a fund with another balance and threshold.
fn with_figures(f: &StabilizationFund, total_balance: i128, price_threshold: i128, last_payout_time: Option<u64>) -> (r: StabilizationFund)
    ensures
        r == (StabilizationFund { total_balance, price_threshold, last_payout_time, ..*f }),
{
    StabilizationFund {
        fund_id: f.fund_id,
        fund_name: f.fund_name.clone(),
        admin: f.admin,
        total_balance,
        price_threshold,
        crop_type: f.crop_type.clone(),
        active: f.active,
        creation_time: f.creation_time,
        last_payout_time,
    }
}

impl PriceStabilizationContract {
    /// Replaces the fund at position `i` by a copy with new figures.
    pub(crate) fn set_fund_figures(&mut self, i: usize, total_balance: i128, price_threshold: i128, last_payout_time: Option<u64>)
        requires
            i < old(self).funds@.len(),
        ensures
            final(self)@ == (PriceStabilizationState {
                funds: old(self)@.funds.update(i as int, StabilizationFund {
                    total_balance,
                    price_threshold,
                    last_payout_time,
                    ..old(self)@.funds[i as int]
                }),
                ..old(self)@
            }),
    {
        let f = with_figures(&self.funds[i], total_balance, price_threshold, last_payout_time);
        self.funds.set(i, f);
    }

    /// Creates a fund administered by the contract admin, with an identifier
    /// hashed from the ledger time and sequence.
    pub fn create_fund(
        &mut self,
        admin: Address,
        fund_name: String,
        price_threshold: i128,
        crop_type: String,
        now: u64,
        sequence: u32,
    ) -> (r: Result<Bytes32, StabilizationError>)
        requires
            old(self).admin is Some,
        ensures
            old(self).admin != Some(admin) ==> r == Err::<Bytes32, StabilizationError>(StabilizationError::Unauthorized),
            old(self).admin == Some(admin) && (price_threshold <= 0 || fund_name@.len() == 0
                || crop_type@.len() == 0) ==> r == Err::<Bytes32, StabilizationError>(StabilizationError::InvalidInput),
            old(self).admin == Some(admin) && price_threshold > 0 && fund_name@.len() > 0 && crop_type@.len() > 0 ==> {
                let id = fund_id_for(now, sequence);
                &&& (fund_of(old(self)@, id) is Some ==> r == Err::<Bytes32, StabilizationError>(StabilizationError::FundAlreadyExists))
                &&& (fund_of(old(self)@, id) is None ==> {
                    &&& r == Ok::<Bytes32, StabilizationError>(id)
                    &&& final(self)@ == (PriceStabilizationState {
                        funds: old(self)@.funds.push(StabilizationFund {
                            fund_id: id,
                            fund_name,
                            admin,
                            total_balance: 0,
                            price_threshold,
                            crop_type,
                            active: true,
                            creation_time: now,
                            last_payout_time: None,
                        }),
                        ..old(self)@
                    })
                })
            },
            r is Err ==> final(self)@ == old(self)@,
    {
        if self.admin != Some(admin) {
            return Err(StabilizationError::Unauthorized);
        }
        if price_threshold <= 0 || fund_name.as_str().is_empty() || crop_type.as_str().is_empty() {
            return Err(StabilizationError::InvalidInput);
        }
        let mut seed: Vec<u8> = Vec::new();
        seed.push((now >> 56u64) as u8);
        seed.push((now >> 48u64) as u8);
        seed.push((now >> 40u64) as u8);
        seed.push((now >> 32u64) as u8);
        seed.push((now >> 24u64) as u8);
        seed.push((now >> 16u64) as u8);
        seed.push((now >> 8u64) as u8);
        seed.push(now as u8);
        seed.push((sequence >> 24u32) as u8);
        seed.push((sequence >> 16u32) as u8);
        seed.push((sequence >> 8u32) as u8);
        seed.push(sequence as u8);
        assert(seed@ == fund_seed(now, sequence));
        let fund_id = generate_id(&seed);
        self.open_fund(fund_id, fund_name, admin, price_threshold, crop_type, now)
    }

    /// Opens an active, empty fund under `fund_id`, unless one exists already.
    pub fn open_fund(
        &mut self,
        fund_id: Bytes32,
        fund_name: String,
        admin: Address,
        price_threshold: i128,
        crop_type: String,
        now: u64,
    ) -> (r: Result<Bytes32, StabilizationError>)
        ensures
            fund_of(old(self)@, fund_id) is Some ==> r == Err::<Bytes32, StabilizationError>(StabilizationError::FundAlreadyExists)
                && final(self)@ == old(self)@,
            fund_of(old(self)@, fund_id) is None ==> {
                &&& r == Ok::<Bytes32, StabilizationError>(fund_id)
                &&& final(self)@ == (PriceStabilizationState {
                    funds: old(self)@.funds.push(StabilizationFund {
                        fund_id,
                        fund_name,
                        admin,
                        total_balance: 0,
                        price_threshold,
                        crop_type,
                        active: true,
                        creation_time: now,
                        last_payout_time: None,
                    }),
                    ..old(self)@
                })
            },
    {
        if self.find_fund(fund_id).is_some() {
            return Err(StabilizationError::FundAlreadyExists);
        }
        self.funds.push(StabilizationFund {
            fund_id,
            fund_name,
            admin,
            total_balance: 0,
            price_threshold,
            crop_type,
            active: true,
            creation_time: now,
            last_payout_time: None,
        });
        Ok(fund_id)
    }

    /// Whether a contribution keeps the fund's balance and the contributor's
    /// total in range.
    pub fn contribution_in_range(&self, fund_id: Bytes32, contributor: Address, amount: i128) -> (b: bool)
        ensures
            b == contribution_fits(self@, fund_id, contributor, amount),
    {
        if let Some(i) = self.find_fund(fund_id) {
            if self.funds[i].total_balance.checked_add(amount).is_none() {
                return false;
            }
        }
        match self.find_contributor(fund_id, contributor) {
            Some(i) => self.contributors[i].record.total_contribution.checked_add(amount).is_some(),
            None => true,
        }
    }

    /// Adds `amount` to an active fund's balance and to the contributor's record.
    pub fn contribute_fund(&mut self, contributor: Address, fund_id: Bytes32, amount: i128, now: u64) -> (r: Result<(), StabilizationError>)
        requires
            contribution_fits(old(self)@, fund_id, contributor, amount),
        ensures
            amount <= 0 ==> r == Err::<(), StabilizationError>(StabilizationError::InvalidInput),
            amount > 0 ==> match fund_of(old(self)@, fund_id) {
                None => r == Err::<(), StabilizationError>(StabilizationError::FundNotFound),
                Some(f) => if !f.active {
                    r == Err::<(), StabilizationError>(StabilizationError::FundNotFound)
                } else {
                    let i = first_match(old(self)@.funds, fund_key(fund_id)).unwrap();
                    &&& r == Ok::<(), StabilizationError>(())
                    &&& final(self)@ == (PriceStabilizationState {
                        funds: old(self)@.funds.update(i, StabilizationFund {
                            total_balance: (f.total_balance + amount) as i128,
                            ..f
                        }),
                        contributors: record_contribution(old(self)@.contributors, fund_id, contributor, amount, now),
                        ..old(self)@
                    })
                },
            },
            r is Err ==> final(self)@ == old(self)@,
    {
        if amount <= 0 {
            return Err(StabilizationError::InvalidInput);
        }
        let fi = match self.find_fund(fund_id) {
            Some(i) => i,
            None => return Err(StabilizationError::FundNotFound),
        };
        if !self.funds[fi].active {
            return Err(StabilizationError::FundNotFound);
        }
        let new_balance = self.funds[fi].total_balance + amount;
        let threshold = self.funds[fi].price_threshold;
        let last = self.funds[fi].last_payout_time;
        self.set_fund_figures(fi, new_balance, threshold, last);
        match self.find_contributor(fund_id, contributor) {
            Some(ci) => {
                let total = self.contributors[ci].record.total_contribution + amount;
                self.contributors.set(ci, FundContributor {
                    fund_id,
                    record: Contributor { address: contributor, total_contribution: total, last_contribution_time: now },
                });
            },
            None => {
                self.contributors.push(FundContributor {
                    fund_id,
                    record: Contributor { address: contributor, total_contribution: amount, last_contribution_time: now },
                });
            },
        }
        Ok(())
    }

    /// The status figures of a fund.
    pub fn get_fund_status(&self, fund_id: Bytes32) -> (r: Result<FundStatus, StabilizationError>)
        ensures
            r == (match fund_of(self@, fund_id) {
                None => Err::<FundStatus, StabilizationError>(StabilizationError::FundNotFound),
                Some(f) => Ok(FundStatus {
                    total_balance: f.total_balance,
                    price_threshold: f.price_threshold,
                    creation_time: f.creation_time as i128,
                    last_payout_time: match f.last_payout_time {
                        Some(t) => Some(t as i128),
                        None => None,
                    },
                }),
            }),
    {
        let fi = match self.find_fund(fund_id) {
            Some(i) => i,
            None => return Err(StabilizationError::FundNotFound),
        };
        let f = &self.funds[fi];
        Ok(FundStatus {
            total_balance: f.total_balance,
            price_threshold: f.price_threshold,
            creation_time: f.creation_time as i128,
            last_payout_time: match f.last_payout_time {
                Some(t) => Some(t as i128),
                None => None,
            },
        })
    }

    /// Sets a new threshold on a fund; only its admin may.
    pub fn update_price_threshold(&mut self, admin: Address, fund_id: Bytes32, new_threshold: i128) -> (r: Result<(), StabilizationError>)
        ensures
            new_threshold <= 0 ==> r == Err::<(), StabilizationError>(StabilizationError::InvalidInput),
            new_threshold > 0 ==> match fund_of(old(self)@, fund_id) {
                None => r == Err::<(), StabilizationError>(StabilizationError::FundNotFound),
                Some(f) => if f.admin != admin {
                    r == Err::<(), StabilizationError>(StabilizationError::Unauthorized)
                } else {
                    &&& r == Ok::<(), StabilizationError>(())
                    &&& final(self)@ == (PriceStabilizationState {
                        funds: old(self)@.funds.update(
                            first_match(old(self)@.funds, fund_key(fund_id)).unwrap(),
                            StabilizationFund { price_threshold: new_threshold, ..f },
                        ),
                        ..old(self)@
                    })
                },
            },
            r is Err ==> final(self)@ == old(self)@,
    {
        if new_threshold <= 0 {
            return Err(StabilizationError::InvalidInput);
        }
        let fi = match self.find_fund(fund_id) {
            Some(i) => i,
            None => return Err(StabilizationError::FundNotFound),
        };
        if admin != self.funds[fi].admin {
            return Err(StabilizationError::Unauthorized);
        }
        let balance = self.funds[fi].total_balance;
        let last = self.funds[fi].last_payout_time;
        self.set_fund_figures(fi, balance, new_threshold, last);
        Ok(())
    }
}

} // verus!
