//! Properties that hold across the stabilization fund's operations.
use super::distribution::{eligible_farmers, payout_total, trigger_payout_spec};
use super::utils::{fund_of, market_price_of};
use super::{fund_key, PriceStabilizationState};
use crate::common::{first_match, is_first_match, lemma_first_match_update, Address, Bytes32};
use vstd::prelude::*;

verus! {

/// A fund pays out only while the market price of its crop is below the
/// fund's threshold, and a payout takes out of the fund exactly what the
/// eligible farmers receive, never more than it holds.
pub proof fn law_payout_within_fund(s: PriceStabilizationState, admin: Address, fund_id: Bytes32, farmers: Seq<Address>, now: u64)
    requires
        trigger_payout_spec(s, admin, fund_id, farmers, now) is Ok,
    ensures
        ({
            let f = fund_of(s, fund_id).unwrap();
            let ns = trigger_payout_spec(s, admin, fund_id, farmers, now).unwrap();
            let p = market_price_of(s, f.crop_type@).unwrap();
            let t = payout_total(s, eligible_farmers(s, farmers, f.crop_type@), f.crop_type@, f.price_threshold - p, f.price_threshold as int).unwrap();
            &&& market_price_of(s, f.crop_type@) is Some
            &&& p < f.price_threshold
            &&& fund_of(ns, fund_id) matches Some(g) && g.total_balance == f.total_balance - t && g.total_balance >= 0
                && g.last_payout_time == Some(now)
        }),
{
    let i = first_match(s.funds, fund_key(fund_id)).unwrap();
    let k = choose|k: int| is_first_match(s.funds, fund_key(fund_id), k);
    assert(is_first_match(s.funds, fund_key(fund_id), k));
    let ns = trigger_payout_spec(s, admin, fund_id, farmers, now).unwrap();
    lemma_first_match_update(s.funds, fund_key(fund_id), i, ns.funds[i]);
}

} // verus!
