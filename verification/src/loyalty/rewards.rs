//! Listing the rewards on offer.
use super::{program_of, LoyaltyContract, LoyaltyError, RedemptionOption};
use crate::common::Bytes32;
use vstd::prelude::*;

verus! {

/// The rewards among `options` still in stock, in order.
pub open spec fn in_stock(options: Seq<RedemptionOption>) -> Seq<RedemptionOption>
    decreases options.len(),
{
    if options.len() == 0 {
        Seq::empty()
    } else {
        let rest = in_stock(options.drop_last());
        if options.last().available_quantity > 0 { rest.push(options.last()) } else { rest }
    }
}

/// The rewards of a program that are still in stock, in order.
pub fn list_available_rewards(state: &LoyaltyContract, program_id: Bytes32) -> (r: Result<Vec<RedemptionOption>, LoyaltyError>)
    ensures
        match program_of(state@, program_id) {
            Some(p) => r matches Ok(v) && v@ == in_stock(p.redemption_options),
            None => r == Err::<Vec<RedemptionOption>, LoyaltyError>(LoyaltyError::ProgramNotFound),
        },
{
    let program = match super::program::get_program_info(state, program_id) {
        Ok(p) => p,
        Err(e) => return Err(e),
    };
    let options = &program.redemption_options;
    let mut available_rewards: Vec<RedemptionOption> = Vec::new();
    let mut k: usize = 0;
    while k < options.len()
        invariant
            k <= options@.len(),
            available_rewards@ == in_stock(options@.take(k as int)),
        decreases options@.len() - k,
    {
        assert(options@.take(k + 1 as int).drop_last() == options@.take(k as int));
        if options[k].available_quantity > 0 {
            available_rewards.push(super::copy_option(&options[k]));
        }
        k += 1;
    }
    assert(options@.take(options@.len() as int) == options@);
    Ok(available_rewards)
}

} // verus!
