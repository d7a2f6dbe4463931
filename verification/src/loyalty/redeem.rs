//! Redeeming points for rewards.
use super::{
    points_of, program_key, program_of, set_points, LoyaltyContract, LoyaltyError,
    LoyaltyProgramView, LoyaltyState, RedemptionOption,
};
use crate::common::{first_match, lemma_first_match_at, lemma_first_match_none, Address, Bytes32};
use vstd::prelude::*;

verus! {

pub open spec fn option_key(id: u32) -> spec_fn(RedemptionOption) -> bool {
    |o: RedemptionOption| o.id == id
}

/// The state after a user redeems a reward, or why the redemption is refused.
pub open spec fn redeem_model(s: LoyaltyState, program_id: Bytes32, user: Address, option_id: u32) -> Result<LoyaltyState, LoyaltyError> {
    match first_match(s.programs, program_key(program_id)) {
        None => Err(LoyaltyError::ProgramNotFound),
        Some(i) => {
            let p = s.programs[i];
            let points = points_of(s, program_id, user);
            match first_match(p.redemption_options, option_key(option_id)) {
                None => Err(LoyaltyError::RedemptionOptionNotFound),
                Some(k) => {
                    let o = p.redemption_options[k];
                    if o.available_quantity == 0 {
                        Err(LoyaltyError::RewardOutOfStock)
                    } else if points < o.points_required {
                        Err(LoyaltyError::InsufficientPoints)
                    } else {
                        Ok(LoyaltyState {
                            programs: s.programs.update(i, LoyaltyProgramView {
                                redemption_options: p.redemption_options.update(k, RedemptionOption {
                                    available_quantity: (o.available_quantity - 1) as u32,
                                    ..o
                                }),
                                ..p
                            }),
                            balances: set_points(s.balances, program_id, user, (points - o.points_required) as u64),
                        })
                    }
                },
            }
        },
    }
}

/// The position of a reward in a list, if any.
fn find_option(options: &Vec<RedemptionOption>, id: u32) -> (r: Option<usize>)
    ensures
        crate::common::as_index(r) == first_match(options@, option_key(id)),
{
    let mut k: usize = 0;
    while k < options.len()
        invariant
            k <= options@.len(),
            forall|j: int| 0 <= j < k ==> !option_key(id)(#[trigger] options@[j]),
        decreases options@.len() - k,
    {
        if options[k].id == id {
            proof { lemma_first_match_at(options@, option_key(id), k as int); }
            return Some(k);
        }
        k += 1;
    }
    proof { lemma_first_match_none(options@, option_key(id)); }
    None
}

/// A user redeems points for a reward in stock: the reward's points leave
/// the balance and one unit leaves the stock.
pub fn redeem_reward(
    state: &mut LoyaltyContract,
    program_id: Bytes32,
    user_address: Address,
    redemption_option_id: u32,
) -> (r: Result<(), LoyaltyError>)
    ensures
        match redeem_model(old(state)@, program_id, user_address, redemption_option_id) {
            Ok(ns) => r == Ok::<(), LoyaltyError>(()) && final(state)@ == ns,
            Err(e) => r == Err::<(), LoyaltyError>(e) && final(state)@ == old(state)@,
        },
{
    let i = match state.find_program(program_id) {
        Some(i) => i,
        None => return Err(LoyaltyError::ProgramNotFound),
    };
    let ghost s0 = state@;
    assert(s0.programs[i as int] == state.programs@[i as int]@);
    let user_points = state.get_points(program_id, user_address);
    let k = match find_option(&state.programs[i].redemption_options, redemption_option_id) {
        Some(k) => k,
        None => return Err(LoyaltyError::RedemptionOptionNotFound),
    };
    let quantity = state.programs[i].redemption_options[k].available_quantity;
    let required = state.programs[i].redemption_options[k].points_required;
    if quantity == 0 {
        return Err(LoyaltyError::RewardOutOfStock);
    }
    if user_points < required as u64 {
        return Err(LoyaltyError::InsufficientPoints);
    }
    let new_points = user_points - required as u64;
    state.put_points(program_id, user_address, new_points);
    let mut option = super::copy_option(&state.programs[i].redemption_options[k]);
    option.available_quantity = quantity - 1;
    let mut program = super::program::get_program_info(state, program_id).unwrap();
    program.redemption_options.set(k, option);
    let ghost pv = program@;
    state.programs.set(i, program);
    assert(state@.programs =~= s0.programs.update(i as int, pv));
    Ok(())
}

} // verus!
