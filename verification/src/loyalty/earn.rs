//! Earning points.
use super::{points_of, program_of, set_points, LoyaltyContract, LoyaltyError, LoyaltyState};
use crate::common::{Address, Bytes32};
use vstd::prelude::*;

verus! {

/// The points a transaction earns: the program's rate times the amount.
pub open spec fn points_earned(points_per_transaction: u32, transaction_amount: u32) -> int {
    points_per_transaction * transaction_amount
}

/// A user's balance after an award stays within 64 bits.
pub open spec fn award_fits(s: LoyaltyState, program_id: Bytes32, user: Address, transaction_amount: u32) -> bool {
    program_of(s, program_id) matches Some(p) ==> points_of(s, program_id, user) + points_earned(
        p.points_per_transaction,
        transaction_amount,
    ) <= u64::MAX
}

/// Whether an award keeps the user's balance within 64 bits; where it would
/// not, awarding overflows.
pub fn award_in_range(state: &LoyaltyContract, program_id: Bytes32, user_address: Address, transaction_amount: u32) -> (b: bool)
    ensures
        b == award_fits(state@, program_id, user_address, transaction_amount),
{
    match state.find_program(program_id) {
        None => true,
        Some(i) => {
            assert(state@.programs[i as int] == state.programs@[i as int]@);
            let rate = state.programs[i].points_per_transaction as u64;
            let amount = transaction_amount as u64;
            assert(rate * amount <= 0xffff_ffff * 0xffff_ffff) by (nonlinear_arith)
                requires
                    rate <= 0xffff_ffff,
                    amount <= 0xffff_ffff,
            ;
            let earned = rate * amount;
            let current = state.get_points(program_id, user_address);
            current <= u64::MAX - earned
        },
    }
}

/// Awards a user the points a transaction of `transaction_amount` earns in a
/// program, and returns them.
pub fn award_points(
    state: &mut LoyaltyContract,
    program_id: Bytes32,
    user_address: Address,
    transaction_amount: u32,
) -> (r: Result<u64, LoyaltyError>)
    requires
        award_fits(old(state)@, program_id, user_address, transaction_amount),
    ensures
        match program_of(old(state)@, program_id) {
            None => r == Err::<u64, LoyaltyError>(LoyaltyError::ProgramNotFound) && final(state)@ == old(state)@,
            Some(p) => {
                let earned = points_earned(p.points_per_transaction, transaction_amount);
                &&& r == Ok::<u64, LoyaltyError>(earned as u64)
                &&& final(state)@ == (LoyaltyState {
                    balances: set_points(
                        old(state)@.balances,
                        program_id,
                        user_address,
                        (points_of(old(state)@, program_id, user_address) + earned) as u64,
                    ),
                    ..old(state)@
                })
            },
        },
{
    let i = match state.find_program(program_id) {
        Some(i) => i,
        None => return Err(LoyaltyError::ProgramNotFound),
    };
    assert(state@.programs[i as int] == state.programs@[i as int]@);
    let rate = state.programs[i].points_per_transaction;
    let points_to_award = (rate as u64) * (transaction_amount as u64);
    let current_points = state.get_points(program_id, user_address);
    let new_points = current_points + points_to_award;
    state.put_points(program_id, user_address, new_points);
    Ok(points_to_award)
}

} // verus!
