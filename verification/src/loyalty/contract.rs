//! The entry points of the loyalty contract.
use super::earn::{award_fits, points_earned};
use super::redeem::redeem_model;
use super::rewards::in_stock;
use super::{
    earn, points_of, program, program_of, redeem, rewards, set_points, LoyaltyContract, LoyaltyError,
    LoyaltyProgram, LoyaltyProgramView, LoyaltyState, RedemptionOption,
};
use crate::common::{Address, Bytes32};
use vstd::prelude::*;

verus! {

impl LoyaltyContract {
    /// Creates a program under a new identifier.
    pub fn create_loyalty_program(
        &mut self,
        program_id: Bytes32,
        points_per_transaction: u32,
        redemption_options: Vec<RedemptionOption>,
    ) -> (r: Result<(), LoyaltyError>)
        ensures
            program_of(old(self)@, program_id) is Some ==> r == Err::<(), LoyaltyError>(LoyaltyError::ProgramAlreadyExists)
                && final(self)@ == old(self)@,
            program_of(old(self)@, program_id) is None ==> r == Ok::<(), LoyaltyError>(()) && final(self)@ == (LoyaltyState {
                programs: old(self)@.programs.push(LoyaltyProgramView {
                    program_id,
                    points_per_transaction,
                    redemption_options: redemption_options@,
                }),
                ..old(self)@
            }),
    {
        program::create_loyalty_program(self, program_id, points_per_transaction, redemption_options)
    }

    /// Awards a user the points a transaction earns in a program.
    pub fn award_points(&mut self, program_id: Bytes32, user_address: Address, transaction_amount: u32) -> (r: Result<u64, LoyaltyError>)
        requires
            award_fits(old(self)@, program_id, user_address, transaction_amount),
        ensures
            match program_of(old(self)@, program_id) {
                None => r == Err::<u64, LoyaltyError>(LoyaltyError::ProgramNotFound) && final(self)@ == old(self)@,
                Some(p) => {
                    let earned = points_earned(p.points_per_transaction, transaction_amount);
                    &&& r == Ok::<u64, LoyaltyError>(earned as u64)
                    &&& final(self)@ == (LoyaltyState {
                        balances: set_points(
                            old(self)@.balances,
                            program_id,
                            user_address,
                            (points_of(old(self)@, program_id, user_address) + earned) as u64,
                        ),
                        ..old(self)@
                    })
                },
            },
    {
        earn::award_points(self, program_id, user_address, transaction_amount)
    }

    /// A user redeems points for a reward in stock.
    pub fn redeem_reward(&mut self, program_id: Bytes32, user_address: Address, redemption_option_id: u32) -> (r: Result<(), LoyaltyError>)
        ensures
            match redeem_model(old(self)@, program_id, user_address, redemption_option_id) {
                Ok(ns) => r == Ok::<(), LoyaltyError>(()) && final(self)@ == ns,
                Err(e) => r == Err::<(), LoyaltyError>(e) && final(self)@ == old(self)@,
            },
    {
        redeem::redeem_reward(self, program_id, user_address, redemption_option_id)
    }

    /// The program with an identifier.
    pub fn get_program_info(&self, program_id: Bytes32) -> (r: Result<LoyaltyProgram, LoyaltyError>)
        ensures
            match program_of(self@, program_id) {
                Some(p) => r matches Ok(q) && q@ == p,
                None => r == Err::<LoyaltyProgram, LoyaltyError>(LoyaltyError::ProgramNotFound),
            },
    {
        program::get_program_info(self, program_id)
    }

    /// The rewards of a program still in stock.
    pub fn list_available_rewards(&self, program_id: Bytes32) -> (r: Result<Vec<RedemptionOption>, LoyaltyError>)
        ensures
            match program_of(self@, program_id) {
                Some(p) => r matches Ok(v) && v@ == in_stock(p.redemption_options),
                None => r == Err::<Vec<RedemptionOption>, LoyaltyError>(LoyaltyError::ProgramNotFound),
            },
    {
        rewards::list_available_rewards(self, program_id)
    }
}

} // verus!
