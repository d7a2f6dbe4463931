//! Creating loyalty programs and reading them.
use super::{
    copy_options, program_of, LoyaltyContract, LoyaltyError, LoyaltyProgram, LoyaltyProgramView,
    LoyaltyState, RedemptionOption,
};
use crate::common::Bytes32;
use vstd::prelude::*;

verus! {

/// Creates a program under a new identifier.
pub fn create_loyalty_program(
    state: &mut LoyaltyContract,
    program_id: Bytes32,
    points_per_transaction: u32,
    redemption_options: Vec<RedemptionOption>,
) -> (r: Result<(), LoyaltyError>)
    ensures
        program_of(old(state)@, program_id) is Some ==> r == Err::<(), LoyaltyError>(LoyaltyError::ProgramAlreadyExists)
            && final(state)@ == old(state)@,
        program_of(old(state)@, program_id) is None ==> r == Ok::<(), LoyaltyError>(()) && final(state)@ == (LoyaltyState {
            programs: old(state)@.programs.push(LoyaltyProgramView {
                program_id,
                points_per_transaction,
                redemption_options: redemption_options@,
            }),
            ..old(state)@
        }),
{
    if state.find_program(program_id).is_some() {
        return Err(LoyaltyError::ProgramAlreadyExists);
    }
    let program = LoyaltyProgram { program_id, points_per_transaction, redemption_options };
    let ghost pv = program@;
    state.programs.push(program);
    assert(state@.programs =~= old(state)@.programs.push(pv));
    Ok(())
}

/// The program with an identifier.
pub fn get_program_info(state: &LoyaltyContract, program_id: Bytes32) -> (r: Result<LoyaltyProgram, LoyaltyError>)
    ensures
        match program_of(state@, program_id) {
            Some(p) => r matches Ok(q) && q@ == p,
            None => r == Err::<LoyaltyProgram, LoyaltyError>(LoyaltyError::ProgramNotFound),
        },
{
    match state.find_program(program_id) {
        Some(i) => {
            assert(state@.programs[i as int] == state.programs@[i as int]@);
            let p = &state.programs[i];
            Ok(LoyaltyProgram {
                program_id: p.program_id,
                points_per_transaction: p.points_per_transaction,
                redemption_options: copy_options(&p.redemption_options),
            })
        },
        None => Err(LoyaltyError::ProgramNotFound),
    }
}

} // verus!
