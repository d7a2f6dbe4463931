//! A loyalty program: users earn points on their transactions and redeem
//! them for rewards kept in limited quantities.
pub mod contract;
pub mod earn;
pub mod laws;
pub mod program;
pub mod redeem;
pub mod rewards;

use crate::common::{as_index, first_match, lemma_first_match_at, lemma_first_match_none, Address, Bytes32};
use vstd::prelude::*;

verus! {

/// A reward users can redeem points for.
#[derive(Clone, Debug)]
pub struct RedemptionOption {
    pub id: u32,
    pub name: String,
    pub points_required: u32,
    pub available_quantity: u32,
}

/// A loyalty program: the points a transaction earns per unit and the
/// rewards on offer.
pub struct LoyaltyProgram {
    pub program_id: Bytes32,
    pub points_per_transaction: u32,
    pub redemption_options: Vec<RedemptionOption>,
}

/// The mathematical content of a [`LoyaltyProgram`].
pub struct LoyaltyProgramView {
    pub program_id: Bytes32,
    pub points_per_transaction: u32,
    pub redemption_options: Seq<RedemptionOption>,
}

impl View for LoyaltyProgram {
    type V = LoyaltyProgramView;

    open spec fn view(&self) -> LoyaltyProgramView {
        LoyaltyProgramView {
            program_id: self.program_id,
            points_per_transaction: self.points_per_transaction,
            redemption_options: self.redemption_options@,
        }
    }
}

/// The points a user holds in a program.
#[derive(Clone, Copy, Debug, PartialEq, Eq, Structural)]
pub struct PointsBalance {
    pub program_id: Bytes32,
    pub user: Address,
    pub points: u64,
}

/// Why a loyalty operation was refused.
#[derive(Clone, Copy, Debug, PartialEq, Eq, Structural)]
pub enum LoyaltyError {
    ProgramAlreadyExists,
    ProgramNotFound,
    RedemptionOptionNotFound,
    RewardOutOfStock,
    InsufficientPoints,
}

impl LoyaltyError {
    /// The message the refusal is reported with.
    pub fn message(&self) -> (m: String)
        ensures
            m@ == (match *self {
                LoyaltyError::ProgramAlreadyExists => "Program already exists"@,
                LoyaltyError::ProgramNotFound => "Program not found"@,
                LoyaltyError::RedemptionOptionNotFound => "Redemption option not found"@,
                LoyaltyError::RewardOutOfStock => "Reward is out of stock"@,
                LoyaltyError::InsufficientPoints => "Insufficient points"@,
            }),
    {
        match self {
            LoyaltyError::ProgramAlreadyExists => "Program already exists".to_owned(),
            LoyaltyError::ProgramNotFound => "Program not found".to_owned(),
            LoyaltyError::RedemptionOptionNotFound => "Redemption option not found".to_owned(),
            LoyaltyError::RewardOutOfStock => "Reward is out of stock".to_owned(),
            LoyaltyError::InsufficientPoints => "Insufficient points".to_owned(),
        }
    }
}

/// The persistent state of the loyalty contract.
pub struct LoyaltyContract {
    pub programs: Vec<LoyaltyProgram>,
    pub balances: Vec<PointsBalance>,
}

/// The mathematical content of the contract's state.
pub struct LoyaltyState {
    pub programs: Seq<LoyaltyProgramView>,
    pub balances: Seq<PointsBalance>,
}

pub open spec fn program_view(p: LoyaltyProgram) -> LoyaltyProgramView {
    p@
}

impl View for LoyaltyContract {
    type V = LoyaltyState;

    open spec fn view(&self) -> LoyaltyState {
        LoyaltyState {
            programs: self.programs@.map_values(|p: LoyaltyProgram| program_view(p)),
            balances: self.balances@,
        }
    }
}

pub open spec fn program_key(id: Bytes32) -> spec_fn(LoyaltyProgramView) -> bool {
    |p: LoyaltyProgramView| p.program_id == id
}

pub open spec fn balance_key(id: Bytes32, user: Address) -> spec_fn(PointsBalance) -> bool {
    |b: PointsBalance| b.program_id == id && b.user == user
}

/// The program with an identifier, if any.
pub open spec fn program_of(s: LoyaltyState, id: Bytes32) -> Option<LoyaltyProgramView> {
    match first_match(s.programs, program_key(id)) {
        Some(i) => Some(s.programs[i]),
        None => None,
    }
}

/// The points a user holds in a program; none before the first award.
pub open spec fn points_of(s: LoyaltyState, id: Bytes32, user: Address) -> u64 {
    match first_match(s.balances, balance_key(id, user)) {
        Some(i) => s.balances[i].points,
        None => 0,
    }
}

/// The balances after setting a user's points in a program.
pub open spec fn set_points(bs: Seq<PointsBalance>, id: Bytes32, user: Address, points: u64) -> Seq<PointsBalance> {
    match first_match(bs, balance_key(id, user)) {
        Some(i) => bs.update(i, PointsBalance { program_id: id, user, points }),
        None => bs.push(PointsBalance { program_id: id, user, points }),
    }
}

/// A copy of a reward.
pub fn copy_option(o: &RedemptionOption) -> (r: RedemptionOption)
    ensures
        r == *o,
{
    RedemptionOption {
        id: o.id,
        name: o.name.clone(),
        points_required: o.points_required,
        available_quantity: o.available_quantity,
    }
}

/// A copy of a list of rewards.
pub fn copy_options(v: &Vec<RedemptionOption>) -> (r: Vec<RedemptionOption>)
    ensures
        r@ == v@,
{
    let mut r: Vec<RedemptionOption> = Vec::new();
    let mut i: usize = 0;
    while i < v.len()
        invariant
            i <= v@.len(),
            r@ == v@.take(i as int),
        decreases v@.len() - i,
    {
        r.push(copy_option(&v[i]));
        i += 1;
        assert(r@ == v@.take(i as int));
    }
    assert(v@.take(v@.len() as int) == v@);
    r
}

impl LoyaltyContract {
    /// A contract with no programs.
    pub fn new() -> (c: Self)
        ensures
            c@ == (LoyaltyState { programs: Seq::empty(), balances: Seq::empty() }),
    {
        let c = LoyaltyContract { programs: Vec::new(), balances: Vec::new() };
        assert(c@.programs =~= Seq::<LoyaltyProgramView>::empty());
        c
    }

    /// The position of a program, if any.
    pub fn find_program(&self, id: Bytes32) -> (r: Option<usize>)
        ensures
            as_index(r) == first_match(self@.programs, program_key(id)),
    {
        let ghost v = self@.programs;
        let mut i: usize = 0;
        while i < self.programs.len()
            invariant
                v == self@.programs,
                v.len() == self.programs@.len(),
                i <= v.len(),
                forall|j: int| 0 <= j < i ==> !program_key(id)(#[trigger] v[j]),
            decreases v.len() - i,
        {
            assert(v[i as int] == self.programs@[i as int]@);
            if self.programs[i].program_id == id {
                proof { lemma_first_match_at(v, program_key(id), i as int); }
                return Some(i);
            }
            i += 1;
        }
        proof { lemma_first_match_none(v, program_key(id)); }
        None
    }

    /// The points a user holds in a program.
    pub fn get_points(&self, id: Bytes32, user: Address) -> (points: u64)
        ensures
            points == points_of(self@, id, user),
    {
        let mut i: usize = 0;
        while i < self.balances.len()
            invariant
                i <= self.balances@.len(),
                forall|j: int| 0 <= j < i ==> !balance_key(id, user)(#[trigger] self.balances@[j]),
            decreases self.balances@.len() - i,
        {
            if self.balances[i].program_id == id && self.balances[i].user == user {
                proof { lemma_first_match_at(self.balances@, balance_key(id, user), i as int); }
                return self.balances[i].points;
            }
            i += 1;
        }
        proof { lemma_first_match_none(self.balances@, balance_key(id, user)); }
        0
    }

    /// Sets the points a user holds in a program.
    pub fn put_points(&mut self, id: Bytes32, user: Address, points: u64)
        ensures
            final(self)@ == (LoyaltyState { balances: set_points(old(self)@.balances, id, user, points), ..old(self)@ }),
    {
        let mut i: usize = 0;
        while i < self.balances.len()
            invariant
                i <= self.balances@.len(),
                self.balances@ == old(self).balances@,
                self.programs@ == old(self).programs@,
                forall|j: int| 0 <= j < i ==> !balance_key(id, user)(#[trigger] self.balances@[j]),
            decreases self.balances@.len() - i,
        {
            if self.balances[i].program_id == id && self.balances[i].user == user {
                proof { lemma_first_match_at(self.balances@, balance_key(id, user), i as int); }
                self.balances.set(i, PointsBalance { program_id: id, user, points });
                return;
            }
            i += 1;
        }
        proof { lemma_first_match_none(self.balances@, balance_key(id, user)); }
        self.balances.push(PointsBalance { program_id: id, user, points });
    }
}

} // verus!
