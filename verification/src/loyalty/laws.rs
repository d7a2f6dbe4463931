//! Properties that hold across the loyalty operations.
use super::earn::points_earned;
use super::redeem::{option_key, redeem_model};
use super::rewards::in_stock;
use super::{balance_key, points_of, program_key, program_of, set_points, LoyaltyProgramView, LoyaltyState, RedemptionOption};
use crate::common::{first_match, is_first_match, lemma_first_match_push, lemma_first_match_update, Address, Bytes32};
use vstd::prelude::*;

verus! {

/// Setting a user's points in a program is what is read back for them; the
/// points of every other user and program read as before.
pub proof fn law_points_read_after_write(s: LoyaltyState, id: Bytes32, user: Address, points: u64, other_id: Bytes32, other_user: Address)
    ensures
        points_of(LoyaltyState { balances: set_points(s.balances, id, user, points), ..s }, id, user) == points,
        (other_id != id || other_user != user) ==> points_of(
            LoyaltyState { balances: set_points(s.balances, id, user, points), ..s },
            other_id,
            other_user,
        ) == points_of(s, other_id, other_user),
{
    let key = balance_key(id, user);
    let okey = balance_key(other_id, other_user);
    let b = super::PointsBalance { program_id: id, user, points };
    match first_match(s.balances, key) {
        Some(i) => {
            let k = choose|k: int| is_first_match(s.balances, key, k);
            assert(is_first_match(s.balances, key, k));
            lemma_first_match_update(s.balances, key, i, b);
            if other_id != id || other_user != user {
                lemma_first_match_update(s.balances, okey, i, b);
                if first_match(s.balances, okey) is Some {
                    let k2 = choose|k2: int| is_first_match(s.balances, okey, k2);
                    assert(is_first_match(s.balances, okey, k2));
                }
            }
        },
        None => {
            lemma_first_match_push(s.balances, key, b);
            if other_id != id || other_user != user {
                lemma_first_match_push(s.balances, okey, b);
                if first_match(s.balances, okey) is Some {
                    let k2 = choose|k2: int| is_first_match(s.balances, okey, k2);
                    assert(is_first_match(s.balances, okey, k2));
                }
            }
        },
    }
}

/// Awarding points adds to the user's balance exactly the program's rate
/// times the transaction amount.
pub proof fn law_award_adds_points(s: LoyaltyState, id: Bytes32, user: Address, transaction_amount: u32)
    requires
        program_of(s, id) is Some,
        points_of(s, id, user) + points_earned(program_of(s, id).unwrap().points_per_transaction, transaction_amount) <= u64::MAX,
    ensures
        ({
            let earned = points_earned(program_of(s, id).unwrap().points_per_transaction, transaction_amount);
            let ns = LoyaltyState { balances: set_points(s.balances, id, user, (points_of(s, id, user) + earned) as u64), ..s };
            points_of(ns, id, user) == points_of(s, id, user) + earned
        }),
{
    let earned = points_earned(program_of(s, id).unwrap().points_per_transaction, transaction_amount);
    law_points_read_after_write(s, id, user, (points_of(s, id, user) + earned) as u64, id, user);
}

/// A redemption spends exactly the reward's points and takes one unit of the
/// reward out of stock.
pub proof fn law_redeem_spends_points(s: LoyaltyState, id: Bytes32, user: Address, option_id: u32)
    requires
        redeem_model(s, id, user, option_id) is Ok,
    ensures
        ({
            let ns = redeem_model(s, id, user, option_id).unwrap();
            let p = program_of(s, id).unwrap();
            let k = first_match(p.redemption_options, option_key(option_id)).unwrap();
            let o = p.redemption_options[k];
            &&& points_of(ns, id, user) == points_of(s, id, user) - o.points_required
            &&& program_of(ns, id) matches Some(q) && q.redemption_options[k].available_quantity == o.available_quantity - 1
                && q.redemption_options[k].points_required == o.points_required
        }),
{
    let i = first_match(s.programs, program_key(id)).unwrap();
    let p = s.programs[i];
    let k = first_match(p.redemption_options, option_key(option_id)).unwrap();
    let ki = choose|ki: int| is_first_match(p.redemption_options, option_key(option_id), ki);
    assert(is_first_match(p.redemption_options, option_key(option_id), ki));
    let o = p.redemption_options[k];
    let pts = (points_of(s, id, user) - o.points_required) as u64;
    law_points_read_after_write(s, id, user, pts, id, user);
    let ns = redeem_model(s, id, user, option_id).unwrap();
    let np = LoyaltyProgramView {
        redemption_options: p.redemption_options.update(k, RedemptionOption { available_quantity: (o.available_quantity - 1) as u32, ..o }),
        ..p
    };
    let ii = choose|ii: int| is_first_match(s.programs, program_key(id), ii);
    assert(is_first_match(s.programs, program_key(id), ii));
    lemma_first_match_update(s.programs, program_key(id), i, np);
    assert(points_of(ns, id, user) == points_of(LoyaltyState { balances: set_points(s.balances, id, user, pts), ..s }, id, user));
}

/// The rewards listed as available are rewards of the program, all in stock,
/// and every reward in stock is listed.
pub proof fn law_listed_rewards_in_stock(options: Seq<RedemptionOption>)
    ensures
        forall|k: int| 0 <= k < in_stock(options).len() ==> (#[trigger] in_stock(options)[k]).available_quantity > 0
            && options.contains(in_stock(options)[k]),
        forall|j: int| 0 <= j < options.len() && (#[trigger] options[j]).available_quantity > 0 ==> in_stock(options).contains(
            options[j],
        ),
    decreases options.len(),
{
    if options.len() > 0 {
        let d = options.drop_last();
        law_listed_rewards_in_stock(d);
        let rest = in_stock(d);
        let cur = in_stock(options);
        assert forall|k: int| 0 <= k < cur.len() implies (#[trigger] cur[k]).available_quantity > 0 && options.contains(cur[k]) by {
            if k < rest.len() {
                assert(cur[k] == rest[k]);
                let j = choose|j: int| 0 <= j < d.len() && d[j] == rest[k];
                assert(options[j] == d[j]);
            } else {
                assert(cur[k] == options.last());
                assert(options[options.len() - 1] == options.last());
            }
        }
        assert forall|j: int| 0 <= j < options.len() && (#[trigger] options[j]).available_quantity > 0 implies cur.contains(options[j]) by {
            if j < d.len() {
                assert(options[j] == d[j]);
                assert(rest.contains(d[j]));
                let k = choose|k: int| 0 <= k < rest.len() && rest[k] == d[j];
                assert(cur[k] == rest[k]);
            } else {
                assert(cur[cur.len() - 1] == options.last());
            }
        }
    }
}

/// A created program is what is read back under its identifier, so a second
/// creation under that identifier is refused.
pub proof fn law_program_read_after_create(s: LoyaltyState, p: LoyaltyProgramView)
    requires
        program_of(s, p.program_id) is None,
    ensures
        program_of(LoyaltyState { programs: s.programs.push(p), ..s }, p.program_id) == Some(p),
{
    lemma_first_match_push(s.programs, program_key(p.program_id), p);
}

} // verus!
