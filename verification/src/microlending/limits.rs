//! Whether an operation's arithmetic stays within the machine ranges.  The
//! entry points require it of their inputs; where it fails, the operation
//! would overflow, so a caller checks it first.
use super::claim::{
    check_default_status, claim_fits, default_fits, find_unclaimed, funded_at, unclaimed_by,
};
use super::datatypes::{CollateralInfo, FundingContribution, LoanRequest, LoanStatus, Repayment};
use super::fund::{fits_i128, fund_fits, lender_share, lender_share_fits, lender_total};
use super::repay::{
    calculate_total_repayment_due, installment_due, distribution_fits, eligible_lender_shares, initial_share, lemma_eligible_positive, lemma_sum_initial_nonneg,
    lemma_sum_pct_positive, rem_share, repaid_fits, repaid_sum, repay_fits, shares_computable, sum_initial,
    sum_pct, sum_rem, total_repaid, LenderShare,
};
use super::request::{create_fits, interest_fits, interest_of, loan_inputs_error, validate_loan_inputs};
use super::{loan_of, Microlending};
use crate::common::Address;
use vstd::prelude::*;

verus! {

/// Whether the interest and the total due of loan terms can be computed.
pub fn interest_in_range(amount: i128, rate: u32) -> (b: bool)
    ensures
        b == interest_fits(amount, rate),
{
    match (amount as u128).checked_mul(rate as u128) {
        None => false,
        Some(product) => {
            let interest = product / 10000;
            assert(interest == interest_of(amount, rate));
            assert(interest <= i128::MAX);
            amount.checked_add(interest as i128).is_some()
        },
    }
}

/// Whether every running total of a list of repayments fits in 128 bits.
pub fn repaid_in_range(rs: &Vec<Repayment>) -> (b: bool)
    ensures
        b == repaid_fits(rs@),
{
    let mut total: i128 = 0;
    let mut k: usize = 0;
    while k < rs.len()
        invariant
            k <= rs@.len(),
            total == repaid_sum(rs@.take(k as int)),
            forall|n: int| 0 <= n <= k ==> #[trigger] fits_i128(repaid_sum(rs@.take(n))),
        decreases rs@.len() - k,
    {
        assert(rs@.take(k + 1 as int).drop_last() == rs@.take(k as int));
        match total.checked_add(rs[k].amount) {
            Some(t) => {
                total = t;
            },
            None => {
                assert(!fits_i128(repaid_sum(rs@.take(k + 1 as int))));
                return false;
            },
        }
        k += 1;
    }
    true
}

/// Whether every running total of a lender's contributions fits in 128 bits.
pub fn share_in_range(cs: &Vec<FundingContribution>, lender: Address) -> (b: bool)
    ensures
        b == lender_share_fits(cs@, lender),
{
    let mut total: i128 = 0;
    let mut k: usize = 0;
    while k < cs.len()
        invariant
            k <= cs@.len(),
            total == lender_share(cs@.take(k as int), lender),
            forall|n: int| 0 <= n <= k ==> #[trigger] fits_i128(lender_share(cs@.take(n), lender)),
        decreases cs@.len() - k,
    {
        assert(cs@.take(k + 1 as int).drop_last() == cs@.take(k as int));
        if cs[k].lender == lender {
            match total.checked_add(cs[k].amount) {
                Some(t) => {
                    total = t;
                },
                None => {
                    assert(!fits_i128(lender_share(cs@.take(k + 1 as int), lender)));
                    return false;
                },
            }
        }
        k += 1;
    }
    true
}

/// Whether the shares of all lenders with unclaimed contributions can be computed.
pub fn shares_in_range(cs: &Vec<FundingContribution>) -> (b: bool)
    ensures
        b == shares_computable(cs@),
{
    let mut j: usize = 0;
    while j < cs.len()
        invariant
            j <= cs@.len(),
            forall|i: int| 0 <= i < j && !cs@[i].claimed ==> {
                &&& lender_share_fits(cs@, #[trigger] cs@[i].lender)
                &&& (lender_share(cs@, cs@[i].lender) as i128 as u128) * 10000 <= u128::MAX
            },
        decreases cs@.len() - j,
    {
        if !cs[j].claimed {
            let lender = cs[j].lender;
            if !share_in_range(cs, lender) {
                return false;
            }
            let share = lender_total(cs, lender);
            if (share as u128).checked_mul(10000).is_none() {
                return false;
            }
        }
        j += 1;
    }
    true
}

/// Whether sharing out a repayment of `amount` over the shares stays within
/// the machine ranges.
pub fn distribution_in_range(sh: &Vec<LenderShare>, amount: i128) -> (b: bool)
    requires
        amount > 0,
        forall|k: int| 0 <= k < sh@.len() ==> #[trigger] sh@[k].percentage > 0,
    ensures
        b == distribution_fits(sh@, amount),
{
    let n = sh.len();
    let mut total: i128 = 0;
    let mut k: usize = 0;
    while k < n
        invariant
            n == sh@.len(),
            k <= n,
            forall|j: int| 0 <= j < k ==> (amount as u128) * (#[trigger] sh@[j].percentage as u128) <= u128::MAX,
            forall|m: int| 0 <= m <= k ==> #[trigger] fits_i128(sum_initial(sh@.take(m), amount)),
            total == sum_initial(sh@.take(k as int), amount),
        decreases n - k,
    {
        assert(sh@.take(k + 1 as int).drop_last() == sh@.take(k as int));
        let p = sh[k].percentage;
        let product = match (amount as u128).checked_mul(p as u128) {
            Some(x) => x,
            None => {
                return false;
            },
        };
        let initial = (product / 10000) as i128;
        assert(initial == initial_share(amount, p));
        match total.checked_add(initial) {
            Some(t) => {
                total = t;
            },
            None => {
                assert(!fits_i128(sum_initial(sh@.take(k + 1 as int), amount)));
                return false;
            },
        }
        k += 1;
    }
    assert(sh@.take(n as int) == sh@);
    proof { lemma_sum_initial_nonneg(sh@, amount); }
    let remainder = amount - total;
    if !(remainder > 0 && n > 0) {
        return true;
    }
    let ghost r = remainder as int;
    let mut tp: u32 = 0;
    let mut k: usize = 0;
    while k < n
        invariant
            n == sh@.len(),
            k <= n,
            0 < n,
            0 < remainder,
            remainder == amount - sum_initial(sh@, amount),
            tp == sum_pct(sh@.take(k as int)),
            forall|m: int| 0 <= m <= k ==> #[trigger] sum_pct(sh@.take(m)) <= u32::MAX,
        decreases n - k,
    {
        assert(sh@.take(k + 1 as int).drop_last() == sh@.take(k as int));
        match tp.checked_add(sh[k].percentage) {
            Some(t) => {
                tp = t;
            },
            None => {
                assert(!(sum_pct(sh@.take(k + 1 as int)) <= u32::MAX));
                return false;
            },
        }
        k += 1;
    }
    assert(sh@.take(n as int) == sh@);
    proof { lemma_sum_pct_positive(sh@); }
    let mut rem_total: i128 = 0;
    let mut k: usize = 0;
    while k < n
        invariant
            n == sh@.len(),
            k <= n,
            0 < remainder <= amount,
            remainder == amount - sum_initial(sh@, amount),
            0 < tp,
            tp == sum_pct(sh@),
            forall|j: int| 0 <= j < n ==> (amount as u128) * (#[trigger] sh@[j].percentage as u128) <= u128::MAX,
            forall|j: int| 0 <= j < k ==> fits_i128(#[trigger] rem_share(r, sh@[j].percentage, tp as int)),
            forall|j: int| 0 <= j < k ==> fits_i128(
                initial_share(amount, sh@[j].percentage) + #[trigger] rem_share(r, sh@[j].percentage, tp as int),
            ),
            forall|m: int| 0 <= m <= k ==> #[trigger] fits_i128(sum_rem(sh@.take(m), r, tp as int)),
            rem_total == sum_rem(sh@.take(k as int), r, tp as int),
            r == remainder,
        decreases n - k,
    {
        assert(sh@.take(k + 1 as int).drop_last() == sh@.take(k as int));
        let p = sh[k].percentage;
        assert((amount as u128) * (p as u128) <= u128::MAX);
        assert((remainder as u128) * (p as u128) <= (amount as u128) * (p as u128)) by (nonlinear_arith)
            requires
                (remainder as u128) <= (amount as u128),
        ;
        let share = (remainder as u128) * (p as u128) / (tp as u128);
        assert(share == rem_share(r, p, tp as int));
        if share > 0x7fff_ffff_ffff_ffff_ffff_ffff_ffff_ffffu128 {
            return false;
        }
        let share = share as i128;
        let initial = ((amount as u128) * (p as u128) / 10000) as i128;
        assert(initial == initial_share(amount, p));
        if initial.checked_add(share).is_none() {
            return false;
        }
        match rem_total.checked_add(share) {
            Some(t) => {
                rem_total = t;
            },
            None => {
                assert(!fits_i128(sum_rem(sh@.take(k + 1 as int), r, tp as int)));
                return false;
            },
        }
        k += 1;
    }
    assert(sh@.take(n as int) == sh@);
    let last = match remainder.checked_sub(rem_total) {
        Some(x) => x,
        None => {
            return false;
        },
    };
    let p0 = sh[0].percentage;
    assert((amount as u128) * (p0 as u128) <= u128::MAX);
    assert((remainder as u128) * (p0 as u128) <= (amount as u128) * (p0 as u128)) by (nonlinear_arith)
        requires
            (remainder as u128) <= (amount as u128),
    ;
    let i0 = ((amount as u128) * (p0 as u128) / 10000) as i128;
    let r0 = ((remainder as u128) * (p0 as u128) / (tp as u128)) as i128;
    assert(i0 == initial_share(amount, p0));
    assert(r0 == rem_share(r, p0, tp as int));
    let first = i0 + r0;
    first.checked_add(last).is_some()
}

/// Whether a loan request's counters and interest stay within range.
pub fn create_in_range(
    state: &Microlending,
    borrower: Address,
    amount: i128,
    duration_days: u32,
    interest_rate: u32,
    collateral: &CollateralInfo,
) -> (b: bool)
    ensures
        b == create_fits(state@, borrower, amount, duration_days, interest_rate, *collateral),
{
    match validate_loan_inputs(amount, duration_days, interest_rate, collateral) {
        Err(_) => true,
        Ok(()) => {
            interest_in_range(amount, interest_rate) && state.next_loan_id < u32::MAX && state.total_loans_created
                < u32::MAX && state.get_metrics(borrower).total_loans < u32::MAX
        },
    }
}

/// Whether the interest on updated loan terms stays within range.
pub fn update_in_range(amount: i128, duration_days: u32, interest_rate: u32, collateral: &CollateralInfo) -> (b: bool)
    ensures
        b == (loan_inputs_error(amount, duration_days, interest_rate, *collateral) is None ==> interest_fits(
            amount,
            interest_rate,
        )),
{
    match validate_loan_inputs(amount, duration_days, interest_rate, collateral) {
        Err(_) => true,
        Ok(()) => interest_in_range(amount, interest_rate),
    }
}

/// Whether funding a loan keeps its due date, the counters and the statistics in range.
pub fn fund_in_range(state: &Microlending, lender: Address, loan_id: u32, amount: i128, now: u64) -> (b: bool)
    ensures
        b == fund_fits(state@, lender, loan_id, amount, now),
{
    let i = match state.find_loan(loan_id) {
        None => {
            return true;
        },
        Some(i) => i,
    };
    assert(state@.loans[i as int] == state.loans@[i as int]@);
    let loan = &state.loans[i].request;
    if !(amount > 0 && loan.funded_amount < loan.amount && loan.borrower != lender) {
        return true;
    }
    let needed = match loan.amount.checked_sub(loan.funded_amount) {
        Some(x) => x,
        None => {
            return false;
        },
    };
    let schedule = loan.repayment_schedule;
    let period: u128 = if schedule.installments > 0 {
        if schedule.installments.checked_mul(schedule.frequency_days).is_none() {
            return false;
        }
        (schedule.installments as u128) * (schedule.frequency_days as u128) * 86400
    } else {
        (loan.duration_days as u128) * 86400
    };
    if (now as u128) + period > 0xffff_ffff_ffff_ffffu128 {
        return false;
    }
    if state.total_loans_funded == u32::MAX {
        return false;
    }
    let funding = if amount < needed { amount } else { needed };
    state.current_stats().total_funded.checked_add(funding).is_some()
}

/// Whether checking a loan with repayments `rs` for default stays in range.
pub fn default_in_range(loan: &LoanRequest, rs: &Vec<Repayment>, now: u64) -> (b: bool)
    ensures
        b == default_fits(*loan, rs@, now),
{
    if loan.status != LoanStatus::Funded && loan.status != LoanStatus::Repaying {
        return true;
    }
    let funded = match loan.funded_timestamp {
        Some(t) => t,
        None => now,
    };
    assert(funded == funded_at(*loan, now));
    if loan.repayment_schedule.installments > 0 {
        if now < funded || loan.repayment_schedule.frequency_days == 0 || funded > u64::MAX - 604800 {
            return false;
        }
        let expected = (((now - funded) / 86400) / loan.repayment_schedule.frequency_days as u64) as u32;
        let grace = now > funded + 604800;
        if !(expected > rs.len() as u32 && grace) {
            if (expected as i128).checked_mul(loan.repayment_schedule.per_installment_amount).is_none() {
                return false;
            }
            return repaid_in_range(rs);
        }
        true
    } else {
        match loan.repayment_due_timestamp {
            Some(due) => {
                if now > due {
                    interest_in_range(loan.amount, loan.interest_rate) && repaid_in_range(rs)
                } else {
                    true
                }
            },
            None => true,
        }
    }
}

/// Whether checking a stored loan for default stays in range.
pub fn status_in_range(state: &Microlending, loan_id: u32, now: u64) -> (b: bool)
    ensures
        b == (loan_of(state@, loan_id) matches Some(rec) ==> default_fits(rec.request, rec.repayments, now)),
{
    match state.find_loan(loan_id) {
        None => true,
        Some(i) => {
            assert(state@.loans[i as int] == state.loans@[i as int]@);
            default_in_range(&state.loans[i].request, &state.loans[i].repayments, now)
        },
    }
}

/// Whether the total due of a stored loan can be computed.
pub fn due_in_range(state: &Microlending, loan_id: u32) -> (b: bool)
    ensures
        b == (loan_of(state@, loan_id) matches Some(rec) ==> interest_fits(rec.request.amount, rec.request.interest_rate)),
{
    match state.find_loan(loan_id) {
        None => true,
        Some(i) => {
            assert(state@.loans[i as int] == state.loans@[i as int]@);
            interest_in_range(state.loans[i].request.amount, state.loans[i].request.interest_rate)
        },
    }
}

/// Whether a loan's history can be reported within range.
pub fn history_in_range(state: &Microlending, loan_id: u32, now: u64) -> (b: bool)
    ensures
        b == (loan_of(state@, loan_id) matches Some(rec) ==> {
            &&& interest_fits(rec.request.amount, rec.request.interest_rate)
            &&& repaid_fits(rec.repayments)
            &&& fits_i128(super::contract::interest_earned_of(repaid_sum(rec.repayments), rec.request.amount))
            &&& default_fits(rec.request, rec.repayments, now)
        }),
{
    let i = match state.find_loan(loan_id) {
        None => {
            return true;
        },
        Some(i) => i,
    };
    assert(state@.loans[i as int] == state.loans@[i as int]@);
    let rec = &state.loans[i];
    if !interest_in_range(rec.request.amount, rec.request.interest_rate) || !repaid_in_range(&rec.repayments) {
        return false;
    }
    let repaid = total_repaid(&rec.repayments);
    if repaid > rec.request.amount && repaid.checked_sub(rec.request.amount).is_none() {
        return false;
    }
    default_in_range(&rec.request, &rec.repayments, now)
}

/// Whether a lender's share of a stored loan can be computed.
pub fn lender_share_in_range(state: &Microlending, lender: Address, loan_id: u32) -> (b: bool)
    ensures
        b == (loan_of(state@, loan_id) matches Some(rec) ==> lender_share_fits(rec.contributions, lender)),
{
    match state.find_loan(loan_id) {
        None => true,
        Some(i) => {
            assert(state@.loans[i as int] == state.loans@[i as int]@);
            share_in_range(&state.loans[i].contributions, lender)
        },
    }
}

/// Whether a lender's share of a stored loan in basis points can be computed.
pub fn share_percent_in_range(state: &Microlending, lender: Address, loan_id: u32) -> (b: bool)
    ensures
        b == (loan_of(state@, loan_id) matches Some(rec) ==> {
            &&& lender_share_fits(rec.contributions, lender)
            &&& (lender_share(rec.contributions, lender) as i128 as u128) * 10000 <= u128::MAX
        }),
{
    match state.find_loan(loan_id) {
        None => true,
        Some(i) => {
            assert(state@.loans[i as int] == state.loans@[i as int]@);
            if !share_in_range(&state.loans[i].contributions, lender) {
                return false;
            }
            let share = lender_total(&state.loans[i].contributions, lender);
            (share as u128).checked_mul(10000).is_some()
        },
    }
}

/// Whether a repayment's arithmetic stays within range.
pub fn repay_in_range(state: &Microlending, borrower: Address, loan_id: u32, amount: i128, now: u64) -> (b: bool)
    ensures
        b == repay_fits(state@, borrower, loan_id, amount, now),
{
    let i = match state.find_loan(loan_id) {
        None => {
            return true;
        },
        Some(i) => i,
    };
    assert(state@.loans[i as int] == state.loans@[i as int]@);
    let rec = &state.loans[i];
    let loan = &rec.request;
    if !(amount > 0 && loan.borrower == borrower && (loan.status == LoanStatus::Funded || loan.status
        == LoanStatus::Repaying)) {
        return true;
    }
    if !interest_in_range(loan.amount, loan.interest_rate) || !repaid_in_range(&rec.repayments) {
        return false;
    }
    let total_due = calculate_total_repayment_due(loan);
    let repaid = total_repaid(&rec.repayments);
    let remaining = match total_due.checked_sub(repaid) {
        Some(x) => x,
        None => {
            return false;
        },
    };
    if loan.repayment_schedule.installments > 0 {
        let paid = rec.repayments.len() as u64;
        if paid == u64::MAX {
            return false;
        }
        let funded = match loan.funded_timestamp {
            Some(t) => t,
            None => now,
        };
        let periods = (paid as u128) + 1;
        let frequency = loan.repayment_schedule.frequency_days as u128;
        assert(periods * frequency * 86400 <= 0x1_0000_0000_0000_0000 * 0xffff_ffff * 86400) by (nonlinear_arith)
            requires
                periods <= 0x1_0000_0000_0000_0000,
                frequency <= 0xffff_ffff,
        ;
        let due = (funded as u128) + periods * frequency * 86400;
        assert(due == installment_due(*loan, rec.repayments@.len(), now));
        if due + 604800 > 0xffff_ffff_ffff_ffffu128 {
            return false;
        }
    }
    if amount <= remaining {
        if !shares_in_range(&rec.contributions) {
            return false;
        }
        let sh = eligible_lender_shares(&rec.contributions, loan.amount);
        proof { lemma_eligible_positive(rec.contributions@, loan.amount); }
        if !distribution_in_range(&sh, amount) {
            return false;
        }
        if state.get_metrics(borrower).completed_loans == u32::MAX || state.total_loans_completed == u32::MAX {
            return false;
        }
        if state.current_stats().total_repaid.checked_add(amount).is_none() {
            return false;
        }
    }
    true
}

/// Whether claiming a defaulted loan's collateral stays within range.
pub fn claim_in_range(state: &Microlending, lender: Address, loan_id: u32, now: u64) -> (b: bool)
    ensures
        b == claim_fits(state@, lender, loan_id, now),
{
    let i = match state.find_loan(loan_id) {
        None => {
            return true;
        },
        Some(i) => i,
    };
    assert(state@.loans[i as int] == state.loans@[i as int]@);
    let rec = &state.loans[i];
    let loan = &rec.request;
    if loan.status == LoanStatus::Defaulted || loan.status == LoanStatus::Completed {
        return true;
    }
    if !default_in_range(loan, &rec.repayments, now) {
        return false;
    }
    proof {
        assert(loan_of(state@, loan.id) == loan_of(state@, loan_id));
    }
    let defaulted = check_default_status(state, loan, now);
    if !(defaulted && find_unclaimed(&rec.contributions, lender).is_some()) {
        return true;
    }
    if state.get_metrics(loan.borrower).defaulted_loans == u32::MAX || state.total_loans_defaulted == u32::MAX {
        return false;
    }
    if !share_in_range(&rec.contributions, lender) {
        return false;
    }
    let share = lender_total(&rec.contributions, lender);
    if (share as u128).checked_mul(10000).is_none() {
        return false;
    }
    let pct: u32 = if loan.amount == 0 {
        0
    } else {
        let a = loan.amount;
        assert(a as u128 != 0) by (bit_vector)
            requires
                a != 0,
        ;
        ((share as u128) * 10000 / (loan.amount as u128)) as u32
    };
    assert(pct == super::repay::pct_of(rec.contributions@, loan.amount, lender));
    (loan.collateral.estimated_value as u128).checked_mul(pct as u128).is_some()
}

} // verus!
