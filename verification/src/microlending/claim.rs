//! Detecting loans in default and handing out their collateral.
use super::datatypes::{
    BorrowerMetrics, FundingContribution, LoanRequest, LoanStatus, MicrolendingError, Repayment,
    SystemStats, TokenTransfer,
};
use super::fund::{fits_i128, lender_share, lender_share_fits, lender_total};
use super::repay::{calculate_total_repayment_due, pct_of, repaid_fits, repaid_sum, total_repaid};
use super::request::{interest_fits, total_due_of};
use super::{
    loan_key, loan_of, metrics_of, set_metrics, stats_of, LoanRecordView, Microlending,
    MicrolendingState,
};
use crate::common::{
    as_index, first_match, lemma_first_match_at, lemma_first_match_none, Address,
};
use vstd::prelude::*;

verus! {

/// When a loan counts as funded: its funding time, or `now` if it has none.
pub open spec fn funded_at(loan: LoanRequest, now: u64) -> u64 {
    match loan.funded_timestamp {
        Some(t) => t,
        None => now,
    }
}

/// How many installments should have been paid by `now`: whole periods since funding.
pub open spec fn expected_installments(loan: LoanRequest, now: u64) -> u32 {
    (((now - funded_at(loan, now)) / 86400) / (loan.repayment_schedule.frequency_days as int)) as u32
}

/// A week has passed since funding.
pub open spec fn grace_expired(loan: LoanRequest, now: u64) -> bool {
    now > funded_at(loan, now) + 604800
}

/// Whether a loan with repayments `rs` is in default at `now`.  A loan on an
/// installment schedule is, once the week of grace after funding is over, if
/// fewer installments were paid than periods have passed or less was repaid
/// than those periods' installments add up to; a loan without installments is
/// once its due date has passed with less than the total due repaid.  Only a
/// funded loan being repaid can be in default.
pub open spec fn in_default(loan: LoanRequest, rs: Seq<Repayment>, now: u64) -> bool {
    if loan.status != LoanStatus::Funded && loan.status != LoanStatus::Repaying {
        false
    } else if loan.repayment_schedule.installments > 0 {
        let expected = expected_installments(loan, now);
        let grace = grace_expired(loan, now);
        if expected > (rs.len() as u32) && grace {
            true
        } else {
            repaid_sum(rs) < expected * loan.repayment_schedule.per_installment_amount && grace
        }
    } else {
        match loan.repayment_due_timestamp {
            Some(due) => now > due && repaid_sum(rs) < total_due_of(loan.amount, loan.interest_rate),
            None => false,
        }
    }
}

/// Checking for default neither goes back in time, divides by zero nor overflows.
pub open spec fn default_fits(loan: LoanRequest, rs: Seq<Repayment>, now: u64) -> bool {
    (loan.status == LoanStatus::Funded || loan.status == LoanStatus::Repaying) ==> {
        &&& loan.repayment_schedule.installments > 0 ==> {
            &&& now >= funded_at(loan, now)
            &&& loan.repayment_schedule.frequency_days > 0
            &&& funded_at(loan, now) + 604800 <= u64::MAX
            &&& !(expected_installments(loan, now) > (rs.len() as u32) && grace_expired(loan, now)) ==> {
                &&& fits_i128(expected_installments(loan, now) * loan.repayment_schedule.per_installment_amount)
                &&& repaid_fits(rs)
            }
        }
        &&& (loan.repayment_schedule.installments == 0 && (loan.repayment_due_timestamp matches Some(due)
            && now > due)) ==> {
            &&& interest_fits(loan.amount, loan.interest_rate)
            &&& repaid_fits(rs)
        }
    }
}

/// The repayments recorded for a loan; none for an unknown one.
pub open spec fn repayments_of(s: MicrolendingState, id: u32) -> Seq<Repayment> {
    match loan_of(s, id) {
        Some(rec) => rec.repayments,
        None => Seq::empty(),
    }
}

/// The share of all loans that defaulted, in basis points; zero when no loan
/// was ever created.
pub open spec fn default_rate(defaulted: u32, created: u32) -> u32 {
    if created == 0 {
        0
    } else {
        (((defaulted as u128) * 10000) / (created as int)) as u32
    }
}

pub open spec fn unclaimed_by(lender: Address) -> spec_fn(FundingContribution) -> bool {
    |c: FundingContribution| c.lender == lender && !c.claimed
}

/// A lender's part of a collateral value: value * percentage / 10000.
pub open spec fn collateral_share(value: i128, pct: u32) -> i128 {
    (((value as u128) * (pct as u128)) / 10000) as i128
}

/// The state after `lender` claims the collateral of a defaulted loan, and
/// the token transfers to make, or why the claim is refused.
pub open spec fn claim_model(s: MicrolendingState, lender: Address, loan_id: u32, now: u64) -> Result<
    (MicrolendingState, Seq<TokenTransfer>),
    MicrolendingError,
> {
    match first_match(s.loans, loan_key(loan_id)) {
        None => Err(MicrolendingError::LoanNotFound),
        Some(i) => {
            let rec = s.loans[i];
            let loan = rec.request;
            if loan.status == LoanStatus::Defaulted || loan.status == LoanStatus::Completed {
                Err(MicrolendingError::InvalidLoanStatus)
            } else if !in_default(loan, rec.repayments, now) {
                Err(MicrolendingError::NotInDefault)
            } else {
                match first_match(rec.contributions, unclaimed_by(lender)) {
                    None => Err(MicrolendingError::NoContribution),
                    Some(j) => {
                        if s.token is None {
                            Err(MicrolendingError::TokenNotConfigured)
                        } else {
                            let m = metrics_of(s.borrower_metrics, loan.borrower);
                            let defaulted = (s.total_loans_defaulted + 1) as u32;
                            let st = stats_of(s);
                            let share = collateral_share(
                                loan.collateral.estimated_value,
                                pct_of(rec.contributions, loan.amount, lender),
                            );
                            Ok((MicrolendingState {
                                loans: s.loans.update(i, LoanRecordView {
                                    request: LoanRequest { status: LoanStatus::Defaulted, ..loan },
                                    contributions: if share > 0 {
                                        rec.contributions.update(j, FundingContribution { claimed: true, ..rec.contributions[j] })
                                    } else {
                                        rec.contributions
                                    },
                                    ..rec
                                }),
                                borrower_metrics: set_metrics(s.borrower_metrics, loan.borrower, BorrowerMetrics {
                                    defaulted_loans: (m.defaulted_loans + 1) as u32,
                                    ..m
                                }),
                                total_loans_defaulted: defaulted,
                                system_stats: Some(SystemStats {
                                    default_rate: default_rate(defaulted, s.total_loans_created),
                                    ..st
                                }),
                                ..s
                            }, if share > 0 {
                                seq![TokenTransfer { from: s.contract_address, to: lender, amount: share }]
                            } else {
                                Seq::empty()
                            }))
                        }
                    },
                }
            }
        },
    }
}

/// A claim's checks and counters stay within the machine ranges.
pub open spec fn claim_fits(s: MicrolendingState, lender: Address, loan_id: u32, now: u64) -> bool {
    match loan_of(s, loan_id) {
        None => true,
        Some(rec) => {
            let loan = rec.request;
            (loan.status != LoanStatus::Defaulted && loan.status != LoanStatus::Completed) ==> {
                &&& default_fits(loan, rec.repayments, now)
                &&& (in_default(loan, rec.repayments, now) && first_match(rec.contributions, unclaimed_by(lender)) is Some) ==> {
                    &&& metrics_of(s.borrower_metrics, loan.borrower).defaulted_loans < u32::MAX
                    &&& s.total_loans_defaulted < u32::MAX
                    &&& lender_share_fits(rec.contributions, lender)
                    &&& (lender_share(rec.contributions, lender) as i128 as u128) * 10000 <= u128::MAX
                    &&& (loan.collateral.estimated_value as u128) * (pct_of(rec.contributions, loan.amount, lender) as u128) <= u128::MAX
                }
            }
        },
    }
}

/// Whether `loan` is in default at `now`, given the repayments recorded for it.
pub fn check_default_status(state: &Microlending, loan: &LoanRequest, now: u64) -> (b: bool)
    requires
        default_fits(*loan, repayments_of(state@, loan.id), now),
    ensures
        b == in_default(*loan, repayments_of(state@, loan.id), now),
{
    if loan.status != LoanStatus::Funded && loan.status != LoanStatus::Repaying {
        return false;
    }
    let funded_timestamp = match loan.funded_timestamp {
        Some(t) => t,
        None => now,
    };
    if loan.repayment_schedule.installments > 0 {
        let repayments = super::repay::get_loan_repayments(state, loan.id);
        let elapsed_days = (now - funded_timestamp) / (24 * 60 * 60);
        let expected_installments = (elapsed_days / loan.repayment_schedule.frequency_days as u64) as u32;
        let grace_period: u64 = 7 * 24 * 60 * 60;
        let grace_period_expired = now > funded_timestamp + grace_period;
        if expected_installments > repayments.len() as u32 && grace_period_expired {
            return true;
        }
        let expected_repaid = expected_installments as i128 * loan.repayment_schedule.per_installment_amount;
        let total_repaid = total_repaid(&repayments);
        if total_repaid < expected_repaid && grace_period_expired {
            return true;
        }
    } else if let Some(due_timestamp) = loan.repayment_due_timestamp {
        if now > due_timestamp {
            let total_due = calculate_total_repayment_due(loan);
            let repayments = super::repay::get_loan_repayments(state, loan.id);
            let total_repaid = total_repaid(&repayments);
            if total_repaid < total_due {
                return true;
            }
        }
    }
    false
}

/// The default rate after `total_loans_defaulted` loans have defaulted.
fn calculate_default_rate(state: &Microlending, total_loans_defaulted: u32) -> (rate: u32)
    ensures
        rate == default_rate(total_loans_defaulted, state@.total_loans_created),
{
    let total_loans = state.total_loans_created;
    if total_loans == 0 {
        return 0;
    }
    ((total_loans_defaulted as u128 * 10000) / total_loans as u128) as u32
}

/// The position of `lender`'s first unclaimed contribution, if any.
pub fn find_unclaimed(cs: &Vec<FundingContribution>, lender: Address) -> (r: Option<usize>)
    ensures
        as_index(r) == first_match(cs@, unclaimed_by(lender)),
{
    let mut k: usize = 0;
    while k < cs.len()
        invariant
            k <= cs@.len(),
            forall|j: int| 0 <= j < k ==> !unclaimed_by(lender)(#[trigger] cs@[j]),
        decreases cs@.len() - k,
    {
        if cs[k].lender == lender && !cs[k].claimed {
            proof { lemma_first_match_at(cs@, unclaimed_by(lender), k as int); }
            return Some(k);
        }
        k += 1;
    }
    proof { lemma_first_match_none(cs@, unclaimed_by(lender)); }
    None
}

/// `lender` claims the collateral of a loan in default: the loan is marked
/// defaulted, the borrower's record and the default rate are updated, and the
/// lender is paid its share of the collateral's value.
pub fn claim_default(state: &mut Microlending, lender: Address, loan_id: u32, now: u64) -> (r: Result<
    Vec<TokenTransfer>,
    MicrolendingError,
>)
    requires
        claim_fits(old(state)@, lender, loan_id, now),
    ensures
        match claim_model(old(state)@, lender, loan_id, now) {
            Ok((ns, ts)) => (r matches Ok(v) && v@ == ts) && final(state)@ == ns,
            Err(e) => r == Err::<Vec<TokenTransfer>, MicrolendingError>(e) && final(state)@ == old(state)@,
        },
{
    let i = match state.find_loan(loan_id) {
        Some(i) => i,
        None => return Err(MicrolendingError::LoanNotFound),
    };
    let ghost s0 = state@;
    assert(s0.loans[i as int] == state.loans@[i as int]@);
    let status = state.loans[i].request.status;
    if status == LoanStatus::Defaulted || status == LoanStatus::Completed {
        return Err(MicrolendingError::InvalidLoanStatus);
    }
    if !check_default_status(state, &state.loans[i].request, now) {
        return Err(MicrolendingError::NotInDefault);
    }
    let j = match find_unclaimed(&state.loans[i].contributions, lender) {
        Some(j) => j,
        None => return Err(MicrolendingError::NoContribution),
    };
    if state.token.is_none() {
        return Err(MicrolendingError::TokenNotConfigured);
    }
    let borrower = state.loans[i].request.borrower;
    let loan_amount = state.loans[i].request.amount;
    let collateral_value = state.loans[i].request.collateral.estimated_value;
    let share = lender_total(&state.loans[i].contributions, lender);
    let percentage: u32 = if loan_amount == 0 {
        0
    } else {
        assert(loan_amount != 0 ==> loan_amount as u128 != 0) by (bit_vector);
        ((share as u128 * 10000) / loan_amount as u128) as u32
    };
    assert(percentage == pct_of(s0.loans[i as int].contributions, loan_amount, lender));
    let lender_share = (collateral_value as u128 * percentage as u128 / 10000) as i128;
    let defaulted = state.total_loans_defaulted + 1;
    let default_rate = calculate_default_rate(state, defaulted);
    let contract = state.contract_address;
    let mut rec = state.take_record(i);
    rec.request.status = LoanStatus::Defaulted;
    let mut transfers: Vec<TokenTransfer> = Vec::new();
    if lender_share > 0 {
        transfers.push(TokenTransfer { from: contract, to: lender, amount: lender_share });
        let mut c = rec.contributions[j];
        c.claimed = true;
        rec.contributions.set(j, c);
    }
    state.put_record(i, rec, Ghost(s0));
    let mut metrics = state.get_metrics(borrower);
    metrics.defaulted_loans = metrics.defaulted_loans + 1;
    state.put_metrics(borrower, metrics);
    state.total_loans_defaulted = defaulted;
    let mut stats = state.current_stats();
    stats.default_rate = default_rate;
    state.system_stats = Some(stats);
    Ok(transfers)
}

} // verus!
