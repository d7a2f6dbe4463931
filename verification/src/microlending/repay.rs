//! Repaying loans and sharing repayments out to the lenders.
use super::datatypes::{
    BorrowerMetrics, FundingContribution, LoanRequest, LoanStatus, MicrolendingError, Repayment,
    SystemStats, TokenTransfer,
};
use super::fund::{fits_i128, lender_share, lender_share_fits, lender_total, share_percentage};
use super::request::{interest_fits, total_due_of};
use super::{
    copy_vec, loan_key, loan_of, metrics_of, set_metrics, stats_of, LoanRecordView, Microlending,
    MicrolendingState,
};
use crate::common::{first_match, Address};
use vstd::prelude::*;

verus! {

/// An unclaimed contribution that takes part in sharing out a repayment: its
/// position, its lender and the lender's share of the loan in basis points.
#[derive(Clone, Copy, Debug, PartialEq, Eq, Structural)]
pub struct LenderShare {
    pub index: usize,
    pub lender: Address,
    pub percentage: u32,
}

/// A lender's share of a loan in basis points, over the loan's contributions.
pub open spec fn pct_of(cs: Seq<FundingContribution>, loan_amount: i128, lender: Address) -> u32 {
    share_percentage(loan_amount, lender_share(cs, lender) as i128)
}

/// The share of the contributions' lenders can be computed without overflow.
pub open spec fn shares_computable(cs: Seq<FundingContribution>) -> bool {
    forall|j: int| 0 <= j < cs.len() && !cs[j].claimed ==> {
        &&& lender_share_fits(cs, #[trigger] cs[j].lender)
        &&& (lender_share(cs, cs[j].lender) as i128 as u128) * 10000 <= u128::MAX
    }
}

/// The unclaimed contributions among the first `n` whose lender has a positive share.
pub open spec fn eligible_prefix(cs: Seq<FundingContribution>, loan_amount: i128, n: nat) -> Seq<LenderShare>
    decreases n,
{
    if n == 0 || n > cs.len() {
        Seq::empty()
    } else {
        let rest = eligible_prefix(cs, loan_amount, (n - 1) as nat);
        let c = cs[n - 1];
        let p = pct_of(cs, loan_amount, c.lender);
        if !c.claimed && p > 0 {
            rest.push(LenderShare { index: (n - 1) as usize, lender: c.lender, percentage: p })
        } else {
            rest
        }
    }
}

/// The contributions that take part in sharing out a repayment, in order.
pub open spec fn eligible_shares(cs: Seq<FundingContribution>, loan_amount: i128) -> Seq<LenderShare> {
    eligible_prefix(cs, loan_amount, cs.len())
}

/// A lender's first cut of a repayment: amount * percentage / 10000.
pub open spec fn initial_share(amount: i128, pct: u32) -> int {
    ((amount as u128) * (pct as u128)) / 10000
}

pub open spec fn sum_initial(sh: Seq<LenderShare>, amount: i128) -> int
    decreases sh.len(),
{
    if sh.len() == 0 {
        0
    } else {
        sum_initial(sh.drop_last(), amount) + initial_share(amount, sh.last().percentage)
    }
}

pub open spec fn sum_pct(sh: Seq<LenderShare>) -> int
    decreases sh.len(),
{
    if sh.len() == 0 {
        0
    } else {
        sum_pct(sh.drop_last()) + sh.last().percentage
    }
}

/// A lender's cut of the remainder left after the first cuts.
pub open spec fn rem_share(remainder: int, pct: u32, total_pct: int) -> int {
    (remainder * pct) / total_pct
}

pub open spec fn sum_rem(sh: Seq<LenderShare>, remainder: int, total_pct: int) -> int
    decreases sh.len(),
{
    if sh.len() == 0 {
        0
    } else {
        sum_rem(sh.drop_last(), remainder, total_pct) + rem_share(remainder, sh.last().percentage, total_pct)
    }
}

/// What each taking-part contribution's lender receives of a repayment: the
/// first cut, plus a proportional cut of the remainder; what rounding leaves
/// goes to the first.
pub open spec fn payout_amounts(sh: Seq<LenderShare>, amount: i128) -> Seq<int> {
    let remainder = amount - sum_initial(sh, amount);
    if remainder > 0 && sh.len() > 0 {
        let tp = sum_pct(sh);
        let base = Seq::new(sh.len(), |k: int| initial_share(amount, sh[k].percentage) + rem_share(remainder, sh[k].percentage, tp));
        let fr = remainder - sum_rem(sh, remainder, tp);
        if fr > 0 {
            base.update(0, base[0] + fr)
        } else {
            base
        }
    } else {
        Seq::new(sh.len(), |k: int| initial_share(amount, sh[k].percentage))
    }
}

/// The arithmetic of sharing out a repayment stays within the machine ranges.
pub open spec fn distribution_fits(sh: Seq<LenderShare>, amount: i128) -> bool {
    &&& forall|k: int| 0 <= k < sh.len() ==> (amount as u128) * (#[trigger] sh[k].percentage as u128) <= u128::MAX
    &&& forall|n: int| 0 <= n <= sh.len() ==> #[trigger] fits_i128(sum_initial(sh.take(n), amount))
    &&& (amount - sum_initial(sh, amount) > 0 && sh.len() > 0) ==> {
        let r = amount - sum_initial(sh, amount);
        let tp = sum_pct(sh);
        &&& forall|n: int| 0 <= n <= sh.len() ==> #[trigger] sum_pct(sh.take(n)) <= u32::MAX
        &&& forall|k: int| 0 <= k < sh.len() ==> fits_i128(#[trigger] rem_share(r, sh[k].percentage, tp))
        &&& forall|k: int| 0 <= k < sh.len() ==> fits_i128(
            initial_share(amount, sh[k].percentage) + #[trigger] rem_share(r, sh[k].percentage, tp),
        )
        &&& forall|n: int| 0 <= n <= sh.len() ==> #[trigger] fits_i128(sum_rem(sh.take(n), r, tp))
        &&& fits_i128(r - sum_rem(sh, r, tp))
        &&& fits_i128(initial_share(amount, sh[0].percentage) + rem_share(r, sh[0].percentage, tp) + (r - sum_rem(sh, r, tp)))
    }
}

/// The transfers paying the first `n` taking-part lenders that receive something.
pub open spec fn payout_transfers(sh: Seq<LenderShare>, amts: Seq<int>, contract: Address, n: nat) -> Seq<TokenTransfer>
    decreases n,
{
    if n == 0 || n > sh.len() {
        Seq::empty()
    } else {
        let rest = payout_transfers(sh, amts, contract, (n - 1) as nat);
        if amts[n - 1] > 0 {
            rest.push(TokenTransfer { from: contract, to: sh[n - 1].lender, amount: amts[n - 1] as i128 })
        } else {
            rest
        }
    }
}

/// The contributions after marking claimed those of the first `n` taking-part
/// lenders that receive something.
pub open spec fn mark_claimed(cs: Seq<FundingContribution>, sh: Seq<LenderShare>, amts: Seq<int>, n: nat) -> Seq<FundingContribution>
    decreases n,
{
    if n == 0 || n > sh.len() {
        cs
    } else {
        let rest = mark_claimed(cs, sh, amts, (n - 1) as nat);
        let j = sh[n - 1].index as int;
        if amts[n - 1] > 0 && 0 <= j < rest.len() {
            rest.update(j, FundingContribution { claimed: true, ..rest[j] })
        } else {
            rest
        }
    }
}

/// What has been repaid, over a list of repayments.
pub open spec fn repaid_sum(rs: Seq<Repayment>) -> int
    decreases rs.len(),
{
    if rs.len() == 0 {
        0
    } else {
        repaid_sum(rs.drop_last()) + rs.last().amount
    }
}

/// Every partial sum of the repayments fits in an `i128`.
pub open spec fn repaid_fits(rs: Seq<Repayment>) -> bool {
    forall|n: int| 0 <= n <= rs.len() ==> #[trigger] fits_i128(repaid_sum(rs.take(n)))
}

/// When the installment after `paid` installments is due: funding time plus
/// `paid + 1` periods.
pub open spec fn installment_due(loan: LoanRequest, paid: nat, now: u64) -> int {
    let funded_ts = match loan.funded_timestamp {
        Some(t) => t,
        None => now,
    };
    funded_ts + (paid + 1) * loan.repayment_schedule.frequency_days * 86400
}

/// Why a repayment breaks a loan's installment schedule, if it does: more
/// than what is left, or later than a week after the next installment was due.
pub open spec fn schedule_error(loan: LoanRequest, paid: nat, amount: i128, remaining: int, now: u64) -> Option<MicrolendingError> {
    if loan.repayment_schedule.installments > 0 {
        if amount > remaining {
            Some(MicrolendingError::RepaymentScheduleViolation)
        } else if now > installment_due(loan, paid, now) + 604800 {
            Some(MicrolendingError::RepaymentScheduleViolation)
        } else {
            None
        }
    } else {
        None
    }
}

/// The state after `borrower` repays `amount`, and the token transfers to
/// make, or why the repayment is refused.  `borrower_balance` and
/// `contract_balance` are the token balances before the call.
pub open spec fn repay_model(
    s: MicrolendingState,
    borrower: Address,
    loan_id: u32,
    amount: i128,
    now: u64,
    borrower_balance: i128,
    contract_balance: i128,
) -> Result<(MicrolendingState, Seq<TokenTransfer>), MicrolendingError> {
    if amount <= 0 {
        Err(MicrolendingError::InvalidAmount)
    } else {
        match first_match(s.loans, loan_key(loan_id)) {
            None => Err(MicrolendingError::LoanNotFound),
            Some(i) => {
                let rec = s.loans[i];
                let loan = rec.request;
                let total_due = total_due_of(loan.amount, loan.interest_rate);
                let total_repaid = repaid_sum(rec.repayments);
                let remaining = total_due - total_repaid;
                if loan.borrower != borrower {
                    Err(MicrolendingError::Unauthorized)
                } else if loan.status != LoanStatus::Funded && loan.status != LoanStatus::Repaying {
                    Err(MicrolendingError::LoanNotRepayable)
                } else if schedule_error(loan, rec.repayments.len(), amount, remaining, now) is Some {
                    Err(schedule_error(loan, rec.repayments.len(), amount, remaining, now).unwrap())
                } else if amount > remaining {
                    Err(MicrolendingError::RepaymentExceedsDue)
                } else if s.token is None {
                    Err(MicrolendingError::TokenNotConfigured)
                } else if borrower_balance < amount || contract_balance + amount < amount {
                    Err(MicrolendingError::InsufficientBalance)
                } else {
                    let sh = eligible_shares(rec.contributions, loan.amount);
                    let amts = payout_amounts(sh, amount);
                    let fully = total_repaid + amount >= total_due;
                    let m = metrics_of(s.borrower_metrics, borrower);
                    let st = stats_of(s);
                    Ok((MicrolendingState {
                        loans: s.loans.update(i, LoanRecordView {
                            request: LoanRequest {
                                status: if fully { LoanStatus::Completed } else { LoanStatus::Repaying },
                                ..loan
                            },
                            contributions: mark_claimed(rec.contributions, sh, amts, sh.len()),
                            repayments: rec.repayments.push(Repayment { amount, timestamp: now }),
                        }),
                        borrower_metrics: if fully {
                            set_metrics(s.borrower_metrics, borrower, BorrowerMetrics { completed_loans: (m.completed_loans + 1) as u32, ..m })
                        } else {
                            s.borrower_metrics
                        },
                        total_loans_completed: if fully { (s.total_loans_completed + 1) as u32 } else { s.total_loans_completed },
                        system_stats: Some(SystemStats { total_repaid: (st.total_repaid + amount) as i128, ..st }),
                        ..s
                    }, seq![TokenTransfer { from: borrower, to: s.contract_address, amount }]
                        + payout_transfers(sh, amts, s.contract_address, sh.len())))
                }
            },
        }
    }
}

/// A repayment's arithmetic stays within the machine ranges.
pub open spec fn repay_fits(s: MicrolendingState, borrower: Address, loan_id: u32, amount: i128, now: u64) -> bool {
    match loan_of(s, loan_id) {
        None => true,
        Some(rec) => {
            let loan = rec.request;
            let total_due = total_due_of(loan.amount, loan.interest_rate);
            let total_repaid = repaid_sum(rec.repayments);
            (amount > 0 && loan.borrower == borrower && (loan.status == LoanStatus::Funded || loan.status
                == LoanStatus::Repaying)) ==> {
                &&& interest_fits(loan.amount, loan.interest_rate)
                &&& repaid_fits(rec.repayments)
                &&& fits_i128(total_due - total_repaid)
                &&& (loan.repayment_schedule.installments > 0 ==> {
                    &&& rec.repayments.len() < u64::MAX
                    &&& installment_due(loan, rec.repayments.len(), now) + 604800 <= u64::MAX
                })
                &&& (amount <= total_due - total_repaid ==> {
                    &&& shares_computable(rec.contributions)
                    &&& distribution_fits(eligible_shares(rec.contributions, loan.amount), amount)
                    &&& metrics_of(s.borrower_metrics, borrower).completed_loans < u32::MAX
                    &&& s.total_loans_completed < u32::MAX
                    &&& fits_i128(stats_of(s).total_repaid + amount)
                })
            }
        },
    }
}

pub proof fn lemma_sum_initial_nonneg(sh: Seq<LenderShare>, amount: i128)
    ensures
        sum_initial(sh, amount) >= 0,
    decreases sh.len(),
{
    if sh.len() > 0 {
        lemma_sum_initial_nonneg(sh.drop_last(), amount);
    }
}

/// The total a list of repayments adds up to.
pub fn total_repaid(rs: &Vec<Repayment>) -> (total: i128)
    requires
        repaid_fits(rs@),
    ensures
        total == repaid_sum(rs@),
{
    let mut total: i128 = 0;
    let mut k: usize = 0;
    while k < rs.len()
        invariant
            k <= rs@.len(),
            repaid_fits(rs@),
            total == repaid_sum(rs@.take(k as int)),
        decreases rs@.len() - k,
    {
        assert(rs@.take(k + 1 as int).drop_last() == rs@.take(k as int));
        assert(fits_i128(repaid_sum(rs@.take(k + 1 as int))));
        total = total + rs[k].amount;
        k += 1;
    }
    assert(rs@.take(rs@.len() as int) == rs@);
    total
}

/// The contributions that take part in sharing out a repayment.
pub fn eligible_lender_shares(cs: &Vec<FundingContribution>, loan_amount: i128) -> (sh: Vec<LenderShare>)
    requires
        shares_computable(cs@),
    ensures
        sh@ == eligible_shares(cs@, loan_amount),
{
    let mut sh: Vec<LenderShare> = Vec::new();
    let mut k: usize = 0;
    while k < cs.len()
        invariant
            k <= cs@.len(),
            shares_computable(cs@),
            sh@ == eligible_prefix(cs@, loan_amount, k as nat),
        decreases cs@.len() - k,
    {
        if !cs[k].claimed {
            let lender = cs[k].lender;
            let share = lender_total(cs, lender);
            let percentage: u32 = if loan_amount == 0 {
                0
            } else {
                assert(loan_amount != 0 ==> loan_amount as u128 != 0) by (bit_vector);
                ((share as u128 * 10000) / loan_amount as u128) as u32
            };
            assert(percentage == pct_of(cs@, loan_amount, lender));
            if percentage > 0 {
                sh.push(LenderShare { index: k, lender, percentage });
            }
        }
        k += 1;
    }
    sh
}

/// What each taking-part lender receives of a repayment of `amount`.
pub fn distribution_amounts(sh: &Vec<LenderShare>, amount: i128) -> (amts: Vec<i128>)
    requires
        amount > 0,
        forall|k: int| 0 <= k < sh@.len() ==> #[trigger] sh@[k].percentage > 0,
        distribution_fits(sh@, amount),
    ensures
        amts@.len() == sh@.len(),
        forall|k: int| 0 <= k < sh@.len() ==> amts@[k] == payout_amounts(sh@, amount)[k],
{
    let n = sh.len();
    let mut amts: Vec<i128> = Vec::new();
    let mut total_distributed: i128 = 0;
    let mut k: usize = 0;
    while k < n
        invariant
            n == sh@.len(),
            k <= n,
            distribution_fits(sh@, amount),
            amts@.len() == k,
            forall|j: int| 0 <= j < k ==> amts@[j] == initial_share(amount, sh@[j].percentage),
            total_distributed == sum_initial(sh@.take(k as int), amount),
        decreases n - k,
    {
        assert(sh@.take(k + 1 as int).drop_last() == sh@.take(k as int));
        assert(fits_i128(sum_initial(sh@.take(k + 1 as int), amount)));
        let p = sh[k].percentage;
        assert((amount as u128) * (sh@[k as int].percentage as u128) <= u128::MAX);
        let initial_share = (amount as u128 * p as u128 / 10000) as i128;
        amts.push(initial_share);
        total_distributed = total_distributed + initial_share;
        k += 1;
    }
    assert(sh@.take(n as int) == sh@);
    proof { lemma_sum_initial_nonneg(sh@, amount); }
    let remainder = amount - total_distributed;
    if remainder > 0 && n > 0 {
        let ghost r = remainder as int;
        let mut total_percentage: u32 = 0;
        let mut k: usize = 0;
        while k < n
            invariant
                n == sh@.len(),
                k <= n,
                remainder > 0,
                remainder == amount - sum_initial(sh@, amount),
                distribution_fits(sh@, amount),
                total_percentage == sum_pct(sh@.take(k as int)),
            decreases n - k,
        {
            assert(sh@.take(k + 1 as int).drop_last() == sh@.take(k as int));
            assert(sum_pct(sh@.take(k + 1 as int)) <= u32::MAX);
            total_percentage = total_percentage + sh[k].percentage;
            k += 1;
        }
        assert(sh@.take(n as int) == sh@);
        let ghost tp = sum_pct(sh@);
        let mut remainder_distributed: i128 = 0;
        let mut k: usize = 0;
        while k < n
            invariant
                n == sh@.len(),
                n > 0,
                k <= n,
                remainder > 0,
                remainder == amount - sum_initial(sh@, amount),
                distribution_fits(sh@, amount),
                forall|j: int| 0 <= j < sh@.len() ==> #[trigger] sh@[j].percentage > 0,
                total_percentage == sum_pct(sh@),
                amts@.len() == n,
                forall|j: int| 0 <= j < k ==> amts@[j] == initial_share(amount, sh@[j].percentage) + rem_share(remainder as int, sh@[j].percentage, total_percentage as int),
                forall|j: int| k <= j < n ==> amts@[j] == initial_share(amount, sh@[j].percentage),
                remainder_distributed == sum_rem(sh@.take(k as int), remainder as int, total_percentage as int),
            decreases n - k,
        {
            assert(sh@.take(k + 1 as int).drop_last() == sh@.take(k as int));
            assert(fits_i128(sum_rem(sh@.take(k + 1 as int), remainder as int, total_percentage as int)));
            let p = sh[k].percentage;
            if total_percentage > 0 {
                assert(fits_i128(rem_share(remainder as int, sh@[k as int].percentage, total_percentage as int)));
                assert(fits_i128(initial_share(amount, sh@[k as int].percentage) + rem_share(remainder as int, sh@[k as int].percentage, total_percentage as int)));
                assert((remainder as u128) * (p as u128) <= u128::MAX) by {
                    assert((amount as u128) * (p as u128) <= u128::MAX);
                    assert(remainder <= amount) by {
                        lemma_sum_initial_nonneg(sh@, amount);
                    }
                    assert((remainder as u128) <= (amount as u128));
                    assert((remainder as u128) * (p as u128) <= (amount as u128) * (p as u128)) by (nonlinear_arith)
                        requires
                            (remainder as u128) <= (amount as u128),
                    ;
                }
                let remainder_share = (remainder as u128 * p as u128 / total_percentage as u128) as i128;
                assert(remainder_share == rem_share(remainder as int, p, total_percentage as int));
                let current_amount = amts[k];
                amts.set(k, current_amount + remainder_share);
                remainder_distributed = remainder_distributed + remainder_share;
            } else {
                assert(sh@.take(0) =~= Seq::<LenderShare>::empty());
                assert(false) by {
                    lemma_sum_pct_positive(sh@);
                }
            }
            k += 1;
        }
        assert(sh@.take(n as int) == sh@);
        let final_remainder = remainder - remainder_distributed;
        if final_remainder > 0 {
            let first_amount = amts[0];
            amts.set(0, first_amount + final_remainder);
        }
    }
    amts
}

/// Each taking-part share has a positive percentage, so their sum is positive.
pub proof fn lemma_sum_pct_positive(sh: Seq<LenderShare>)
    requires
        sh.len() > 0,
        forall|k: int| 0 <= k < sh.len() ==> #[trigger] sh[k].percentage > 0,
    ensures
        sum_pct(sh) > 0,
    decreases sh.len(),
{
    let last = sh.len() - 1;
    assert(sh[last].percentage > 0);
    assert(sum_pct(sh) == sum_pct(sh.drop_last()) + sh.last().percentage);
    if sh.len() > 1 {
        assert forall|k: int| 0 <= k < sh.drop_last().len() implies #[trigger] sh.drop_last()[k].percentage > 0 by {
            assert(sh[k].percentage > 0);
        }
        lemma_sum_pct_positive(sh.drop_last());
    } else {
        assert(sh.drop_last().len() == 0);
        assert(sum_pct(sh.drop_last()) == 0);
    }
}


/// The unclaimed contributions taking part point into the list and have a
/// positive share.
proof fn lemma_eligible_prefix(cs: Seq<FundingContribution>, loan_amount: i128, n: nat)
    requires
        n <= cs.len(),
    ensures
        forall|k: int| 0 <= k < eligible_prefix(cs, loan_amount, n).len() ==> {
            &&& (#[trigger] eligible_prefix(cs, loan_amount, n)[k]).index < n
            &&& eligible_prefix(cs, loan_amount, n)[k].percentage > 0
        },
    decreases n,
{
    if n > 0 {
        lemma_eligible_prefix(cs, loan_amount, (n - 1) as nat);
        let rest = eligible_prefix(cs, loan_amount, (n - 1) as nat);
        let cur = eligible_prefix(cs, loan_amount, n);
        assert forall|k: int| 0 <= k < cur.len() implies (#[trigger] cur[k]).index < n && cur[k].percentage > 0 by {
            if k < rest.len() {
                assert(cur[k] == rest[k]);
            }
        }
    }
}

/// Every unclaimed contribution taking part in sharing out a repayment has a
/// positive share.
pub proof fn lemma_eligible_positive(cs: Seq<FundingContribution>, loan_amount: i128)
    ensures
        forall|k: int| 0 <= k < eligible_shares(cs, loan_amount).len() ==> #[trigger] eligible_shares(cs, loan_amount)[k].percentage > 0,
{
    lemma_eligible_prefix(cs, loan_amount, cs.len());
}

/// What a loan's borrower owes in all: principal plus interest.
pub fn calculate_total_repayment_due(loan: &LoanRequest) -> (total: i128)
    requires
        interest_fits(loan.amount, loan.interest_rate),
    ensures
        total == total_due_of(loan.amount, loan.interest_rate),
{
    let principal = loan.amount;
    let interest = (principal as u128 * loan.interest_rate as u128 / 10000) as i128;
    principal + interest
}

/// The repayments made on a loan, in order; none for an unknown loan.
pub fn get_loan_repayments(state: &Microlending, loan_id: u32) -> (r: Vec<Repayment>)
    ensures
        r@ == (match loan_of(state@, loan_id) {
            Some(rec) => rec.repayments,
            None => Seq::empty(),
        }),
{
    match state.find_loan(loan_id) {
        Some(i) => {
            assert(state@.loans[i as int] == state.loans@[i as int]@);
            copy_vec(&state.loans[i].repayments)
        },
        None => Vec::new(),
    }
}

/// `borrower` repays `amount` of a loan.  The repayment is checked against the
/// installment schedule and what is still due, taken from the borrower, and
/// shared out at once to the lenders with unclaimed contributions in
/// proportion to their shares; a loan repaid in full is completed.
pub fn repay_loan(
    state: &mut Microlending,
    borrower: Address,
    loan_id: u32,
    amount: i128,
    now: u64,
    borrower_balance: i128,
    contract_balance: i128,
) -> (r: Result<Vec<TokenTransfer>, MicrolendingError>)
    requires
        repay_fits(old(state)@, borrower, loan_id, amount, now),
    ensures
        match repay_model(old(state)@, borrower, loan_id, amount, now, borrower_balance, contract_balance) {
            Ok((ns, ts)) => (r matches Ok(v) && v@ == ts) && final(state)@ == ns,
            Err(e) => r == Err::<Vec<TokenTransfer>, MicrolendingError>(e) && final(state)@ == old(state)@,
        },
{
    if amount <= 0 {
        return Err(MicrolendingError::InvalidAmount);
    }
    let i = match state.find_loan(loan_id) {
        Some(i) => i,
        None => return Err(MicrolendingError::LoanNotFound),
    };
    let ghost s0 = state@;
    assert(s0.loans[i as int] == state.loans@[i as int]@);
    if state.loans[i].request.borrower != borrower {
        return Err(MicrolendingError::Unauthorized);
    }
    let status = state.loans[i].request.status;
    if status != LoanStatus::Funded && status != LoanStatus::Repaying {
        return Err(MicrolendingError::LoanNotRepayable);
    }
    let paid = state.loans[i].repayments.len();
    let total_repaid = total_repaid(&state.loans[i].repayments);
    let total_due = calculate_total_repayment_due(&state.loans[i].request);
    let remaining_due = total_due - total_repaid;
    let installments = state.loans[i].request.repayment_schedule.installments;
    if installments > 0 {
        if amount > remaining_due {
            return Err(MicrolendingError::RepaymentScheduleViolation);
        }
        let frequency = state.loans[i].request.repayment_schedule.frequency_days;
        let funded_timestamp = match state.loans[i].request.funded_timestamp {
            Some(t) => t,
            None => now,
        };
        let ghost due = installment_due(s0.loans[i as int].request, paid as nat, now);
        let next: u64 = paid as u64 + 1;
        assert(next * frequency <= next * frequency * 86400) by (nonlinear_arith)
            requires
                next >= 1,
        ;
        assert(funded_timestamp + next * frequency * 86400 == due);
        let expected_due_time = funded_timestamp + next * frequency as u64 * 86400;
        if now > expected_due_time + 604800 {
            return Err(MicrolendingError::RepaymentScheduleViolation);
        }
    }
    if amount > remaining_due {
        return Err(MicrolendingError::RepaymentExceedsDue);
    }
    if state.token.is_none() {
        return Err(MicrolendingError::TokenNotConfigured);
    }
    if borrower_balance < amount || contract_balance < 0 {
        return Err(MicrolendingError::InsufficientBalance);
    }
    let loan_amount = state.loans[i].request.amount;
    let sh = eligible_lender_shares(&state.loans[i].contributions, loan_amount);
    let ghost cs0 = s0.loans[i as int].contributions;
    proof {
        lemma_eligible_prefix(cs0, loan_amount, cs0.len());
    }
    let amts = distribution_amounts(&sh, amount);
    let ghost pay = payout_amounts(sh@, amount);
    let contract = state.contract_address;
    let mut transfers: Vec<TokenTransfer> = Vec::new();
    transfers.push(TokenTransfer { from: borrower, to: contract, amount });
    let ghost head = transfers@;
    let mut rec = state.take_record(i);
    let n = sh.len();
    let mut k: usize = 0;
    while k < n
        invariant
            n == sh@.len(),
            k <= n,
            sh@ == eligible_shares(cs0, loan_amount),
            forall|j: int| 0 <= j < sh@.len() ==> (#[trigger] sh@[j]).index < cs0.len(),
            amts@.len() == n,
            forall|j: int| 0 <= j < n ==> amts@[j] == #[trigger] pay[j],
            rec.request == s0.loans[i as int].request,
            rec.repayments@ == s0.loans[i as int].repayments,
            rec.contributions@.len() == cs0.len(),
            rec.contributions@ == mark_claimed(cs0, sh@, pay, k as nat),
            transfers@ == head + payout_transfers(sh@, pay, contract, k as nat),
        decreases n - k,
    {
        let a = amts[k];
        if a > 0 {
            let lender = sh[k].lender;
            transfers.push(TokenTransfer { from: contract, to: lender, amount: a });
            assert(transfers@ == head + payout_transfers(sh@, pay, contract, (k + 1) as nat));
            let idx = sh[k].index;
            let mut c = rec.contributions[idx];
            c.claimed = true;
            rec.contributions.set(idx, c);
        }
        k += 1;
    }
    rec.repayments.push(Repayment { amount, timestamp: now });
    let is_fully_repaid = total_repaid + amount >= total_due;
    rec.request.status = if is_fully_repaid { LoanStatus::Completed } else { LoanStatus::Repaying };
    state.put_record(i, rec, Ghost(s0));
    if is_fully_repaid {
        let mut metrics = state.get_metrics(borrower);
        metrics.completed_loans = metrics.completed_loans + 1;
        state.put_metrics(borrower, metrics);
        state.total_loans_completed = state.total_loans_completed + 1;
    }
    let mut stats = state.current_stats();
    stats.total_repaid = stats.total_repaid + amount;
    state.system_stats = Some(stats);
    Ok(transfers)
}

} // verus!
