//! Funding loans and lenders' shares.
use super::datatypes::{
    FundingContribution, LoanRequest, LoanStatus, MicrolendingError, SystemStats, TokenTransfer,
};
use super::request::get_loan_request;
use super::{
    copy_vec, loan_key, loan_of, loans_of, stats_of, AccountLoan, LoanRecordView, Microlending,
    MicrolendingState,
};
use crate::common::{first_match, Address};
use vstd::prelude::*;

verus! {

/// Whether `x` fits in an `i128`.
pub open spec fn fits_i128(x: int) -> bool {
    i128::MIN <= x <= i128::MAX
}

/// What `lender` has contributed in total, over a list of contributions.
pub open spec fn lender_share(cs: Seq<FundingContribution>, lender: Address) -> int
    decreases cs.len(),
{
    if cs.len() == 0 {
        0
    } else {
        lender_share(cs.drop_last(), lender) + if cs.last().lender == lender { cs.last().amount as int } else { 0 }
    }
}

/// Every partial sum of a lender's contributions fits in an `i128`.
pub open spec fn lender_share_fits(cs: Seq<FundingContribution>, lender: Address) -> bool {
    forall|k: int| 0 <= k <= cs.len() ==> #[trigger] fits_i128(lender_share(cs.take(k), lender))
}

/// A lender's share of a loan in basis points: share * 10000 / amount, read
/// as unsigned and truncated to 32 bits; zero for a zero amount.
pub open spec fn share_percentage(loan_amount: i128, share: i128) -> u32 {
    if loan_amount == 0 {
        0
    } else {
        (((share as u128) * 10000) / ((loan_amount as u128) as int)) as u32
    }
}

/// The seconds until the final due date of a loan funded now: the whole
/// schedule, or the loan's duration when it has no installments.
pub open spec fn due_period(loan: LoanRequest) -> int {
    if loan.repayment_schedule.installments > 0 {
        loan.repayment_schedule.installments * loan.repayment_schedule.frequency_days * 86400
    } else {
        loan.duration_days * 86400
    }
}

/// How much of an offer is accepted: up to what the loan still needs.
pub open spec fn accepted_amount(loan: LoanRequest, amount: i128) -> i128 {
    if amount < loan.amount - loan.funded_amount { amount } else { (loan.amount - loan.funded_amount) as i128 }
}

/// Funding does not overflow a due date, a counter or a statistic.
pub open spec fn fund_fits(s: MicrolendingState, lender: Address, loan_id: u32, amount: i128, now: u64) -> bool {
    match loan_of(s, loan_id) {
        None => true,
        Some(rec) => {
            let loan = rec.request;
            let funding = accepted_amount(loan, amount);
            (amount > 0 && loan.funded_amount < loan.amount && loan.borrower != lender) ==> {
                &&& fits_i128(loan.amount - loan.funded_amount)
                &&& (loan.repayment_schedule.installments > 0 ==> loan.repayment_schedule.installments
                    * loan.repayment_schedule.frequency_days <= u32::MAX)
                &&& now + due_period(loan) <= u64::MAX
                &&& s.total_loans_funded < u32::MAX
                &&& fits_i128(stats_of(s).total_funded + funding)
            }
        },
    }
}

/// The state after `lender` offers `amount` to a loan, and the token
/// transfers to make, or why the offer is refused.  `lender_balance` and
/// `contract_balance` are the token balances of the lender and of the contract
/// before the call.
pub open spec fn fund_model(
    s: MicrolendingState,
    lender: Address,
    loan_id: u32,
    amount: i128,
    now: u64,
    lender_balance: i128,
    contract_balance: i128,
) -> Result<(MicrolendingState, Seq<TokenTransfer>), MicrolendingError> {
    if amount <= 0 {
        Err(MicrolendingError::InvalidAmount)
    } else {
        match first_match(s.loans, loan_key(loan_id)) {
            None => Err(MicrolendingError::LoanNotFound),
            Some(i) => {
                let rec = s.loans[i];
                let loan = rec.request;
                if loan.funded_amount >= loan.amount {
                    Err(MicrolendingError::LoanFullyFunded)
                } else if loan.status != LoanStatus::Pending && loan.status != LoanStatus::Funded {
                    Err(MicrolendingError::InvalidLoanStatus)
                } else if loan.borrower == lender {
                    Err(MicrolendingError::Unauthorized)
                } else if s.token is None {
                    Err(MicrolendingError::TokenNotConfigured)
                } else {
                    let funding = accepted_amount(loan, amount);
                    let funded = (loan.funded_amount + funding) as i128;
                    let fully = funded >= loan.amount;
                    if lender_balance < funding {
                        Err(MicrolendingError::InsufficientBalance)
                    } else if fully && contract_balance + funding < funded {
                        Err(MicrolendingError::InsufficientBalance)
                    } else {
                        let request = if fully {
                            LoanRequest {
                                funded_amount: funded,
                                status: LoanStatus::Funded,
                                funded_timestamp: Some(now),
                                repayment_due_timestamp: Some((now + due_period(loan)) as u64),
                                ..loan
                            }
                        } else {
                            LoanRequest { funded_amount: funded, ..loan }
                        };
                        let entry = AccountLoan { account: lender, loan_id };
                        let st = stats_of(s);
                        let deposit = TokenTransfer { from: lender, to: s.contract_address, amount: funding };
                        Ok((MicrolendingState {
                            loans: s.loans.update(i, LoanRecordView {
                                request,
                                contributions: rec.contributions.push(FundingContribution {
                                    lender,
                                    amount: funding,
                                    timestamp: now,
                                    claimed: false,
                                }),
                                ..rec
                            }),
                            lender_loans: if s.lender_loans.contains(entry) { s.lender_loans } else { s.lender_loans.push(entry) },
                            total_loans_funded: if fully { (s.total_loans_funded + 1) as u32 } else { s.total_loans_funded },
                            system_stats: Some(SystemStats { total_funded: (st.total_funded + funding) as i128, ..st }),
                            ..s
                        }, if fully {
                            seq![deposit, TokenTransfer { from: s.contract_address, to: loan.borrower, amount: funded }]
                        } else {
                            seq![deposit]
                        }))
                    }
                }
            },
        }
    }
}

/// Whether an account already lists a loan.
fn lists_loan(list: &Vec<AccountLoan>, entry: AccountLoan) -> (b: bool)
    ensures
        b == list@.contains(entry),
{
    let mut i: usize = 0;
    while i < list.len()
        invariant
            i <= list@.len(),
            forall|j: int| 0 <= j < i ==> list@[j] != entry,
        decreases list@.len() - i,
    {
        if list[i] == entry {
            return true;
        }
        i += 1;
    }
    false
}

/// `lender` funds a loan with up to `amount`: takes what the loan still needs
/// from the lender and, once the loan is fully funded, pays it to the borrower.
pub fn fund_loan(
    state: &mut Microlending,
    lender: Address,
    loan_id: u32,
    amount: i128,
    now: u64,
    lender_balance: i128,
    contract_balance: i128,
) -> (r: Result<Vec<TokenTransfer>, MicrolendingError>)
    requires
        fund_fits(old(state)@, lender, loan_id, amount, now),
    ensures
        match fund_model(old(state)@, lender, loan_id, amount, now, lender_balance, contract_balance) {
            Ok((ns, ts)) => (r matches Ok(v) && v@ == ts) && final(state)@ == ns,
            Err(e) => r == Err::<Vec<TokenTransfer>, MicrolendingError>(e) && final(state)@ == old(state)@,
        },
{
    if amount <= 0 {
        return Err(MicrolendingError::InvalidAmount);
    }
    let i = match state.find_loan(loan_id) {
        Some(i) => i,
        None => return Err(MicrolendingError::LoanNotFound),
    };
    assert(state@.loans[i as int] == state.loans@[i as int]@);
    let loan_amount = state.loans[i].request.amount;
    let funded_before = state.loans[i].request.funded_amount;
    if funded_before >= loan_amount {
        return Err(MicrolendingError::LoanFullyFunded);
    }
    let status = state.loans[i].request.status;
    if status != LoanStatus::Pending && status != LoanStatus::Funded {
        return Err(MicrolendingError::InvalidLoanStatus);
    }
    let borrower = state.loans[i].request.borrower;
    if borrower == lender {
        return Err(MicrolendingError::Unauthorized);
    }
    let remaining_amount = loan_amount - funded_before;
    if remaining_amount <= 0 {
        return Err(MicrolendingError::LoanFullyFunded);
    }
    let funding_amount = if amount < remaining_amount { amount } else { remaining_amount };
    if state.token.is_none() {
        return Err(MicrolendingError::TokenNotConfigured);
    }
    if lender_balance < funding_amount {
        return Err(MicrolendingError::InsufficientBalance);
    }
    let funded = funded_before + funding_amount;
    let is_fully_funded = funded >= loan_amount;
    let installments = state.loans[i].request.repayment_schedule.installments;
    let frequency = state.loans[i].request.repayment_schedule.frequency_days;
    let duration = state.loans[i].request.duration_days;
    let due_timestamp = if installments > 0 {
        now + (installments * frequency) as u64 * 24 * 60 * 60
    } else {
        now + (duration as u64) * 24 * 60 * 60
    };
    if is_fully_funded && contract_balance < funded_before {
        return Err(MicrolendingError::InsufficientBalance);
    }
    let contract = state.contract_address;
    let ghost before = state@;
    let mut rec = state.take_record(i);
    rec.request.funded_amount = funded;
    if is_fully_funded {
        rec.request.status = LoanStatus::Funded;
        rec.request.funded_timestamp = Some(now);
        rec.request.repayment_due_timestamp = Some(due_timestamp);
    }
    rec.contributions.push(FundingContribution { lender, amount: funding_amount, timestamp: now, claimed: false });
    state.put_record(i, rec, Ghost(before));
    let entry = AccountLoan { account: lender, loan_id };
    if !lists_loan(&state.lender_loans, entry) {
        state.lender_loans.push(entry);
    }
    let mut transfers: Vec<TokenTransfer> = Vec::new();
    transfers.push(TokenTransfer { from: lender, to: contract, amount: funding_amount });
    if is_fully_funded {
        transfers.push(TokenTransfer { from: contract, to: borrower, amount: funded });
        state.total_loans_funded = state.total_loans_funded + 1;
    }
    let mut stats = state.current_stats();
    stats.total_funded = stats.total_funded + funding_amount;
    state.system_stats = Some(stats);
    Ok(transfers)
}

/// The contributions made to a loan, in order; none for an unknown loan.
pub fn get_loan_fundings(state: &Microlending, loan_id: u32) -> (r: Vec<FundingContribution>)
    ensures
        r@ == (match loan_of(state@, loan_id) {
            Some(rec) => rec.contributions,
            None => Seq::empty(),
        }),
{
    match state.find_loan(loan_id) {
        Some(i) => {
            assert(state@.loans[i as int] == state.loans@[i as int]@);
            copy_vec(&state.loans[i].contributions)
        },
        None => Vec::new(),
    }
}

/// The loans a lender has funded, in the order first funded.
pub fn get_lender_loans(state: &Microlending, lender: Address) -> (r: Vec<u32>)
    ensures
        r@ == loans_of(state@.lender_loans, lender),
{
    super::request::loans_listed(&state.lender_loans, lender)
}

/// What a lender has contributed in total to a list of contributions.
pub fn lender_total(cs: &Vec<FundingContribution>, lender: Address) -> (total: i128)
    requires
        lender_share_fits(cs@, lender),
    ensures
        total == lender_share(cs@, lender),
{
    let mut lender_total: i128 = 0;
    let mut k: usize = 0;
    while k < cs.len()
        invariant
            k <= cs@.len(),
            lender_share_fits(cs@, lender),
            lender_total == lender_share(cs@.take(k as int), lender),
        decreases cs@.len() - k,
    {
        assert(cs@.take(k + 1 as int).drop_last() == cs@.take(k as int));
        assert(fits_i128(lender_share(cs@.take(k + 1 as int), lender)));
        if cs[k].lender == lender {
            lender_total = lender_total + cs[k].amount;
        }
        k += 1;
    }
    assert(cs@.take(cs@.len() as int) == cs@);
    lender_total
}

/// What a lender has contributed in total to a loan; zero for an unknown loan.
pub fn calculate_lender_share(state: &Microlending, lender: Address, loan_id: u32) -> (share: i128)
    requires
        loan_of(state@, loan_id) matches Some(rec) ==> lender_share_fits(rec.contributions, lender),
    ensures
        share == (match loan_of(state@, loan_id) {
            Some(rec) => lender_share(rec.contributions, lender),
            None => 0,
        }),
{
    match state.find_loan(loan_id) {
        Some(i) => {
            assert(state@.loans[i as int] == state.loans@[i as int]@);
            lender_total(&state.loans[i].contributions, lender)
        },
        None => 0,
    }
}

/// A lender's share of a loan in basis points of the loan amount.
pub fn calculate_lender_share_percentage(state: &Microlending, lender: Address, loan_id: u32) -> (r: Result<u32, MicrolendingError>)
    requires
        loan_of(state@, loan_id) matches Some(rec) ==> {
            &&& lender_share_fits(rec.contributions, lender)
            &&& (lender_share(rec.contributions, lender) as i128 as u128) * 10000 <= u128::MAX
        },
    ensures
        r == (match loan_of(state@, loan_id) {
            Some(rec) => Ok::<u32, MicrolendingError>(share_percentage(rec.request.amount, lender_share(rec.contributions, lender) as i128)),
            None => Err(MicrolendingError::LoanNotFound),
        }),
{
    let loan = match get_loan_request(state, loan_id) {
        Ok(l) => l,
        Err(e) => return Err(e),
    };
    let lender_share = calculate_lender_share(state, lender, loan_id);
    if loan.amount == 0 {
        return Ok(0);
    }
    let a = loan.amount;
    assert(a != 0 ==> a as u128 != 0) by (bit_vector);
    Ok(((lender_share as u128 * 10000) / loan.amount as u128) as u32)
}

} // verus!
