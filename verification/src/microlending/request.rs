//! Creating, reading, cancelling and updating loan requests.
use super::datatypes::{CollateralInfo, LoanRequest, LoanStatus, MicrolendingError, RepaymentSchedule};
use super::{
    copy_request, loan_key, loan_of, loans_of, metrics_of, set_metrics, AccountLoan, LoanRecord,
    LoanRecordView, Microlending, MicrolendingState,
};
use crate::common::{first_match, Address};
use vstd::prelude::*;

verus! {

/// Why loan terms are refused, if they are.
pub open spec fn loan_inputs_error(amount: i128, duration_days: u32, interest_rate: u32, collateral: CollateralInfo) -> Option<MicrolendingError> {
    if amount <= 0 {
        Some(MicrolendingError::InvalidAmount)
    } else if duration_days < 1 || duration_days > 1095 {
        Some(MicrolendingError::InvalidDuration)
    } else if interest_rate == 0 || interest_rate > 10000 {
        Some(MicrolendingError::InvalidInterestRate)
    } else if collateral.estimated_value <= 0 || collateral.asset_type@.len() == 0 {
        Some(MicrolendingError::InvalidCollateral)
    } else {
        None
    }
}

/// The interest on a loan: `amount * rate / 10000`, with the amount read as unsigned.
pub open spec fn interest_of(amount: i128, rate: u32) -> int {
    ((amount as u128) * (rate as u128)) / 10000
}

/// The amount to repay: principal plus interest.
pub open spec fn total_due_of(amount: i128, rate: u32) -> int {
    amount + interest_of(amount, rate)
}

/// The interest computation stays within `u128` and the total within `i128`.
pub open spec fn interest_fits(amount: i128, rate: u32) -> bool {
    &&& (amount as u128) * (rate as u128) <= u128::MAX
    &&& i128::MIN <= total_due_of(amount, rate) <= i128::MAX
}

/// Monthly installments for loans of 30 days or more, none for shorter ones.
pub open spec fn schedule_of(amount: i128, duration_days: u32, rate: u32) -> RepaymentSchedule {
    if duration_days >= 30 {
        let n = duration_days / 30;
        RepaymentSchedule {
            installments: n,
            frequency_days: 30,
            per_installment_amount: (total_due_of(amount, rate) / (n as int)) as i128,
        }
    } else {
        RepaymentSchedule { installments: 0, frequency_days: 0, per_installment_amount: 0 }
    }
}

/// The loan list after storing a record under its identifier.
pub open spec fn upsert_loan(ls: Seq<LoanRecordView>, r: LoanRecordView) -> Seq<LoanRecordView> {
    match first_match(ls, loan_key(r.request.id)) {
        Some(i) => ls.update(i, r),
        None => ls.push(r),
    }
}

/// Creating a loan request does not overflow a counter or the repayment total.
pub open spec fn create_fits(s: MicrolendingState, borrower: Address, amount: i128, duration_days: u32, interest_rate: u32, collateral: CollateralInfo) -> bool {
    loan_inputs_error(amount, duration_days, interest_rate, collateral) is None ==> {
        &&& interest_fits(amount, interest_rate)
        &&& s.next_loan_id < u32::MAX
        &&& s.total_loans_created < u32::MAX
        &&& metrics_of(s.borrower_metrics, borrower).total_loans < u32::MAX
    }
}

/// The state after a loan request, and its identifier, or why it is refused.
pub open spec fn create_model(
    s: MicrolendingState,
    borrower: Address,
    amount: i128,
    purpose: String,
    duration_days: u32,
    interest_rate: u32,
    collateral: CollateralInfo,
    now: u64,
) -> Result<(MicrolendingState, u32), MicrolendingError> {
    match loan_inputs_error(amount, duration_days, interest_rate, collateral) {
        Some(e) => Err(e),
        None => {
            let id = s.next_loan_id;
            let request = LoanRequest {
                id,
                borrower,
                amount,
                purpose,
                duration_days,
                interest_rate,
                collateral,
                status: LoanStatus::Pending,
                funded_amount: 0,
                creation_timestamp: now,
                funded_timestamp: None,
                repayment_due_timestamp: None,
                repayment_schedule: schedule_of(amount, duration_days, interest_rate),
            };
            let m = metrics_of(s.borrower_metrics, borrower);
            Ok((MicrolendingState {
                next_loan_id: (id + 1) as u32,
                loans: upsert_loan(s.loans, LoanRecordView { request, contributions: Seq::empty(), repayments: Seq::empty() }),
                borrower_loans: s.borrower_loans.push(AccountLoan { account: borrower, loan_id: id }),
                borrower_metrics: set_metrics(s.borrower_metrics, borrower, super::datatypes::BorrowerMetrics {
                    total_loans: (m.total_loans + 1) as u32,
                    ..m
                }),
                total_loans_created: (s.total_loans_created + 1) as u32,
                ..s
            }, id))
        },
    }
}

/// Checks loan terms: positive amount, 1 to 1095 days, rate of 1 to 10000
/// basis points, collateral with a value and an asset type.
pub fn validate_loan_inputs(amount: i128, duration_days: u32, interest_rate: u32, collateral: &CollateralInfo) -> (r: Result<(), MicrolendingError>)
    ensures
        r == (match loan_inputs_error(amount, duration_days, interest_rate, *collateral) {
            Some(e) => Err::<(), MicrolendingError>(e),
            None => Ok(()),
        }),
{
    if amount <= 0 {
        return Err(MicrolendingError::InvalidAmount);
    }
    if duration_days < 1 || duration_days > 1095 {
        return Err(MicrolendingError::InvalidDuration);
    }
    if interest_rate == 0 || interest_rate > 10000 {
        return Err(MicrolendingError::InvalidInterestRate);
    }
    if collateral.estimated_value <= 0 || collateral.asset_type.as_str().is_empty() {
        return Err(MicrolendingError::InvalidCollateral);
    }
    Ok(())
}

/// The repayment schedule of valid loan terms.
pub fn repayment_schedule(amount: i128, duration_days: u32, interest_rate: u32) -> (r: Result<RepaymentSchedule, MicrolendingError>)
    requires
        amount > 0,
        interest_fits(amount, interest_rate),
    ensures
        r == Ok::<RepaymentSchedule, MicrolendingError>(schedule_of(amount, duration_days, interest_rate)),
{
    let total_due = amount + (amount as u128 * interest_rate as u128 / 10000) as i128;
    if duration_days >= 30 {
        let installments = duration_days / 30;
        if installments == 0 {
            return Err(MicrolendingError::InvalidRepaymentSchedule);
        }
        let per_installment_amount = total_due / installments as i128;
        Ok(RepaymentSchedule { installments, frequency_days: 30, per_installment_amount })
    } else {
        Ok(RepaymentSchedule { installments: 0, frequency_days: 0, per_installment_amount: 0 })
    }
}

/// Hands out the next loan identifier and advances the counter.
pub fn next_loan_id(state: &mut Microlending) -> (id: u32)
    requires
        old(state).next_loan_id < u32::MAX,
    ensures
        id == old(state).next_loan_id,
        final(state)@ == (MicrolendingState { next_loan_id: (id + 1) as u32, ..old(state)@ }),
{
    let id = state.next_loan_id;
    state.next_loan_id = id + 1;
    id
}

/// Records a loan request of `borrower` and returns its identifier.
pub fn create_loan_request(
    state: &mut Microlending,
    borrower: Address,
    amount: i128,
    purpose: String,
    duration_days: u32,
    interest_rate: u32,
    collateral: CollateralInfo,
    now: u64,
) -> (r: Result<u32, MicrolendingError>)
    requires
        create_fits(old(state)@, borrower, amount, duration_days, interest_rate, collateral),
    ensures
        match create_model(old(state)@, borrower, amount, purpose, duration_days, interest_rate, collateral, now) {
            Ok((ns, id)) => r == Ok::<u32, MicrolendingError>(id) && final(state)@ == ns,
            Err(e) => r == Err::<u32, MicrolendingError>(e) && final(state)@ == old(state)@,
        },
{
    match validate_loan_inputs(amount, duration_days, interest_rate, &collateral) {
        Ok(()) => {},
        Err(e) => return Err(e),
    }
    let repayment_schedule = match repayment_schedule(amount, duration_days, interest_rate) {
        Ok(s) => s,
        Err(e) => return Err(e),
    };
    let loan_id = next_loan_id(state);
    let request = LoanRequest {
        id: loan_id,
        borrower,
        amount,
        purpose,
        duration_days,
        interest_rate,
        collateral,
        status: LoanStatus::Pending,
        funded_amount: 0,
        creation_timestamp: now,
        funded_timestamp: None,
        repayment_due_timestamp: None,
        repayment_schedule,
    };
    let record = LoanRecord { request, contributions: Vec::new(), repayments: Vec::new() };
    assert(record@.contributions == Seq::<super::datatypes::FundingContribution>::empty());
    assert(record@.repayments == Seq::<super::datatypes::Repayment>::empty());
    match state.find_loan(loan_id) {
        Some(i) => state.set_record(i, record),
        None => state.push_record(record),
    }
    state.borrower_loans.push(AccountLoan { account: borrower, loan_id });
    let mut metrics = state.get_metrics(borrower);
    metrics.total_loans = metrics.total_loans + 1;
    state.put_metrics(borrower, metrics);
    state.total_loans_created = state.total_loans_created + 1;
    Ok(loan_id)
}

/// The loan request with the identifier.
pub fn get_loan_request(state: &Microlending, loan_id: u32) -> (r: Result<LoanRequest, MicrolendingError>)
    ensures
        r == (match loan_of(state@, loan_id) {
            Some(rec) => Ok::<LoanRequest, MicrolendingError>(rec.request),
            None => Err(MicrolendingError::LoanNotFound),
        }),
{
    match state.find_loan(loan_id) {
        Some(i) => {
            assert(state@.loans[i as int] == state.loans@[i as int]@);
            Ok(copy_request(&state.loans[i].request))
        },
        None => Err(MicrolendingError::LoanNotFound),
    }
}

/// The loans listed under an account in a list, in order.
pub(crate) fn loans_listed(list: &Vec<AccountLoan>, a: Address) -> (r: Vec<u32>)
    ensures
        r@ == loans_of(list@, a),
{
    let mut r: Vec<u32> = Vec::new();
    let mut i: usize = 0;
    while i < list.len()
        invariant
            i <= list@.len(),
            r@ == loans_of(list@.take(i as int), a),
        decreases list@.len() - i,
    {
        assert(list@.take(i + 1 as int).drop_last() == list@.take(i as int));
        if list[i].account == a {
            r.push(list[i].loan_id);
        }
        i += 1;
    }
    assert(list@.take(list@.len() as int) == list@);
    r
}

/// The identifiers of a borrower's loans, in the order requested.
pub fn get_borrower_loans(state: &Microlending, borrower: Address) -> (r: Vec<u32>)
    ensures
        r@ == loans_of(state@.borrower_loans, borrower),
{
    loans_listed(&state.borrower_loans, borrower)
}

/// The state after the borrower cancels a pending request, or why it is refused.
pub open spec fn cancel_model(s: MicrolendingState, borrower: Address, loan_id: u32) -> Result<MicrolendingState, MicrolendingError> {
    match first_match(s.loans, loan_key(loan_id)) {
        None => Err(MicrolendingError::LoanNotFound),
        Some(i) => {
            let rec = s.loans[i];
            if rec.request.borrower != borrower {
                Err(MicrolendingError::Unauthorized)
            } else if rec.request.status != LoanStatus::Pending {
                Err(MicrolendingError::InvalidLoanStatus)
            } else {
                Ok(MicrolendingState {
                    loans: s.loans.update(i, LoanRecordView {
                        request: LoanRequest { status: LoanStatus::Cancelled, ..rec.request },
                        ..rec
                    }),
                    ..s
                })
            }
        },
    }
}

/// The borrower cancels a request that is still pending.
pub fn cancel_loan_request(state: &mut Microlending, borrower: Address, loan_id: u32) -> (r: Result<(), MicrolendingError>)
    ensures
        match cancel_model(old(state)@, borrower, loan_id) {
            Ok(ns) => r == Ok::<(), MicrolendingError>(()) && final(state)@ == ns,
            Err(e) => r == Err::<(), MicrolendingError>(e) && final(state)@ == old(state)@,
        },
{
    let i = match state.find_loan(loan_id) {
        Some(i) => i,
        None => return Err(MicrolendingError::LoanNotFound),
    };
    assert(state@.loans[i as int] == state.loans@[i as int]@);
    if state.loans[i].request.borrower != borrower {
        return Err(MicrolendingError::Unauthorized);
    }
    if state.loans[i].request.status != LoanStatus::Pending {
        return Err(MicrolendingError::InvalidLoanStatus);
    }
    let ghost before = state@;
    let mut rec = state.take_record(i);
    rec.request.status = LoanStatus::Cancelled;
    state.put_record(i, rec, Ghost(before));
    Ok(())
}

/// The state after the borrower changes the terms of an unfunded pending
/// request, or why it is refused.
pub open spec fn update_model(
    s: MicrolendingState,
    borrower: Address,
    loan_id: u32,
    amount: i128,
    purpose: String,
    duration_days: u32,
    interest_rate: u32,
    collateral: CollateralInfo,
) -> Result<MicrolendingState, MicrolendingError> {
    match first_match(s.loans, loan_key(loan_id)) {
        None => Err(MicrolendingError::LoanNotFound),
        Some(i) => {
            let rec = s.loans[i];
            if rec.request.borrower != borrower {
                Err(MicrolendingError::Unauthorized)
            } else if rec.request.status != LoanStatus::Pending || rec.request.funded_amount > 0 {
                Err(MicrolendingError::InvalidLoanStatus)
            } else {
                match loan_inputs_error(amount, duration_days, interest_rate, collateral) {
                    Some(e) => Err(e),
                    None => Ok(MicrolendingState {
                        loans: s.loans.update(i, LoanRecordView {
                            request: LoanRequest {
                                amount,
                                purpose,
                                duration_days,
                                interest_rate,
                                collateral,
                                repayment_schedule: schedule_of(amount, duration_days, interest_rate),
                                ..rec.request
                            },
                            ..rec
                        }),
                        ..s
                    }),
                }
            }
        },
    }
}

/// The borrower changes the terms of a pending request that has no funding yet.
pub fn update_loan_request(
    state: &mut Microlending,
    borrower: Address,
    loan_id: u32,
    amount: i128,
    purpose: String,
    duration_days: u32,
    interest_rate: u32,
    collateral: CollateralInfo,
) -> (r: Result<(), MicrolendingError>)
    requires
        loan_inputs_error(amount, duration_days, interest_rate, collateral) is None ==> interest_fits(amount, interest_rate),
    ensures
        match update_model(old(state)@, borrower, loan_id, amount, purpose, duration_days, interest_rate, collateral) {
            Ok(ns) => r == Ok::<(), MicrolendingError>(()) && final(state)@ == ns,
            Err(e) => r == Err::<(), MicrolendingError>(e) && final(state)@ == old(state)@,
        },
{
    let i = match state.find_loan(loan_id) {
        Some(i) => i,
        None => return Err(MicrolendingError::LoanNotFound),
    };
    assert(state@.loans[i as int] == state.loans@[i as int]@);
    if state.loans[i].request.borrower != borrower {
        return Err(MicrolendingError::Unauthorized);
    }
    if state.loans[i].request.status != LoanStatus::Pending || state.loans[i].request.funded_amount > 0 {
        return Err(MicrolendingError::InvalidLoanStatus);
    }
    match validate_loan_inputs(amount, duration_days, interest_rate, &collateral) {
        Ok(()) => {},
        Err(e) => return Err(e),
    }
    let repayment_schedule = match repayment_schedule(amount, duration_days, interest_rate) {
        Ok(s) => s,
        Err(e) => return Err(e),
    };
    let ghost before = state@;
    let mut rec = state.take_record(i);
    rec.request.amount = amount;
    rec.request.purpose = purpose;
    rec.request.duration_days = duration_days;
    rec.request.interest_rate = interest_rate;
    rec.request.collateral = collateral;
    rec.request.repayment_schedule = repayment_schedule;
    state.put_record(i, rec, Ghost(before));
    Ok(())
}

} // verus!
