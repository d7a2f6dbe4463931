//! The entry points of the microlending contract.
use super::claim::{claim_fits, claim_model, default_fits, in_default, repayments_of};
use super::datatypes::{
    CollateralInfo, FundingContribution, LoanHistory, LoanRequest, LoanStatus, MicrolendingError,
    Repayment, TokenTransfer,
};
use super::fund::{fits_i128, fund_fits, fund_model, lender_share, lender_share_fits, share_percentage};
use super::repay::{repaid_fits, repaid_sum, repay_fits, repay_model, total_repaid};
use super::request::{create_fits, create_model, cancel_model, interest_fits, loan_inputs_error, total_due_of, update_model};
use super::{claim, fund, loan_of, loans_of, repay, request, Microlending};
use crate::common::Address;
use vstd::prelude::*;

verus! {

/// The interest a loan has earned its lenders: what was repaid beyond the principal.
pub open spec fn interest_earned_of(repaid: int, principal: i128) -> int {
    if repaid > principal { repaid - principal } else { 0 }
}

impl Microlending {
    /// Records a loan request; see [`request::create_loan_request`].
    pub fn create_loan_request(
        &mut self,
        borrower: Address,
        amount: i128,
        purpose: String,
        duration_days: u32,
        interest_rate: u32,
        collateral: CollateralInfo,
        now: u64,
    ) -> (r: Result<u32, MicrolendingError>)
        requires
            create_fits(old(self)@, borrower, amount, duration_days, interest_rate, collateral),
        ensures
            match create_model(old(self)@, borrower, amount, purpose, duration_days, interest_rate, collateral, now) {
                Ok((ns, id)) => r == Ok::<u32, MicrolendingError>(id) && final(self)@ == ns,
                Err(e) => r == Err::<u32, MicrolendingError>(e) && final(self)@ == old(self)@,
            },
    {
        request::create_loan_request(self, borrower, amount, purpose, duration_days, interest_rate, collateral, now)
    }

    /// The loan request with the identifier.
    pub fn get_loan_request(&self, loan_id: u32) -> (r: Result<LoanRequest, MicrolendingError>)
        ensures
            r == (match loan_of(self@, loan_id) {
                Some(rec) => Ok::<LoanRequest, MicrolendingError>(rec.request),
                None => Err(MicrolendingError::LoanNotFound),
            }),
    {
        request::get_loan_request(self, loan_id)
    }

    /// Everything known about a loan: its request, contributions and
    /// repayments, what is due and repaid, the interest earned, and its
    /// status, reported as defaulted when the loan is in default at `now`.
    pub fn get_loan_history(&self, loan_id: u32, now: u64) -> (r: Result<LoanHistory, MicrolendingError>)
        requires
            loan_of(self@, loan_id) matches Some(rec) ==> {
                &&& interest_fits(rec.request.amount, rec.request.interest_rate)
                &&& repaid_fits(rec.repayments)
                &&& fits_i128(interest_earned_of(repaid_sum(rec.repayments), rec.request.amount))
                &&& default_fits(rec.request, rec.repayments, now)
            },
        ensures
            match loan_of(self@, loan_id) {
                None => r == Err::<LoanHistory, MicrolendingError>(MicrolendingError::LoanNotFound),
                Some(rec) => r matches Ok(h) && {
                    &&& h.loan_request == rec.request
                    &&& h.funding_contributions@ == rec.contributions
                    &&& h.repayments@ == rec.repayments
                    &&& h.total_due == total_due_of(rec.request.amount, rec.request.interest_rate)
                    &&& h.total_repaid == repaid_sum(rec.repayments)
                    &&& h.interest_earned == interest_earned_of(repaid_sum(rec.repayments), rec.request.amount)
                    &&& h.status == if in_default(rec.request, rec.repayments, now) {
                        LoanStatus::Defaulted
                    } else {
                        rec.request.status
                    }
                },
            },
    {
        let loan = match request::get_loan_request(self, loan_id) {
            Ok(l) => l,
            Err(e) => return Err(e),
        };
        let fundings = fund::get_loan_fundings(self, loan_id);
        let repayments = repay::get_loan_repayments(self, loan_id);
        let total_due = repay::calculate_total_repayment_due(&loan);
        let total_repaid = total_repaid(&repayments);
        let interest_earned = if total_repaid > loan.amount {
            total_repaid - loan.amount
        } else {
            0
        };
        let status = if claim::check_default_status(self, &loan, now) {
            LoanStatus::Defaulted
        } else {
            loan.status
        };
        Ok(LoanHistory {
            loan_request: loan,
            funding_contributions: fundings,
            repayments,
            total_due,
            total_repaid,
            interest_earned,
            status,
        })
    }

    /// The identifiers of a borrower's loans, in the order requested.
    pub fn get_borrower_loans(&self, borrower: Address) -> (r: Vec<u32>)
        ensures
            r@ == loans_of(self@.borrower_loans, borrower),
    {
        request::get_borrower_loans(self, borrower)
    }

    /// The borrower cancels a request that is still pending.
    pub fn cancel_loan_request(&mut self, borrower: Address, loan_id: u32) -> (r: Result<(), MicrolendingError>)
        ensures
            match cancel_model(old(self)@, borrower, loan_id) {
                Ok(ns) => r == Ok::<(), MicrolendingError>(()) && final(self)@ == ns,
                Err(e) => r == Err::<(), MicrolendingError>(e) && final(self)@ == old(self)@,
            },
    {
        request::cancel_loan_request(self, borrower, loan_id)
    }

    /// The borrower changes the terms of a pending request that has no funding yet.
    pub fn update_loan_request(
        &mut self,
        borrower: Address,
        loan_id: u32,
        amount: i128,
        purpose: String,
        duration_days: u32,
        interest_rate: u32,
        collateral: CollateralInfo,
    ) -> (r: Result<(), MicrolendingError>)
        requires
            loan_inputs_error(amount, duration_days, interest_rate, collateral) is None ==> interest_fits(amount, interest_rate),
        ensures
            match update_model(old(self)@, borrower, loan_id, amount, purpose, duration_days, interest_rate, collateral) {
                Ok(ns) => r == Ok::<(), MicrolendingError>(()) && final(self)@ == ns,
                Err(e) => r == Err::<(), MicrolendingError>(e) && final(self)@ == old(self)@,
            },
    {
        request::update_loan_request(self, borrower, loan_id, amount, purpose, duration_days, interest_rate, collateral)
    }

    /// `lender` funds a loan with up to `amount`; see [`fund::fund_loan`].
    pub fn fund_loan(
        &mut self,
        lender: Address,
        loan_id: u32,
        amount: i128,
        now: u64,
        lender_balance: i128,
        contract_balance: i128,
    ) -> (r: Result<Vec<TokenTransfer>, MicrolendingError>)
        requires
            fund_fits(old(self)@, lender, loan_id, amount, now),
        ensures
            match fund_model(old(self)@, lender, loan_id, amount, now, lender_balance, contract_balance) {
                Ok((ns, ts)) => (r matches Ok(v) && v@ == ts) && final(self)@ == ns,
                Err(e) => r == Err::<Vec<TokenTransfer>, MicrolendingError>(e) && final(self)@ == old(self)@,
            },
    {
        fund::fund_loan(self, lender, loan_id, amount, now, lender_balance, contract_balance)
    }

    /// The contributions made to a loan, in order.
    pub fn get_loan_fundings(&self, loan_id: u32) -> (r: Vec<FundingContribution>)
        ensures
            r@ == (match loan_of(self@, loan_id) {
                Some(rec) => rec.contributions,
                None => Seq::empty(),
            }),
    {
        fund::get_loan_fundings(self, loan_id)
    }

    /// The loans a lender has funded, in the order first funded.
    pub fn get_lender_loans(&self, lender: Address) -> (r: Vec<u32>)
        ensures
            r@ == loans_of(self@.lender_loans, lender),
    {
        fund::get_lender_loans(self, lender)
    }

    /// What a lender has contributed in total to a loan.
    pub fn calculate_lender_share(&self, lender: Address, loan_id: u32) -> (share: i128)
        requires
            loan_of(self@, loan_id) matches Some(rec) ==> lender_share_fits(rec.contributions, lender),
        ensures
            share == (match loan_of(self@, loan_id) {
                Some(rec) => lender_share(rec.contributions, lender),
                None => 0,
            }),
    {
        fund::calculate_lender_share(self, lender, loan_id)
    }

    /// A lender's share of a loan in basis points.
    pub fn calculate_lender_share_percent(&self, lender: Address, loan_id: u32) -> (r: Result<u32, MicrolendingError>)
        requires
            loan_of(self@, loan_id) matches Some(rec) ==> {
                &&& lender_share_fits(rec.contributions, lender)
                &&& (lender_share(rec.contributions, lender) as i128 as u128) * 10000 <= u128::MAX
            },
        ensures
            r == (match loan_of(self@, loan_id) {
                Some(rec) => Ok::<u32, MicrolendingError>(share_percentage(rec.request.amount, lender_share(rec.contributions, lender) as i128)),
                None => Err(MicrolendingError::LoanNotFound),
            }),
    {
        fund::calculate_lender_share_percentage(self, lender, loan_id)
    }

    /// `borrower` repays `amount` of a loan; see [`repay::repay_loan`].
    pub fn repay_loan(
        &mut self,
        borrower: Address,
        loan_id: u32,
        amount: i128,
        now: u64,
        borrower_balance: i128,
        contract_balance: i128,
    ) -> (r: Result<Vec<TokenTransfer>, MicrolendingError>)
        requires
            repay_fits(old(self)@, borrower, loan_id, amount, now),
        ensures
            match repay_model(old(self)@, borrower, loan_id, amount, now, borrower_balance, contract_balance) {
                Ok((ns, ts)) => (r matches Ok(v) && v@ == ts) && final(self)@ == ns,
                Err(e) => r == Err::<Vec<TokenTransfer>, MicrolendingError>(e) && final(self)@ == old(self)@,
            },
    {
        repay::repay_loan(self, borrower, loan_id, amount, now, borrower_balance, contract_balance)
    }

    /// The repayments made on a loan, in order.
    pub fn get_loan_repayments(&self, loan_id: u32) -> (r: Vec<Repayment>)
        ensures
            r@ == repayments_of(self@, loan_id),
    {
        repay::get_loan_repayments(self, loan_id)
    }

    /// What the borrower of a loan owes in all.
    pub fn calculate_total_repayment_due(&self, loan_id: u32) -> (r: Result<i128, MicrolendingError>)
        requires
            loan_of(self@, loan_id) matches Some(rec) ==> interest_fits(rec.request.amount, rec.request.interest_rate),
        ensures
            r == (match loan_of(self@, loan_id) {
                Some(rec) => Ok::<i128, MicrolendingError>(total_due_of(rec.request.amount, rec.request.interest_rate) as i128),
                None => Err(MicrolendingError::LoanNotFound),
            }),
    {
        let loan = match request::get_loan_request(self, loan_id) {
            Ok(l) => l,
            Err(e) => return Err(e),
        };
        Ok(repay::calculate_total_repayment_due(&loan))
    }

    /// `lender` claims the collateral of a loan in default; see [`claim::claim_default`].
    pub fn claim_default(&mut self, lender: Address, loan_id: u32, now: u64) -> (r: Result<Vec<TokenTransfer>, MicrolendingError>)
        requires
            claim_fits(old(self)@, lender, loan_id, now),
        ensures
            match claim_model(old(self)@, lender, loan_id, now) {
                Ok((ns, ts)) => (r matches Ok(v) && v@ == ts) && final(self)@ == ns,
                Err(e) => r == Err::<Vec<TokenTransfer>, MicrolendingError>(e) && final(self)@ == old(self)@,
            },
    {
        claim::claim_default(self, lender, loan_id, now)
    }

    /// Whether a loan is in default at `now`.
    pub fn check_default_status(&self, loan_id: u32, now: u64) -> (r: Result<bool, MicrolendingError>)
        requires
            loan_of(self@, loan_id) matches Some(rec) ==> default_fits(rec.request, rec.repayments, now),
        ensures
            r == (match loan_of(self@, loan_id) {
                Some(rec) => Ok::<bool, MicrolendingError>(in_default(rec.request, rec.repayments, now)),
                None => Err(MicrolendingError::LoanNotFound),
            }),
    {
        let loan = match request::get_loan_request(self, loan_id) {
            Ok(l) => l,
            Err(e) => return Err(e),
        };
        Ok(claim::check_default_status(self, &loan, now))
    }
}

} // verus!
