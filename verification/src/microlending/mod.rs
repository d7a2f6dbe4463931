//! A microlending marketplace: borrowers request loans backed by collateral,
//! lenders fund them, borrowers repay in installments that are shared out to
//! the lenders, and lenders claim the collateral of loans in default.
//!
//! Token movements are not made here: each entry point that moves tokens is
//! given the balances the token ledger reports and returns the transfers to make.
pub mod claim;
pub mod contract;
pub mod datatypes;
pub mod fund;
pub mod laws;
pub mod limits;
pub mod repay;
pub mod request;

use crate::common::{as_index, first_match, lemma_first_match_at, lemma_first_match_none, Address};
use datatypes::{
    BorrowerMetrics, CollateralInfo, FundingContribution, LoanRequest, LoanStatus, MicrolendingError,
    Repayment, RepaymentSchedule, SystemStats,
};
use vstd::prelude::*;

verus! {

/// A loan with its funding contributions and its repayments, in the order made.
pub struct LoanRecord {
    pub request: LoanRequest,
    pub contributions: Vec<FundingContribution>,
    pub repayments: Vec<Repayment>,
}

/// The mathematical content of a [`LoanRecord`].
pub struct LoanRecordView {
    pub request: LoanRequest,
    pub contributions: Seq<FundingContribution>,
    pub repayments: Seq<Repayment>,
}

impl View for LoanRecord {
    type V = LoanRecordView;

    open spec fn view(&self) -> LoanRecordView {
        LoanRecordView { request: self.request, contributions: self.contributions@, repayments: self.repayments@ }
    }
}

/// A loan listed under an account (as borrower or as lender).
#[derive(Clone, Copy, Debug, PartialEq, Eq, Structural)]
pub struct AccountLoan {
    pub account: Address,
    pub loan_id: u32,
}

/// The metrics of one borrower.
#[derive(Clone, Copy, Debug, PartialEq, Eq, Structural)]
pub struct MetricsEntry {
    pub borrower: Address,
    pub metrics: BorrowerMetrics,
}

/// The persistent state of the microlending contract.
pub struct Microlending {
    /// The contract's own account, which holds tokens between funding and payout.
    pub contract_address: Address,
    /// The token loans are made in; set once by `initialize`.
    pub token: Option<Address>,
    pub loans: Vec<LoanRecord>,
    pub borrower_loans: Vec<AccountLoan>,
    pub lender_loans: Vec<AccountLoan>,
    pub borrower_metrics: Vec<MetricsEntry>,
    /// The identifier the next loan gets.
    pub next_loan_id: u32,
    pub total_loans_created: u32,
    pub total_loans_funded: u32,
    pub total_loans_completed: u32,
    pub total_loans_defaulted: u32,
    pub system_stats: Option<SystemStats>,
}

/// The mathematical content of the contract's state.
pub struct MicrolendingState {
    pub contract_address: Address,
    pub token: Option<Address>,
    pub loans: Seq<LoanRecordView>,
    pub borrower_loans: Seq<AccountLoan>,
    pub lender_loans: Seq<AccountLoan>,
    pub borrower_metrics: Seq<MetricsEntry>,
    pub next_loan_id: u32,
    pub total_loans_created: u32,
    pub total_loans_funded: u32,
    pub total_loans_completed: u32,
    pub total_loans_defaulted: u32,
    pub system_stats: Option<SystemStats>,
}

pub open spec fn record_view(r: LoanRecord) -> LoanRecordView {
    r@
}

impl View for Microlending {
    type V = MicrolendingState;

    open spec fn view(&self) -> MicrolendingState {
        MicrolendingState {
            contract_address: self.contract_address,
            token: self.token,
            loans: self.loans@.map_values(|r: LoanRecord| record_view(r)),
            borrower_loans: self.borrower_loans@,
            lender_loans: self.lender_loans@,
            borrower_metrics: self.borrower_metrics@,
            next_loan_id: self.next_loan_id,
            total_loans_created: self.total_loans_created,
            total_loans_funded: self.total_loans_funded,
            total_loans_completed: self.total_loans_completed,
            total_loans_defaulted: self.total_loans_defaulted,
            system_stats: self.system_stats,
        }
    }
}

pub open spec fn loan_key(id: u32) -> spec_fn(LoanRecordView) -> bool {
    |r: LoanRecordView| r.request.id == id
}

pub open spec fn metrics_key(b: Address) -> spec_fn(MetricsEntry) -> bool {
    |m: MetricsEntry| m.borrower == b
}

/// The record of a loan, if any.
pub open spec fn loan_of(s: MicrolendingState, id: u32) -> Option<LoanRecordView> {
    match first_match(s.loans, loan_key(id)) {
        Some(i) => Some(s.loans[i]),
        None => None,
    }
}

/// The metrics of a borrower; all zero for a borrower never seen.
pub open spec fn metrics_of(s: Seq<MetricsEntry>, b: Address) -> BorrowerMetrics {
    match first_match(s, metrics_key(b)) {
        Some(i) => s[i].metrics,
        None => BorrowerMetrics { total_loans: 0, completed_loans: 0, defaulted_loans: 0 },
    }
}

/// The metrics list after setting those of `b`.
pub open spec fn set_metrics(s: Seq<MetricsEntry>, b: Address, m: BorrowerMetrics) -> Seq<MetricsEntry> {
    match first_match(s, metrics_key(b)) {
        Some(i) => s.update(i, MetricsEntry { borrower: b, metrics: m }),
        None => s.push(MetricsEntry { borrower: b, metrics: m }),
    }
}

/// The system statistics, or their starting value when none are stored yet.
pub open spec fn stats_of(s: MicrolendingState) -> SystemStats {
    match s.system_stats {
        Some(st) => st,
        None => SystemStats { total_loans: s.total_loans_created, total_funded: 0, total_repaid: 0, default_rate: 0 },
    }
}

/// The loans listed under an account, in the order they were listed.
pub open spec fn loans_of(s: Seq<AccountLoan>, a: Address) -> Seq<u32>
    decreases s.len(),
{
    if s.len() == 0 {
        Seq::empty()
    } else {
        let rest = loans_of(s.drop_last(), a);
        if s.last().account == a {
            rest.push(s.last().loan_id)
        } else {
            rest
        }
    }
}

/// A copy of a collateral description.
pub fn copy_collateral(c: &CollateralInfo) -> (r: CollateralInfo)
    ensures
        r == *c,
{
    CollateralInfo {
        asset_type: c.asset_type.clone(),
        estimated_value: c.estimated_value,
        verification_data: c.verification_data,
    }
}

/// A copy of a loan request.
pub fn copy_request(l: &LoanRequest) -> (r: LoanRequest)
    ensures
        r == *l,
{
    LoanRequest {
        id: l.id,
        borrower: l.borrower,
        amount: l.amount,
        purpose: l.purpose.clone(),
        duration_days: l.duration_days,
        interest_rate: l.interest_rate,
        collateral: copy_collateral(&l.collateral),
        status: l.status,
        funded_amount: l.funded_amount,
        creation_timestamp: l.creation_timestamp,
        funded_timestamp: l.funded_timestamp,
        repayment_due_timestamp: l.repayment_due_timestamp,
        repayment_schedule: l.repayment_schedule,
    }
}

/// A copy of a list of plain records.
pub fn copy_vec<T: Copy>(v: &Vec<T>) -> (r: Vec<T>)
    ensures
        r@ == v@,
{
    let mut r: Vec<T> = Vec::new();
    let mut i: usize = 0;
    while i < v.len()
        invariant
            i <= v@.len(),
            r@ == v@.take(i as int),
        decreases v@.len() - i,
    {
        r.push(v[i]);
        i += 1;
        assert(r@ == v@.take(i as int));
    }
    assert(v@.take(v@.len() as int) == v@);
    r
}

/// A placeholder record, swapped in while a stored record is being changed:
/// a pending request of nothing, with every figure zero, every text empty,
/// no dates, no schedule, no contributions and no repayments.
fn placeholder_record() -> (r: LoanRecord)
    ensures
        r.request.id == 0,
        r.request.borrower == (Address { id: 0 }),
        r.request.amount == 0,
        r.request.purpose@ == Seq::<char>::empty(),
        r.request.duration_days == 0,
        r.request.interest_rate == 0,
        r.request.collateral.asset_type@ == Seq::<char>::empty(),
        r.request.collateral.estimated_value == 0,
        r.request.collateral.verification_data == (crate::common::Bytes32 { hi: 0, lo: 0 }),
        r.request.status == LoanStatus::Pending,
        r.request.funded_amount == 0,
        r.request.creation_timestamp == 0,
        r.request.funded_timestamp is None,
        r.request.repayment_due_timestamp is None,
        r.request.repayment_schedule == (RepaymentSchedule { installments: 0, frequency_days: 0, per_installment_amount: 0 }),
        r.contributions@ == Seq::<FundingContribution>::empty(),
        r.repayments@ == Seq::<Repayment>::empty(),
{
    LoanRecord {
        request: LoanRequest {
            id: 0,
            borrower: Address { id: 0 },
            amount: 0,
            purpose: String::new(),
            duration_days: 0,
            interest_rate: 0,
            collateral: CollateralInfo {
                asset_type: String::new(),
                estimated_value: 0,
                verification_data: crate::common::Bytes32 { hi: 0, lo: 0 },
            },
            status: LoanStatus::Pending,
            funded_amount: 0,
            creation_timestamp: 0,
            funded_timestamp: None,
            repayment_due_timestamp: None,
            repayment_schedule: RepaymentSchedule { installments: 0, frequency_days: 0, per_installment_amount: 0 },
        },
        contributions: Vec::new(),
        repayments: Vec::new(),
    }
}

impl Microlending {
    /// A contract living at `contract_address`, with no token and no loans.
    pub fn new(contract_address: Address) -> (c: Self)
        ensures
            c@ == (MicrolendingState {
                contract_address,
                token: None,
                loans: Seq::empty(),
                borrower_loans: Seq::empty(),
                lender_loans: Seq::empty(),
                borrower_metrics: Seq::empty(),
                next_loan_id: 1,
                total_loans_created: 0,
                total_loans_funded: 0,
                total_loans_completed: 0,
                total_loans_defaulted: 0,
                system_stats: None,
            }),
    {
        let c = Microlending {
            contract_address,
            token: None,
            loans: Vec::new(),
            borrower_loans: Vec::new(),
            lender_loans: Vec::new(),
            borrower_metrics: Vec::new(),
            next_loan_id: 1,
            total_loans_created: 0,
            total_loans_funded: 0,
            total_loans_completed: 0,
            total_loans_defaulted: 0,
            system_stats: None,
        };
        assert(c@.loans == Seq::<LoanRecordView>::empty());
        c
    }

    /// Sets the token loans are made in, once.
    pub fn initialize(&mut self, token_address: Address) -> (r: Result<(), MicrolendingError>)
        ensures
            old(self).token is Some ==> r == Err::<(), MicrolendingError>(MicrolendingError::AlreadyInitialized)
                && final(self)@ == old(self)@,
            old(self).token is None ==> r == Ok::<(), MicrolendingError>(())
                && final(self)@ == (MicrolendingState { token: Some(token_address), ..old(self)@ }),
    {
        if self.token.is_some() {
            return Err(MicrolendingError::AlreadyInitialized);
        }
        self.token = Some(token_address);
        Ok(())
    }

    /// The position of a loan's record, if any.
    pub fn find_loan(&self, id: u32) -> (r: Option<usize>)
        ensures
            as_index(r) == first_match(self@.loans, loan_key(id)),
    {
        let ghost v = self@.loans;
        let mut i: usize = 0;
        while i < self.loans.len()
            invariant
                v == self@.loans,
                v.len() == self.loans@.len(),
                i <= v.len(),
                forall|j: int| 0 <= j < i ==> !loan_key(id)(#[trigger] v[j]),
            decreases v.len() - i,
        {
            assert(v[i as int] == self.loans@[i as int]@);
            if self.loans[i].request.id == id {
                proof { lemma_first_match_at(v, loan_key(id), i as int); }
                return Some(i);
            }
            i += 1;
        }
        proof { lemma_first_match_none(v, loan_key(id)); }
        None
    }

    /// The position of a borrower's metrics, if any.
    pub fn find_metrics(&self, b: Address) -> (r: Option<usize>)
        ensures
            as_index(r) == first_match(self@.borrower_metrics, metrics_key(b)),
    {
        let mut i: usize = 0;
        while i < self.borrower_metrics.len()
            invariant
                i <= self.borrower_metrics@.len(),
                forall|j: int| 0 <= j < i ==> !metrics_key(b)(#[trigger] self.borrower_metrics@[j]),
            decreases self.borrower_metrics@.len() - i,
        {
            if self.borrower_metrics[i].borrower == b {
                proof { lemma_first_match_at(self.borrower_metrics@, metrics_key(b), i as int); }
                return Some(i);
            }
            i += 1;
        }
        proof { lemma_first_match_none(self.borrower_metrics@, metrics_key(b)); }
        None
    }

    /// The metrics of a borrower.
    pub fn get_metrics(&self, b: Address) -> (m: BorrowerMetrics)
        ensures
            m == metrics_of(self@.borrower_metrics, b),
    {
        match self.find_metrics(b) {
            Some(i) => self.borrower_metrics[i].metrics,
            None => BorrowerMetrics { total_loans: 0, completed_loans: 0, defaulted_loans: 0 },
        }
    }

    /// Stores the metrics of a borrower.
    pub fn put_metrics(&mut self, b: Address, m: BorrowerMetrics)
        ensures
            final(self)@ == (MicrolendingState {
                borrower_metrics: set_metrics(old(self)@.borrower_metrics, b, m),
                ..old(self)@
            }),
    {
        match self.find_metrics(b) {
            Some(i) => self.borrower_metrics.set(i, MetricsEntry { borrower: b, metrics: m }),
            None => self.borrower_metrics.push(MetricsEntry { borrower: b, metrics: m }),
        }
        assert(self@.loans == old(self)@.loans);
    }

    /// The system statistics, or their starting value.
    pub fn current_stats(&self) -> (st: SystemStats)
        ensures
            st == stats_of(self@),
    {
        match self.system_stats {
            Some(st) => st,
            None => SystemStats { total_loans: self.total_loans_created, total_funded: 0, total_repaid: 0, default_rate: 0 },
        }
    }

    /// Appends a loan record.
    fn push_record(&mut self, r: LoanRecord)
        ensures
            final(self)@ == (MicrolendingState { loans: old(self)@.loans.push(r@), ..old(self)@ }),
    {
        let ghost rv = r@;
        self.loans.push(r);
        assert(self@.loans =~= old(self)@.loans.push(rv));
    }

    /// Replaces the loan record at position `i`.
    fn set_record(&mut self, i: usize, r: LoanRecord)
        requires
            i < old(self).loans@.len(),
        ensures
            final(self)@ == (MicrolendingState { loans: old(self)@.loans.update(i as int, r@), ..old(self)@ }),
    {
        let ghost rv = r@;
        self.loans.set(i, r);
        assert(self@.loans =~= old(self)@.loans.update(i as int, rv));
    }

    /// Takes the record at position `i` out, leaving a placeholder there.
    fn take_record(&mut self, i: usize) -> (r: LoanRecord)
        requires
            i < old(self).loans@.len(),
        ensures
            r@ == old(self)@.loans[i as int],
            final(self).loans@.len() == old(self).loans@.len(),
            forall|j: int| 0 <= j < old(self).loans@.len() && j != i ==> final(self).loans@[j] == old(self).loans@[j],
            final(self).contract_address == old(self).contract_address,
            final(self).token == old(self).token,
            final(self).borrower_loans@ == old(self).borrower_loans@,
            final(self).lender_loans@ == old(self).lender_loans@,
            final(self).borrower_metrics@ == old(self).borrower_metrics@,
            final(self).next_loan_id == old(self).next_loan_id,
            final(self).total_loans_created == old(self).total_loans_created,
            final(self).total_loans_funded == old(self).total_loans_funded,
            final(self).total_loans_completed == old(self).total_loans_completed,
            final(self).total_loans_defaulted == old(self).total_loans_defaulted,
            final(self).system_stats == old(self).system_stats,
    {
        let mut r = placeholder_record();
        self.loans.set_and_swap(i, &mut r);
        r
    }

    /// Puts a record back at position `i`, after `take_record`.
    fn put_record(&mut self, i: usize, r: LoanRecord, ghost_old: Ghost<MicrolendingState>)
        requires
            i < old(self).loans@.len(),
            old(self).loans@.len() == ghost_old@.loans.len(),
            forall|j: int| 0 <= j < old(self).loans@.len() && j != i ==> old(self).loans@[j]@ == ghost_old@.loans[j],
            old(self).contract_address == ghost_old@.contract_address,
            old(self).token == ghost_old@.token,
            old(self).borrower_loans@ == ghost_old@.borrower_loans,
            old(self).lender_loans@ == ghost_old@.lender_loans,
            old(self).borrower_metrics@ == ghost_old@.borrower_metrics,
            old(self).next_loan_id == ghost_old@.next_loan_id,
            old(self).total_loans_created == ghost_old@.total_loans_created,
            old(self).total_loans_funded == ghost_old@.total_loans_funded,
            old(self).total_loans_completed == ghost_old@.total_loans_completed,
            old(self).total_loans_defaulted == ghost_old@.total_loans_defaulted,
            old(self).system_stats == ghost_old@.system_stats,
        ensures
            final(self)@ == (MicrolendingState { loans: ghost_old@.loans.update(i as int, r@), ..ghost_old@ }),
    {
        self.loans.set(i, r);
        assert(self@.loans =~= ghost_old@.loans.update(i as int, r@));
    }
}

} // verus!
