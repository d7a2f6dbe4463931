//! Properties that hold across the microlending operations.
use super::repay::{
    lemma_sum_pct_positive, repaid_sum, eligible_shares, initial_share, payout_amounts, payout_transfers, rem_share, repay_model, sum_initial, sum_pct,
    sum_rem, LenderShare,
};
use super::datatypes::TokenTransfer;
use super::claim::{claim_fits, claim_model, in_default};
use super::repay::pct_of;
use super::datatypes::LoanRequest;
use super::datatypes::{LoanStatus, MicrolendingError, Repayment};
use super::fund::fund_model;
use super::request::total_due_of;
use super::{loan_key, loan_of, loans_of, AccountLoan, LoanRecordView, MicrolendingState};
use crate::common::{first_match, lemma_first_match_update, Address};
use vstd::prelude::*;

verus! {

/// The sum of a list of amounts.
pub open spec fn total(amts: Seq<int>) -> int
    decreases amts.len(),
{
    if amts.len() == 0 { 0 } else { total(amts.drop_last()) + amts.last() }
}

/// The sum of the amounts a list of transfers moves.
pub open spec fn transferred(ts: Seq<TokenTransfer>) -> int
    decreases ts.len(),
{
    if ts.len() == 0 { 0 } else { transferred(ts.drop_last()) + ts.last().amount }
}

proof fn lemma_total_initial(sh: Seq<LenderShare>, amount: i128)
    ensures
        total(Seq::new(sh.len(), |k: int| initial_share(amount, sh[k].percentage))) == sum_initial(sh, amount),
    decreases sh.len(),
{
    if sh.len() > 0 {
        let d = sh.drop_last();
        lemma_total_initial(d, amount);
        assert(Seq::new(sh.len(), |k: int| initial_share(amount, sh[k].percentage)).drop_last() =~= Seq::new(
            d.len(),
            |k: int| initial_share(amount, d[k].percentage),
        ));
    }
}

proof fn lemma_total_with_remainder(sh: Seq<LenderShare>, amount: i128, r: int, tp: int)
    ensures
        total(Seq::new(sh.len(), |k: int| initial_share(amount, sh[k].percentage) + rem_share(r, sh[k].percentage, tp)))
            == sum_initial(sh, amount) + sum_rem(sh, r, tp),
    decreases sh.len(),
{
    if sh.len() > 0 {
        let d = sh.drop_last();
        lemma_total_with_remainder(d, amount, r, tp);
        assert(Seq::new(sh.len(), |k: int| initial_share(amount, sh[k].percentage) + rem_share(r, sh[k].percentage, tp)).drop_last()
            =~= Seq::new(d.len(), |k: int| initial_share(amount, d[k].percentage) + rem_share(r, d[k].percentage, tp)));
    }
}

proof fn lemma_total_bump_first(s: Seq<int>, d: int)
    requires
        s.len() > 0,
    ensures
        total(s.update(0, s[0] + d)) == total(s) + d,
    decreases s.len(),
{
    if s.len() > 1 {
        lemma_total_bump_first(s.drop_last(), d);
        assert(s.update(0, s[0] + d).drop_last() =~= s.drop_last().update(0, s.drop_last()[0] + d));
    } else {
        assert(s.update(0, s[0] + d).drop_last() =~= s.drop_last());
    }
}

proof fn lemma_initial_bound(sh: Seq<LenderShare>, amount: i128)
    requires
        amount > 0,
    ensures
        sum_initial(sh, amount) * 10000 <= amount * sum_pct(sh),
        sum_initial(sh, amount) >= 0,
    decreases sh.len(),
{
    if sh.len() > 0 {
        lemma_initial_bound(sh.drop_last(), amount);
        let p = sh.last().percentage;
        let x = (amount as u128) * (p as u128);
        assert((amount as u128) == amount);
        assert(x == amount * p) by (nonlinear_arith)
            requires
                (amount as u128) == amount,
                x == (amount as u128) * (p as u128),
        ;
        assert((x / 10000) * 10000 <= x && x / 10000 >= 0) by (nonlinear_arith)
            requires
                x >= 0,
        ;
        assert(amount * sum_pct(sh.drop_last()) + amount * p == amount * (sum_pct(sh.drop_last()) + p)) by (nonlinear_arith);
    }
}

proof fn lemma_remainder_bound(sh: Seq<LenderShare>, r: int, tp: int)
    requires
        r >= 0,
        tp > 0,
    ensures
        sum_rem(sh, r, tp) * tp <= r * sum_pct(sh),
        sum_rem(sh, r, tp) >= 0,
    decreases sh.len(),
{
    if sh.len() > 0 {
        lemma_remainder_bound(sh.drop_last(), r, tp);
        let p = sh.last().percentage;
        assert(((r * p) / tp) * tp <= r * p && (r * p) / tp >= 0) by (nonlinear_arith)
            requires
                r >= 0,
                p >= 0,
                tp > 0,
        ;
        assert(r * sum_pct(sh.drop_last()) + r * p == r * (sum_pct(sh.drop_last()) + p)) by (nonlinear_arith);
        assert((sum_rem(sh.drop_last(), r, tp) + (r * p) / tp) * tp == sum_rem(sh.drop_last(), r, tp) * tp + ((r * p) / tp) * tp)
            by (nonlinear_arith);
    }
}

/// Sharing out a repayment among lenders whose shares add up to at most the
/// whole loan pays out the whole repayment, and every lender gets at least
/// its proportional part, rounded down.
pub proof fn law_repayment_fully_shared(sh: Seq<LenderShare>, amount: i128)
    requires
        amount > 0,
        sh.len() > 0,
        forall|k: int| 0 <= k < sh.len() ==> #[trigger] sh[k].percentage > 0,
        sum_pct(sh) <= 10000,
    ensures
        total(payout_amounts(sh, amount)) == amount,
        forall|k: int| 0 <= k < sh.len() ==> #[trigger] payout_amounts(sh, amount)[k] >= initial_share(amount, sh[k].percentage),
{
    lemma_initial_bound(sh, amount);
    assert(amount * sum_pct(sh) <= amount * 10000) by (nonlinear_arith)
        requires
            amount > 0,
            sum_pct(sh) <= 10000,
    ;
    let r = amount - sum_initial(sh, amount);
    assert(r >= 0);
    if r > 0 {
        let tp = sum_pct(sh);
        lemma_sum_pct_positive(sh);
        lemma_remainder_bound(sh, r, tp);
        assert(sum_rem(sh, r, tp) <= r) by (nonlinear_arith)
            requires
                sum_rem(sh, r, tp) * tp <= r * tp,
                tp > 0,
        ;
        let base = Seq::new(sh.len(), |k: int| initial_share(amount, sh[k].percentage) + rem_share(r, sh[k].percentage, tp));
        lemma_total_with_remainder(sh, amount, r, tp);
        let fr = r - sum_rem(sh, r, tp);
        assert forall|k: int| 0 <= k < sh.len() implies rem_share(r, #[trigger] sh[k].percentage, tp) >= 0 by {
            let p = sh[k].percentage;
            assert((r * p) / tp >= 0) by (nonlinear_arith)
                requires
                    r >= 0,
                    p >= 0,
                    tp > 0,
            ;
        }
        if fr > 0 {
            lemma_total_bump_first(base, fr);
        }
    } else {
        lemma_total_initial(sh, amount);
    }
}

/// The amounts of the transfers paying a list of non-negative amounts add
/// up to their total.
proof fn lemma_transfers_total(sh: Seq<LenderShare>, amts: Seq<int>, contract: Address, n: nat)
    requires
        n <= sh.len(),
        amts.len() == sh.len(),
        forall|k: int| 0 <= k < amts.len() ==> #[trigger] amts[k] >= 0,
        forall|k: int| 0 <= k < amts.len() ==> i128::MIN <= #[trigger] amts[k] <= i128::MAX,
    ensures
        transferred(payout_transfers(sh, amts, contract, n)) == total(amts.take(n as int)),
    decreases n,
{
    if n > 0 {
        lemma_transfers_total(sh, amts, contract, (n - 1) as nat);
        assert(amts.take(n as int).drop_last() =~= amts.take(n - 1));
        let rest = payout_transfers(sh, amts, contract, (n - 1) as nat);
        if amts[n - 1] > 0 {
            assert(payout_transfers(sh, amts, contract, n).drop_last() == rest);
        }
    }
}

/// The unclaimed contributions of a loan that take part in sharing out a repayment.
pub open spec fn loan_shares(s: MicrolendingState, loan_id: u32) -> Seq<LenderShare> {
    match first_match(s.loans, loan_key(loan_id)) {
        Some(i) => eligible_shares(s.loans[i].contributions, s.loans[i].request.amount),
        None => Seq::empty(),
    }
}

/// When a repayment is accepted and the unclaimed shares of the loan add up
/// to at most the whole loan, the contract passes on to the lenders exactly
/// what the borrower paid in: the transfers after the borrower's payment add
/// up to the repayment.
pub proof fn law_repayment_passed_on(
    s: MicrolendingState,
    borrower: Address,
    loan_id: u32,
    amount: i128,
    now: u64,
    borrower_balance: i128,
    contract_balance: i128,
)
    requires
        repay_model(s, borrower, loan_id, amount, now, borrower_balance, contract_balance) is Ok,
        loan_shares(s, loan_id).len() > 0,
        sum_pct(loan_shares(s, loan_id)) <= 10000,
    ensures
        ({
            let ts = repay_model(s, borrower, loan_id, amount, now, borrower_balance, contract_balance).unwrap().1;
            &&& ts[0] == TokenTransfer { from: borrower, to: s.contract_address, amount }
            &&& transferred(ts.drop_first()) == amount
        }),
{
    let i = first_match(s.loans, loan_key(loan_id)).unwrap();
    let rec = s.loans[i];
    let sh = eligible_shares(rec.contributions, rec.request.amount);
    super::repay::lemma_eligible_positive(rec.contributions, rec.request.amount);
    law_repayment_fully_shared(sh, amount);
    let amts = payout_amounts(sh, amount);
    let ts = repay_model(s, borrower, loan_id, amount, now, borrower_balance, contract_balance).unwrap().1;
    let head = seq![TokenTransfer { from: borrower, to: s.contract_address, amount }];
    let tail = payout_transfers(sh, amts, s.contract_address, sh.len());
    assert(ts == head + tail);
    assert(ts.drop_first() =~= tail);
    assert forall|k: int| 0 <= k < amts.len() implies #[trigger] amts[k] >= 0 by {
        assert(amts[k] >= initial_share(amount, sh[k].percentage));
        let x = (amount as u128) * (sh[k].percentage as u128);
        assert(x / 10000 >= 0) by (nonlinear_arith)
            requires
                x >= 0,
        ;
    }
    assert forall|k: int| 0 <= k < amts.len() implies #[trigger] amts[k] <= amount by {
        lemma_part_at_most_total(amts, k);
    }
    lemma_transfers_total(sh, amts, s.contract_address, sh.len());
    assert(amts.take(sh.len() as int) =~= amts);
}

/// A non-negative part of a list of non-negative amounts is at most their total.
proof fn lemma_part_at_most_total(amts: Seq<int>, k: int)
    requires
        0 <= k < amts.len(),
        forall|j: int| 0 <= j < amts.len() ==> #[trigger] amts[j] >= 0,
    ensures
        amts[k] <= total(amts),
        total(amts) >= 0,
    decreases amts.len(),
{
    let d = amts.drop_last();
    assert forall|j: int| 0 <= j < d.len() implies #[trigger] d[j] >= 0 by {
        assert(d[j] == amts[j]);
    }
    assert(amts.last() >= 0);
    if k < amts.len() - 1 {
        lemma_part_at_most_total(d, k);
    } else if amts.len() > 1 {
        lemma_part_at_most_total(d, 0);
    } else {
        assert(total(d) == 0);
    }
}


/// Replacing the record of a loan by one of the same identifier keeps every
/// loan where it is found.
proof fn lemma_loan_record_replaced(s: MicrolendingState, i: int, rec: LoanRecordView, id: u32)
    requires
        0 <= i < s.loans.len(),
        rec.request.id == s.loans[i].request.id,
    ensures
        first_match(s.loans.update(i, rec), loan_key(id)) == first_match(s.loans, loan_key(id)),
{
    lemma_first_match_update(s.loans, loan_key(id), i, rec);
}

/// An accepted repayment never takes what has been repaid on a loan beyond
/// what is due on it.
pub proof fn law_repaid_within_due(
    s: MicrolendingState,
    borrower: Address,
    loan_id: u32,
    amount: i128,
    now: u64,
    borrower_balance: i128,
    contract_balance: i128,
)
    requires
        repay_model(s, borrower, loan_id, amount, now, borrower_balance, contract_balance) is Ok,
    ensures
        ({
            let ns = repay_model(s, borrower, loan_id, amount, now, borrower_balance, contract_balance).unwrap().0;
            let rec = loan_of(ns, loan_id).unwrap();
            &&& loan_of(ns, loan_id) is Some
            &&& repaid_sum(rec.repayments) <= total_due_of(rec.request.amount, rec.request.interest_rate)
            &&& repaid_sum(rec.repayments) == repaid_sum(loan_of(s, loan_id).unwrap().repayments) + amount
        }),
{
    let i = first_match(s.loans, loan_key(loan_id)).unwrap();
    let ns = repay_model(s, borrower, loan_id, amount, now, borrower_balance, contract_balance).unwrap().0;
    lemma_loan_record_replaced(s, i, ns.loans[i], loan_id);
    let rs = s.loans[i].repayments;
    assert(rs.push(Repayment { amount, timestamp: now }).drop_last() =~= rs);
}

/// Once a lender has claimed the collateral of a loan, the loan is
/// defaulted and every later claim on it is refused.
pub proof fn law_collateral_claimed_once(
    s: MicrolendingState,
    lender: Address,
    loan_id: u32,
    now: u64,
    later_lender: Address,
    later: u64,
)
    requires
        claim_model(s, lender, loan_id, now) is Ok,
    ensures
        ({
            let ns = claim_model(s, lender, loan_id, now).unwrap().0;
            &&& loan_of(ns, loan_id).unwrap().request.status == LoanStatus::Defaulted
            &&& claim_model(ns, later_lender, loan_id, later) == Err::<(MicrolendingState, Seq<TokenTransfer>), MicrolendingError>(
                MicrolendingError::InvalidLoanStatus,
            )
        }),
{
    let i = first_match(s.loans, loan_key(loan_id)).unwrap();
    let ns = claim_model(s, lender, loan_id, now).unwrap().0;
    lemma_loan_record_replaced(s, i, ns.loans[i], loan_id);
}

/// Funding never takes a loan beyond its amount.
pub proof fn law_funding_within_amount(
    s: MicrolendingState,
    lender: Address,
    loan_id: u32,
    amount: i128,
    now: u64,
    lender_balance: i128,
    contract_balance: i128,
)
    requires
        fund_model(s, lender, loan_id, amount, now, lender_balance, contract_balance) is Ok,
    ensures
        ({
            let ns = fund_model(s, lender, loan_id, amount, now, lender_balance, contract_balance).unwrap().0;
            let before = loan_of(s, loan_id).unwrap().request;
            let after = loan_of(ns, loan_id).unwrap().request;
            &&& after.funded_amount > before.funded_amount
            &&& after.funded_amount <= after.amount
            &&& after.amount == before.amount
        }),
{
    let i = first_match(s.loans, loan_key(loan_id)).unwrap();
    let ns = fund_model(s, lender, loan_id, amount, now, lender_balance, contract_balance).unwrap().0;
    lemma_loan_record_replaced(s, i, ns.loans[i], loan_id);
}

/// A loan listed under an account comes from an entry of the index.
proof fn lemma_listed_loan_has_entry(s: Seq<AccountLoan>, a: Address, x: u32)
    requires
        loans_of(s, a).contains(x),
    ensures
        s.contains(AccountLoan { account: a, loan_id: x }),
    decreases s.len(),
{
    let rest = s.drop_last();
    let last = s.len() - 1;
    if s[last].account == a && s[last].loan_id == x {
        assert(s[last] == AccountLoan { account: a, loan_id: x });
    } else {
        let r = loans_of(rest, a);
        if s[last].account == a {
            let j = choose|j: int| 0 <= j < r.push(s[last].loan_id).len() && r.push(s[last].loan_id)[j] == x;
            assert(j < r.len());
            assert(r[j] == x);
        }
        assert(r.contains(x));
        lemma_listed_loan_has_entry(rest, a, x);
        let j = choose|j: int| 0 <= j < rest.len() && rest[j] == AccountLoan { account: a, loan_id: x };
        assert(s[j] == rest[j]);
    }
}

/// An entry of the index lists its loan under its account.
proof fn lemma_entry_lists_loan(s: Seq<AccountLoan>, e: AccountLoan)
    requires
        s.contains(e),
    ensures
        loans_of(s, e.account).contains(e.loan_id),
    decreases s.len(),
{
    let rest = s.drop_last();
    let last = s.len() - 1;
    let r = loans_of(rest, e.account);
    if s[last] == e {
        assert(r.push(e.loan_id)[r.len() as int] == e.loan_id);
    } else {
        let j = choose|j: int| 0 <= j < s.len() && s[j] == e;
        assert(rest[j] == e);
        lemma_entry_lists_loan(rest, e);
        let k = choose|k: int| 0 <= k < r.len() && r[k] == e.loan_id;
        if s[last].account == e.account {
            assert(r.push(s[last].loan_id)[k] == e.loan_id);
        }
    }
}

/// An index without repeated entries lists no loan twice under one account.
proof fn lemma_listed_loans_distinct(s: Seq<AccountLoan>, a: Address)
    requires
        s.no_duplicates(),
    ensures
        loans_of(s, a).no_duplicates(),
    decreases s.len(),
{
    if s.len() > 0 {
        let rest = s.drop_last();
        let last = s.len() - 1;
        assert(rest.no_duplicates()) by {
            assert forall|i: int, j: int| 0 <= i < rest.len() && 0 <= j < rest.len() && i != j implies rest[i]
                != rest[j] by {
                assert(rest[i] == s[i] && rest[j] == s[j]);
            }
        }
        lemma_listed_loans_distinct(rest, a);
        if s[last].account == a {
            let r = loans_of(rest, a);
            let x = s[last].loan_id;
            if r.contains(x) {
                lemma_listed_loan_has_entry(rest, a, x);
                let j = choose|j: int| 0 <= j < rest.len() && rest[j] == AccountLoan { account: a, loan_id: x };
                assert(s[j] == s[last]);
            }
            assert forall|i: int, j: int| 0 <= i < r.push(x).len() && 0 <= j < r.push(x).len() && i != j implies r.push(
                x,
            )[i] != r.push(x)[j] by {
                if i == r.len() {
                    assert(r.contains(r[j]));
                } else if j == r.len() {
                    assert(r.contains(r[i]));
                }
            }
        }
    }
}

/// Funding keeps the lender index free of repeated entries, and afterwards
/// the funded loan is listed exactly once among the lender's loans.
pub proof fn law_lender_listed_once(
    s: MicrolendingState,
    lender: Address,
    loan_id: u32,
    amount: i128,
    now: u64,
    lender_balance: i128,
    contract_balance: i128,
)
    requires
        s.lender_loans.no_duplicates(),
        fund_model(s, lender, loan_id, amount, now, lender_balance, contract_balance) is Ok,
    ensures
        ({
            let ns = fund_model(s, lender, loan_id, amount, now, lender_balance, contract_balance).unwrap().0;
            &&& ns.lender_loans.no_duplicates()
            &&& loans_of(ns.lender_loans, lender).contains(loan_id)
            &&& loans_of(ns.lender_loans, lender).no_duplicates()
        }),
{
    let ns = fund_model(s, lender, loan_id, amount, now, lender_balance, contract_balance).unwrap().0;
    let entry = AccountLoan { account: lender, loan_id };
    let before = s.lender_loans;
    if before.contains(entry) {
        assert(ns.lender_loans == before);
    } else {
        let after = before.push(entry);
        assert(ns.lender_loans == after);
        assert(after[before.len() as int] == entry);
        assert forall|i: int, j: int| 0 <= i < after.len() && 0 <= j < after.len() && i != j implies after[i]
            != after[j] by {
            if i == before.len() {
                assert(after[j] == before[j]);
            } else if j == before.len() {
                assert(after[i] == before[i]);
            } else {
                assert(after[i] == before[i] && after[j] == before[j]);
            }
        }
    }
    assert(ns.lender_loans.contains(entry));
    lemma_entry_lists_loan(ns.lender_loans, entry);
    lemma_listed_loans_distinct(ns.lender_loans, lender);
}

/// A lender claiming the collateral of a defaulted loan is paid, by the
/// contract, its proportional part of the collateral's estimated value: the
/// value times the lender's share of the loan in basis points, divided by
/// 10000 and rounded down.  Nothing is sent when that part is zero, and the
/// part never exceeds the value when the share is at most the whole loan.
pub proof fn law_collateral_claim_proportional(s: MicrolendingState, lender: Address, loan_id: u32, now: u64)
    requires
        claim_fits(s, lender, loan_id, now),
        claim_model(s, lender, loan_id, now) is Ok,
        loan_of(s, loan_id).unwrap().request.collateral.estimated_value >= 0,
    ensures
        ({
            let rec = loan_of(s, loan_id).unwrap();
            let value = rec.request.collateral.estimated_value as int;
            let pct = pct_of(rec.contributions, rec.request.amount, lender) as int;
            let part = value * pct / 10000;
            let ts = claim_model(s, lender, loan_id, now).unwrap().1;
            &&& 0 <= part
            &&& pct <= 10000 ==> part <= value
            &&& part > 0 ==> ts == seq![TokenTransfer { from: s.contract_address, to: lender, amount: part as i128 }]
            &&& part == 0 ==> ts.len() == 0
        }),
{
    let rec = loan_of(s, loan_id).unwrap();
    let value = rec.request.collateral.estimated_value as int;
    let pct = pct_of(rec.contributions, rec.request.amount, lender) as int;
    assert(0 <= value * pct / 10000) by (nonlinear_arith)
        requires
            0 <= value,
            0 <= pct,
    ;
    if pct <= 10000 {
        assert(value * pct / 10000 <= value) by (nonlinear_arith)
            requires
                0 <= value,
                0 <= pct <= 10000,
        ;
    }
    assert((rec.request.collateral.estimated_value as u128) as int == value);
}

/// Whether an installment loan is in default, in terms of its inputs: the
/// loan is funded or being repaid, the week of grace after funding is over,
/// and either fewer payments were made than whole periods have passed since
/// funding, or the repayments add up to less than that many installments.
pub proof fn law_installment_default(loan: LoanRequest, rs: Seq<Repayment>, now: u64, funded: u64)
    requires
        loan.repayment_schedule.installments > 0,
        loan.repayment_schedule.frequency_days > 0,
        loan.funded_timestamp == Some(funded),
        funded <= now,
        ((now - funded) / 86400) / (loan.repayment_schedule.frequency_days as int) <= u32::MAX,
        rs.len() <= u32::MAX,
    ensures
        ({
            let periods = ((now - funded) / 86400) / (loan.repayment_schedule.frequency_days as int);
            in_default(loan, rs, now) == (
                (loan.status == LoanStatus::Funded || loan.status == LoanStatus::Repaying)
                && now > funded + 604800
                && (periods > rs.len() || repaid_sum(rs) < periods * loan.repayment_schedule.per_installment_amount)
            )
        }),
{
}

/// The paid amount of transfers addressed to `a`.
pub open spec fn paid_to(ts: Seq<TokenTransfer>, a: Address) -> int
    decreases ts.len(),
{
    if ts.len() == 0 {
        0
    } else {
        paid_to(ts.drop_last(), a) + if ts.last().to == a { ts.last().amount as int } else { 0 }
    }
}

/// What the first `n` shares owe `a`: the positive amounts of the shares whose lender is `a`.
pub open spec fn owed_to(sh: Seq<LenderShare>, amts: Seq<int>, a: Address, n: nat) -> int
    decreases n,
{
    if n == 0 || n > sh.len() {
        0
    } else {
        owed_to(sh, amts, a, (n - 1) as nat) + if amts[n - 1] > 0 && sh[n - 1].lender == a { amts[n - 1] } else { 0 }
    }
}

proof fn lemma_paid_as_owed(sh: Seq<LenderShare>, amts: Seq<int>, contract: Address, a: Address, n: nat)
    requires
        n <= sh.len(),
        amts.len() == sh.len(),
        forall|k: int| 0 <= k < amts.len() ==> i128::MIN <= #[trigger] amts[k] <= i128::MAX,
    ensures
        paid_to(payout_transfers(sh, amts, contract, n), a) == owed_to(sh, amts, a, n),
        forall|k: int| 0 <= k < payout_transfers(sh, amts, contract, n).len() ==> (#[trigger] payout_transfers(sh, amts, contract, n)[k]).from == contract,
    decreases n,
{
    if n > 0 {
        lemma_paid_as_owed(sh, amts, contract, a, (n - 1) as nat);
        let rest = payout_transfers(sh, amts, contract, (n - 1) as nat);
        if amts[n - 1] > 0 {
            let all = payout_transfers(sh, amts, contract, n);
            assert(all.drop_last() == rest);
            assert forall|k: int| 0 <= k < all.len() implies (#[trigger] all[k]).from == contract by {
                if k < rest.len() {
                    assert(all[k] == rest[k]);
                }
            }
        }
    }
}

/// A repayment accepted on a loan whose unclaimed shares add up to at most
/// the whole loan goes first from the borrower to the contract; every other
/// transfer comes from the contract, and each lender receives exactly what
/// its shares of the repayment come to.
pub proof fn law_repayment_reaches_each_lender(
    s: MicrolendingState,
    borrower: Address,
    loan_id: u32,
    amount: i128,
    now: u64,
    borrower_balance: i128,
    contract_balance: i128,
    lender: Address,
)
    requires
        repay_model(s, borrower, loan_id, amount, now, borrower_balance, contract_balance) is Ok,
        loan_shares(s, loan_id).len() > 0,
        sum_pct(loan_shares(s, loan_id)) <= 10000,
    ensures
        ({
            let ts = repay_model(s, borrower, loan_id, amount, now, borrower_balance, contract_balance).unwrap().1;
            let sh = loan_shares(s, loan_id);
            &&& ts[0] == TokenTransfer { from: borrower, to: s.contract_address, amount }
            &&& forall|k: int| 1 <= k < ts.len() ==> (#[trigger] ts[k]).from == s.contract_address
            &&& paid_to(ts.drop_first(), lender) == owed_to(sh, payout_amounts(sh, amount), lender, sh.len())
        }),
{
    let i = first_match(s.loans, loan_key(loan_id)).unwrap();
    let rec = s.loans[i];
    let sh = eligible_shares(rec.contributions, rec.request.amount);
    super::repay::lemma_eligible_positive(rec.contributions, rec.request.amount);
    law_repayment_fully_shared(sh, amount);
    let amts = payout_amounts(sh, amount);
    let ts = repay_model(s, borrower, loan_id, amount, now, borrower_balance, contract_balance).unwrap().1;
    let head = seq![TokenTransfer { from: borrower, to: s.contract_address, amount }];
    let tail = payout_transfers(sh, amts, s.contract_address, sh.len());
    assert(ts == head + tail);
    assert(ts.drop_first() =~= tail);
    assert forall|k: int| 0 <= k < amts.len() implies #[trigger] amts[k] >= 0 by {
        assert(amts[k] >= initial_share(amount, sh[k].percentage));
        let x = (amount as u128) * (sh[k].percentage as u128);
        assert(x / 10000 >= 0) by (nonlinear_arith)
            requires
                x >= 0,
        ;
    }
    assert forall|k: int| 0 <= k < amts.len() implies #[trigger] amts[k] <= amount by {
        lemma_part_at_most_total(amts, k);
    }
    lemma_paid_as_owed(sh, amts, s.contract_address, lender, sh.len());
    assert forall|k: int| 1 <= k < ts.len() implies (#[trigger] ts[k]).from == s.contract_address by {
        assert(ts[k] == tail[k - 1]);
    }
}

/// An installment loan that records no funding time is never in default:
/// its week of grace has not begun.
pub proof fn law_unfunded_installments_not_in_default(loan: LoanRequest, rs: Seq<Repayment>, now: u64)
    requires
        loan.repayment_schedule.installments > 0,
        loan.funded_timestamp is None,
    ensures
        !in_default(loan, rs, now),
{
}

/// Whether a loan without installments is in default, in terms of its
/// inputs: it is funded or being repaid, its due date has passed, and less
/// than the amount plus its interest (amount × rate / 10000, rounded down)
/// has been repaid.
pub proof fn law_lump_sum_default(loan: LoanRequest, rs: Seq<Repayment>, now: u64)
    requires
        loan.repayment_schedule.installments == 0,
        loan.amount >= 0,
    ensures
        in_default(loan, rs, now) == (
            (loan.status == LoanStatus::Funded || loan.status == LoanStatus::Repaying)
            && (loan.repayment_due_timestamp matches Some(due) && now > due)
            && repaid_sum(rs) < loan.amount + loan.amount * loan.interest_rate / 10000
        ),
{
}
} // verus!
