use vstd::prelude::*;

use crate::codec::{
    decode_record, encode_record, lemma_decode_of_encode, lemma_encode_of_decode,
    spec_decode_record, spec_encode_record, valid_record_encoding,
};
use crate::identity::{sentinel_id, Identity, IDENTITY_LEN};
use crate::instruction::{
    decode_instruction, spec_decode_instruction, valid_instruction_encoding, LoanInstruction,
};
use crate::ledger::{views_of, Account, AccountV};
use crate::record::{LoanAccount, LoanAccountV};
use crate::LoanError;

verus! {

/// The interest rate fixed at creation: 500 basis points, i.e. 5%.
pub const INTEREST_RATE_BPS: u16 = 500;

/// Seconds in a day.
pub const SECONDS_PER_DAY: i64 = 86400;

/// The clock reading must leave room for the longest possible term, so that
/// the due date `now + term_days * 86400` fits a signed 64-bit timestamp.
pub open spec fn now_in_range(now: i64) -> bool {
    0 <= now && now + 65535 * 86400 <= i64::MAX
}

/// Interest owed on a loan, in the ledger's smallest unit, rounded down.
pub open spec fn spec_interest(amount: u64, rate_bps: u16) -> int {
    (amount * rate_bps) / 10000
}

/// Uninitialized -> Pending. The borrower signs; the designated system
/// account must carry the system-allocation identity; the host allocates a
/// fresh record account funded with `min_balance` out of the borrower's
/// balance and owned by this program; the record is written with the
/// sentinel lender, zero times, and the fixed interest rate.
/// Returns the new (borrower, loan) account states.
pub open spec fn spec_initialize(
    program_id: Seq<u8>,
    borrower: AccountV,
    loan: AccountV,
    system: AccountV,
    amount: u64,
    term_days: u16,
    credit_score: u16,
    min_balance: u64,
) -> Result<(AccountV, AccountV), LoanError> {
    if !borrower.is_signer {
        Err(LoanError::MissingSignature)
    } else if system.key != sentinel_id() {
        Err(LoanError::WrongOwner)
    } else if loan.lamports != 0 || loan.data.len() != 0 || borrower.lamports < min_balance {
        Err(LoanError::AllocationFailed)
    } else {
        let rec = LoanAccountV {
            is_initialized: true,
            borrower: borrower.key,
            lender: sentinel_id(),
            amount,
            term_days,
            interest_rate: INTEREST_RATE_BPS,
            start_time: 0,
            end_time: 0,
            is_repaid: false,
            credit_score,
        };
        Ok(
            (
                AccountV { lamports: (borrower.lamports - min_balance) as u64, ..borrower },
                AccountV {
                    owner: program_id,
                    lamports: min_balance,
                    data: spec_encode_record(rec),
                    ..loan
                },
            ),
        )
    }
}

/// Pending -> Active. The lender signs; the pool is program-owned; the
/// record must be initialized with the sentinel lender; the pool must cover
/// the principal. The record gains the lender and its start and due times,
/// and the principal moves from the pool to the borrower.
/// Returns the new (loan, borrower, pool) account states.
pub open spec fn spec_approve(
    program_id: Seq<u8>,
    lender: AccountV,
    loan: AccountV,
    borrower: AccountV,
    pool: AccountV,
    now: i64,
) -> Result<(AccountV, AccountV, AccountV), LoanError> {
    if !lender.is_signer {
        Err(LoanError::MissingSignature)
    } else if pool.owner != program_id {
        Err(LoanError::WrongOwner)
    } else if !valid_record_encoding(loan.data) {
        Err(LoanError::CorruptRecord)
    } else {
        let rec = spec_decode_record(loan.data);
        if !rec.is_initialized || rec.lender != sentinel_id() {
            Err(LoanError::InvalidState)
        } else if pool.lamports < rec.amount {
            Err(LoanError::InsufficientFunds)
        } else if borrower.lamports + rec.amount > u64::MAX {
            Err(LoanError::TransferFailed)
        } else {
            let rec2 = LoanAccountV {
                lender: lender.key,
                start_time: now,
                end_time: (now + rec.term_days * (SECONDS_PER_DAY as int)) as i64,
                ..rec
            };
            Ok(
                (
                    AccountV { data: spec_encode_record(rec2), ..loan },
                    AccountV { lamports: (borrower.lamports + rec.amount) as u64, ..borrower },
                    AccountV { lamports: (pool.lamports - rec.amount) as u64, ..pool },
                ),
            )
        }
    }
}

/// Active -> Settled. The borrower signs; the pool is program-owned; the
/// record must be initialized, approved, and not yet repaid. The borrower
/// returns principal plus interest to the pool and the record is marked
/// repaid. Interest is computed in a widened domain and both the narrowing
/// and the final sum are overflow-checked.
/// Returns the new (borrower, loan, pool) account states.
pub open spec fn spec_repay(
    program_id: Seq<u8>,
    borrower: AccountV,
    loan: AccountV,
    pool: AccountV,
) -> Result<(AccountV, AccountV, AccountV), LoanError> {
    if !borrower.is_signer {
        Err(LoanError::MissingSignature)
    } else if pool.owner != program_id {
        Err(LoanError::WrongOwner)
    } else if !valid_record_encoding(loan.data) {
        Err(LoanError::CorruptRecord)
    } else {
        let rec = spec_decode_record(loan.data);
        if !rec.is_initialized || rec.lender == sentinel_id() || rec.is_repaid {
            Err(LoanError::InvalidState)
        } else {
            let interest = spec_interest(rec.amount, rec.interest_rate);
            if interest > u64::MAX || rec.amount + interest > u64::MAX {
                Err(LoanError::ArithmeticOverflow)
            } else {
                let total = (rec.amount + interest) as u64;
                if borrower.lamports < total || pool.lamports + total > u64::MAX {
                    Err(LoanError::TransferFailed)
                } else {
                    let rec2 = LoanAccountV { is_repaid: true, ..rec };
                    Ok(
                        (
                            AccountV {
                                lamports: (borrower.lamports - total) as u64,
                                ..borrower
                            },
                            AccountV { data: spec_encode_record(rec2), ..loan },
                            AccountV { lamports: (pool.lamports + total) as u64, ..pool },
                        ),
                    )
                }
            }
        }
    }
}

/// Overwrites the credit score, in any loan state. Any signer may do this:
/// the admin identity is not otherwise constrained, exactly as the host
/// deployment has it.
/// Returns the new loan account state.
pub open spec fn spec_update_credit_score(
    admin: AccountV,
    loan: AccountV,
    new_score: u16,
) -> Result<AccountV, LoanError> {
    if !admin.is_signer {
        Err(LoanError::MissingSignature)
    } else if !valid_record_encoding(loan.data) {
        Err(LoanError::CorruptRecord)
    } else {
        let rec = spec_decode_record(loan.data);
        let rec2 = LoanAccountV { credit_score: new_score, ..rec };
        Ok(AccountV { data: spec_encode_record(rec2), ..loan })
    }
}

/// Pool top-up: the funder signs and moves `amount` into the program-owned
/// pool. Returns the new (funder, pool) account states.
pub open spec fn spec_fund_program(
    program_id: Seq<u8>,
    funder: AccountV,
    pool: AccountV,
    amount: u64,
) -> Result<(AccountV, AccountV), LoanError> {
    if !funder.is_signer {
        Err(LoanError::MissingSignature)
    } else if pool.owner != program_id {
        Err(LoanError::WrongOwner)
    } else if funder.lamports < amount || pool.lamports + amount > u64::MAX {
        Err(LoanError::TransferFailed)
    } else {
        Ok(
            (
                AccountV { lamports: (funder.lamports - amount) as u64, ..funder },
                AccountV { lamports: (pool.lamports + amount) as u64, ..pool },
            ),
        )
    }
}

/// Creates a new loan application: allocates and fills the record account.
pub fn process_initialize_loan(
    program_id: &Identity,
    borrower_account: &mut Account,
    loan_account: &mut Account,
    system_account: &Account,
    amount: u64,
    term_days: u16,
    credit_score: u16,
    min_balance: u64,
) -> (r: Result<(), LoanError>)
    requires
        program_id.wf(),
        old(borrower_account).wf(),
        old(loan_account).wf(),
        system_account.wf(),
    ensures
        (match spec_initialize(
            program_id@,
            old(borrower_account)@,
            old(loan_account)@,
            system_account@,
            amount,
            term_days,
            credit_score,
            min_balance,
        ) {
            Ok(t) => r is Ok && final(borrower_account)@ == t.0 && final(loan_account)@ == t.1,
            Err(e) => r == Err::<(), LoanError>(e) && *final(borrower_account) == *old(
                borrower_account,
            ) && *final(loan_account) == *old(loan_account),
        }),
        final(borrower_account).wf(),
        final(loan_account).wf(),
{
    if !borrower_account.is_signer {
        return Err(LoanError::MissingSignature);
    }
    if !system_account.key.is_sentinel() {
        return Err(LoanError::WrongOwner);
    }
    if loan_account.lamports != 0 || loan_account.data.len() != 0 || borrower_account.lamports
        < min_balance {
        return Err(LoanError::AllocationFailed);
    }
    let rec = LoanAccount {
        is_initialized: true,
        borrower: borrower_account.key.clone(),
        lender: Identity::sentinel(),
        amount,
        term_days,
        interest_rate: INTEREST_RATE_BPS,
        start_time: 0,
        end_time: 0,
        is_repaid: false,
        credit_score,
    };
    loan_account.owner = program_id.clone();
    loan_account.lamports = min_balance;
    loan_account.data = encode_record(&rec);
    borrower_account.lamports = borrower_account.lamports - min_balance;
    Ok(())
}

/// Approves and funds a pending loan: fixes the lender and the loan window,
/// then disburses the principal from the pool to the borrower.
pub fn process_approve_loan(
    program_id: &Identity,
    lender_account: &Account,
    loan_account: &mut Account,
    borrower_account: &mut Account,
    pool_account: &mut Account,
    now: i64,
) -> (r: Result<(), LoanError>)
    requires
        program_id.wf(),
        lender_account.wf(),
        old(loan_account).wf(),
        old(borrower_account).wf(),
        old(pool_account).wf(),
        now_in_range(now),
    ensures
        (match spec_approve(
            program_id@,
            lender_account@,
            old(loan_account)@,
            old(borrower_account)@,
            old(pool_account)@,
            now,
        ) {
            Ok(t) => r is Ok && final(loan_account)@ == t.0 && final(borrower_account)@ == t.1
                && final(pool_account)@ == t.2,
            Err(e) => r == Err::<(), LoanError>(e) && *final(loan_account) == *old(loan_account)
                && *final(borrower_account) == *old(borrower_account) && *final(pool_account)
                == *old(pool_account),
        }),
        final(loan_account).wf(),
        final(borrower_account).wf(),
        final(pool_account).wf(),
{
    if !lender_account.is_signer {
        return Err(LoanError::MissingSignature);
    }
    if !pool_account.owner.same_as(program_id) {
        return Err(LoanError::WrongOwner);
    }
    let rec = match decode_record(&loan_account.data) {
        Ok(rec) => rec,
        Err(e) => {
            return Err(e);
        },
    };
    if !rec.is_initialized || !rec.lender.is_sentinel() {
        return Err(LoanError::InvalidState);
    }
    if pool_account.lamports < rec.amount {
        return Err(LoanError::InsufficientFunds);
    }
    if borrower_account.lamports > u64::MAX - rec.amount {
        return Err(LoanError::TransferFailed);
    }
    let end_time: i64 = now + (rec.term_days as i64) * SECONDS_PER_DAY;
    let rec2 = LoanAccount {
        lender: lender_account.key.clone(),
        start_time: now,
        end_time,
        ..rec
    };
    loan_account.data = encode_record(&rec2);
    borrower_account.lamports = borrower_account.lamports + rec2.amount;
    pool_account.lamports = pool_account.lamports - rec2.amount;
    Ok(())
}

/// Repays an active loan: returns principal plus interest to the pool and
/// settles the record.
pub fn process_repay_loan(
    program_id: &Identity,
    borrower_account: &mut Account,
    loan_account: &mut Account,
    pool_account: &mut Account,
) -> (r: Result<(), LoanError>)
    requires
        program_id.wf(),
        old(borrower_account).wf(),
        old(loan_account).wf(),
        old(pool_account).wf(),
    ensures
        (match spec_repay(
            program_id@,
            old(borrower_account)@,
            old(loan_account)@,
            old(pool_account)@,
        ) {
            Ok(t) => r is Ok && final(borrower_account)@ == t.0 && final(loan_account)@ == t.1
                && final(pool_account)@ == t.2,
            Err(e) => r == Err::<(), LoanError>(e) && *final(borrower_account) == *old(
                borrower_account,
            ) && *final(loan_account) == *old(loan_account) && *final(pool_account) == *old(
                pool_account,
            ),
        }),
        final(borrower_account).wf(),
        final(loan_account).wf(),
        final(pool_account).wf(),
{
    if !borrower_account.is_signer {
        return Err(LoanError::MissingSignature);
    }
    if !pool_account.owner.same_as(program_id) {
        return Err(LoanError::WrongOwner);
    }
    let rec = match decode_record(&loan_account.data) {
        Ok(rec) => rec,
        Err(e) => {
            return Err(e);
        },
    };
    if !rec.is_initialized || rec.lender.is_sentinel() || rec.is_repaid {
        return Err(LoanError::InvalidState);
    }
    proof {
        assert((rec.amount as int) * (rec.interest_rate as int) <= (u64::MAX as int) * (
        u16::MAX as int)) by (nonlinear_arith)
            requires
                0 <= rec.amount as int <= u64::MAX as int,
                0 <= rec.interest_rate as int <= u16::MAX as int,
        ;
    }
    let wide: u128 = (rec.amount as u128) * (rec.interest_rate as u128);
    let interest_wide: u128 = wide / 10000;
    if interest_wide > u64::MAX as u128 {
        return Err(LoanError::ArithmeticOverflow);
    }
    let interest: u64 = interest_wide as u64;
    if rec.amount > u64::MAX - interest {
        return Err(LoanError::ArithmeticOverflow);
    }
    let total: u64 = rec.amount + interest;
    if borrower_account.lamports < total {
        return Err(LoanError::TransferFailed);
    }
    if pool_account.lamports > u64::MAX - total {
        return Err(LoanError::TransferFailed);
    }
    let rec2 = LoanAccount { is_repaid: true, ..rec };
    loan_account.data = encode_record(&rec2);
    borrower_account.lamports = borrower_account.lamports - total;
    pool_account.lamports = pool_account.lamports + total;
    Ok(())
}

/// Overwrites the record's credit score on behalf of the external scoring
/// process.
pub fn process_update_credit_score(
    _program_id: &Identity,
    admin_account: &Account,
    loan_account: &mut Account,
    new_score: u16,
) -> (r: Result<(), LoanError>)
    requires
        old(loan_account).wf(),
    ensures
        (match spec_update_credit_score(admin_account@, old(loan_account)@, new_score) {
            Ok(t) => r is Ok && final(loan_account)@ == t,
            Err(e) => r == Err::<(), LoanError>(e) && *final(loan_account) == *old(loan_account),
        }),
        final(loan_account).wf(),
{
    if !admin_account.is_signer {
        return Err(LoanError::MissingSignature);
    }
    let rec = match decode_record(&loan_account.data) {
        Ok(rec) => rec,
        Err(e) => {
            return Err(e);
        },
    };
    let rec2 = LoanAccount { credit_score: new_score, ..rec };
    loan_account.data = encode_record(&rec2);
    Ok(())
}

/// Moves `amount` from a signing funder into the program-owned pool.
pub fn process_fund_program(
    program_id: &Identity,
    funder_account: &mut Account,
    pool_account: &mut Account,
    amount: u64,
) -> (r: Result<(), LoanError>)
    requires
        program_id.wf(),
        old(funder_account).wf(),
        old(pool_account).wf(),
    ensures
        (match spec_fund_program(program_id@, old(funder_account)@, old(pool_account)@, amount) {
            Ok(t) => r is Ok && final(funder_account)@ == t.0 && final(pool_account)@ == t.1,
            Err(e) => r == Err::<(), LoanError>(e) && *final(funder_account) == *old(
                funder_account,
            ) && *final(pool_account) == *old(pool_account),
        }),
        final(funder_account).wf(),
        final(pool_account).wf(),
{
    if !funder_account.is_signer {
        return Err(LoanError::MissingSignature);
    }
    if !pool_account.owner.same_as(program_id) {
        return Err(LoanError::WrongOwner);
    }
    if funder_account.lamports < amount {
        return Err(LoanError::TransferFailed);
    }
    if pool_account.lamports > u64::MAX - amount {
        return Err(LoanError::TransferFailed);
    }
    funder_account.lamports = funder_account.lamports - amount;
    pool_account.lamports = pool_account.lamports + amount;
    Ok(())
}

/// Every successful Initialize leaves a Pending record: initialized, with
/// the requesting borrower, the sentinel lender, not repaid, the fixed
/// interest rate, and zeroed start and end times; the record account is
/// owned by this program.
pub proof fn lemma_initialize_makes_pending(
    program_id: Seq<u8>,
    borrower: AccountV,
    loan: AccountV,
    system: AccountV,
    amount: u64,
    term_days: u16,
    credit_score: u16,
    min_balance: u64,
)
    requires
        borrower.key.len() == IDENTITY_LEN,
        spec_initialize(
            program_id,
            borrower,
            loan,
            system,
            amount,
            term_days,
            credit_score,
            min_balance,
        ) is Ok,
    ensures
        ({
            let t = spec_initialize(
                program_id,
                borrower,
                loan,
                system,
                amount,
                term_days,
                credit_score,
                min_balance,
            )->Ok_0;
            let rec = spec_decode_record(t.1.data);
            &&& valid_record_encoding(t.1.data)
            &&& rec.is_initialized
            &&& rec.borrower == borrower.key
            &&& rec.lender == sentinel_id()
            &&& rec.amount == amount
            &&& rec.term_days == term_days
            &&& rec.interest_rate == INTEREST_RATE_BPS
            &&& rec.start_time == 0
            &&& rec.end_time == 0
            &&& !rec.is_repaid
            &&& rec.credit_score == credit_score
            &&& t.1.owner == program_id
            &&& t.0.lamports == borrower.lamports - min_balance
        }),
{
    let rec = LoanAccountV {
        is_initialized: true,
        borrower: borrower.key,
        lender: sentinel_id(),
        amount,
        term_days,
        interest_rate: INTEREST_RATE_BPS,
        start_time: 0,
        end_time: 0,
        is_repaid: false,
        credit_score,
    };
    lemma_decode_of_encode(rec);
}

/// Every successful ApproveLoan makes the record Active with the approver
/// as lender and a due date exactly `term_days` days after the start, and
/// moves exactly the principal from the pool to the borrower; principal,
/// term, rate, borrower and repayment flag are untouched.
pub proof fn lemma_approve_effect(
    program_id: Seq<u8>,
    lender: AccountV,
    loan: AccountV,
    borrower: AccountV,
    pool: AccountV,
    now: i64,
)
    requires
        lender.key.len() == IDENTITY_LEN,
        now_in_range(now),
        spec_approve(program_id, lender, loan, borrower, pool, now) is Ok,
    ensures
        ({
            let t = spec_approve(program_id, lender, loan, borrower, pool, now)->Ok_0;
            let rec = spec_decode_record(loan.data);
            let rec2 = spec_decode_record(t.0.data);
            &&& valid_record_encoding(t.0.data)
            &&& rec2.lender == lender.key
            &&& rec2.start_time == now
            &&& rec2.end_time - rec2.start_time == rec.term_days * 86400
            &&& rec2.is_initialized
            &&& rec2.borrower == rec.borrower
            &&& rec2.amount == rec.amount
            &&& rec2.term_days == rec.term_days
            &&& rec2.interest_rate == rec.interest_rate
            &&& rec2.is_repaid == rec.is_repaid
            &&& rec2.credit_score == rec.credit_score
            &&& t.1.lamports == borrower.lamports + rec.amount
            &&& t.2.lamports == pool.lamports - rec.amount
        }),
{
    let rec = spec_decode_record(loan.data);
    lemma_encode_of_decode(loan.data);
    let rec2 = LoanAccountV {
        lender: lender.key,
        start_time: now,
        end_time: (now + rec.term_days * (SECONDS_PER_DAY as int)) as i64,
        ..rec
    };
    lemma_decode_of_encode(rec2);
}

/// ApproveLoan is not repeatable: once a loan has been approved by a lender
/// whose identity is not the sentinel, any further ApproveLoan on the
/// resulting record fails with `InvalidState`, whoever signs it and
/// whatever the pool holds.
pub proof fn lemma_approve_twice_rejected(
    program_id: Seq<u8>,
    lender: AccountV,
    loan: AccountV,
    borrower: AccountV,
    pool: AccountV,
    now: i64,
    lender2: AccountV,
    borrower2: AccountV,
    pool2: AccountV,
    now2: i64,
)
    requires
        lender.key.len() == IDENTITY_LEN,
        lender.key != sentinel_id(),
        spec_approve(program_id, lender, loan, borrower, pool, now) is Ok,
        lender2.is_signer,
        pool2.owner == program_id,
    ensures
        ({
            let t = spec_approve(program_id, lender, loan, borrower, pool, now)->Ok_0;
            spec_approve(program_id, lender2, t.0, borrower2, pool2, now2) == Err::<
                (AccountV, AccountV, AccountV),
                LoanError,
            >(LoanError::InvalidState)
        }),
{
    let rec = spec_decode_record(loan.data);
    lemma_encode_of_decode(loan.data);
    let rec2 = LoanAccountV {
        lender: lender.key,
        start_time: now,
        end_time: (now + rec.term_days * (SECONDS_PER_DAY as int)) as i64,
        ..rec
    };
    lemma_decode_of_encode(rec2);
}

/// Every successful RepayLoan charges exactly principal plus
/// `floor(principal * rate / 10000)` interest from the borrower to the
/// pool, and settles the record without touching any other field.
pub proof fn lemma_repay_effect(
    program_id: Seq<u8>,
    borrower: AccountV,
    loan: AccountV,
    pool: AccountV,
)
    requires
        spec_repay(program_id, borrower, loan, pool) is Ok,
    ensures
        ({
            let t = spec_repay(program_id, borrower, loan, pool)->Ok_0;
            let rec = spec_decode_record(loan.data);
            let interest = spec_interest(rec.amount, rec.interest_rate);
            let rec2 = spec_decode_record(t.1.data);
            &&& valid_record_encoding(t.1.data)
            &&& rec2.is_repaid
            &&& rec2.is_initialized == rec.is_initialized
            &&& rec2.borrower == rec.borrower
            &&& rec2.lender == rec.lender
            &&& rec2.amount == rec.amount
            &&& rec2.term_days == rec.term_days
            &&& rec2.interest_rate == rec.interest_rate
            &&& rec2.start_time == rec.start_time
            &&& rec2.end_time == rec.end_time
            &&& rec2.credit_score == rec.credit_score
            &&& t.0.lamports == borrower.lamports - rec.amount - interest
            &&& t.2.lamports == pool.lamports + rec.amount + interest
        }),
{
    let rec = spec_decode_record(loan.data);
    lemma_encode_of_decode(loan.data);
    let rec2 = LoanAccountV { is_repaid: true, ..rec };
    lemma_decode_of_encode(rec2);
}

/// RepayLoan is not repeatable: once settled, any further RepayLoan on the
/// resulting record fails with `InvalidState`, whoever signs it.
pub proof fn lemma_repay_twice_rejected(
    program_id: Seq<u8>,
    borrower: AccountV,
    loan: AccountV,
    pool: AccountV,
    borrower2: AccountV,
    pool2: AccountV,
)
    requires
        spec_repay(program_id, borrower, loan, pool) is Ok,
        borrower2.is_signer,
        pool2.owner == program_id,
    ensures
        ({
            let t = spec_repay(program_id, borrower, loan, pool)->Ok_0;
            spec_repay(program_id, borrower2, t.1, pool2) == Err::<
                (AccountV, AccountV, AccountV),
                LoanError,
            >(LoanError::InvalidState)
        }),
{
    let rec = spec_decode_record(loan.data);
    lemma_encode_of_decode(loan.data);
    let rec2 = LoanAccountV { is_repaid: true, ..rec };
    lemma_decode_of_encode(rec2);
}

/// UpdateCreditScore touches nothing but the score: every other record
/// field — including the whole lifecycle state — is preserved, in any state.
pub proof fn lemma_update_credit_score_effect(admin: AccountV, loan: AccountV, new_score: u16)
    requires
        spec_update_credit_score(admin, loan, new_score) is Ok,
    ensures
        ({
            let t = spec_update_credit_score(admin, loan, new_score)->Ok_0;
            let rec = spec_decode_record(loan.data);
            let rec2 = spec_decode_record(t.data);
            &&& valid_record_encoding(t.data)
            &&& rec2.credit_score == new_score
            &&& rec2.is_initialized == rec.is_initialized
            &&& rec2.borrower == rec.borrower
            &&& rec2.lender == rec.lender
            &&& rec2.amount == rec.amount
            &&& rec2.term_days == rec.term_days
            &&& rec2.interest_rate == rec.interest_rate
            &&& rec2.start_time == rec.start_time
            &&& rec2.end_time == rec.end_time
            &&& rec2.is_repaid == rec.is_repaid
            &&& t.lamports == loan.lamports
            &&& t.owner == loan.owner
        }),
{
    let rec = spec_decode_record(loan.data);
    lemma_encode_of_decode(loan.data);
    let rec2 = LoanAccountV { credit_score: new_score, ..rec };
    lemma_decode_of_encode(rec2);
}

/// How many accounts each operation pulls from the front of the list.
pub open spec fn spec_accounts_needed(i: LoanInstruction) -> int {
    match i {
        LoanInstruction::Initialize { .. } => 3,
        LoanInstruction::ApproveLoan {  } => 4,
        LoanInstruction::RepayLoan {  } => 3,
        LoanInstruction::UpdateCreditScore { .. } => 2,
        LoanInstruction::FundProgram { .. } => 2,
    }
}

/// Every operation demands its first account's signature: a well-formed
/// request whose first account did not sign fails with `MissingSignature`
/// (and, by `process_instruction`'s contract, leaves every account
/// unchanged).
pub proof fn lemma_missing_signer_rejected(
    program_id: Seq<u8>,
    accounts: Seq<AccountV>,
    instruction_data: Seq<u8>,
    now: i64,
    min_balance: u64,
)
    requires
        valid_instruction_encoding(instruction_data),
        accounts.len() >= spec_accounts_needed(spec_decode_instruction(instruction_data)),
        !accounts[0].is_signer,
    ensures
        spec_process(program_id, accounts, instruction_data, now, min_balance) == Err::<
            Seq<AccountV>,
            LoanError,
        >(LoanError::MissingSignature),
{
}

/// What one whole request does: decode the payload, pull the operation's
/// accounts from the front of the list in its fixed order, and run the
/// handler. On success the touched accounts are replaced; on any error the
/// list is untouched (the host commits a request all-or-nothing).
pub open spec fn spec_process(
    program_id: Seq<u8>,
    accounts: Seq<AccountV>,
    instruction_data: Seq<u8>,
    now: i64,
    min_balance: u64,
) -> Result<Seq<AccountV>, LoanError> {
    if !valid_instruction_encoding(instruction_data) {
        Err(LoanError::MalformedInstruction)
    } else {
        match spec_decode_instruction(instruction_data) {
            LoanInstruction::Initialize { amount, term_days, credit_score } => {
                if accounts.len() < 3 {
                    Err(LoanError::MissingAccount)
                } else {
                    match spec_initialize(
                        program_id,
                        accounts[0],
                        accounts[1],
                        accounts[2],
                        amount,
                        term_days,
                        credit_score,
                        min_balance,
                    ) {
                        Ok(t) => Ok(accounts.update(0, t.0).update(1, t.1)),
                        Err(e) => Err(e),
                    }
                }
            },
            LoanInstruction::ApproveLoan {  } => {
                if accounts.len() < 4 {
                    Err(LoanError::MissingAccount)
                } else {
                    match spec_approve(
                        program_id,
                        accounts[0],
                        accounts[1],
                        accounts[2],
                        accounts[3],
                        now,
                    ) {
                        Ok(t) => Ok(accounts.update(1, t.0).update(2, t.1).update(3, t.2)),
                        Err(e) => Err(e),
                    }
                }
            },
            LoanInstruction::RepayLoan {  } => {
                if accounts.len() < 3 {
                    Err(LoanError::MissingAccount)
                } else {
                    match spec_repay(program_id, accounts[0], accounts[1], accounts[2]) {
                        Ok(t) => Ok(accounts.update(0, t.0).update(1, t.1).update(2, t.2)),
                        Err(e) => Err(e),
                    }
                }
            },
            LoanInstruction::UpdateCreditScore { new_score } => {
                if accounts.len() < 2 {
                    Err(LoanError::MissingAccount)
                } else {
                    match spec_update_credit_score(accounts[0], accounts[1], new_score) {
                        Ok(t) => Ok(accounts.update(1, t)),
                        Err(e) => Err(e),
                    }
                }
            },
            LoanInstruction::FundProgram { amount } => {
                if accounts.len() < 2 {
                    Err(LoanError::MissingAccount)
                } else {
                    match spec_fund_program(program_id, accounts[0], accounts[1], amount) {
                        Ok(t) => Ok(accounts.update(0, t.0).update(1, t.1)),
                        Err(e) => Err(e),
                    }
                }
            },
        }
    }
}

/// The dispatcher: one request against the ledger. The account order per
/// operation is fixed: Initialize `[borrower, record, system]`, ApproveLoan
/// `[lender, record, borrower, pool]`, RepayLoan `[borrower, record, pool]`,
/// UpdateCreditScore `[admin, record]`, FundProgram `[funder, pool]`.
/// `now` is the host clock reading and `min_balance` the host's minimum
/// balance for a record-sized account; extra accounts are ignored.
#[verifier::rlimit(100)]
pub fn process_instruction(
    program_id: &Identity,
    accounts: &mut Vec<Account>,
    instruction_data: &Vec<u8>,
    now: i64,
    min_balance: u64,
) -> (r: Result<(), LoanError>)
    requires
        program_id.wf(),
        now_in_range(now),
        forall|i: int| 0 <= i < old(accounts)@.len() ==> (#[trigger] old(accounts)@[i]).wf(),
    ensures
        (match spec_process(
            program_id@,
            views_of(old(accounts)@),
            instruction_data@,
            now,
            min_balance,
        ) {
            Ok(vs) => r is Ok && views_of(final(accounts)@) == vs,
            Err(e) => r == Err::<(), LoanError>(e) && final(accounts)@ == old(accounts)@,
        }),
{
    let ghost s0 = accounts@;
    let ins = match decode_instruction(instruction_data) {
        Ok(i) => i,
        Err(e) => {
            return Err(e);
        },
    };
    match ins {
        LoanInstruction::Initialize { amount, term_days, credit_score } => {
            if accounts.len() < 3 {
                return Err(LoanError::MissingAccount);
            }
            let mut borrower = accounts.remove(0);
            let mut loan = accounts.remove(0);
            let system = accounts.remove(0);
            let r = process_initialize_loan(
                program_id,
                &mut borrower,
                &mut loan,
                &system,
                amount,
                term_days,
                credit_score,
                min_balance,
            );
            let ghost bs = borrower;
            let ghost ls = loan;
            let ghost ss = system;
            accounts.insert(0, system);
            accounts.insert(0, loan);
            accounts.insert(0, borrower);
            proof {
                assert(accounts@ =~= seq![bs, ls, ss] + s0.subrange(3, s0.len() as int));
                if r is Ok {
                    assert(views_of(accounts@) =~= views_of(s0).update(0, bs@).update(1, ls@));
                } else {
                    assert(accounts@ =~= s0);
                }
            }
            r
        },
        LoanInstruction::ApproveLoan {  } => {
            if accounts.len() < 4 {
                return Err(LoanError::MissingAccount);
            }
            let lender = accounts.remove(0);
            let mut loan = accounts.remove(0);
            let mut borrower = accounts.remove(0);
            let mut pool = accounts.remove(0);
            let r = process_approve_loan(
                program_id,
                &lender,
                &mut loan,
                &mut borrower,
                &mut pool,
                now,
            );
            let ghost les = lender;
            let ghost ls = loan;
            let ghost bs = borrower;
            let ghost ps = pool;
            accounts.insert(0, pool);
            accounts.insert(0, borrower);
            accounts.insert(0, loan);
            accounts.insert(0, lender);
            proof {
                assert(accounts@ =~= seq![les, ls, bs, ps] + s0.subrange(4, s0.len() as int));
                if r is Ok {
                    assert(views_of(accounts@) =~= views_of(s0).update(1, ls@).update(
                        2,
                        bs@,
                    ).update(3, ps@));
                } else {
                    assert(accounts@ =~= s0);
                }
            }
            r
        },
        LoanInstruction::RepayLoan {  } => {
            if accounts.len() < 3 {
                return Err(LoanError::MissingAccount);
            }
            let mut borrower = accounts.remove(0);
            let mut loan = accounts.remove(0);
            let mut pool = accounts.remove(0);
            let r = process_repay_loan(program_id, &mut borrower, &mut loan, &mut pool);
            let ghost bs = borrower;
            let ghost ls = loan;
            let ghost ps = pool;
            accounts.insert(0, pool);
            accounts.insert(0, loan);
            accounts.insert(0, borrower);
            proof {
                assert(accounts@ =~= seq![bs, ls, ps] + s0.subrange(3, s0.len() as int));
                if r is Ok {
                    assert(views_of(accounts@) =~= views_of(s0).update(0, bs@).update(
                        1,
                        ls@,
                    ).update(2, ps@));
                } else {
                    assert(accounts@ =~= s0);
                }
            }
            r
        },
        LoanInstruction::UpdateCreditScore { new_score } => {
            if accounts.len() < 2 {
                return Err(LoanError::MissingAccount);
            }
            let admin = accounts.remove(0);
            let mut loan = accounts.remove(0);
            let r = process_update_credit_score(program_id, &admin, &mut loan, new_score);
            let ghost ads = admin;
            let ghost ls = loan;
            accounts.insert(0, loan);
            accounts.insert(0, admin);
            proof {
                assert(accounts@ =~= seq![ads, ls] + s0.subrange(2, s0.len() as int));
                if r is Ok {
                    assert(views_of(accounts@) =~= views_of(s0).update(1, ls@));
                } else {
                    assert(accounts@ =~= s0);
                }
            }
            r
        },
        LoanInstruction::FundProgram { amount } => {
            if accounts.len() < 2 {
                return Err(LoanError::MissingAccount);
            }
            let mut funder = accounts.remove(0);
            let mut pool = accounts.remove(0);
            let r = process_fund_program(program_id, &mut funder, &mut pool, amount);
            let ghost fs = funder;
            let ghost ps = pool;
            accounts.insert(0, pool);
            accounts.insert(0, funder);
            proof {
                assert(accounts@ =~= seq![fs, ps] + s0.subrange(2, s0.len() as int));
                if r is Ok {
                    assert(views_of(accounts@) =~= views_of(s0).update(0, fs@).update(1, ps@));
                } else {
                    assert(accounts@ =~= s0);
                }
            }
            r
        },
    }
}

} // verus!
