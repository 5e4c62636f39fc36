use loan_program::codec::{decode_record, RECORD_LEN};
use loan_program::identity::Identity;
use loan_program::instruction::{encode_instruction, LoanInstruction};
use loan_program::ledger::Account;
use loan_program::lifecycle::{
    process_approve_loan, process_fund_program, process_initialize_loan, process_instruction,
    process_repay_loan, process_update_credit_score, INTEREST_RATE_BPS,
};
use loan_program::LoanError;

fn key(tag: u8) -> Identity {
    let mut bytes = vec![0u8; 32];
    bytes[0] = tag;
    Identity { bytes }
}

fn program_id() -> Identity {
    key(0xAA)
}

fn account(k: Identity, is_signer: bool, owner: Identity, lamports: u64) -> Account {
    Account { key: k, is_signer, owner, lamports, data: Vec::new() }
}

fn fresh_loan_account() -> Account {
    account(key(3), false, Identity::sentinel(), 0)
}

fn system_account() -> Account {
    account(Identity::sentinel(), false, Identity::sentinel(), 0)
}

/// A borrower, a fresh record account and the system account, run through
/// Initialize successfully.
fn initialized(
    amount: u64,
    term_days: u16,
    credit_score: u16,
) -> (Account, Account) {
    let mut borrower = account(key(2), true, Identity::sentinel(), 10_000);
    let mut loan = fresh_loan_account();
    let system = system_account();
    let r = process_initialize_loan(
        &program_id(),
        &mut borrower,
        &mut loan,
        &system,
        amount,
        term_days,
        credit_score,
        1_000,
    );
    assert_eq!(r, Ok(()));
    (borrower, loan)
}

#[test]
fn initialize_creates_pending_record() {
    let (borrower, loan) = initialized(5_000_000, 30, 700);
    assert_eq!(borrower.lamports, 9_000);
    assert_eq!(loan.lamports, 1_000);
    assert_eq!(loan.owner, program_id());
    let rec = decode_record(&loan.data).unwrap();
    assert!(rec.is_initialized);
    assert_eq!(rec.borrower, key(2));
    assert_eq!(rec.lender, Identity::sentinel());
    assert_eq!(rec.amount, 5_000_000);
    assert_eq!(rec.term_days, 30);
    assert_eq!(rec.interest_rate, INTEREST_RATE_BPS);
    assert_eq!(rec.start_time, 0);
    assert_eq!(rec.end_time, 0);
    assert!(!rec.is_repaid);
    assert_eq!(rec.credit_score, 700);
}

#[test]
fn initialize_requires_borrower_signature() {
    let mut borrower = account(key(2), false, Identity::sentinel(), 10_000);
    let mut loan = fresh_loan_account();
    let system = system_account();
    let r = process_initialize_loan(
        &program_id(),
        &mut borrower,
        &mut loan,
        &system,
        5,
        30,
        700,
        1_000,
    );
    assert_eq!(r, Err(LoanError::MissingSignature));
    assert_eq!(borrower.lamports, 10_000);
    assert!(loan.data.is_empty());
}

#[test]
fn initialize_rejects_wrong_system_account() {
    let mut borrower = account(key(2), true, Identity::sentinel(), 10_000);
    let mut loan = fresh_loan_account();
    let bad_system = account(key(9), false, Identity::sentinel(), 0);
    let r = process_initialize_loan(
        &program_id(),
        &mut borrower,
        &mut loan,
        &bad_system,
        5,
        30,
        700,
        1_000,
    );
    assert_eq!(r, Err(LoanError::WrongOwner));
}

#[test]
fn initialize_fails_allocation_when_borrower_underfunded() {
    let mut borrower = account(key(2), true, Identity::sentinel(), 100);
    let mut loan = fresh_loan_account();
    let system = system_account();
    let r = process_initialize_loan(
        &program_id(),
        &mut borrower,
        &mut loan,
        &system,
        5,
        30,
        700,
        1_000,
    );
    assert_eq!(r, Err(LoanError::AllocationFailed));
}

#[test]
fn initialize_fails_allocation_on_used_account() {
    let mut borrower = account(key(2), true, Identity::sentinel(), 10_000);
    let mut loan = fresh_loan_account();
    loan.data = vec![0u8; RECORD_LEN];
    let system = system_account();
    let r = process_initialize_loan(
        &program_id(),
        &mut borrower,
        &mut loan,
        &system,
        5,
        30,
        700,
        1_000,
    );
    assert_eq!(r, Err(LoanError::AllocationFailed));
}

fn approved(
    amount: u64,
    term_days: u16,
    now: i64,
) -> (Account, Account, Account, Account) {
    let (mut borrower, mut loan) = initialized(amount, term_days, 700);
    let lender = account(key(4), true, Identity::sentinel(), 0);
    let mut pool = account(key(5), false, program_id(), amount.saturating_add(1_000_000));
    let r = process_approve_loan(
        &program_id(),
        &lender,
        &mut loan,
        &mut borrower,
        &mut pool,
        now,
    );
    assert_eq!(r, Ok(()));
    (lender, loan, borrower, pool)
}

#[test]
fn approve_sets_lender_and_window_and_moves_principal() {
    let now = 1_700_000_000;
    let (lender, loan, borrower, pool) = approved(5_000_000, 30, now);
    let rec = decode_record(&loan.data).unwrap();
    assert_eq!(rec.lender, lender.key);
    assert_eq!(rec.start_time, now);
    assert_eq!(rec.end_time, now + 30 * 86400);
    assert_eq!(rec.end_time - rec.start_time, 30 * 86400);
    assert!(!rec.is_repaid);
    // The borrower paid 1_000 rent at initialization, then received the
    // 5_000_000 principal; the pool held 6_000_000 and lost the principal.
    assert_eq!(borrower.lamports, 10_000 - 1_000 + 5_000_000);
    assert_eq!(pool.lamports, 6_000_000 - 5_000_000);
}

#[test]
fn approve_requires_lender_signature() {
    let (mut borrower, mut loan) = initialized(5_000_000, 30, 700);
    let lender = account(key(4), false, Identity::sentinel(), 0);
    let mut pool = account(key(5), false, program_id(), 6_000_000);
    let loan_data_before = loan.data.clone();
    let r = process_approve_loan(
        &program_id(),
        &lender,
        &mut loan,
        &mut borrower,
        &mut pool,
        1_700_000_000,
    );
    assert_eq!(r, Err(LoanError::MissingSignature));
    assert_eq!(loan.data, loan_data_before);
    assert_eq!(pool.lamports, 6_000_000);
    assert_eq!(borrower.lamports, 9_000);
}

#[test]
fn approve_requires_program_owned_pool() {
    let (mut borrower, mut loan) = initialized(5_000_000, 30, 700);
    let lender = account(key(4), true, Identity::sentinel(), 0);
    let mut pool = account(key(5), false, key(0xBB), 6_000_000);
    let r = process_approve_loan(
        &program_id(),
        &lender,
        &mut loan,
        &mut borrower,
        &mut pool,
        1_700_000_000,
    );
    assert_eq!(r, Err(LoanError::WrongOwner));
}

#[test]
fn approve_rejects_insufficient_pool_funds() {
    let (mut borrower, mut loan) = initialized(5_000_000, 30, 700);
    let lender = account(key(4), true, Identity::sentinel(), 0);
    let mut pool = account(key(5), false, program_id(), 4_999_999);
    let r = process_approve_loan(
        &program_id(),
        &lender,
        &mut loan,
        &mut borrower,
        &mut pool,
        1_700_000_000,
    );
    assert_eq!(r, Err(LoanError::InsufficientFunds));
}

#[test]
fn approve_twice_fails_with_invalid_state() {
    let now = 1_700_000_000;
    let (_, mut loan, mut borrower, mut pool) = approved(5_000_000, 30, now);
    let lender2 = account(key(6), true, Identity::sentinel(), 0);
    let r = process_approve_loan(
        &program_id(),
        &lender2,
        &mut loan,
        &mut borrower,
        &mut pool,
        now + 50,
    );
    assert_eq!(r, Err(LoanError::InvalidState));
}

#[test]
fn approve_rejects_uninitialized_record() {
    let mut loan = fresh_loan_account();
    loan.data = vec![0u8; RECORD_LEN];
    let lender = account(key(4), true, Identity::sentinel(), 0);
    let mut borrower = account(key(2), false, Identity::sentinel(), 0);
    let mut pool = account(key(5), false, program_id(), 6_000_000);
    let r = process_approve_loan(
        &program_id(),
        &lender,
        &mut loan,
        &mut borrower,
        &mut pool,
        1_700_000_000,
    );
    assert_eq!(r, Err(LoanError::InvalidState));
}

#[test]
fn repay_charges_principal_plus_interest() {
    let now = 1_700_000_000;
    let (_, mut loan, mut borrower, mut pool) = approved(1_000_000_000, 30, now);
    borrower.is_signer = true;
    // Top the borrower up so the balance covers principal plus interest.
    borrower.lamports = 2_000_000_000;
    let borrower_before = borrower.lamports;
    let pool_before = pool.lamports;
    let r = process_repay_loan(&program_id(), &mut borrower, &mut loan, &mut pool);
    assert_eq!(r, Ok(()));
    // amount = 1_000_000_000 at 500 bps: interest 50_000_000, total 1_050_000_000.
    assert_eq!(borrower_before - borrower.lamports, 1_050_000_000);
    assert_eq!(pool.lamports - pool_before, 1_050_000_000);
    let rec = decode_record(&loan.data).unwrap();
    assert!(rec.is_repaid);
}

#[test]
fn repay_requires_borrower_signature() {
    let now = 1_700_000_000;
    let (_, mut loan, mut borrower, mut pool) = approved(1_000_000_000, 30, now);
    borrower.is_signer = false;
    let r = process_repay_loan(&program_id(), &mut borrower, &mut loan, &mut pool);
    assert_eq!(r, Err(LoanError::MissingSignature));
}

#[test]
fn repay_rejects_unapproved_loan() {
    let (mut borrower, mut loan) = initialized(1_000_000, 30, 700);
    let mut pool = account(key(5), false, program_id(), 0);
    let r = process_repay_loan(&program_id(), &mut borrower, &mut loan, &mut pool);
    assert_eq!(r, Err(LoanError::InvalidState));
}

#[test]
fn repay_twice_fails_with_invalid_state() {
    let now = 1_700_000_000;
    let (_, mut loan, mut borrower, mut pool) = approved(1_000_000, 30, now);
    borrower.is_signer = true;
    borrower.lamports = 2_000_000;
    assert_eq!(
        process_repay_loan(&program_id(), &mut borrower, &mut loan, &mut pool),
        Ok(())
    );
    let r = process_repay_loan(&program_id(), &mut borrower, &mut loan, &mut pool);
    assert_eq!(r, Err(LoanError::InvalidState));
}

#[test]
fn repay_near_max_amount_overflows() {
    let now = 1_700_000_000;
    // Approve a loan whose principal is close to u64::MAX; adding 5%
    // interest cannot fit a u64, so repayment must fail, not wrap.
    let mut borrower = account(key(2), true, Identity::sentinel(), 5);
    let mut loan = fresh_loan_account();
    let system = system_account();
    assert_eq!(
        process_initialize_loan(
            &program_id(),
            &mut borrower,
            &mut loan,
            &system,
            u64::MAX - 5,
            30,
            700,
            0,
        ),
        Ok(())
    );
    let lender = account(key(4), true, Identity::sentinel(), 0);
    let mut pool = account(key(5), false, program_id(), u64::MAX);
    assert_eq!(
        process_approve_loan(&program_id(), &lender, &mut loan, &mut borrower, &mut pool, now),
        Ok(())
    );
    let r = process_repay_loan(&program_id(), &mut borrower, &mut loan, &mut pool);
    assert_eq!(r, Err(LoanError::ArithmeticOverflow));
}

#[test]
fn repay_fails_transfer_when_borrower_cannot_pay() {
    let now = 1_700_000_000;
    let (_, mut loan, mut borrower, mut pool) = approved(1_000_000, 30, now);
    borrower.is_signer = true;
    borrower.lamports = 10;
    let r = process_repay_loan(&program_id(), &mut borrower, &mut loan, &mut pool);
    assert_eq!(r, Err(LoanError::TransferFailed));
}

#[test]
fn update_credit_score_overwrites_score_in_any_state() {
    let (_, mut loan) = initialized(1_000_000, 30, 700);
    let admin = account(key(7), true, Identity::sentinel(), 0);
    let r = process_update_credit_score(&program_id(), &admin, &mut loan, 810);
    assert_eq!(r, Ok(()));
    let rec = decode_record(&loan.data).unwrap();
    assert_eq!(rec.credit_score, 810);
    assert!(rec.is_initialized);
    assert_eq!(rec.amount, 1_000_000);
}

#[test]
fn update_credit_score_requires_signature() {
    let (_, mut loan) = initialized(1_000_000, 30, 700);
    let admin = account(key(7), false, Identity::sentinel(), 0);
    let before = loan.data.clone();
    let r = process_update_credit_score(&program_id(), &admin, &mut loan, 810);
    assert_eq!(r, Err(LoanError::MissingSignature));
    assert_eq!(loan.data, before);
}

#[test]
fn update_credit_score_rejects_corrupt_record() {
    let admin = account(key(7), true, Identity::sentinel(), 0);
    let mut loan = fresh_loan_account();
    loan.data = vec![0u8; RECORD_LEN - 1];
    let r = process_update_credit_score(&program_id(), &admin, &mut loan, 810);
    assert_eq!(r, Err(LoanError::CorruptRecord));
}

#[test]
fn fund_program_moves_funds_into_pool() {
    let mut funder = account(key(8), true, Identity::sentinel(), 500_000);
    let mut pool = account(key(5), false, program_id(), 1_000);
    let r = process_fund_program(&program_id(), &mut funder, &mut pool, 400_000);
    assert_eq!(r, Ok(()));
    assert_eq!(funder.lamports, 100_000);
    assert_eq!(pool.lamports, 401_000);
}

#[test]
fn fund_program_requires_signature_and_ownership() {
    let mut funder = account(key(8), false, Identity::sentinel(), 500_000);
    let mut pool = account(key(5), false, program_id(), 1_000);
    assert_eq!(
        process_fund_program(&program_id(), &mut funder, &mut pool, 400_000),
        Err(LoanError::MissingSignature)
    );
    funder.is_signer = true;
    pool.owner = key(0xBB);
    assert_eq!(
        process_fund_program(&program_id(), &mut funder, &mut pool, 400_000),
        Err(LoanError::WrongOwner)
    );
}

#[test]
fn fund_program_fails_transfer_when_underfunded() {
    let mut funder = account(key(8), true, Identity::sentinel(), 100);
    let mut pool = account(key(5), false, program_id(), 1_000);
    let r = process_fund_program(&program_id(), &mut funder, &mut pool, 400_000);
    assert_eq!(r, Err(LoanError::TransferFailed));
}

#[test]
fn dispatcher_runs_a_full_loan_lifecycle() {
    let pid = program_id();
    let now = 1_700_000_000;
    let min_balance = 1_000;

    // Fund the pool.
    let funder = account(key(8), true, Identity::sentinel(), 10_000_000);
    let pool = account(key(5), false, pid.clone(), 0);
    let mut accounts = vec![funder, pool];
    let payload = encode_instruction(&LoanInstruction::FundProgram { amount: 6_000_000 });
    assert_eq!(
        process_instruction(&pid, &mut accounts, &payload, now, min_balance),
        Ok(())
    );
    assert_eq!(accounts[1].lamports, 6_000_000);
    let pool = accounts.pop().unwrap();

    // Initialize the loan.
    let borrower = account(key(2), true, Identity::sentinel(), 10_000);
    let loan = fresh_loan_account();
    let mut accounts = vec![borrower, loan, system_account()];
    let payload = encode_instruction(&LoanInstruction::Initialize {
        amount: 5_000_000,
        term_days: 30,
        credit_score: 700,
    });
    assert_eq!(
        process_instruction(&pid, &mut accounts, &payload, now, min_balance),
        Ok(())
    );
    let system = accounts.pop().unwrap();
    let loan = accounts.pop().unwrap();
    let mut borrower = accounts.pop().unwrap();

    // Approve it.
    let lender = account(key(4), true, Identity::sentinel(), 0);
    let mut accounts = vec![lender, loan, borrower, pool];
    let payload = encode_instruction(&LoanInstruction::ApproveLoan {});
    assert_eq!(
        process_instruction(&pid, &mut accounts, &payload, now, min_balance),
        Ok(())
    );
    assert_eq!(accounts[2].lamports, 9_000 + 5_000_000);
    assert_eq!(accounts[3].lamports, 1_000_000);
    let pool = accounts.pop().unwrap();
    borrower = accounts.remove(2);
    let loan = accounts.remove(1);

    // Update the credit score.
    let admin = account(key(7), true, Identity::sentinel(), 0);
    let mut accounts = vec![admin, loan];
    let payload = encode_instruction(&LoanInstruction::UpdateCreditScore { new_score: 650 });
    assert_eq!(
        process_instruction(&pid, &mut accounts, &payload, now, min_balance),
        Ok(())
    );
    let loan = accounts.pop().unwrap();

    // Repay it.
    borrower.is_signer = true;
    // Top the borrower up to cover principal plus interest.
    borrower.lamports = 6_000_000;
    let mut accounts = vec![borrower, loan, pool];
    let payload = encode_instruction(&LoanInstruction::RepayLoan {});
    assert_eq!(
        process_instruction(&pid, &mut accounts, &payload, now, min_balance),
        Ok(())
    );
    // 5_000_000 principal + 250_000 interest at 5%.
    assert_eq!(accounts[2].lamports, 1_000_000 + 5_250_000);
    let rec = decode_record(&accounts[1].data).unwrap();
    assert!(rec.is_repaid);
    assert_eq!(rec.credit_score, 650);
    assert_eq!(rec.lender, key(4));
    let _ = system;
}

#[test]
fn dispatcher_rejects_malformed_payloads() {
    let pid = program_id();
    let mut accounts: Vec<Account> = Vec::new();
    assert_eq!(
        process_instruction(&pid, &mut accounts, &Vec::new(), 0, 0),
        Err(LoanError::MalformedInstruction)
    );
    assert_eq!(
        process_instruction(&pid, &mut accounts, &vec![9u8], 0, 0),
        Err(LoanError::MalformedInstruction)
    );
    // A truncated Initialize and one with trailing bytes.
    assert_eq!(
        process_instruction(&pid, &mut accounts, &vec![0u8; 12], 0, 0),
        Err(LoanError::MalformedInstruction)
    );
    assert_eq!(
        process_instruction(&pid, &mut accounts, &vec![0u8; 14], 0, 0),
        Err(LoanError::MalformedInstruction)
    );
}

#[test]
fn dispatcher_rejects_short_account_lists() {
    let pid = program_id();
    let borrower = account(key(2), true, Identity::sentinel(), 10_000);
    let loan = fresh_loan_account();
    let mut accounts = vec![borrower, loan];
    let payload = encode_instruction(&LoanInstruction::Initialize {
        amount: 5,
        term_days: 30,
        credit_score: 700,
    });
    assert_eq!(
        process_instruction(&pid, &mut accounts, &payload, 0, 0),
        Err(LoanError::MissingAccount)
    );
}

#[test]
fn dispatcher_missing_signer_leaves_accounts_unchanged() {
    let pid = program_id();
    let funder = account(key(8), false, Identity::sentinel(), 500_000);
    let pool = account(key(5), false, pid.clone(), 1_000);
    let mut accounts = vec![funder, pool];
    let payload = encode_instruction(&LoanInstruction::FundProgram { amount: 400_000 });
    assert_eq!(
        process_instruction(&pid, &mut accounts, &payload, 0, 0),
        Err(LoanError::MissingSignature)
    );
    assert_eq!(accounts[0].lamports, 500_000);
    assert_eq!(accounts[0].key, key(8));
    assert_eq!(accounts[1].lamports, 1_000);
    assert!(accounts[0].data.is_empty() && accounts[1].data.is_empty());
}
