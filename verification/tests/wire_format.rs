use loan_program::codec::{decode_record, encode_record, RECORD_LEN};
use loan_program::identity::Identity;
use loan_program::instruction::{decode_instruction, encode_instruction, LoanInstruction};
use loan_program::record::LoanAccount;
use loan_program::LoanError;

fn key(tag: u8) -> Identity {
    let mut bytes = vec![0u8; 32];
    bytes[0] = tag;
    Identity { bytes }
}

fn sample_record() -> LoanAccount {
    LoanAccount {
        is_initialized: true,
        borrower: key(2),
        lender: key(4),
        amount: 0x0102030405060708,
        term_days: 365,
        interest_rate: 500,
        start_time: 1_700_000_000,
        end_time: 1_700_000_000 + 365 * 86400,
        is_repaid: false,
        credit_score: 700,
    }
}

#[test]
fn record_roundtrips_through_bytes() {
    let rec = sample_record();
    let bytes = encode_record(&rec);
    assert_eq!(bytes.len(), RECORD_LEN);
    let back = decode_record(&bytes).unwrap();
    assert_eq!(back.is_initialized, rec.is_initialized);
    assert_eq!(back.borrower, rec.borrower);
    assert_eq!(back.lender, rec.lender);
    assert_eq!(back.amount, rec.amount);
    assert_eq!(back.term_days, rec.term_days);
    assert_eq!(back.interest_rate, rec.interest_rate);
    assert_eq!(back.start_time, rec.start_time);
    assert_eq!(back.end_time, rec.end_time);
    assert_eq!(back.is_repaid, rec.is_repaid);
    assert_eq!(back.credit_score, rec.credit_score);
    // And the bytes themselves survive the reverse trip.
    let again = encode_record(&back);
    assert_eq!(again, bytes);
}

#[test]
fn record_layout_is_pinned() {
    let rec = sample_record();
    let bytes = encode_record(&rec);
    // Flag, then the two 32-byte identities.
    assert_eq!(bytes[0], 1);
    assert_eq!(bytes[1], 2);
    assert_eq!(&bytes[2..33], &[0u8; 31][..]);
    assert_eq!(bytes[33], 4);
    // amount at 65..73, little endian.
    assert_eq!(&bytes[65..73], &[8, 7, 6, 5, 4, 3, 2, 1]);
    // term_days = 365 = 0x016D at 73..75.
    assert_eq!(&bytes[73..75], &[0x6D, 0x01]);
    // interest_rate = 500 = 0x01F4 at 75..77.
    assert_eq!(&bytes[75..77], &[0xF4, 0x01]);
    // start_time = 1_700_000_000 = 0x6553_F100 at 77..85.
    assert_eq!(&bytes[77..85], &[0x00, 0xF1, 0x53, 0x65, 0, 0, 0, 0]);
    // repaid flag and credit_score = 700 = 0x02BC.
    assert_eq!(bytes[93], 0);
    assert_eq!(&bytes[94..96], &[0xBC, 0x02]);
}

#[test]
fn negative_time_roundtrips() {
    let mut rec = sample_record();
    rec.start_time = -1;
    rec.end_time = i64::MIN;
    let bytes = encode_record(&rec);
    let back = decode_record(&bytes).unwrap();
    assert_eq!(back.start_time, -1);
    assert_eq!(back.end_time, i64::MIN);
}

#[test]
fn truncated_record_fails_to_decode() {
    let rec = sample_record();
    let bytes = encode_record(&rec);
    for cut in [0usize, 1, 50, RECORD_LEN - 1] {
        let short = bytes[..cut].to_vec();
        assert_eq!(decode_record(&short), Err(LoanError::CorruptRecord));
    }
    let mut long = bytes.clone();
    long.push(0);
    assert_eq!(decode_record(&long), Err(LoanError::CorruptRecord));
}

#[test]
fn bad_boolean_bytes_fail_to_decode() {
    let rec = sample_record();
    let bytes = encode_record(&rec);
    let mut bad = bytes.clone();
    bad[0] = 2;
    assert_eq!(decode_record(&bad), Err(LoanError::CorruptRecord));
    let mut bad = bytes;
    bad[93] = 0xFF;
    assert_eq!(decode_record(&bad), Err(LoanError::CorruptRecord));
}

#[test]
fn instructions_roundtrip_through_bytes() {
    let cases = vec![
        LoanInstruction::Initialize { amount: 123_456_789, term_days: 90, credit_score: 640 },
        LoanInstruction::ApproveLoan {},
        LoanInstruction::RepayLoan {},
        LoanInstruction::UpdateCreditScore { new_score: 720 },
        LoanInstruction::FundProgram { amount: u64::MAX },
    ];
    for ins in cases {
        let bytes = encode_instruction(&ins);
        assert_eq!(decode_instruction(&bytes), Ok(ins));
    }
}

#[test]
fn instruction_layout_is_pinned() {
    let bytes = encode_instruction(&LoanInstruction::Initialize {
        amount: 0x0102030405060708,
        term_days: 365,
        credit_score: 700,
    });
    assert_eq!(
        bytes,
        vec![0, 8, 7, 6, 5, 4, 3, 2, 1, 0x6D, 0x01, 0xBC, 0x02]
    );
    assert_eq!(encode_instruction(&LoanInstruction::ApproveLoan {}), vec![1]);
    assert_eq!(encode_instruction(&LoanInstruction::RepayLoan {}), vec![2]);
    assert_eq!(
        encode_instruction(&LoanInstruction::UpdateCreditScore { new_score: 720 }),
        vec![3, 0xD0, 0x02]
    );
    assert_eq!(
        encode_instruction(&LoanInstruction::FundProgram { amount: 9 }),
        vec![4, 9, 0, 0, 0, 0, 0, 0, 0]
    );
}

#[test]
fn malformed_instructions_fail_to_decode() {
    // Empty, unknown tag, truncated, trailing.
    assert_eq!(decode_instruction(&Vec::new()), Err(LoanError::MalformedInstruction));
    assert_eq!(decode_instruction(&vec![5u8]), Err(LoanError::MalformedInstruction));
    assert_eq!(decode_instruction(&vec![0u8; 12]), Err(LoanError::MalformedInstruction));
    assert_eq!(decode_instruction(&vec![0u8; 14]), Err(LoanError::MalformedInstruction));
    assert_eq!(decode_instruction(&vec![1u8, 0]), Err(LoanError::MalformedInstruction));
    assert_eq!(decode_instruction(&vec![2u8, 0]), Err(LoanError::MalformedInstruction));
    assert_eq!(decode_instruction(&vec![3u8, 0]), Err(LoanError::MalformedInstruction));
    assert_eq!(decode_instruction(&vec![4u8; 8]), Err(LoanError::MalformedInstruction));
}
