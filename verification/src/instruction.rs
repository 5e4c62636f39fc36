use vstd::prelude::*;

use crate::codec::{push_u16_le, push_u64_le, read_u16_le, read_u64_le, u16_le, u16_of_le, u64_le, u64_of_le};
use crate::LoanError;

verus! {

/// The five operations the dispatcher accepts, decoded from a tagged binary
/// payload: a one-byte tag followed by the operation's fixed-width
/// little-endian arguments, with no trailing bytes allowed.
#[derive(Clone, Copy, Debug, PartialEq, Eq, Structural)]
pub enum LoanInstruction {
    /// Create a new loan application.
    Initialize { amount: u64, term_days: u16, credit_score: u16 },
    /// Approve and fund a pending loan.
    ApproveLoan {},
    /// Repay an active loan with interest.
    RepayLoan {},
    /// Overwrite the borrower's credit score.
    UpdateCreditScore { new_score: u16 },
    /// Top up the custodial pool.
    FundProgram { amount: u64 },
}

pub const TAG_INITIALIZE: u8 = 0;

pub const TAG_APPROVE_LOAN: u8 = 1;

pub const TAG_REPAY_LOAN: u8 = 2;

pub const TAG_UPDATE_CREDIT_SCORE: u8 = 3;

pub const TAG_FUND_PROGRAM: u8 = 4;

/// The stable wire form of each operation.
pub open spec fn spec_encode_instruction(i: LoanInstruction) -> Seq<u8> {
    match i {
        LoanInstruction::Initialize { amount, term_days, credit_score } => seq![TAG_INITIALIZE]
            + u64_le(amount) + u16_le(term_days) + u16_le(credit_score),
        LoanInstruction::ApproveLoan {  } => seq![TAG_APPROVE_LOAN],
        LoanInstruction::RepayLoan {  } => seq![TAG_REPAY_LOAN],
        LoanInstruction::UpdateCreditScore { new_score } => seq![TAG_UPDATE_CREDIT_SCORE]
            + u16_le(new_score),
        LoanInstruction::FundProgram { amount } => seq![TAG_FUND_PROGRAM] + u64_le(amount),
    }
}

/// A payload is valid when its tag is known and its length is exactly the
/// tag's fixed argument width plus one.
pub open spec fn valid_instruction_encoding(s: Seq<u8>) -> bool {
    &&& s.len() >= 1
    &&& match s[0] {
        TAG_INITIALIZE => s.len() == 13,
        TAG_APPROVE_LOAN => s.len() == 1,
        TAG_REPAY_LOAN => s.len() == 1,
        TAG_UPDATE_CREDIT_SCORE => s.len() == 3,
        TAG_FUND_PROGRAM => s.len() == 9,
        _ => false,
    }
}

pub open spec fn spec_decode_instruction(s: Seq<u8>) -> LoanInstruction
    recommends
        valid_instruction_encoding(s),
{
    match s[0] {
        TAG_INITIALIZE => LoanInstruction::Initialize {
            amount: u64_of_le(s.subrange(1, 9)),
            term_days: u16_of_le(s[9], s[10]),
            credit_score: u16_of_le(s[11], s[12]),
        },
        TAG_APPROVE_LOAN => LoanInstruction::ApproveLoan {  },
        TAG_REPAY_LOAN => LoanInstruction::RepayLoan {  },
        TAG_UPDATE_CREDIT_SCORE => LoanInstruction::UpdateCreditScore {
            new_score: u16_of_le(s[1], s[2]),
        },
        _ => LoanInstruction::FundProgram { amount: u64_of_le(s.subrange(1, 9)) },
    }
}

/// Parses a tagged instruction payload. Fails with `MalformedInstruction`
/// exactly when the payload is not a complete, exact-length encoding of one
/// of the five operations: an unknown tag, a truncation, or trailing bytes.
pub fn decode_instruction(bytes: &Vec<u8>) -> (r: Result<LoanInstruction, LoanError>)
    ensures
        r is Ok <==> valid_instruction_encoding(bytes@),
        r matches Ok(i) ==> i == spec_decode_instruction(bytes@),
        r matches Err(e) ==> e == LoanError::MalformedInstruction,
{
    let n: usize = bytes.len();
    if n == 0 {
        return Err(LoanError::MalformedInstruction);
    }
    let tag = bytes[0];
    if tag == TAG_INITIALIZE {
        if n != 13 {
            return Err(LoanError::MalformedInstruction);
        }
        Ok(LoanInstruction::Initialize {
            amount: read_u64_le(bytes, 1),
            term_days: read_u16_le(bytes, 9),
            credit_score: read_u16_le(bytes, 11),
        })
    } else if tag == TAG_APPROVE_LOAN {
        if n != 1 {
            return Err(LoanError::MalformedInstruction);
        }
        Ok(LoanInstruction::ApproveLoan {  })
    } else if tag == TAG_REPAY_LOAN {
        if n != 1 {
            return Err(LoanError::MalformedInstruction);
        }
        Ok(LoanInstruction::RepayLoan {  })
    } else if tag == TAG_UPDATE_CREDIT_SCORE {
        if n != 3 {
            return Err(LoanError::MalformedInstruction);
        }
        Ok(LoanInstruction::UpdateCreditScore { new_score: read_u16_le(bytes, 1) })
    } else if tag == TAG_FUND_PROGRAM {
        if n != 9 {
            return Err(LoanError::MalformedInstruction);
        }
        Ok(LoanInstruction::FundProgram { amount: read_u64_le(bytes, 1) })
    } else {
        Err(LoanError::MalformedInstruction)
    }
}

/// Serializes an operation into its wire form; the client-side counterpart
/// of `decode_instruction`.
pub fn encode_instruction(i: &LoanInstruction) -> (r: Vec<u8>)
    ensures
        r@ == spec_encode_instruction(*i),
{
    let mut out: Vec<u8> = Vec::new();
    match i {
        LoanInstruction::Initialize { amount, term_days, credit_score } => {
            out.push(TAG_INITIALIZE);
            push_u64_le(&mut out, *amount);
            push_u16_le(&mut out, *term_days);
            push_u16_le(&mut out, *credit_score);
        },
        LoanInstruction::ApproveLoan {  } => {
            out.push(TAG_APPROVE_LOAN);
        },
        LoanInstruction::RepayLoan {  } => {
            out.push(TAG_REPAY_LOAN);
        },
        LoanInstruction::UpdateCreditScore { new_score } => {
            out.push(TAG_UPDATE_CREDIT_SCORE);
            push_u16_le(&mut out, *new_score);
        },
        LoanInstruction::FundProgram { amount } => {
            out.push(TAG_FUND_PROGRAM);
            push_u64_le(&mut out, *amount);
        },
    }
    proof {
        assert(out@ =~= spec_encode_instruction(*i));
    }
    out
}

} // verus!
