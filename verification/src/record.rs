use vstd::prelude::*;

use crate::identity::{Identity, IDENTITY_LEN};

verus! {

/// The persistent loan record, one per loan, stored in the data buffer of a
/// program-owned ledger account.
#[derive(Debug, PartialEq, Eq)]
pub struct LoanAccount {
    /// Set exactly once, at creation, and never cleared.
    pub is_initialized: bool,
    /// The party that requested the loan.
    pub borrower: Identity,
    /// Sentinel until approval; then the approving signer, immutable after.
    pub lender: Identity,
    /// Principal, in the ledger's smallest currency unit.
    pub amount: u64,
    /// Loan duration in days.
    pub term_days: u16,
    /// Interest rate in basis points; fixed at creation.
    pub interest_rate: u16,
    /// Unix seconds at approval; 0 until then.
    pub start_time: i64,
    /// `start_time + term_days * 86400`, fixed at approval; 0 until then.
    pub end_time: i64,
    /// Becomes true exactly once, at repayment.
    pub is_repaid: bool,
    /// Mutable by a privileged external scoring process.
    pub credit_score: u16,
}

/// The mathematical model of a loan record: the same fields with identities
/// as byte sequences.
pub struct LoanAccountV {
    pub is_initialized: bool,
    pub borrower: Seq<u8>,
    pub lender: Seq<u8>,
    pub amount: u64,
    pub term_days: u16,
    pub interest_rate: u16,
    pub start_time: i64,
    pub end_time: i64,
    pub is_repaid: bool,
    pub credit_score: u16,
}

impl View for LoanAccount {
    type V = LoanAccountV;

    open spec fn view(&self) -> LoanAccountV {
        LoanAccountV {
            is_initialized: self.is_initialized,
            borrower: self.borrower@,
            lender: self.lender@,
            amount: self.amount,
            term_days: self.term_days,
            interest_rate: self.interest_rate,
            start_time: self.start_time,
            end_time: self.end_time,
            is_repaid: self.is_repaid,
            credit_score: self.credit_score,
        }
    }
}

impl LoanAccountV {
    /// A model record is well formed when both identities have the fixed width.
    pub open spec fn wf(self) -> bool {
        self.borrower.len() == IDENTITY_LEN && self.lender.len() == IDENTITY_LEN
    }
}

impl LoanAccount {
    pub open spec fn wf(&self) -> bool {
        self@.wf()
    }
}

} // verus!
