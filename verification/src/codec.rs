use vstd::prelude::*;

use crate::identity::{Identity, IDENTITY_LEN};
use crate::record::{LoanAccount, LoanAccountV};
use crate::LoanError;

verus! {

/// The exact byte length of an encoded loan record: flag (1) + borrower (32)
/// + lender (32) + amount (8) + term_days (2) + interest_rate (2)
/// + start_time (8) + end_time (8) + repaid flag (1) + credit_score (2).
pub const RECORD_LEN: usize = 96;

/// A boolean on the wire: one byte, 0 or 1.
pub open spec fn bool_byte(b: bool) -> u8 {
    if b {
        1u8
    } else {
        0u8
    }
}

/// A `u16` on the wire: two bytes, little endian.
pub open spec fn u16_le(v: u16) -> Seq<u8> {
    seq![(v & 0xff) as u8, ((v >> 8) & 0xff) as u8]
}

pub open spec fn u16_of_le(b0: u8, b1: u8) -> u16 {
    (b0 as u16) | ((b1 as u16) << 8)
}

/// A `u64` on the wire: eight bytes, little endian.
pub open spec fn u64_le(v: u64) -> Seq<u8> {
    seq![
        (v & 0xff) as u8,
        ((v >> 8) & 0xff) as u8,
        ((v >> 16) & 0xff) as u8,
        ((v >> 24) & 0xff) as u8,
        ((v >> 32) & 0xff) as u8,
        ((v >> 40) & 0xff) as u8,
        ((v >> 48) & 0xff) as u8,
        ((v >> 56) & 0xff) as u8,
    ]
}

pub open spec fn u64_of_le(s: Seq<u8>) -> u64
    recommends
        s.len() == 8,
{
    (s[0] as u64) | ((s[1] as u64) << 8) | ((s[2] as u64) << 16) | ((s[3] as u64) << 24)
        | ((s[4] as u64) << 32) | ((s[5] as u64) << 40) | ((s[6] as u64) << 48)
        | ((s[7] as u64) << 56)
}

/// An `i64` on the wire: its two's-complement bits, little endian.
pub open spec fn i64_le(v: i64) -> Seq<u8> {
    u64_le(v as u64)
}

pub open spec fn i64_of_le(s: Seq<u8>) -> i64
    recommends
        s.len() == 8,
{
    u64_of_le(s) as i64
}

/// The fixed on-disk layout of a loan record, field by field in order.
pub open spec fn spec_encode_record(r: LoanAccountV) -> Seq<u8> {
    seq![bool_byte(r.is_initialized)] + r.borrower + r.lender + u64_le(r.amount)
        + u16_le(r.term_days) + u16_le(r.interest_rate) + i64_le(r.start_time)
        + i64_le(r.end_time) + seq![bool_byte(r.is_repaid)] + u16_le(r.credit_score)
}

/// A byte string is a valid record encoding when it has the exact length and
/// both boolean bytes are 0 or 1.
pub open spec fn valid_record_encoding(s: Seq<u8>) -> bool {
    &&& s.len() == RECORD_LEN
    &&& (s[0] == 0u8 || s[0] == 1u8)
    &&& (s[93] == 0u8 || s[93] == 1u8)
}

pub open spec fn spec_decode_record(s: Seq<u8>) -> LoanAccountV
    recommends
        valid_record_encoding(s),
{
    LoanAccountV {
        is_initialized: s[0] == 1u8,
        borrower: s.subrange(1, 33),
        lender: s.subrange(33, 65),
        amount: u64_of_le(s.subrange(65, 73)),
        term_days: u16_of_le(s[73], s[74]),
        interest_rate: u16_of_le(s[75], s[76]),
        start_time: i64_of_le(s.subrange(77, 85)),
        end_time: i64_of_le(s.subrange(85, 93)),
        is_repaid: s[93] == 1u8,
        credit_score: u16_of_le(s[94], s[95]),
    }
}

proof fn lemma_u16_le_of(v: u16)
    ensures
        u16_le(v).len() == 2,
        u16_of_le(u16_le(v)[0], u16_le(v)[1]) == v,
{
    assert(((v & 0xff) as u8 as u16) | ((((v >> 8) & 0xff) as u8 as u16) << 8) == v)
        by (bit_vector);
}

proof fn lemma_u16_of_le(b0: u8, b1: u8)
    ensures
        u16_le(u16_of_le(b0, b1)) =~= seq![b0, b1],
{
    let v = u16_of_le(b0, b1);
    assert((v & 0xff) as u8 == b0 && ((v >> 8) & 0xff) as u8 == b1) by (bit_vector)
        requires
            v == (b0 as u16) | ((b1 as u16) << 8),
    ;
}

proof fn lemma_u64_le_of(v: u64)
    ensures
        u64_le(v).len() == 8,
        u64_of_le(u64_le(v)) == v,
{
    assert(((v & 0xff) as u8 as u64) | ((((v >> 8) & 0xff) as u8 as u64) << 8)
        | ((((v >> 16) & 0xff) as u8 as u64) << 16) | ((((v >> 24) & 0xff) as u8 as u64) << 24)
        | ((((v >> 32) & 0xff) as u8 as u64) << 32) | ((((v >> 40) & 0xff) as u8 as u64) << 40)
        | ((((v >> 48) & 0xff) as u8 as u64) << 48) | ((((v >> 56) & 0xff) as u8 as u64) << 56)
        == v) by (bit_vector);
}

proof fn lemma_u64_of_le(b0: u8, b1: u8, b2: u8, b3: u8, b4: u8, b5: u8, b6: u8, b7: u8)
    ensures
        u64_le(u64_of_le(seq![b0, b1, b2, b3, b4, b5, b6, b7])) =~= seq![
            b0,
            b1,
            b2,
            b3,
            b4,
            b5,
            b6,
            b7,
        ],
{
    let v = u64_of_le(seq![b0, b1, b2, b3, b4, b5, b6, b7]);
    assert((v & 0xff) as u8 == b0 && ((v >> 8) & 0xff) as u8 == b1 && ((v >> 16) & 0xff) as u8
        == b2 && ((v >> 24) & 0xff) as u8 == b3 && ((v >> 32) & 0xff) as u8 == b4 && ((v >> 40)
        & 0xff) as u8 == b5 && ((v >> 48) & 0xff) as u8 == b6 && ((v >> 56) & 0xff) as u8 == b7)
        by (bit_vector)
        requires
            v == (b0 as u64) | ((b1 as u64) << 8) | ((b2 as u64) << 16) | ((b3 as u64) << 24)
                | ((b4 as u64) << 32) | ((b5 as u64) << 40) | ((b6 as u64) << 48)
                | ((b7 as u64) << 56),
    ;
}

proof fn lemma_i64_le_of(v: i64)
    ensures
        i64_le(v).len() == 8,
        i64_of_le(i64_le(v)) == v,
{
    lemma_u64_le_of(v as u64);
    assert((v as u64) as i64 == v) by (bit_vector);
}

/// Decoding undoes encoding: a well-formed record survives the round trip.
pub proof fn lemma_decode_of_encode(r: LoanAccountV)
    requires
        r.wf(),
    ensures
        valid_record_encoding(spec_encode_record(r)),
        spec_decode_record(spec_encode_record(r)) == r,
{
    let s = spec_encode_record(r);
    assert(s.len() == RECORD_LEN);
    lemma_u64_le_of(r.amount);
    lemma_u16_le_of(r.term_days);
    lemma_u16_le_of(r.interest_rate);
    lemma_i64_le_of(r.start_time);
    lemma_i64_le_of(r.end_time);
    lemma_u16_le_of(r.credit_score);
    assert(s.subrange(1, 33) =~= r.borrower);
    assert(s.subrange(33, 65) =~= r.lender);
    assert(s.subrange(65, 73) =~= u64_le(r.amount));
    assert(s.subrange(77, 85) =~= i64_le(r.start_time));
    assert(s.subrange(85, 93) =~= i64_le(r.end_time));
    assert(s[73] == u16_le(r.term_days)[0] && s[74] == u16_le(r.term_days)[1]);
    assert(s[75] == u16_le(r.interest_rate)[0] && s[76] == u16_le(r.interest_rate)[1]);
    assert(s[94] == u16_le(r.credit_score)[0] && s[95] == u16_le(r.credit_score)[1]);
}

/// Encoding undoes decoding: every validly encoded byte string is reproduced
/// byte for byte by re-encoding its decoded record.
pub proof fn lemma_encode_of_decode(s: Seq<u8>)
    requires
        valid_record_encoding(s),
    ensures
        spec_decode_record(s).wf(),
        spec_encode_record(spec_decode_record(s)) == s,
{
    let r = spec_decode_record(s);
    assert(seq![s[65], s[66], s[67], s[68], s[69], s[70], s[71], s[72]] =~= s.subrange(65, 73));
    lemma_u64_of_le(s[65], s[66], s[67], s[68], s[69], s[70], s[71], s[72]);
    assert(seq![s[77], s[78], s[79], s[80], s[81], s[82], s[83], s[84]] =~= s.subrange(77, 85));
    lemma_u64_of_le(s[77], s[78], s[79], s[80], s[81], s[82], s[83], s[84]);
    assert(seq![s[85], s[86], s[87], s[88], s[89], s[90], s[91], s[92]] =~= s.subrange(85, 93));
    lemma_u64_of_le(s[85], s[86], s[87], s[88], s[89], s[90], s[91], s[92]);
    let a = u64_of_le(s.subrange(77, 85));
    assert((a as i64) as u64 == a) by (bit_vector);
    let b = u64_of_le(s.subrange(85, 93));
    assert((b as i64) as u64 == b) by (bit_vector);
    lemma_u16_of_le(s[73], s[74]);
    lemma_u16_of_le(s[75], s[76]);
    lemma_u16_of_le(s[94], s[95]);
    assert(spec_encode_record(r) =~= s);
}

pub(crate) fn push_u16_le(out: &mut Vec<u8>, v: u16)
    ensures
        final(out)@ == old(out)@ + u16_le(v),
{
    assert(v & 0xff < 256 && (v >> 8) & 0xff < 256) by (bit_vector);
    out.push((v & 0xff) as u8);
    out.push(((v >> 8) & 0xff) as u8);
    proof {
        assert(out@ =~= old(out)@ + u16_le(v));
    }
}

pub(crate) fn push_u64_le(out: &mut Vec<u8>, v: u64)
    ensures
        final(out)@ == old(out)@ + u64_le(v),
{
    assert(v & 0xff < 256 && (v >> 8) & 0xff < 256 && (v >> 16) & 0xff < 256 && (v >> 24) & 0xff
        < 256 && (v >> 32) & 0xff < 256 && (v >> 40) & 0xff < 256 && (v >> 48) & 0xff < 256 && (v
        >> 56) & 0xff < 256) by (bit_vector);
    out.push((v & 0xff) as u8);
    out.push(((v >> 8) & 0xff) as u8);
    out.push(((v >> 16) & 0xff) as u8);
    out.push(((v >> 24) & 0xff) as u8);
    out.push(((v >> 32) & 0xff) as u8);
    out.push(((v >> 40) & 0xff) as u8);
    out.push(((v >> 48) & 0xff) as u8);
    out.push(((v >> 56) & 0xff) as u8);
    proof {
        assert(out@ =~= old(out)@ + u64_le(v));
    }
}

fn push_i64_le(out: &mut Vec<u8>, v: i64)
    ensures
        final(out)@ == old(out)@ + i64_le(v),
{
    push_u64_le(out, #[verifier::truncate] (v as u64));
}

fn push_identity(out: &mut Vec<u8>, id: &Identity)
    requires
        id.wf(),
    ensures
        final(out)@ == old(out)@ + id@,
{
    let n: usize = id.bytes.len();
    let mut i: usize = 0;
    while i < n
        invariant
            i <= n,
            n == id@.len(),
            out@ == old(out)@ + id@.subrange(0, i as int),
        decreases n - i,
    {
        out.push(id.bytes[i]);
        proof {
            assert(out@ =~= old(out)@ + id@.subrange(0, i + 1));
        }
        i = i + 1;
    }
    proof {
        assert(id@.subrange(0, n as int) =~= id@);
    }
}

/// Serializes a loan record into its fixed 96-byte layout. Total: every
/// well-formed record encodes, and the buffer never changes size thereafter.
pub fn encode_record(rec: &LoanAccount) -> (r: Vec<u8>)
    requires
        rec.wf(),
    ensures
        r@ == spec_encode_record(rec@),
        r@.len() == RECORD_LEN,
{
    let mut out: Vec<u8> = Vec::new();
    out.push(if rec.is_initialized {
        1u8
    } else {
        0u8
    });
    push_identity(&mut out, &rec.borrower);
    push_identity(&mut out, &rec.lender);
    push_u64_le(&mut out, rec.amount);
    push_u16_le(&mut out, rec.term_days);
    push_u16_le(&mut out, rec.interest_rate);
    push_i64_le(&mut out, rec.start_time);
    push_i64_le(&mut out, rec.end_time);
    out.push(if rec.is_repaid {
        1u8
    } else {
        0u8
    });
    push_u16_le(&mut out, rec.credit_score);
    proof {
        assert(out@ =~= spec_encode_record(rec@));
    }
    out
}

pub(crate) fn read_u16_le(s: &Vec<u8>, off: usize) -> (r: u16)
    requires
        off + 2 <= s@.len(),
    ensures
        r == u16_of_le(s@[off as int], s@[off + 1]),
{
    let n: usize = s.len();
    assert(off + 2 <= n);
    (s[off] as u16) | ((s[off + 1] as u16) << 8)
}

pub(crate) fn read_u64_le(s: &Vec<u8>, off: usize) -> (r: u64)
    requires
        off + 8 <= s@.len(),
    ensures
        r == u64_of_le(s@.subrange(off as int, off + 8)),
{
    let n: usize = s.len();
    assert(off + 8 <= n);
    let r = (s[off] as u64) | ((s[off + 1] as u64) << 8) | ((s[off + 2] as u64) << 16) | ((s[off
        + 3] as u64) << 24) | ((s[off + 4] as u64) << 32) | ((s[off + 5] as u64) << 40) | ((s[off
        + 6] as u64) << 48) | ((s[off + 7] as u64) << 56);
    proof {
        let sub = s@.subrange(off as int, off + 8);
        assert(sub[0] == s@[off as int] && sub[1] == s@[off + 1] && sub[2] == s@[off + 2]
            && sub[3] == s@[off + 3] && sub[4] == s@[off + 4] && sub[5] == s@[off + 5] && sub[6]
            == s@[off + 6] && sub[7] == s@[off + 7]);
    }
    r
}

fn read_i64_le(s: &Vec<u8>, off: usize) -> (r: i64)
    requires
        off + 8 <= s@.len(),
    ensures
        r == i64_of_le(s@.subrange(off as int, off + 8)),
{
    #[verifier::truncate] (read_u64_le(s, off) as i64)
}

fn read_identity(s: &Vec<u8>, off: usize) -> (r: Identity)
    requires
        off + IDENTITY_LEN <= s@.len(),
    ensures
        r@ == s@.subrange(off as int, off + IDENTITY_LEN),
        r.wf(),
{
    let n: usize = s.len();
    let mut bytes: Vec<u8> = Vec::new();
    let mut i: usize = 0;
    while i < IDENTITY_LEN
        invariant
            i <= IDENTITY_LEN,
            off + IDENTITY_LEN <= n,
            n == s@.len(),
            bytes@ == s@.subrange(off as int, off + i),
        decreases IDENTITY_LEN - i,
    {
        bytes.push(s[off + i]);
        proof {
            assert(bytes@ =~= s@.subrange(off as int, off + i + 1));
        }
        i = i + 1;
    }
    Identity { bytes }
}

/// Deserializes a loan record from a raw account buffer. Fails with
/// `CorruptRecord` exactly when the bytes do not form a valid encoding: a
/// wrong length, or a boolean byte that is neither 0 nor 1.
pub fn decode_record(bytes: &Vec<u8>) -> (r: Result<LoanAccount, LoanError>)
    ensures
        r is Ok <==> valid_record_encoding(bytes@),
        r matches Ok(rec) ==> rec@ == spec_decode_record(bytes@) && rec.wf(),
        r matches Err(e) ==> e == LoanError::CorruptRecord,
{
    if bytes.len() != RECORD_LEN {
        return Err(LoanError::CorruptRecord);
    }
    let init_byte = bytes[0];
    let repaid_byte = bytes[93];
    if init_byte > 1 || repaid_byte > 1 {
        return Err(LoanError::CorruptRecord);
    }
    let rec = LoanAccount {
        is_initialized: init_byte == 1,
        borrower: read_identity(bytes, 1),
        lender: read_identity(bytes, 33),
        amount: read_u64_le(bytes, 65),
        term_days: read_u16_le(bytes, 73),
        interest_rate: read_u16_le(bytes, 75),
        start_time: read_i64_le(bytes, 77),
        end_time: read_i64_le(bytes, 85),
        is_repaid: repaid_byte == 1,
        credit_score: read_u16_le(bytes, 94),
    };
    Ok(rec)
}

} // verus!
