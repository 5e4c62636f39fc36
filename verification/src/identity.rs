use vstd::prelude::*;

verus! {

/// The width of every actor identity (a public key) in bytes.
pub const IDENTITY_LEN: usize = 32;

/// A public, verifiable actor reference: a fixed-width byte array, as the
/// host ledger represents public keys. The all-zero identity doubles as the
/// sentinel meaning "unassigned" (the host's system-allocation identity is
/// also the all-zero key).
#[derive(Debug, PartialEq, Eq)]
pub struct Identity {
    pub bytes: Vec<u8>,
}

impl Clone for Identity {
    /// A clone carries the same bytes.
    fn clone(&self) -> (r: Self)
        ensures
            r@ == self@,
    {
        let n: usize = self.bytes.len();
        let mut bytes: Vec<u8> = Vec::new();
        let mut i: usize = 0;
        while i < n
            invariant
                i <= n,
                n == self@.len(),
                bytes@ == self@.subrange(0, i as int),
            decreases n - i,
        {
            bytes.push(self.bytes[i]);
            proof {
                assert(bytes@ =~= self@.subrange(0, i + 1));
            }
            i = i + 1;
        }
        proof {
            assert(self@.subrange(0, n as int) =~= self@);
        }
        Identity { bytes }
    }
}

impl View for Identity {
    type V = Seq<u8>;

    open spec fn view(&self) -> Seq<u8> {
        self.bytes@
    }
}

/// The sentinel identity: 32 zero bytes.
pub open spec fn sentinel_id() -> Seq<u8> {
    Seq::new(IDENTITY_LEN as nat, |i: int| 0u8)
}

impl Identity {
    /// An identity is well formed when it has exactly the fixed width.
    pub open spec fn wf(&self) -> bool {
        self@.len() == IDENTITY_LEN
    }

    /// The sentinel (all-zero) identity.
    pub fn sentinel() -> (r: Identity)
        ensures
            r@ == sentinel_id(),
            r.wf(),
    {
        let mut bytes: Vec<u8> = Vec::new();
        let mut i: usize = 0;
        while i < IDENTITY_LEN
            invariant
                i <= IDENTITY_LEN,
                bytes@.len() == i,
                forall|j: int| 0 <= j < i ==> bytes@[j] == 0u8,
            decreases IDENTITY_LEN - i,
        {
            bytes.push(0u8);
            i = i + 1;
        }
        proof {
            assert(bytes@ =~= sentinel_id());
        }
        Identity { bytes }
    }

    /// Byte-for-byte equality of two identities.
    pub fn same_as(&self, other: &Identity) -> (r: bool)
        ensures
            r == (self@ == other@),
    {
        if self.bytes.len() != other.bytes.len() {
            proof {
                assert(self@ != other@);
            }
            return false;
        }
        let n: usize = self.bytes.len();
        let mut i: usize = 0;
        while i < n
            invariant
                i <= n,
                n == self@.len(),
                n == other@.len(),
                forall|j: int| 0 <= j < i ==> self@[j] == other@[j],
            decreases n - i,
        {
            if self.bytes[i] != other.bytes[i] {
                return false;
            }
            i = i + 1;
        }
        proof {
            assert(self@ =~= other@);
        }
        true
    }

    /// True exactly when this identity is the sentinel.
    pub fn is_sentinel(&self) -> (r: bool)
        requires
            self.wf(),
        ensures
            r == (self@ == sentinel_id()),
    {
        let mut i: usize = 0;
        while i < IDENTITY_LEN
            invariant
                i <= IDENTITY_LEN,
                self.wf(),
                forall|j: int| 0 <= j < i ==> self@[j] == 0u8,
            decreases IDENTITY_LEN - i,
        {
            if self.bytes[i] != 0u8 {
                proof {
                    assert(self@[i as int] != sentinel_id()[i as int]);
                }
                return false;
            }
            i = i + 1;
        }
        proof {
            assert(self@ =~= sentinel_id());
        }
        true
    }
}

} // verus!
