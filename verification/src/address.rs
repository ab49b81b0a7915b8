//! 20-byte account identifiers.

use vstd::prelude::*;

verus! {

/// The null sentinel: the all-zero account identifier.
pub open spec fn zero_address() -> Seq<u8> {
    Seq::new(20, |i: int| 0u8)
}

/// A fixed-width (20-byte) opaque identifier of a caller or a contract.
#[derive(Debug, PartialEq, Eq)]
pub struct Address {
    pub bytes: Vec<u8>,
}

impl View for Address {
    type V = Seq<u8>;

    open spec fn view(&self) -> Seq<u8> {
        self.bytes@
    }
}

impl Address {
    /// The representation holds exactly 20 bytes.
    pub open spec fn wf(self) -> bool {
        self@.len() == 20
    }

    pub fn from_bytes(bytes: Vec<u8>) -> (r: Address)
        requires
            bytes@.len() == 20,
        ensures
            r.wf(),
            r@ == bytes@,
    {
        Address { bytes }
    }

    pub fn zero() -> (r: Address)
        ensures
            r.wf(),
            r@ == zero_address(),
    {
        let mut b: Vec<u8> = Vec::new();
        let mut i: usize = 0;
        while i < 20
            invariant
                i <= 20,
                b@.len() == i,
                forall|j: int| 0 <= j < i ==> b@[j] == 0,
            decreases 20 - i,
        {
            b.push(0u8);
            i = i + 1;
        }
        proof {
            assert(b@ =~= zero_address());
        }
        Address { bytes: b }
    }

    pub fn is_zero(&self) -> (r: bool)
        requires
            self.wf(),
        ensures
            r <==> self@ == zero_address(),
    {
        let mut i: usize = 0;
        while i < 20
            invariant
                self.wf(),
                i <= 20,
                forall|j: int| 0 <= j < i ==> self.bytes@[j] == 0,
            decreases 20 - i,
        {
            if self.bytes[i] != 0 {
                proof {
                    assert(self@[i as int] != zero_address()[i as int]);
                }
                return false;
            }
            i = i + 1;
        }
        proof {
            assert(self@ =~= zero_address());
        }
        true
    }

    /// Equality of two account identifiers.
    pub fn eq_addr(&self, other: &Address) -> (r: bool)
        requires
            self.wf(),
            other.wf(),
        ensures
            r <==> self@ == other@,
    {
        let mut i: usize = 0;
        while i < 20
            invariant
                self.wf(),
                other.wf(),
                i <= 20,
                forall|j: int| 0 <= j < i ==> self.bytes@[j] == other.bytes@[j],
            decreases 20 - i,
        {
            if self.bytes[i] != other.bytes[i] {
                proof {
                    assert(self@[i as int] != other@[i as int]);
                }
                return false;
            }
            i = i + 1;
        }
        proof {
            assert(self@ =~= other@);
        }
        true
    }

    /// Returns a fresh identifier for the same account.
    pub fn dup(&self) -> (r: Address)
        requires
            self.wf(),
        ensures
            r.wf(),
            r@ == self@,
    {
        let mut b: Vec<u8> = Vec::new();
        let mut i: usize = 0;
        while i < 20
            invariant
                self.wf(),
                i <= 20,
                b@.len() == i,
                forall|j: int| 0 <= j < i ==> b@[j] == self.bytes@[j],
            decreases 20 - i,
        {
            b.push(self.bytes[i]);
            i = i + 1;
        }
        proof {
            assert(b@ =~= self.bytes@);
        }
        Address { bytes: b }
    }
}

} // verus!
