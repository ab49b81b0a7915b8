//! 256-bit unsigned amounts, stored as 32 little-endian bytes.
//!
//! An `U256` models the 256-bit amount domain: it supports checked addition,
//! a zero test, and conversion to and from the 32-byte big-endian wire form
//! used by the call-payload encoder.

use vstd::prelude::*;

verus! {

/// 256 raised to the power `e`.
pub open spec fn pow256(e: nat) -> nat
    decreases e,
{
    if e == 0 {
        1
    } else {
        256 * pow256((e - 1) as nat)
    }
}

pub proof fn lemma_pow256_pos(e: nat)
    ensures
        pow256(e) >= 1,
    decreases e,
{
    if e > 0 {
        lemma_pow256_pos((e - 1) as nat);
    }
}

pub proof fn lemma_pow256_increases(e1: nat, e2: nat)
    requires
        e1 <= e2,
    ensures
        pow256(e1) <= pow256(e2),
    decreases e2,
{
    if e1 < e2 {
        lemma_pow256_increases(e1, (e2 - 1) as nat);
        lemma_pow256_pos((e2 - 1) as nat);
    }
}

/// Numeric value of a little-endian byte string: byte 0 is least significant.
pub open spec fn le_bytes_val(s: Seq<u8>) -> nat
    decreases s.len(),
{
    if s.len() == 0 {
        0
    } else {
        le_bytes_val(s.drop_last()) + (s.last() as nat) * pow256((s.len() - 1) as nat)
    }
}

/// Numeric value of a big-endian byte string: byte 0 is most significant.
pub open spec fn be_bytes_val(s: Seq<u8>) -> nat {
    le_bytes_val(s.reverse())
}

/// Exclusive upper bound of the 256-bit amount domain.
pub open spec fn u256_bound() -> nat {
    pow256(32)
}

pub proof fn lemma_le_bytes_val_push(s: Seq<u8>, b: u8)
    ensures
        le_bytes_val(s.push(b)) == le_bytes_val(s) + (b as nat) * pow256(s.len()),
{
    assert(s.push(b).drop_last() =~= s);
    assert(s.push(b).last() == b);
}

pub proof fn lemma_le_bytes_val_take_step(s: Seq<u8>, i: int)
    requires
        0 <= i < s.len(),
    ensures
        le_bytes_val(s.take(i + 1)) == le_bytes_val(s.take(i)) + (s[i] as nat) * pow256(i as nat),
{
    assert(s.take(i + 1).drop_last() =~= s.take(i));
    assert(s.take(i + 1).last() == s[i]);
}

pub proof fn lemma_le_bytes_val_bound(s: Seq<u8>)
    ensures
        le_bytes_val(s) < pow256(s.len()),
    decreases s.len(),
{
    if s.len() > 0 {
        let p = pow256((s.len() - 1) as nat);
        lemma_le_bytes_val_bound(s.drop_last());
        lemma_pow256_pos((s.len() - 1) as nat);
        assert((s.last() as nat) * p <= 255 * p) by (nonlinear_arith)
            requires
                s.last() <= 255,
                p >= 0,
        ;
    }
}

pub proof fn lemma_le_bytes_val_all_zero(s: Seq<u8>)
    requires
        forall|i: int| 0 <= i < s.len() ==> s[i] == 0,
    ensures
        le_bytes_val(s) == 0,
    decreases s.len(),
{
    if s.len() > 0 {
        assert(forall|i: int| 0 <= i < s.drop_last().len() ==> s.drop_last()[i] == 0);
        lemma_le_bytes_val_all_zero(s.drop_last());
        assert(s.last() == 0);
    }
}

pub proof fn lemma_le_bytes_val_nonzero(s: Seq<u8>, i: int)
    requires
        0 <= i < s.len(),
        s[i] != 0,
    ensures
        le_bytes_val(s) > 0,
    decreases s.len(),
{
    let p = pow256((s.len() - 1) as nat);
    lemma_pow256_pos((s.len() - 1) as nat);
    if i == s.len() - 1 {
        assert((s.last() as nat) * p >= p) by (nonlinear_arith)
            requires
                s.last() >= 1,
                p >= 1,
        ;
    } else {
        assert(s.drop_last()[i] == s[i]);
        lemma_le_bytes_val_nonzero(s.drop_last(), i);
    }
}

pub proof fn lemma_pow256_adds(a: nat, b: nat)
    ensures
        pow256(a + b) == pow256(a) * pow256(b),
    decreases b,
{
    if b == 0 {
        assert(pow256(a + 0) == pow256(a));
        assert(pow256(0) == 1);
    } else {
        lemma_pow256_adds(a, (b - 1) as nat);
        assert(pow256(a + b) == 256 * pow256((a + b - 1) as nat));
        assert(pow256((a + b - 1) as nat) == pow256(a) * pow256((b - 1) as nat));
        assert(256 * (pow256(a) * pow256((b - 1) as nat)) == pow256(a) * (256 * pow256(
            (b - 1) as nat,
        ))) by (nonlinear_arith);
        assert(pow256(b) == 256 * pow256((b - 1) as nat));
    }
}

/// The value splits at any position `k`: low `k` bytes plus the rest scaled.
#[verifier::spinoff_prover]
pub proof fn lemma_le_bytes_val_split(s: Seq<u8>, k: int)
    requires
        0 <= k <= s.len(),
    ensures
        le_bytes_val(s) == le_bytes_val(s.take(k)) + pow256(k as nat) * le_bytes_val(s.skip(k)),
    decreases s.len(),
{
    if s.len() == k {
        assert(s.take(k) =~= s);
        assert(s.skip(k).len() == 0);
        assert(le_bytes_val(s.skip(k)) == 0);
        assert(pow256(k as nat) * 0 == 0) by (nonlinear_arith);
    } else {
        let n = s.len() as int;
        let dl = s.drop_last();
        lemma_le_bytes_val_split(dl, k);
        assert(dl.take(k) =~= s.take(k));
        assert(dl.skip(k) =~= s.skip(k).drop_last());
        assert(s.skip(k).last() == s.last());
        assert(s.skip(k).len() == n - k);
        lemma_pow256_adds(k as nat, (n - 1 - k) as nat);
        let p_k = pow256(k as nat);
        let p_rest = pow256((n - 1 - k) as nat);
        let last = s.last() as nat;
        assert(le_bytes_val(s) == le_bytes_val(dl) + last * pow256((n - 1) as nat));
        assert(le_bytes_val(s.skip(k)) == le_bytes_val(dl.skip(k)) + last * p_rest);
        assert(pow256((n - 1) as nat) == p_k * p_rest);
        assert(p_k * (le_bytes_val(dl.skip(k)) + last * p_rest) == p_k * le_bytes_val(dl.skip(k))
            + last * (p_k * p_rest)) by (nonlinear_arith);
        assert(le_bytes_val(dl) == le_bytes_val(s.take(k)) + p_k * le_bytes_val(dl.skip(k)));
        assert(le_bytes_val(s) == le_bytes_val(s.take(k)) + p_k * le_bytes_val(dl.skip(k)) + last
            * (p_k * p_rest));
    }
}

/// The value peels at the front: lowest byte plus the rest times 256.
#[verifier::spinoff_prover]
pub proof fn lemma_le_bytes_val_front(s: Seq<u8>)
    requires
        s.len() > 0,
    ensures
        le_bytes_val(s) == s[0] + 256 * le_bytes_val(s.skip(1)),
    decreases s.len(),
{
    if s.len() == 1 {
        assert(s.drop_last() =~= Seq::<u8>::empty());
        assert(s.skip(1).len() == 0);
        assert(le_bytes_val(Seq::<u8>::empty()) == 0);
        assert(pow256(0) == 1);
        assert(s.last() == s[0]);
        assert(le_bytes_val(s) == le_bytes_val(s.drop_last()) + (s.last() as nat) * pow256(0));
    } else {
        let n = s.len() as int;
        let dl = s.drop_last();
        lemma_le_bytes_val_front(dl);
        assert(dl[0] == s[0]);
        assert(dl.skip(1) =~= s.skip(1).drop_last());
        assert(s.skip(1).last() == s.last());
        assert(s.skip(1).len() == n - 1);
        let last = s.last() as nat;
        let p2 = pow256((n - 2) as nat);
        assert(le_bytes_val(s) == le_bytes_val(dl) + last * pow256((n - 1) as nat));
        assert(le_bytes_val(s.skip(1)) == le_bytes_val(dl.skip(1)) + last * p2);
        assert(pow256((n - 1) as nat) == 256 * p2);
        assert(256 * (le_bytes_val(dl.skip(1)) + last * p2) == 256 * le_bytes_val(dl.skip(1))
            + last * (256 * p2)) by (nonlinear_arith);
    }
}

/// Byte strings of equal length with equal values are equal.
pub proof fn lemma_le_bytes_val_injective(a: Seq<u8>, b: Seq<u8>)
    requires
        a.len() == b.len(),
        le_bytes_val(a) == le_bytes_val(b),
    ensures
        a =~= b,
    decreases a.len(),
{
    if a.len() > 0 {
        let p = pow256((a.len() - 1) as nat);
        lemma_le_bytes_val_bound(a.drop_last());
        lemma_le_bytes_val_bound(b.drop_last());
        lemma_pow256_pos((a.len() - 1) as nat);
        assert(a.last() == b.last()) by (nonlinear_arith)
            requires
                le_bytes_val(a.drop_last()) + (a.last() as nat) * p == le_bytes_val(b.drop_last())
                    + (b.last() as nat) * p,
                le_bytes_val(a.drop_last()) < p,
                le_bytes_val(b.drop_last()) < p,
                p >= 1,
        ;
        lemma_le_bytes_val_injective(a.drop_last(), b.drop_last());
        assert forall|i: int| 0 <= i < a.len() implies a[i] == b[i] by {
            if i < a.len() - 1 {
                assert(a.drop_last()[i] == b.drop_last()[i]);
            }
        }
    }
}

/// The canonical `n`-byte little-endian form of a value.
pub open spec fn le_of_val(v: nat, n: nat) -> Seq<u8> {
    Seq::new(n, |i: int| ((v / pow256(i as nat)) % 256) as u8)
}

/// The canonical `n`-byte big-endian form of a value.
pub open spec fn be_of_val(v: nat, n: nat) -> Seq<u8> {
    le_of_val(v, n).reverse()
}

pub proof fn lemma_le_of_val(v: nat, n: nat)
    requires
        v < pow256(n),
    ensures
        le_bytes_val(le_of_val(v, n)) == v,
    decreases n,
{
    if n == 0 {
    } else {
        let s = le_of_val(v, n);
        lemma_le_bytes_val_front(s);
        assert(pow256(0) == 1);
        vstd::arithmetic::div_mod::lemma_div_basics(v as int);
        assert(s[0] == v % 256);
        let v2 = (v / 256) as nat;
        assert forall|i: int| 0 <= i < n - 1 implies s.skip(1)[i] == le_of_val(
            v2,
            (n - 1) as nat,
        )[i] by {
            lemma_pow256_pos(i as nat);
            vstd::arithmetic::div_mod::lemma_div_denominator(v as int, 256, pow256(i as nat) as int);
        }
        assert(s.skip(1) =~= le_of_val(v2, (n - 1) as nat));
        assert(v2 < pow256((n - 1) as nat)) by {
            if v2 >= pow256((n - 1) as nat) {
                vstd::arithmetic::div_mod::lemma_fundamental_div_mod(v as int, 256);
                assert(256 * v2 >= 256 * pow256((n - 1) as nat)) by (nonlinear_arith)
                    requires
                        v2 >= pow256((n - 1) as nat),
                ;
            }
        }
        lemma_le_of_val(v2, (n - 1) as nat);
        vstd::arithmetic::div_mod::lemma_fundamental_div_mod(v as int, 256);
    }
}

/// A 256-bit unsigned amount; `bytes` holds its 32 little-endian bytes.
#[derive(Debug, PartialEq, Eq)]
pub struct U256 {
    pub bytes: Vec<u8>,
}

impl View for U256 {
    type V = nat;

    open spec fn view(&self) -> nat {
        le_bytes_val(self.bytes@)
    }
}

impl U256 {
    /// The representation holds exactly 32 bytes.
    pub open spec fn wf(self) -> bool {
        self.bytes@.len() == 32
    }

    pub proof fn lemma_in_range(self)
        requires
            self.wf(),
        ensures
            self@ < u256_bound(),
    {
        lemma_le_bytes_val_bound(self.bytes@);
    }

    pub fn zero() -> (r: U256)
        ensures
            r.wf(),
            r@ == 0,
    {
        let mut b: Vec<u8> = Vec::new();
        let mut i: usize = 0;
        while i < 32
            invariant
                i <= 32,
                b@.len() == i,
                forall|j: int| 0 <= j < i ==> b@[j] == 0,
            decreases 32 - i,
        {
            b.push(0u8);
            i = i + 1;
        }
        proof {
            lemma_le_bytes_val_all_zero(b@);
        }
        U256 { bytes: b }
    }

    pub fn from_u64(x: u64) -> (r: U256)
        ensures
            r.wf(),
            r@ == x as nat,
    {
        let mut b: Vec<u8> = Vec::new();
        let mut rem: u64 = x;
        let mut i: usize = 0;
        proof {
            assert(pow256(0) == 1);
            assert((x as nat) * 1 == x as nat);
        }
        while i < 32
            invariant
                i <= 32,
                b@.len() == i,
                le_bytes_val(b@) + (rem as nat) * pow256(i as nat) == x as nat,
            decreases 32 - i,
        {
            let byte: u8 = (rem % 256) as u8;
            let quot: u64 = rem / 256;
            proof {
                lemma_le_bytes_val_push(b@, byte);
                let p = pow256(i as nat);
                assert((byte as nat) * p + (quot as nat) * (256 * p) == (rem as nat) * p)
                    by (nonlinear_arith)
                    requires
                        rem == byte + 256 * quot,
                        p >= 0,
                ;
            }
            b.push(byte);
            rem = quot;
            i = i + 1;
        }
        proof {
            if rem >= 1 {
                lemma_pow256_pos(32);
                assert((rem as nat) * pow256(32) >= pow256(32)) by (nonlinear_arith)
                    requires
                        rem >= 1,
                        pow256(32) >= 1,
                ;
                assert(pow256(8) == 0x1_0000_0000_0000_0000) by {
                    reveal_with_fuel(pow256, 9);
                }
                lemma_pow256_increases(8, 32);
            }
        }
        U256 { bytes: b }
    }

    pub fn is_zero(&self) -> (r: bool)
        requires
            self.wf(),
        ensures
            r <==> self@ == 0,
    {
        let mut i: usize = 0;
        while i < 32
            invariant
                self.wf(),
                i <= 32,
                forall|j: int| 0 <= j < i ==> self.bytes@[j] == 0,
            decreases 32 - i,
        {
            if self.bytes[i] != 0 {
                proof {
                    lemma_le_bytes_val_nonzero(self.bytes@, i as int);
                }
                return false;
            }
            i = i + 1;
        }
        proof {
            lemma_le_bytes_val_all_zero(self.bytes@);
        }
        true
    }

    /// Returns a fresh amount with the same value.
    pub fn dup(&self) -> (r: U256)
        requires
            self.wf(),
        ensures
            r.wf(),
            r@ == self@,
    {
        let mut b: Vec<u8> = Vec::new();
        let mut i: usize = 0;
        while i < 32
            invariant
                self.wf(),
                i <= 32,
                b@.len() == i,
                forall|j: int| 0 <= j < i ==> b@[j] == self.bytes@[j],
            decreases 32 - i,
        {
            b.push(self.bytes[i]);
            i = i + 1;
        }
        proof {
            assert(b@ =~= self.bytes@);
        }
        U256 { bytes: b }
    }

    /// Checked addition: `None` exactly when the mathematical sum leaves the
    /// 256-bit domain.
    pub fn checked_add(&self, other: &U256) -> (r: Option<U256>)
        requires
            self.wf(),
            other.wf(),
        ensures
            match r {
                Some(c) => c.wf() && c@ == self@ + other@,
                None => self@ + other@ >= u256_bound(),
            },
    {
        let mut out: Vec<u8> = Vec::new();
        let mut carry: u16 = 0;
        let mut i: usize = 0;
        while i < 32
            invariant
                self.wf(),
                other.wf(),
                i <= 32,
                out@.len() == i,
                carry <= 1,
                le_bytes_val(out@) + (carry as nat) * pow256(i as nat) == le_bytes_val(
                    self.bytes@.take(i as int),
                ) + le_bytes_val(other.bytes@.take(i as int)),
            decreases 32 - i,
        {
            let a: u16 = self.bytes[i] as u16;
            let b: u16 = other.bytes[i] as u16;
            let s: u16 = a + b + carry;
            let lo: u8 = (s % 256) as u8;
            let hi: u16 = s / 256;
            proof {
                let p = pow256(i as nat);
                lemma_le_bytes_val_push(out@, lo);
                lemma_le_bytes_val_take_step(self.bytes@, i as int);
                lemma_le_bytes_val_take_step(other.bytes@, i as int);
                assert((lo as nat) * p + (hi as nat) * (256 * p) == (s as nat) * p)
                    by (nonlinear_arith)
                    requires
                        s == lo + 256 * hi,
                        p >= 0,
                ;
                assert((s as nat) * p == (a as nat) * p + (b as nat) * p + (carry as nat) * p)
                    by (nonlinear_arith)
                    requires
                        s == a + b + carry,
                        p >= 0,
                ;
            }
            out.push(lo);
            carry = hi;
            i = i + 1;
        }
        proof {
            assert(self.bytes@.take(32) =~= self.bytes@);
            assert(other.bytes@.take(32) =~= other.bytes@);
        }
        if carry != 0 {
            proof {
                lemma_le_bytes_val_bound(out@);
            }
            None
        } else {
            Some(U256 { bytes: out })
        }
    }

    /// The 32-byte big-endian wire form of this amount.
    pub fn to_be_bytes(&self) -> (r: Vec<u8>)
        requires
            self.wf(),
        ensures
            r@.len() == 32,
            r@ == self.bytes@.reverse(),
            be_bytes_val(r@) == self@,
            r@ == be_of_val(self@, 32),
    {
        let mut out: Vec<u8> = Vec::new();
        let mut i: usize = 0;
        while i < 32
            invariant
                self.wf(),
                i <= 32,
                out@.len() == i,
                forall|j: int| 0 <= j < i ==> out@[j] == self.bytes@[31 - j],
            decreases 32 - i,
        {
            out.push(self.bytes[31 - i]);
            i = i + 1;
        }
        proof {
            assert(out@ =~= self.bytes@.reverse());
            assert(out@.reverse() =~= self.bytes@);
            lemma_le_bytes_val_bound(self.bytes@);
            lemma_le_of_val(self@, 32);
            lemma_le_bytes_val_injective(le_of_val(self@, 32), self.bytes@);
            assert(out@ =~= be_of_val(self@, 32));
        }
        out
    }

    /// The value as a `u64`, where it fits.
    pub fn try_to_u64(&self) -> (r: Option<u64>)
        requires
            self.wf(),
        ensures
            match r {
                Some(x) => x as nat == self@,
                None => self@ > u64::MAX as nat,
            },
    {
        let mut i: usize = 8;
        while i < 32
            invariant
                self.wf(),
                8 <= i <= 32,
                forall|j: int| 8 <= j < i ==> self.bytes@[j] == 0,
            decreases 32 - i,
        {
            if self.bytes[i] != 0 {
                proof {
                    lemma_le_bytes_val_split(self.bytes@, 8);
                    lemma_le_bytes_val_nonzero(self.bytes@.skip(8), i - 8);
                    assert(pow256(8) == 0x1_0000_0000_0000_0000) by {
                        reveal_with_fuel(pow256, 9);
                    }
                    assert(pow256(8) * le_bytes_val(self.bytes@.skip(8)) >= pow256(8))
                        by (nonlinear_arith)
                        requires
                            le_bytes_val(self.bytes@.skip(8)) >= 1,
                            pow256(8) >= 0,
                    ;
                }
                return None;
            }
            i = i + 1;
        }
        let mut acc: u64 = 0;
        let mut k: usize = 8;
        proof {
            assert(self.bytes@.subrange(8, 8).len() == 0);
        }
        while k > 0
            invariant
                self.wf(),
                k <= 8,
                acc as nat == le_bytes_val(self.bytes@.subrange(k as int, 8)),
            decreases k,
        {
            k = k - 1;
            proof {
                let sub = self.bytes@.subrange(k as int, 8);
                lemma_le_bytes_val_front(sub);
                assert(sub.skip(1) =~= self.bytes@.subrange(k as int + 1, 8));
                lemma_le_bytes_val_bound(sub);
                lemma_pow256_increases(sub.len() as nat, 8);
                assert(pow256(8) == 0x1_0000_0000_0000_0000) by {
                    reveal_with_fuel(pow256, 9);
                }
            }
            acc = acc * 256 + (self.bytes[k] as u64);
        }
        proof {
            lemma_le_bytes_val_split(self.bytes@, 8);
            assert forall|j: int| 0 <= j < self.bytes@.skip(8).len() implies self.bytes@.skip(
                8,
            )[j] == 0 by {}
            lemma_le_bytes_val_all_zero(self.bytes@.skip(8));
            assert(self.bytes@.subrange(0, 8) =~= self.bytes@.take(8));
        }
        Some(acc)
    }

    /// Reads an amount from its 32-byte big-endian wire form.
    pub fn from_be_bytes(v: &Vec<u8>) -> (r: U256)
        requires
            v@.len() == 32,
        ensures
            r.wf(),
            r@ == be_bytes_val(v@),
    {
        let mut le: Vec<u8> = Vec::new();
        let mut i: usize = 0;
        while i < 32
            invariant
                v@.len() == 32,
                i <= 32,
                le@.len() == i,
                forall|j: int| 0 <= j < i ==> le@[j] == v@[31 - j],
            decreases 32 - i,
        {
            le.push(v[31 - i]);
            i = i + 1;
        }
        proof {
            assert(le@ =~= v@.reverse());
        }
        U256 { bytes: le }
    }
}

} // verus!
