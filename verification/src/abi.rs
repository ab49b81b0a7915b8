//! Call-payload encoding and reply decoding for the standardized
//! fungible-token interface.
//!
//! A call payload is the 4-byte function selector followed by the ABI words
//! of the arguments: an account identifier is right-aligned in a 32-byte
//! field with the high 12 bytes zero, an amount is its 32-byte big-endian
//! form. Replies are decoded back into plain values; a malformed reply
//! decodes to `None`.

use vstd::prelude::*;
use crate::address::Address;
use crate::u256::U256;
use crate::u256::be_bytes_val;
use crate::u256::be_of_val;
use crate::u256::le_of_val;
use crate::u256::lemma_le_of_val;
use crate::u256::u256_bound;

verus! {

/// Selector of `transferFrom(address,address,uint256)`.
pub open spec fn transfer_from_selector() -> Seq<u8> {
    seq![0x23u8, 0xb8u8, 0x72u8, 0xddu8]
}

/// Selector of `balanceOf(address)`.
pub open spec fn balance_of_selector() -> Seq<u8> {
    seq![0x70u8, 0xa0u8, 0x82u8, 0x31u8]
}

/// Selector of `decimals()`.
pub open spec fn decimals_selector() -> Seq<u8> {
    seq![0x31u8, 0x3cu8, 0xe5u8, 0x67u8]
}

/// Selector of `symbol()`.
pub open spec fn symbol_selector() -> Seq<u8> {
    seq![0x95u8, 0xd8u8, 0x9bu8, 0x41u8]
}

/// Selector of `name()`.
pub open spec fn name_selector() -> Seq<u8> {
    seq![0x06u8, 0xfdu8, 0xdeu8, 0x03u8]
}

/// A 20-byte account identifier right-aligned in a 32-byte ABI word.
pub open spec fn abi_address_word(a: Seq<u8>) -> Seq<u8> {
    Seq::new(12, |i: int| 0u8) + a
}

/// The full transfer-on-behalf call payload.
pub open spec fn transfer_from_payload(from: Seq<u8>, to: Seq<u8>, amount: nat) -> Seq<u8> {
    transfer_from_selector() + abi_address_word(from) + abi_address_word(to) + be_of_val(amount, 32)
}

/// The balance-query call payload.
pub open spec fn balance_of_payload(user: Seq<u8>) -> Seq<u8> {
    balance_of_selector() + abi_address_word(user)
}

/// The transfer-on-behalf payload is exactly 100 bytes: the selector, the
/// two accounts each right-aligned in 32 bytes, then the 32-byte big-endian
/// amount.
pub proof fn lemma_transfer_from_payload_layout(from: Seq<u8>, to: Seq<u8>, amount: nat)
    requires
        from.len() == 20,
        to.len() == 20,
        amount < u256_bound(),
    ensures
        transfer_from_payload(from, to, amount).len() == 100,
        transfer_from_payload(from, to, amount).subrange(0, 4) =~= transfer_from_selector(),
        transfer_from_payload(from, to, amount).subrange(4, 36) =~= abi_address_word(from),
        transfer_from_payload(from, to, amount).subrange(36, 68) =~= abi_address_word(to),
        transfer_from_payload(from, to, amount).subrange(68, 100) =~= be_of_val(amount, 32),
        be_bytes_val(transfer_from_payload(from, to, amount).subrange(68, 100)) == amount,
{
    let p = transfer_from_payload(from, to, amount);
    assert(p.subrange(68, 100) =~= be_of_val(amount, 32));
    assert(be_of_val(amount, 32).reverse() =~= le_of_val(amount, 32));
    lemma_le_of_val(amount, 32);
}

/// Appends the 32-byte ABI word of an account identifier.
fn push_address_word(out: &mut Vec<u8>, a: &Address)
    requires
        a.wf(),
    ensures
        final(out)@ == old(out)@ + abi_address_word(a@),
{
    let n0 = out.len();
    let mut i: usize = 0;
    while i < 12
        invariant
            i <= 12,
            old(out)@.len() == n0,
            out@.len() == n0 + i,
            forall|j: int| 0 <= j < n0 ==> out@[j] == old(out)@[j],
            forall|j: int| n0 <= j < n0 + i ==> out@[j] == 0,
        decreases 12 - i,
    {
        out.push(0u8);
        i = i + 1;
    }
    let mut k: usize = 0;
    while k < 20
        invariant
            a.wf(),
            k <= 20,
            old(out)@.len() == n0,
            out@.len() == n0 + 12 + k,
            forall|j: int| 0 <= j < n0 ==> out@[j] == old(out)@[j],
            forall|j: int| n0 <= j < n0 + 12 ==> out@[j] == 0,
            forall|j: int| 0 <= j < k ==> out@[n0 + 12 + j] == a@[j],
        decreases 20 - k,
    {
        out.push(a.bytes[k]);
        k = k + 1;
    }
    proof {
        assert(out@ =~= old(out)@ + abi_address_word(a@));
    }
}

/// Builds the transfer-on-behalf call payload for the given accounts and
/// amount; always exactly 100 bytes.
pub fn encode_transfer_from(from: &Address, to: &Address, amount: &U256) -> (r: Vec<u8>)
    requires
        from.wf(),
        to.wf(),
        amount.wf(),
    ensures
        r@ == transfer_from_payload(from@, to@, amount@),
        r@.len() == 100,
{
    let mut out: Vec<u8> = Vec::new();
    out.push(0x23u8);
    out.push(0xb8u8);
    out.push(0x72u8);
    out.push(0xddu8);
    proof {
        assert(out@ =~= transfer_from_selector());
    }
    push_address_word(&mut out, from);
    push_address_word(&mut out, to);
    let mut tail = amount.to_be_bytes();
    out.append(&mut tail);
    proof {
        assert(out@ =~= transfer_from_payload(from@, to@, amount@));
    }
    out
}

/// Builds the balance-query call payload; always exactly 36 bytes.
pub fn encode_balance_of(user: &Address) -> (r: Vec<u8>)
    requires
        user.wf(),
    ensures
        r@ == balance_of_payload(user@),
        r@.len() == 36,
{
    let mut out: Vec<u8> = Vec::new();
    out.push(0x70u8);
    out.push(0xa0u8);
    out.push(0x82u8);
    out.push(0x31u8);
    proof {
        assert(out@ =~= balance_of_selector());
    }
    push_address_word(&mut out, user);
    proof {
        assert(out@ =~= balance_of_payload(user@));
    }
    out
}

/// Builds the zero-argument `decimals()` call payload.
pub fn encode_decimals_call() -> (r: Vec<u8>)
    ensures
        r@ == decimals_selector(),
{
    let mut out: Vec<u8> = Vec::new();
    out.push(0x31u8);
    out.push(0x3cu8);
    out.push(0xe5u8);
    out.push(0x67u8);
    proof {
        assert(out@ =~= decimals_selector());
    }
    out
}

/// Builds the zero-argument `symbol()` call payload.
pub fn encode_symbol_call() -> (r: Vec<u8>)
    ensures
        r@ == symbol_selector(),
{
    let mut out: Vec<u8> = Vec::new();
    out.push(0x95u8);
    out.push(0xd8u8);
    out.push(0x9bu8);
    out.push(0x41u8);
    proof {
        assert(out@ =~= symbol_selector());
    }
    out
}

/// Builds the zero-argument `name()` call payload.
pub fn encode_name_call() -> (r: Vec<u8>)
    ensures
        r@ == name_selector(),
{
    let mut out: Vec<u8> = Vec::new();
    out.push(0x06u8);
    out.push(0xfdu8);
    out.push(0xdeu8);
    out.push(0x03u8);
    proof {
        assert(out@ =~= name_selector());
    }
    out
}

/// Copies `count` bytes of `data` starting at `start`.
fn copy_range(data: &Vec<u8>, start: usize, count: usize) -> (r: Vec<u8>)
    requires
        start + count <= data@.len(),
    ensures
        r@ == data@.subrange(start as int, start as int + count as int),
{
    let mut out: Vec<u8> = Vec::new();
    let dl: usize = data.len();
    let mut i: usize = 0;
    while i < count
        invariant
            start + count <= dl,
            dl == data@.len(),
            i <= count,
            out@.len() == i,
            forall|j: int| 0 <= j < i ==> out@[j] == data@[start + j],
        decreases count - i,
    {
        out.push(data[start + i]);
        i = i + 1;
    }
    proof {
        assert(out@ =~= data@.subrange(start as int, start as int + count as int));
    }
    out
}

/// The amount held in a 32-byte reply word; `None` for any other length.
pub open spec fn spec_uint_reply(data: Seq<u8>) -> Option<nat> {
    if data.len() == 32 {
        Some(be_bytes_val(data))
    } else {
        None
    }
}

/// Decodes a reply that carries one unsigned amount.
pub fn decode_uint_reply(data: &Vec<u8>) -> (r: Option<U256>)
    ensures
        r is Some <==> spec_uint_reply(data@) is Some,
        r matches Some(v) ==> v.wf() && spec_uint_reply(data@) == Some(v@),
{
    if data.len() == 32 {
        Some(U256::from_be_bytes(data))
    } else {
        None
    }
}

/// The byte held in a 32-byte reply word whose high 31 bytes are zero;
/// `None` for any other shape.
pub open spec fn spec_u8_reply(data: Seq<u8>) -> Option<u8> {
    if data.len() == 32 && (forall|i: int| 0 <= i < 31 ==> data[i] == 0) {
        Some(data[31])
    } else {
        None
    }
}

/// Decodes a reply that carries one byte-sized unsigned integer.
pub fn decode_u8_reply(data: &Vec<u8>) -> (r: Option<u8>)
    ensures
        r == spec_u8_reply(data@),
{
    if data.len() != 32 {
        return None;
    }
    let mut i: usize = 0;
    while i < 31
        invariant
            data@.len() == 32,
            i <= 31,
            forall|j: int| 0 <= j < i ==> data@[j] == 0,
        decreases 31 - i,
    {
        if data[i] != 0 {
            return None;
        }
        i = i + 1;
    }
    Some(data[31])
}

/// UTF-8 decoding of a byte string: the characters where the bytes are valid
/// UTF-8, `None` where they are not.
pub uninterp spec fn utf8_decode(b: Seq<u8>) -> Option<Seq<char>>;

/// Relies on alloc's `String::from_utf8`: it returns `Ok` exactly for valid
/// UTF-8 input, the decoding is a function of the bytes alone, and bytes
/// that are all below 128 are valid and decode one byte to one character of
/// the same code point.
#[verifier::external_body]
fn string_from_utf8(b: Vec<u8>) -> (r: Option<String>)
    ensures
        r is Some <==> utf8_decode(b@) is Some,
        r is Some ==> utf8_decode(b@) == Some(r.unwrap()@),
        (forall|i: int| 0 <= i < b@.len() ==> b@[i] < 128) ==> r is Some,
        r is Some && (forall|i: int| 0 <= i < b@.len() ==> b@[i] < 128) ==> r.unwrap()@.len()
            == b@.len() && (forall|i: int|
            0 <= i < b@.len() ==> r.unwrap()@[i] as int == b@[i] as int),
{
    match String::from_utf8(b) {
        Ok(s) => Some(s),
        Err(_) => None,
    }
}

/// The byte payload of an ABI-encoded string reply: a 32-byte offset word,
/// a 32-byte length word at that offset, then that many bytes of content;
/// `None` where any of these leaves the reply's bounds.
pub open spec fn spec_string_reply_bytes(data: Seq<u8>) -> Option<Seq<u8>> {
    if data.len() < 64 {
        None
    } else {
        let off = be_bytes_val(data.subrange(0, 32)) as int;
        if off + 32 > data.len() {
            None
        } else {
            let strlen = be_bytes_val(data.subrange(off, off + 32)) as int;
            if off + 32 + strlen > data.len() {
                None
            } else {
                Some(data.subrange(off + 32, off + 32 + strlen))
            }
        }
    }
}

/// The characters of an ABI-encoded string reply; `None` where the reply is
/// malformed or its content is not valid UTF-8.
pub open spec fn spec_string_reply(data: Seq<u8>) -> Option<Seq<char>> {
    match spec_string_reply_bytes(data) {
        Some(bs) => utf8_decode(bs),
        None => None,
    }
}

/// Decodes a reply that carries one string.
pub fn decode_string_reply(data: &Vec<u8>) -> (r: Option<String>)
    ensures
        r is Some <==> spec_string_reply(data@) is Some,
        r matches Some(s) ==> spec_string_reply(data@) == Some(s@),
{
    if data.len() < 64 {
        return None;
    }
    let off_word = copy_range(data, 0, 32);
    let off_u = U256::from_be_bytes(&off_word);
    let off64: u64 = match off_u.try_to_u64() {
        Some(x) => x,
        None => {
            return None;
        },
    };
    if off64 > (data.len() as u64) - 32 {
        return None;
    }
    let off: usize = off64 as usize;
    let len_word = copy_range(data, off, 32);
    let len_u = U256::from_be_bytes(&len_word);
    let len64: u64 = match len_u.try_to_u64() {
        Some(x) => x,
        None => {
            return None;
        },
    };
    if len64 > (data.len() as u64) - (off64 + 32) {
        return None;
    }
    let strlen: usize = len64 as usize;
    let body = copy_range(data, off + 32, strlen);
    string_from_utf8(body)
}

} // verus!
