//! The notifications an operation emits and the outward actions it requests.
//!
//! Mutating operations return these as plain values; the host glue performs
//! the transfers and calls and publishes the events, in this order, after the
//! state change.

use vstd::prelude::*;
use crate::address::Address;
use crate::u256::U256;

verus! {

/// Notification of a label change.
#[derive(Debug)]
pub struct GreetingChange {
    pub greeting_setter: Address,
    pub new_greeting: String,
    pub premium: bool,
    pub value: U256,
}

/// Notification of a single native-currency transfer.
#[derive(Debug)]
pub struct NativeTokenSent {
    pub from: Address,
    pub to: Address,
    pub amount: U256,
}

/// Aggregate notification of a batched native-currency transfer.
#[derive(Debug)]
pub struct BatchNativeTokenSent {
    pub from: Address,
    pub total_amount: U256,
    pub recipient_count: U256,
}

/// Notification of a single token transfer.
#[derive(Debug)]
pub struct ERC20TokenSent {
    pub token: Address,
    pub from: Address,
    pub to: Address,
    pub amount: U256,
}

/// Aggregate notification of a batched token transfer.
#[derive(Debug)]
pub struct BatchERC20TokenSent {
    pub token: Address,
    pub from: Address,
    pub total_amount: U256,
    pub recipient_count: U256,
}

/// A native-currency transfer the host is asked to perform.
#[derive(Debug)]
pub struct NativeTransfer {
    pub to: Address,
    pub amount: U256,
}

/// An external call the host is asked to dispatch to a token contract.
#[derive(Debug)]
pub struct TokenCall {
    pub token: Address,
    pub payload: Vec<u8>,
}

} // verus!
