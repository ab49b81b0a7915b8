//! The read-only portfolio aggregator.
//!
//! Each query to an external token contract either succeeds with raw reply
//! bytes or fails; a failed or malformed reply never aborts a batch but is
//! replaced by a documented fallback value: balance 0, 18 decimals, symbol
//! "UNKNOWN", name "Unknown Token". Batches preserve input order and always
//! answer one entry per input.

use vstd::prelude::*;
use vstd::string::StringExecFns;
use crate::abi::spec_string_reply;
use crate::abi::spec_u8_reply;
use crate::abi::spec_uint_reply;
use crate::abi::decode_string_reply;
use crate::abi::decode_u8_reply;
use crate::abi::decode_uint_reply;
use crate::address::Address;
use crate::u256::U256;

verus! {

/// What came back from one external call: its raw output bytes, or failure
/// (the target reverted, is not a contract, or does not implement the
/// function).
#[derive(Debug)]
pub enum CallOutcome {
    Success(Vec<u8>),
    Failure,
}

/// The four query replies collected for one token.
#[derive(Debug)]
pub struct TokenReplies {
    pub balance: CallOutcome,
    pub decimals: CallOutcome,
    pub symbol: CallOutcome,
    pub name: CallOutcome,
}

/// Consolidated information about one token.
#[derive(Debug)]
pub struct TokenInfo {
    pub token_address: Address,
    pub balance: U256,
    pub decimals: u8,
    pub symbol: String,
    pub name: String,
}

/// Consolidated balances of one user.
#[derive(Debug)]
pub struct BatchBalanceResult {
    pub user_address: Address,
    pub eth_balance: U256,
    pub token_count: U256,
    pub tokens: Vec<TokenInfo>,
}

/// The balance a reply stands for: the 32-byte word it carries, 0 on
/// failure or any other shape.
pub open spec fn spec_token_balance(o: CallOutcome) -> nat {
    match o {
        CallOutcome::Success(data) => match spec_uint_reply(data@) {
            Some(v) => v,
            None => 0,
        },
        CallOutcome::Failure => 0,
    }
}

/// The decimals a reply stands for: the byte it carries, 18 on failure or
/// any other shape.
pub open spec fn spec_token_decimals(o: CallOutcome) -> u8 {
    match o {
        CallOutcome::Success(data) => match spec_u8_reply(data@) {
            Some(d) => d,
            None => 18,
        },
        CallOutcome::Failure => 18,
    }
}

/// The symbol a reply stands for: the string it carries, "UNKNOWN" on
/// failure or any malformed shape.
pub open spec fn spec_token_symbol(o: CallOutcome) -> Seq<char> {
    match o {
        CallOutcome::Success(data) => match spec_string_reply(data@) {
            Some(cs) => cs,
            None => "UNKNOWN"@,
        },
        CallOutcome::Failure => "UNKNOWN"@,
    }
}

/// The name a reply stands for: the string it carries, "Unknown Token" on
/// failure or any malformed shape.
pub open spec fn spec_token_name(o: CallOutcome) -> Seq<char> {
    match o {
        CallOutcome::Success(data) => match spec_string_reply(data@) {
            Some(cs) => cs,
            None => "Unknown Token"@,
        },
        CallOutcome::Failure => "Unknown Token"@,
    }
}

/// The stateless aggregator.
#[derive(Debug)]
pub struct PortfolioReader {
}

impl PortfolioReader {
    pub fn constructor() -> (r: PortfolioReader) {
        PortfolioReader {  }
    }

    /// The balance carried by one balance-query reply, with the fallback.
    pub fn get_token_balance(&self, reply: &CallOutcome) -> (r: U256)
        ensures
            r.wf(),
            r@ == spec_token_balance(*reply),
    {
        match reply {
            CallOutcome::Success(data) => match decode_uint_reply(data) {
                Some(v) => v,
                None => U256::zero(),
            },
            CallOutcome::Failure => U256::zero(),
        }
    }

    /// The decimals carried by one decimals-query reply, with the fallback.
    pub fn get_token_decimals(&self, reply: &CallOutcome) -> (r: u8)
        ensures
            r == spec_token_decimals(*reply),
    {
        match reply {
            CallOutcome::Success(data) => match decode_u8_reply(data) {
                Some(d) => d,
                None => 18,
            },
            CallOutcome::Failure => 18,
        }
    }

    /// The symbol carried by one symbol-query reply, with the fallback.
    pub fn get_token_symbol(&self, reply: &CallOutcome) -> (r: String)
        ensures
            r@ == spec_token_symbol(*reply),
    {
        match reply {
            CallOutcome::Success(data) => match decode_string_reply(data) {
                Some(s) => s,
                None => String::from_str("UNKNOWN"),
            },
            CallOutcome::Failure => String::from_str("UNKNOWN"),
        }
    }

    /// The name carried by one name-query reply, with the fallback.
    pub fn get_token_name(&self, reply: &CallOutcome) -> (r: String)
        ensures
            r@ == spec_token_name(*reply),
    {
        match reply {
            CallOutcome::Success(data) => match decode_string_reply(data) {
                Some(s) => s,
                None => String::from_str("Unknown Token"),
            },
            CallOutcome::Failure => String::from_str("Unknown Token"),
        }
    }

    /// One balance per reply, in input order, each with the fallback.
    pub fn batch_get_balances(&self, replies: &Vec<CallOutcome>) -> (r: Vec<U256>)
        ensures
            r@.len() == replies@.len(),
            forall|i: int|
                0 <= i < r@.len() ==> (#[trigger] r@[i]).wf() && r@[i]@ == spec_token_balance(
                    replies@[i],
                ),
    {
        let mut out: Vec<U256> = Vec::new();
        let n = replies.len();
        let mut i: usize = 0;
        while i < n
            invariant
                n == replies@.len(),
                i <= n,
                out@.len() == i,
                forall|j: int|
                    0 <= j < i ==> (#[trigger] out@[j]).wf() && out@[j]@ == spec_token_balance(
                        replies@[j],
                    ),
            decreases n - i,
        {
            let b = self.get_token_balance(&replies[i]);
            out.push(b);
            i = i + 1;
        }
        out
    }

    /// The consolidated information for one token, each field independently
    /// subject to its fallback.
    pub fn token_info(&self, token: &Address, replies: &TokenReplies) -> (r: TokenInfo)
        requires
            token.wf(),
        ensures
            r.token_address.wf(),
            r.token_address@ == token@,
            r.balance.wf(),
            r.balance@ == spec_token_balance(replies.balance),
            r.decimals == spec_token_decimals(replies.decimals),
            r.symbol@ == spec_token_symbol(replies.symbol),
            r.name@ == spec_token_name(replies.name),
    {
        TokenInfo {
            token_address: token.dup(),
            balance: self.get_token_balance(&replies.balance),
            decimals: self.get_token_decimals(&replies.decimals),
            symbol: self.get_token_symbol(&replies.symbol),
            name: self.get_token_name(&replies.name),
        }
    }

    /// One `(balance, decimals, symbol, name)` tuple per token, in input
    /// order, each field independently subject to its fallback.
    pub fn batch_get_token_info(&self, queries: &Vec<TokenReplies>) -> (r: Vec<
        (U256, u8, String, String),
    >)
        ensures
            r@.len() == queries@.len(),
            forall|i: int|
                0 <= i < r@.len() ==> (#[trigger] r@[i]).0.wf() && r@[i].0@ == spec_token_balance(
                    queries@[i].balance,
                ) && r@[i].1 == spec_token_decimals(queries@[i].decimals) && r@[i].2@
                    == spec_token_symbol(queries@[i].symbol) && r@[i].3@ == spec_token_name(
                    queries@[i].name,
                ),
    {
        let mut out: Vec<(U256, u8, String, String)> = Vec::new();
        let n = queries.len();
        let mut i: usize = 0;
        while i < n
            invariant
                n == queries@.len(),
                i <= n,
                out@.len() == i,
                forall|j: int|
                    0 <= j < i ==> (#[trigger] out@[j]).0.wf() && out@[j].0@ == spec_token_balance(
                        queries@[j].balance,
                    ) && out@[j].1 == spec_token_decimals(queries@[j].decimals) && out@[j].2@
                        == spec_token_symbol(queries@[j].symbol) && out@[j].3@ == spec_token_name(
                        queries@[j].name,
                    ),
            decreases n - i,
        {
            let q = &queries[i];
            let entry = (
                self.get_token_balance(&q.balance),
                self.get_token_decimals(&q.decimals),
                self.get_token_symbol(&q.symbol),
                self.get_token_name(&q.name),
            );
            out.push(entry);
            i = i + 1;
        }
        out
    }

    /// The full consolidated view: the user's native balance, and one
    /// `(token, balance, decimals, symbol, name)` tuple per queried token,
    /// in input order.
    pub fn get_portfolio(&self, eth_balance: U256, queries: &Vec<(Address, TokenReplies)>) -> (r: (
        U256,
        Vec<(Address, U256, u8, String, String)>,
    ))
        requires
            eth_balance.wf(),
            forall|i: int| 0 <= i < queries@.len() ==> (#[trigger] queries@[i]).0.wf(),
        ensures
            r.0.wf(),
            r.0@ == eth_balance@,
            r.1@.len() == queries@.len(),
            forall|i: int|
                0 <= i < r.1@.len() ==> (#[trigger] r.1@[i]).0@ == queries@[i].0@ && r.1@[i].1@
                    == spec_token_balance(queries@[i].1.balance) && r.1@[i].2
                    == spec_token_decimals(queries@[i].1.decimals) && r.1@[i].3@
                    == spec_token_symbol(queries@[i].1.symbol) && r.1@[i].4@ == spec_token_name(
                    queries@[i].1.name,
                ),
    {
        let mut out: Vec<(Address, U256, u8, String, String)> = Vec::new();
        let n = queries.len();
        let mut i: usize = 0;
        while i < n
            invariant
                n == queries@.len(),
                i <= n,
                out@.len() == i,
                forall|j: int| 0 <= j < queries@.len() ==> (#[trigger] queries@[j]).0.wf(),
                forall|j: int|
                    0 <= j < i ==> (#[trigger] out@[j]).0@ == queries@[j].0@ && out@[j].1@
                        == spec_token_balance(queries@[j].1.balance) && out@[j].2
                        == spec_token_decimals(queries@[j].1.decimals) && out@[j].3@
                        == spec_token_symbol(queries@[j].1.symbol) && out@[j].4@
                        == spec_token_name(queries@[j].1.name),
            decreases n - i,
        {
            let q = &queries[i];
            let entry = (
                q.0.dup(),
                self.get_token_balance(&q.1.balance),
                self.get_token_decimals(&q.1.decimals),
                self.get_token_symbol(&q.1.symbol),
                self.get_token_name(&q.1.name),
            );
            out.push(entry);
            i = i + 1;
        }
        (eth_balance, out)
    }

    /// Whether each queried address holds executable code: one answer per
    /// reported code size, in input order.
    pub fn batch_is_contract(&self, code_sizes: &Vec<U256>) -> (r: Vec<bool>)
        requires
            forall|i: int| 0 <= i < code_sizes@.len() ==> (#[trigger] code_sizes@[i]).wf(),
        ensures
            r@.len() == code_sizes@.len(),
            forall|i: int| 0 <= i < r@.len() ==> (#[trigger] r@[i]) == (code_sizes@[i]@ > 0),
    {
        let mut out: Vec<bool> = Vec::new();
        let n = code_sizes.len();
        let mut i: usize = 0;
        while i < n
            invariant
                n == code_sizes@.len(),
                i <= n,
                out@.len() == i,
                forall|j: int| 0 <= j < code_sizes@.len() ==> (#[trigger] code_sizes@[j]).wf(),
                forall|j: int| 0 <= j < i ==> (#[trigger] out@[j]) == (code_sizes@[j]@ > 0),
            decreases n - i,
        {
            out.push(!code_sizes[i].is_zero());
            i = i + 1;
        }
        out
    }
}

} // verus!
