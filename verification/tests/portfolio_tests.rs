use batch_ledger::abi::encode_balance_of;
use batch_ledger::abi::encode_decimals_call;
use batch_ledger::abi::encode_name_call;
use batch_ledger::abi::encode_symbol_call;
use batch_ledger::abi::encode_transfer_from;
use batch_ledger::address::Address;
use batch_ledger::portfolio::CallOutcome;
use batch_ledger::portfolio::PortfolioReader;
use batch_ledger::portfolio::TokenReplies;
use batch_ledger::u256::U256;

fn addr(b: u8) -> Address {
    Address::from_bytes(vec![b; 20])
}

fn u(x: u64) -> U256 {
    U256::from_u64(x)
}

/// A 32-byte big-endian word carrying a small value.
fn word(x: u64) -> Vec<u8> {
    U256::from_u64(x).to_be_bytes()
}

/// A well-formed ABI string reply: offset word, length word, padded content.
fn string_reply(s: &str) -> Vec<u8> {
    let mut out = word(32);
    out.extend_from_slice(&word(s.len() as u64));
    out.extend_from_slice(s.as_bytes());
    while out.len() % 32 != 0 {
        out.push(0);
    }
    out
}

fn failing_replies() -> TokenReplies {
    TokenReplies {
        balance: CallOutcome::Failure,
        decimals: CallOutcome::Failure,
        symbol: CallOutcome::Failure,
        name: CallOutcome::Failure,
    }
}

fn good_replies(balance: u64, decimals: u8, symbol: &str, name: &str) -> TokenReplies {
    TokenReplies {
        balance: CallOutcome::Success(word(balance)),
        decimals: CallOutcome::Success(word(decimals as u64)),
        symbol: CallOutcome::Success(string_reply(symbol)),
        name: CallOutcome::Success(string_reply(name)),
    }
}

#[test]
fn test_portfolio_reader() {
    let reader = PortfolioReader::constructor();

    // A fresh account holds no native balance.
    let (eth_balance, tokens) = reader.get_portfolio(U256::zero(), &vec![]);
    assert_eq!(eth_balance, U256::zero());
    assert_eq!(tokens.len(), 0);

    // Plain accounts hold no code, so they are not contracts.
    let sizes = vec![U256::zero(), U256::zero()];
    let is_contract_results = reader.batch_is_contract(&sizes);
    assert_eq!(is_contract_results.len(), 2);
    assert_eq!(is_contract_results[0], false);
    assert_eq!(is_contract_results[1], false);
}

#[test]
fn batch_is_contract_reports_code_presence_in_order() {
    let reader = PortfolioReader::constructor();
    let sizes = vec![u(1234), U256::zero(), u(1)];
    let r = reader.batch_is_contract(&sizes);
    assert_eq!(r, vec![true, false, true]);
}

#[test]
fn failed_queries_fall_back_to_documented_values() {
    let reader = PortfolioReader::constructor();
    assert_eq!(reader.get_token_balance(&CallOutcome::Failure), U256::zero());
    assert_eq!(reader.get_token_decimals(&CallOutcome::Failure), 18);
    assert_eq!(reader.get_token_symbol(&CallOutcome::Failure), "UNKNOWN".to_string());
    assert_eq!(reader.get_token_name(&CallOutcome::Failure), "Unknown Token".to_string());
}

#[test]
fn malformed_replies_fall_back_too() {
    let reader = PortfolioReader::constructor();
    // A balance reply of the wrong width.
    assert_eq!(reader.get_token_balance(&CallOutcome::Success(vec![1, 2, 3])), U256::zero());
    // A decimals reply whose high bytes are dirty.
    let mut dirty = word(6);
    dirty[0] = 1;
    assert_eq!(reader.get_token_decimals(&CallOutcome::Success(dirty)), 18);
    // A string reply whose offset points past the end.
    let mut bad = word(4096);
    bad.extend_from_slice(&word(0));
    assert_eq!(reader.get_token_symbol(&CallOutcome::Success(bad)), "UNKNOWN".to_string());
    // A string reply whose content is not valid UTF-8.
    let mut nonutf8 = word(32);
    nonutf8.extend_from_slice(&word(2));
    nonutf8.extend_from_slice(&[0xC0, 0x20]);
    while nonutf8.len() % 32 != 0 {
        nonutf8.push(0);
    }
    assert_eq!(reader.get_token_name(&CallOutcome::Success(nonutf8)), "Unknown Token".to_string());
}

#[test]
fn successful_queries_decode_the_reply() {
    let reader = PortfolioReader::constructor();
    assert_eq!(reader.get_token_balance(&CallOutcome::Success(word(1_000_000))), u(1_000_000));
    assert_eq!(reader.get_token_decimals(&CallOutcome::Success(word(6))), 6);
    assert_eq!(reader.get_token_symbol(&CallOutcome::Success(string_reply("TEST"))), "TEST".to_string());
    assert_eq!(reader.get_token_name(&CallOutcome::Success(string_reply("Test Token"))), "Test Token".to_string());
}

#[test]
fn batch_get_balances_preserves_order_and_isolates_failures() {
    let reader = PortfolioReader::constructor();
    let replies = vec![
        CallOutcome::Success(word(11)),
        CallOutcome::Failure,
        CallOutcome::Success(word(33)),
    ];
    let r = reader.batch_get_balances(&replies);
    assert_eq!(r, vec![u(11), U256::zero(), u(33)]);
}

#[test]
fn batch_get_token_info_defaults_each_failed_field() {
    let reader = PortfolioReader::constructor();
    let queries = vec![good_replies(500, 6, "TKA", "Token A"), failing_replies()];
    let r = reader.batch_get_token_info(&queries);
    assert_eq!(r.len(), 2);
    assert_eq!(r[0].0, u(500));
    assert_eq!(r[0].1, 6);
    assert_eq!(r[0].2, "TKA".to_string());
    assert_eq!(r[0].3, "Token A".to_string());
    assert_eq!(r[1].0, U256::zero());
    assert_eq!(r[1].1, 18);
    assert_eq!(r[1].2, "UNKNOWN".to_string());
    assert_eq!(r[1].3, "Unknown Token".to_string());
}

#[test]
fn get_portfolio_zips_token_identities_back_in() {
    let reader = PortfolioReader::constructor();
    let queries = vec![
        (addr(0x51), good_replies(7, 18, "AAA", "Token AAA")),
        (addr(0x52), failing_replies()),
    ];
    let (eth, infos) = reader.get_portfolio(u(999), &queries);
    assert_eq!(eth, u(999));
    assert_eq!(infos.len(), 2);
    assert_eq!(infos[0].0, addr(0x51));
    assert_eq!(infos[0].1, u(7));
    assert_eq!(infos[0].2, 18);
    assert_eq!(infos[0].3, "AAA".to_string());
    assert_eq!(infos[0].4, "Token AAA".to_string());
    assert_eq!(infos[1].0, addr(0x52));
    assert_eq!(infos[1].1, U256::zero());
    assert_eq!(infos[1].2, 18);
    assert_eq!(infos[1].3, "UNKNOWN".to_string());
    assert_eq!(infos[1].4, "Unknown Token".to_string());
}

#[test]
fn token_info_carries_the_token_identity() {
    let reader = PortfolioReader::constructor();
    let info = reader.token_info(&addr(0x60), &good_replies(12, 8, "XYZ", "Xyz"));
    assert_eq!(info.token_address, addr(0x60));
    assert_eq!(info.balance, u(12));
    assert_eq!(info.decimals, 8);
    assert_eq!(info.symbol, "XYZ".to_string());
    assert_eq!(info.name, "Xyz".to_string());
}

#[test]
fn encoder_is_deterministic_and_exact() {
    let from = addr(0x01);
    let to = addr(0x02);
    let amount = u(0x0102030405060708);
    let p1 = encode_transfer_from(&from, &to, &amount);
    let p2 = encode_transfer_from(&from, &to, &amount);
    assert_eq!(p1, p2);
    assert_eq!(p1.len(), 100);
    assert_eq!(&p1[0..4], &[0x23u8, 0xb8, 0x72, 0xdd]);
    assert_eq!(&p1[4..16], &[0u8; 12]);
    assert_eq!(&p1[16..36], &[0x01u8; 20]);
    assert_eq!(&p1[36..48], &[0u8; 12]);
    assert_eq!(&p1[48..68], &[0x02u8; 20]);
    assert_eq!(&p1[68..92], &[0u8; 24]);
    assert_eq!(&p1[92..100], &[0x01u8, 0x02, 0x03, 0x04, 0x05, 0x06, 0x07, 0x08]);
}

#[test]
fn view_call_payloads_carry_the_selectors() {
    let user = addr(0x0A);
    let b = encode_balance_of(&user);
    assert_eq!(b.len(), 36);
    assert_eq!(&b[0..4], &[0x70u8, 0xa0, 0x82, 0x31]);
    assert_eq!(&b[4..16], &[0u8; 12]);
    assert_eq!(&b[16..36], &[0x0Au8; 20]);
    assert_eq!(encode_decimals_call(), vec![0x31u8, 0x3c, 0xe5, 0x67]);
    assert_eq!(encode_symbol_call(), vec![0x95u8, 0xd8, 0x9b, 0x41]);
    assert_eq!(encode_name_call(), vec![0x06u8, 0xfd, 0xde, 0x03]);
}

#[test]
fn u256_round_trips_through_big_endian_bytes() {
    let v = u(0xDEADBEEF);
    let be = v.to_be_bytes();
    assert_eq!(be.len(), 32);
    let back = U256::from_be_bytes(&be);
    assert_eq!(back, v);
    assert!(U256::zero().is_zero());
    assert!(!u(1).is_zero());
    let sum = u(40).checked_add(&u(2)).unwrap();
    assert_eq!(sum, u(42));
    let max = U256 { bytes: vec![0xffu8; 32] };
    assert!(max.checked_add(&u(1)).is_none());
}
