use batch_ledger::address::Address;
use batch_ledger::errors::Error;
use batch_ledger::ledger::DistributionLedger;
use batch_ledger::u256::U256;

fn addr(b: u8) -> Address {
    Address::from_bytes(vec![b; 20])
}

fn u(x: u64) -> U256 {
    U256::from_u64(x)
}

#[test]
fn test_your_contract() {
    let owner_addr = addr(1);
    let mut contract = DistributionLedger::constructor(owner_addr).unwrap();

    let sender = addr(9);

    assert_eq!(contract.owner(), addr(1));
    assert_eq!(contract.greeting(), "Building Unstoppable Apps!!!".to_string());
    assert_eq!(contract.premium(), false);
    assert_eq!(contract.total_counter(), U256::zero());

    // Setting the greeting without payment.
    let ev = contract.set_greeting(&sender, &U256::zero(), "Hello World".to_string()).unwrap();
    assert_eq!(contract.greeting(), "Hello World".to_string());
    assert_eq!(contract.premium(), false);
    assert_eq!(contract.total_counter(), u(1));
    assert!(!ev.premium);

    assert_eq!(contract.user_greeting_counter(&sender), u(1));

    // Setting the greeting with payment.
    let ev = contract.set_greeting(&sender, &u(100), "Premium Hello".to_string()).unwrap();
    assert_eq!(contract.greeting(), "Premium Hello".to_string());
    assert_eq!(contract.premium(), true);
    assert_eq!(contract.total_counter(), u(2));
    assert_eq!(contract.user_greeting_counter(&sender), u(2));
    assert!(ev.premium);
    assert_eq!(ev.value, u(100));
    assert_eq!(ev.greeting_setter, addr(9));
}

#[test]
fn end_to_end_label_changes() {
    let mut l = DistributionLedger::constructor(addr(1)).unwrap();
    let caller = addr(7);
    l.set_greeting(&caller, &U256::zero(), "A".to_string()).unwrap();
    l.set_greeting(&caller, &u(5), "B".to_string()).unwrap();
    assert_eq!(l.greeting(), "B".to_string());
    assert_eq!(l.premium(), true);
    assert_eq!(l.total_counter(), u(2));
}

#[test]
fn per_caller_counters_are_separate() {
    let mut l = DistributionLedger::constructor(addr(1)).unwrap();
    let a = addr(2);
    let b = addr(3);
    l.set_greeting(&a, &U256::zero(), "x".to_string()).unwrap();
    l.set_greeting(&b, &U256::zero(), "y".to_string()).unwrap();
    l.set_greeting(&a, &U256::zero(), "z".to_string()).unwrap();
    assert_eq!(l.total_counter(), u(3));
    assert_eq!(l.user_greeting_counter(&a), u(2));
    assert_eq!(l.user_greeting_counter(&b), u(1));
    assert_eq!(l.user_greeting_counter(&addr(4)), U256::zero());
}

#[test]
fn constructor_rejects_null_owner() {
    let r = DistributionLedger::constructor(Address::zero());
    assert!(matches!(r, Err(Error::InvalidOwner(_))));
}

#[test]
fn send_native_batch_accumulates_sum() {
    let mut l = DistributionLedger::constructor(addr(1)).unwrap();
    let caller = addr(5);
    let recipients = vec![addr(10), addr(11), addr(12)];
    let amounts = vec![u(10), u(20), u(30)];
    let (transfers, ev) = l.send_native_batch(&caller, &recipients, &amounts).unwrap();
    assert_eq!(transfers.len(), 3);
    assert_eq!(transfers[0].to, addr(10));
    assert_eq!(transfers[0].amount, u(10));
    assert_eq!(transfers[2].to, addr(12));
    assert_eq!(transfers[2].amount, u(30));
    assert_eq!(ev.total_amount, u(60));
    assert_eq!(ev.recipient_count, u(3));
    assert_eq!(ev.from, addr(5));
    assert_eq!(l.get_total_native_sent(), u(60));
    assert_eq!(l.get_user_native_sent(&caller), u(60));
    assert_eq!(l.get_user_native_sent(&addr(10)), U256::zero());
}

#[test]
fn send_native_batch_mismatched_lengths_fails_without_mutation() {
    let mut l = DistributionLedger::constructor(addr(1)).unwrap();
    let caller = addr(5);
    let recipients = vec![addr(10), addr(11)];
    let amounts = vec![u(10)];
    let r = l.send_native_batch(&caller, &recipients, &amounts);
    assert!(matches!(r, Err(Error::BoundsError)));
    assert_eq!(l.get_total_native_sent(), U256::zero());
    assert_eq!(l.get_user_native_sent(&caller), U256::zero());
}

#[test]
fn send_erc20_batch_mismatched_lengths_fails_without_mutation() {
    let mut l = DistributionLedger::constructor(addr(1)).unwrap();
    let caller = addr(5);
    let token = addr(40);
    let recipients = vec![addr(10)];
    let amounts = vec![u(10), u(20)];
    let r = l.send_erc20_batch(&caller, &token, &recipients, &amounts);
    assert!(matches!(r, Err(Error::BoundsError)));
    assert_eq!(l.get_total_erc20_sent(), U256::zero());
    assert_eq!(l.get_user_erc20_sent(&caller), U256::zero());
}

#[test]
fn send_native_individual_counts_and_reports() {
    let mut l = DistributionLedger::constructor(addr(1)).unwrap();
    let caller = addr(5);
    let (t, ev) = l.send_native_individual(&caller, &addr(10), &u(42)).unwrap();
    assert_eq!(t.to, addr(10));
    assert_eq!(t.amount, u(42));
    assert_eq!(ev.from, addr(5));
    assert_eq!(ev.to, addr(10));
    assert_eq!(ev.amount, u(42));
    assert_eq!(l.get_total_native_sent(), u(42));
    assert_eq!(l.get_user_native_sent(&caller), u(42));
}

#[test]
fn send_erc20_individual_builds_the_payload() {
    let mut l = DistributionLedger::constructor(addr(1)).unwrap();
    let caller = addr(0xAA);
    let token = addr(0x50);
    let (call, ev) = l.send_erc20_individual(&caller, &token, &addr(0xBB), &u(1)).unwrap();
    assert_eq!(call.token, addr(0x50));
    let p = &call.payload;
    assert_eq!(p.len(), 100);
    assert_eq!(&p[0..4], &[0x23u8, 0xb8, 0x72, 0xdd]);
    assert_eq!(&p[4..16], &[0u8; 12]);
    assert_eq!(&p[16..36], &[0xAAu8; 20]);
    assert_eq!(&p[36..48], &[0u8; 12]);
    assert_eq!(&p[48..68], &[0xBBu8; 20]);
    assert_eq!(&p[68..99], &[0u8; 31]);
    assert_eq!(p[99], 1);
    assert_eq!(ev.amount, u(1));
    assert_eq!(l.get_total_erc20_sent(), u(1));
    assert_eq!(l.get_user_erc20_sent(&caller), u(1));
}

#[test]
fn send_erc20_batch_accumulates_and_encodes_in_order() {
    let mut l = DistributionLedger::constructor(addr(1)).unwrap();
    let caller = addr(5);
    let token = addr(0x50);
    let recipients = vec![addr(10), addr(11)];
    let amounts = vec![u(7), u(8)];
    let (calls, ev) = l.send_erc20_batch(&caller, &token, &recipients, &amounts).unwrap();
    assert_eq!(calls.len(), 2);
    assert_eq!(calls[0].token, addr(0x50));
    assert_eq!(&calls[0].payload[48..68], &[10u8; 20]);
    assert_eq!(calls[0].payload[99], 7);
    assert_eq!(&calls[1].payload[48..68], &[11u8; 20]);
    assert_eq!(calls[1].payload[99], 8);
    assert_eq!(ev.total_amount, u(15));
    assert_eq!(ev.recipient_count, u(2));
    assert_eq!(l.get_total_erc20_sent(), u(15));
    assert_eq!(l.get_user_erc20_sent(&caller), u(15));
}

#[test]
fn only_owner_may_withdraw() {
    let l = DistributionLedger::constructor(addr(1)).unwrap();
    let r = l.withdraw(&addr(2), &u(100));
    assert!(matches!(r, Err(Error::UnauthorizedAccount(_))));
    assert_eq!(l.owner(), addr(1));

    let t = l.withdraw(&addr(1), &u(100)).unwrap();
    let t = t.unwrap();
    assert_eq!(t.to, addr(1));
    assert_eq!(t.amount, u(100));
}

#[test]
fn withdraw_with_zero_balance_transfers_nothing() {
    let l = DistributionLedger::constructor(addr(1)).unwrap();
    let t = l.withdraw(&addr(1), &U256::zero()).unwrap();
    assert!(t.is_none());
}

#[test]
fn only_owner_may_change_ownership() {
    let mut l = DistributionLedger::constructor(addr(1)).unwrap();
    let r = l.transfer_ownership(&addr(2), &addr(3));
    assert!(matches!(r, Err(Error::UnauthorizedAccount(_))));
    assert_eq!(l.owner(), addr(1));

    let r = l.renounce_ownership(&addr(2));
    assert!(matches!(r, Err(Error::UnauthorizedAccount(_))));
    assert_eq!(l.owner(), addr(1));

    l.transfer_ownership(&addr(1), &addr(3)).unwrap();
    assert_eq!(l.owner(), addr(3));

    let r = l.transfer_ownership(&addr(3), &Address::zero());
    assert!(matches!(r, Err(Error::InvalidOwner(_))));
    assert_eq!(l.owner(), addr(3));

    l.renounce_ownership(&addr(3)).unwrap();
    assert_eq!(l.owner(), Address::zero());
}

#[test]
fn overflowing_totals_fail_without_mutation() {
    let mut l = DistributionLedger::constructor(addr(1)).unwrap();
    let caller = addr(5);
    let max = U256 { bytes: vec![0xffu8; 32] };
    l.send_native_individual(&caller, &addr(10), &max).unwrap();
    let r = l.send_native_individual(&caller, &addr(10), &u(1));
    assert!(matches!(r, Err(Error::Overflow)));
    assert_eq!(l.get_total_native_sent(), max);
}
