use blueshift_anchor_vault::address::Address;
use blueshift_anchor_vault::ledger::Ledger;

fn key(fill: u8) -> Address {
    Address { bytes: [fill; 32] }
}

#[test]
fn new_ledger_is_empty() {
    let ledger = Ledger::new(890_880, 946_560);
    assert_eq!(ledger.rent_floor(), 890_880);
    assert_eq!(ledger.creation_cost(), 946_560);
    assert_eq!(ledger.supply(), 0);
    assert_eq!(ledger.balance(&key(1)), 0);
    assert_eq!(ledger.vault(&key(1)), None);
}

#[test]
fn airdrop_adds_to_the_wallet_and_to_the_supply() {
    let mut ledger = Ledger::new(10, 3);
    assert!(ledger.airdrop(&key(1), 500));
    assert!(ledger.airdrop(&key(2), 70));
    assert!(ledger.airdrop(&key(1), 1));
    assert_eq!(ledger.balance(&key(1)), 501);
    assert_eq!(ledger.balance(&key(2)), 70);
    assert_eq!(ledger.balance(&key(3)), 0);
    assert_eq!(ledger.supply(), 571);
    assert_eq!(ledger.vault(&key(1)), None);
}

#[test]
fn airdrop_of_nothing_changes_no_balance() {
    let mut ledger = Ledger::new(10, 3);
    assert!(ledger.airdrop(&key(1), 0));
    assert_eq!(ledger.balance(&key(1)), 0);
    assert_eq!(ledger.supply(), 0);
}

#[test]
fn airdrop_stops_at_the_largest_supply() {
    let mut ledger = Ledger::new(10, 3);
    assert!(ledger.airdrop(&key(1), u64::MAX - 5));
    assert!(!ledger.airdrop(&key(2), 6));
    assert_eq!(ledger.balance(&key(2)), 0);
    assert_eq!(ledger.supply(), u64::MAX - 5);
    assert!(ledger.airdrop(&key(2), 5));
    assert_eq!(ledger.balance(&key(1)), u64::MAX - 5);
    assert_eq!(ledger.balance(&key(2)), 5);
    assert_eq!(ledger.supply(), u64::MAX);
    assert!(!ledger.airdrop(&key(1), 1));
    assert!(ledger.airdrop(&key(1), 0));
}
