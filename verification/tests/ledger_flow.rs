use creations_ledger::items::LedgerError;
use creations_ledger::items::Payout;
use creations_ledger::ledger::Contract;
use creations_ledger::ledger::UNIT_SCALE;

#[test]
fn check_flow() {
    let alice = "alice.testnet".to_string();
    let mut contract = Contract::new(alice.clone());
    contract.mint(
        "alice11.testnet".to_string(),
        "ffff".to_string(),
        "fdsfsd".to_string(),
        "ffff".to_string(),
        1,
    );
    contract
        .make_creator(0, "alice11.testnet".to_string(), "alice.testnet".to_string())
        .unwrap();
    println!(
        "Let's debug -0: {:?}",
        contract.get_nfts_by_account("alice.testnet".to_string()).unwrap()
    );
    println!("Let's debug -0: {:?}", contract.get_creators());
    println!(
        "Let's debug -0: {:?}",
        contract.get_earnings_by_account("alice11.testnet".to_string()).unwrap()
    );
    contract
        .withdraw("alice11.testnet".to_string(), alice.clone())
        .unwrap();
    println!(
        "Let's debug -0: {:?}",
        contract.get_earnings_by_account("alice11.testnet".to_string()).unwrap()
    );
    contract
        .put_in_sale("alice.testnet".to_string(), 0, 2)
        .unwrap();
    println!(
        "Let's debug -0: {:?}",
        contract.get_nfts_by_account("alice.testnet".to_string()).unwrap()
    );
}

#[test]
fn first_mint_creates_entries() {
    let mut c = Contract::new("owner".to_string());
    c.mint(
        "ann".to_string(),
        "u".to_string(),
        "cat".to_string(),
        "d".to_string(),
        5,
    );
    let list = c.get_nfts_by_account("ann".to_string()).unwrap();
    assert_eq!(list.nfts.len(), 1);
    assert_eq!(list.nfts[0].uri, "u");
    assert_eq!(list.nfts[0].category, "cat");
    assert_eq!(list.nfts[0].desc, "d");
    assert_eq!(list.nfts[0].price, 5);
    assert!(list.nfts[0].for_sale);
    assert_eq!(c.get_earnings_by_account("ann".to_string()).unwrap(), 0);
    assert_eq!(c.get_creators(), vec!["ann".to_string()]);
}

#[test]
fn mint_twice_appends() {
    let mut c = Contract::new("owner".to_string());
    c.mint(
        "ann".to_string(),
        "u1".to_string(),
        "c1".to_string(),
        "d1".to_string(),
        5,
    );
    c.mint(
        "ann".to_string(),
        "u2".to_string(),
        "c2".to_string(),
        "d2".to_string(),
        9,
    );
    let list = c.get_nfts_by_account("ann".to_string()).unwrap();
    assert_eq!(list.nfts.len(), 2);
    assert_eq!(list.nfts[0].uri, "u1");
    assert_eq!(list.nfts[0].price, 5);
    assert_eq!(list.nfts[1].uri, "u2");
    assert_eq!(list.nfts[1].price, 9);
    assert_eq!(c.get_earnings_by_account("ann".to_string()).unwrap(), 0);
    assert_eq!(c.get_creators(), vec!["ann".to_string()]);
}

#[test]
fn put_in_sale_moves_item_to_tail() {
    let mut c = Contract::new("owner".to_string());
    c.mint(
        "ann".to_string(),
        "first".to_string(),
        "c".to_string(),
        "d".to_string(),
        1,
    );
    c.mint(
        "ann".to_string(),
        "second".to_string(),
        "c".to_string(),
        "d".to_string(),
        2,
    );
    c.put_in_sale("ann".to_string(), 0, 9).unwrap();
    let list = c.get_nfts_by_account("ann".to_string()).unwrap();
    assert_eq!(list.nfts.len(), 2);
    assert_eq!(list.nfts[0].uri, "second");
    assert_eq!(list.nfts[1].uri, "first");
    assert_eq!(list.nfts[1].price, 9);
    assert!(list.nfts[1].for_sale);
}

#[test]
fn put_in_sale_bad_index_changes_nothing() {
    let mut c = Contract::new("owner".to_string());
    c.mint(
        "ann".to_string(),
        "u".to_string(),
        "c".to_string(),
        "d".to_string(),
        1,
    );
    let before = c.get_nfts_by_account("ann".to_string()).unwrap();
    let r = c.put_in_sale("ann".to_string(), 5, 9);
    assert_eq!(r, Err(LedgerError::IndexOutOfRange));
    let after = c.get_nfts_by_account("ann".to_string()).unwrap();
    assert_eq!(before, after);
    assert_eq!(c.get_earnings_by_account("ann".to_string()).unwrap(), 0);
}

#[test]
fn put_in_sale_unknown_account_is_not_found() {
    let mut c = Contract::new("owner".to_string());
    assert_eq!(
        c.put_in_sale("nobody".to_string(), 0, 1),
        Err(LedgerError::NotFound)
    );
}

#[test]
fn transfer_moves_item_and_credits_seller() {
    let mut c = Contract::new("owner".to_string());
    c.mint(
        "seller".to_string(),
        "u".to_string(),
        "c".to_string(),
        "d".to_string(),
        3,
    );
    c.make_creator(0, "seller".to_string(), "buyer".to_string())
        .unwrap();
    let seller_list = c.get_nfts_by_account("seller".to_string()).unwrap();
    assert_eq!(seller_list.nfts.len(), 0);
    let buyer_list = c.get_nfts_by_account("buyer".to_string()).unwrap();
    assert_eq!(buyer_list.nfts.len(), 1);
    assert!(!buyer_list.nfts[0].for_sale);
    assert_eq!(buyer_list.nfts[0].uri, "u");
    assert_eq!(buyer_list.nfts[0].price, 3);
    assert_eq!(c.get_earnings_by_account("seller".to_string()).unwrap(), 3);
    // The buyer is registered as a creator, but no earnings entry is
    // opened for it: it receives ownership, not a balance.
    assert_eq!(
        c.get_creators(),
        vec!["seller".to_string(), "buyer".to_string()]
    );
    assert_eq!(
        c.get_earnings_by_account("buyer".to_string()),
        Err(LedgerError::NotFound)
    );
}

#[test]
fn transfer_only_seller_cannot_sell() {
    // An account that only ever received items has no earnings entry,
    // so selling fails for it even though it owns the item.
    let mut c = Contract::new("owner".to_string());
    c.mint(
        "seller".to_string(),
        "u".to_string(),
        "c".to_string(),
        "d".to_string(),
        3,
    );
    c.make_creator(0, "seller".to_string(), "buyer".to_string())
        .unwrap();
    assert_eq!(
        c.make_creator(0, "buyer".to_string(), "other".to_string()),
        Err(LedgerError::NotFound)
    );
}

#[test]
fn transfer_bad_index_changes_nothing() {
    let mut c = Contract::new("owner".to_string());
    c.mint(
        "seller".to_string(),
        "u".to_string(),
        "c".to_string(),
        "d".to_string(),
        3,
    );
    let r = c.make_creator(7, "seller".to_string(), "buyer".to_string());
    assert_eq!(r, Err(LedgerError::IndexOutOfRange));
    assert_eq!(
        c.get_nfts_by_account("seller".to_string()).unwrap().nfts.len(),
        1
    );
    // The buyer was not registered: the failing call left no trace.
    assert_eq!(c.get_creators(), vec!["seller".to_string()]);
}

#[test]
fn transfer_unknown_seller_is_not_found() {
    let mut c = Contract::new("owner".to_string());
    assert_eq!(
        c.make_creator(0, "ghost".to_string(), "buyer".to_string()),
        Err(LedgerError::NotFound)
    );
    assert_eq!(c.get_creators(), Vec::<String>::new());
}

#[test]
fn self_transfer_moves_item_to_tail_and_credits() {
    let mut c = Contract::new("owner".to_string());
    c.mint(
        "ann".to_string(),
        "a".to_string(),
        "c".to_string(),
        "d".to_string(),
        4,
    );
    c.mint(
        "ann".to_string(),
        "b".to_string(),
        "c".to_string(),
        "d".to_string(),
        6,
    );
    c.make_creator(0, "ann".to_string(), "ann".to_string())
        .unwrap();
    let list = c.get_nfts_by_account("ann".to_string()).unwrap();
    assert_eq!(list.nfts.len(), 2);
    assert_eq!(list.nfts[0].uri, "b");
    assert_eq!(list.nfts[1].uri, "a");
    assert!(!list.nfts[1].for_sale);
    assert_eq!(c.get_earnings_by_account("ann".to_string()).unwrap(), 4);
}

#[test]
fn receiving_then_minting_opens_no_earnings_entry() {
    // The zero-balance entry is created only when a mint first creates
    // the registry entry.  An account registered by receiving a
    // transfer keeps no earnings entry even once it mints itself.
    let mut c = Contract::new("owner".to_string());
    c.mint(
        "seller".to_string(),
        "u".to_string(),
        "c".to_string(),
        "d".to_string(),
        3,
    );
    c.make_creator(0, "seller".to_string(), "buyer".to_string())
        .unwrap();
    c.mint(
        "buyer".to_string(),
        "own".to_string(),
        "c".to_string(),
        "d".to_string(),
        8,
    );
    assert_eq!(c.get_nfts_by_account("buyer".to_string()).unwrap().nfts.len(), 2);
    assert_eq!(
        c.get_earnings_by_account("buyer".to_string()),
        Err(LedgerError::NotFound)
    );
    assert_eq!(
        c.make_creator(0, "buyer".to_string(), "other".to_string()),
        Err(LedgerError::NotFound)
    );
}

#[test]
fn withdraw_zeroes_balance_and_requests_one_payout() {
    let mut c = Contract::new("owner".to_string());
    c.mint(
        "seller".to_string(),
        "u".to_string(),
        "c".to_string(),
        "d".to_string(),
        2,
    );
    c.make_creator(0, "seller".to_string(), "buyer".to_string())
        .unwrap();
    let payout = c
        .withdraw("seller".to_string(), "caller".to_string())
        .unwrap();
    assert_eq!(
        payout,
        Some(Payout {
            recipient: "caller".to_string(),
            amount: 2_000_000_000_000_000_000_000_000,
        })
    );
    assert_eq!(c.get_earnings_by_account("seller".to_string()).unwrap(), 0);
    // Withdrawing again right away is a no-op: no payout is requested.
    let again = c
        .withdraw("seller".to_string(), "caller".to_string())
        .unwrap();
    assert_eq!(again, None);
    assert_eq!(c.get_earnings_by_account("seller".to_string()).unwrap(), 0);
}

#[test]
fn withdraw_pays_the_caller_not_the_account() {
    let mut c = Contract::new("owner".to_string());
    c.mint(
        "seller".to_string(),
        "u".to_string(),
        "c".to_string(),
        "d".to_string(),
        1,
    );
    c.make_creator(0, "seller".to_string(), "buyer".to_string())
        .unwrap();
    let payout = c
        .withdraw("seller".to_string(), "somebody.else".to_string())
        .unwrap()
        .unwrap();
    assert_eq!(payout.recipient, "somebody.else");
    assert_eq!(payout.amount, UNIT_SCALE);
}

#[test]
fn withdraw_unknown_account_is_not_found() {
    let mut c = Contract::new("owner".to_string());
    assert_eq!(
        c.withdraw("ghost".to_string(), "caller".to_string()),
        Err(LedgerError::NotFound)
    );
}

#[test]
fn getters_fail_on_unknown_accounts() {
    let c = Contract::new("owner".to_string());
    assert_eq!(
        c.get_nfts_by_account("ghost".to_string()),
        Err(LedgerError::NotFound)
    );
    assert_eq!(
        c.get_earnings_by_account("ghost".to_string()),
        Err(LedgerError::NotFound)
    );
    assert_eq!(c.get_creators(), Vec::<String>::new());
}

#[test]
fn end_to_end_scenario() {
    let mut c = Contract::new("owner".to_string());
    c.mint(
        "alice2".to_string(),
        "u".to_string(),
        "c".to_string(),
        "d".to_string(),
        1,
    );
    c.make_creator(0, "alice2".to_string(), "alice".to_string())
        .unwrap();
    assert_eq!(c.get_earnings_by_account("alice2".to_string()).unwrap(), 1);
    let payout = c
        .withdraw("alice2".to_string(), "alice2".to_string())
        .unwrap();
    assert_eq!(
        payout,
        Some(Payout {
            recipient: "alice2".to_string(),
            amount: 1_000_000_000_000_000_000_000_000,
        })
    );
    assert_eq!(c.get_earnings_by_account("alice2".to_string()).unwrap(), 0);
    let list = c.get_nfts_by_account("alice".to_string()).unwrap();
    assert_eq!(list.nfts.len(), 1);
    assert!(!list.nfts[0].for_sale);
    c.put_in_sale("alice".to_string(), 0, 2).unwrap();
    let list = c.get_nfts_by_account("alice".to_string()).unwrap();
    assert_eq!(list.nfts.len(), 1);
    assert!(list.nfts[0].for_sale);
    assert_eq!(list.nfts[0].price, 2);
    assert_eq!(list.nfts[0].uri, "u");
}
