use soroscan_core::{Address, ContractError, EventRecord, SoroScanCore, Symbol};

fn account(n: u8) -> Address {
    let mut key = [0u8; 32];
    key[0] = n;
    key[31] = n.wrapping_mul(7);
    Address { contract: false, key }
}

fn contract(n: u8) -> Address {
    let mut key = [0u8; 32];
    key[0] = n;
    Address { contract: true, key }
}

fn symbol(s: &str) -> Symbol {
    Symbol::new(s.as_bytes().to_vec())
}

fn initialized(admin: Address, indexers: &[Address]) -> SoroScanCore {
    let mut core = SoroScanCore::new();
    core.init(admin).unwrap();
    for i in indexers {
        core.add_indexer(admin, *i).unwrap();
    }
    core
}

#[test]
fn two_swaps_keep_the_second() {
    let a = account(1);
    let x = account(2);
    let target = contract(9);
    let mut core = initialized(a, &[x]);
    let d1 = [0x11u8; 32];
    let d2 = [0x22u8; 32];

    assert_eq!(core.record_event(x, target, symbol("swap"), d1, 100, 5000), Ok(1));
    assert_eq!(core.record_event(x, target, symbol("swap"), d2, 101, 5007), Ok(2));

    let latest = core.latest_by_type(&symbol("swap")).unwrap();
    assert_eq!(
        latest,
        EventRecord {
            contract_id: target,
            event_type: symbol("swap"),
            payload_hash: d2,
            ledger: 101,
            timestamp: 5007,
        }
    );
    assert_eq!(core.total_events(), 2);
}

#[test]
fn non_admin_cannot_add() {
    let a = account(1);
    let b = account(2);
    let y = account(3);
    let mut core = initialized(a, &[]);

    assert_eq!(core.add_indexer(b, y), Err(ContractError::Unauthorized));
    assert!(!core.is_indexer(&y));
}

#[test]
fn non_admin_cannot_remove() {
    let a = account(1);
    let b = account(2);
    let x = account(3);
    let mut core = initialized(a, &[x]);

    assert_eq!(core.remove_indexer(b, x), Err(ContractError::Unauthorized));
    assert!(core.is_indexer(&x));
}

#[test]
fn account_and_contract_with_one_key_differ() {
    let mut key = [0u8; 32];
    key[0] = 4;
    let acc = Address { contract: false, key };
    let con = Address { contract: true, key };
    let mut core = initialized(acc, &[]);

    assert_eq!(core.add_indexer(con, acc), Err(ContractError::Unauthorized));
    assert!(!acc.same(&con));
    assert!(acc.same(&acc));
}

#[test]
fn second_init_keeps_first_admin() {
    let a = account(1);
    let b = account(2);
    let mut core = initialized(a, &[]);

    assert_eq!(core.init(b), Err(ContractError::AlreadyInitialized));
    assert_eq!(core.get_admin(), Some(a));
    assert_eq!(core.add_indexer(b, b), Err(ContractError::Unauthorized));
}

#[test]
fn uninitialized_deployment() {
    let a = account(1);
    let x = account(2);
    let mut core = SoroScanCore::new();

    assert_eq!(core.get_admin(), None);
    assert_eq!(core.total_events(), 0);
    assert!(!core.is_indexer(&x));
    assert_eq!(core.add_indexer(a, x), Err(ContractError::NotInitialized));
    assert_eq!(core.remove_indexer(a, x), Err(ContractError::NotInitialized));
    assert_eq!(
        core.record_event(x, contract(3), symbol("swap"), [0u8; 32], 1, 1),
        Err(ContractError::NotInitialized)
    );
    assert_eq!(core.latest_by_type(&symbol("swap")), None);
}

#[test]
fn removing_a_non_member_succeeds() {
    let a = account(1);
    let x = account(2);
    let y = account(3);
    let mut core = initialized(a, &[x]);

    assert_eq!(core.remove_indexer(a, y), Ok(()));
    assert!(core.is_indexer(&x));
    assert!(!core.is_indexer(&y));
}

#[test]
fn adding_twice_then_removing_once() {
    let a = account(1);
    let x = account(2);
    let mut core = initialized(a, &[x, x]);

    assert!(core.is_indexer(&x));
    core.remove_indexer(a, x).unwrap();
    assert!(!core.is_indexer(&x));
}

#[test]
fn removed_indexer_cannot_record() {
    let a = account(1);
    let x = account(2);
    let y = account(3);
    let mut core = initialized(a, &[x, y]);

    assert_eq!(core.record_event(x, contract(5), symbol("swap"), [1u8; 32], 1, 1), Ok(1));
    core.remove_indexer(a, x).unwrap();
    assert_eq!(
        core.record_event(x, contract(5), symbol("swap"), [2u8; 32], 2, 2),
        Err(ContractError::IndexerNotFound)
    );
    assert_eq!(core.total_events(), 1);
    assert!(core.is_indexer(&y));
    assert_eq!(core.record_event(y, contract(5), symbol("swap"), [3u8; 32], 3, 3), Ok(2));
}

#[test]
fn failures_do_not_count() {
    let a = account(1);
    let x = account(2);
    let rogue = account(3);
    let mut core = initialized(a, &[x]);
    let mut last = 0u64;
    for n in 0..6u32 {
        let caller = if n % 2 == 0 { x } else { rogue };
        let r = core.record_event(caller, contract(4), symbol("transfer"), [n as u8; 32], n, n as u64);
        let total = core.total_events();
        assert!(total >= last);
        last = total;
        if n % 2 == 1 {
            assert_eq!(r, Err(ContractError::IndexerNotFound));
        }
    }
    assert_eq!(core.total_events(), 3);
}

#[test]
fn categories_are_kept_apart() {
    let a = account(1);
    let x = account(2);
    let mut core = initialized(a, &[x]);

    core.record_event(x, contract(7), symbol("swap"), [1u8; 32], 1, 10).unwrap();
    core.record_event(x, contract(8), symbol("transfer"), [2u8; 32], 2, 20).unwrap();
    core.record_event(x, contract(9), symbol("swap"), [3u8; 32], 3, 30).unwrap();

    let swap = core.latest_by_type(&symbol("swap")).unwrap();
    assert_eq!(swap.contract_id, contract(9));
    assert_eq!(swap.payload_hash, [3u8; 32]);
    let transfer = core.latest_by_type(&symbol("transfer")).unwrap();
    assert_eq!(transfer.contract_id, contract(8));
    assert_eq!(transfer.ledger, 2);
    assert_eq!(transfer.timestamp, 20);
    assert_eq!(core.latest_by_type(&symbol("mint")), None);
    assert_eq!(core.latest_by_type(&symbol("swa")), None);
    assert_eq!(core.total_events(), 3);
}

#[test]
fn error_codes() {
    assert_eq!(ContractError::Unauthorized.code(), 1);
    assert_eq!(ContractError::IndexerNotFound.code(), 2);
    assert_eq!(ContractError::AlreadyInitialized.code(), 3);
    assert_eq!(ContractError::NotInitialized.code(), 4);
}

#[test]
fn symbols_compare_by_bytes() {
    let s = symbol("swap");
    assert!(s.same(&symbol("swap")));
    assert!(!s.same(&symbol("swaps")));
    assert!(!s.same(&symbol("swan")));
    assert_eq!(s.duplicate(), s);
}

#[test]
fn record_copy_keeps_fields() {
    let r = EventRecord {
        contract_id: contract(1),
        event_type: symbol("swap"),
        payload_hash: [9u8; 32],
        ledger: 3,
        timestamp: 4,
    };
    assert_eq!(r.duplicate(), r);
}

#[test]
fn restore_rebuilds_stored_state() {
    let a = account(1);
    let x = account(2);
    let rec = EventRecord {
        contract_id: contract(3),
        event_type: symbol("swap"),
        payload_hash: [5u8; 32],
        ledger: 8,
        timestamp: 9,
    };
    let mut core = SoroScanCore::restore(Some(a), vec![x], 41, vec![rec.clone()]).unwrap();
    assert_eq!(core.get_admin(), Some(a));
    assert!(core.is_indexer(&x));
    assert_eq!(core.total_events(), 41);
    assert_eq!(core.latest_by_type(&symbol("swap")), Some(rec));
    assert_eq!(core.record_event(x, contract(3), symbol("swap"), [6u8; 32], 10, 11), Ok(42));
    assert_eq!(core.indexer_list(), vec![x]);
}

#[test]
fn restore_refuses_inconsistent_state() {
    let a = account(1);
    let rec = EventRecord {
        contract_id: contract(3),
        event_type: symbol("swap"),
        payload_hash: [5u8; 32],
        ledger: 8,
        timestamp: 9,
    };
    assert!(SoroScanCore::restore(None, vec![a], 0, vec![]).is_none());
    assert!(SoroScanCore::restore(None, vec![], 1, vec![]).is_none());
    assert!(SoroScanCore::restore(None, vec![], 0, vec![rec.clone()]).is_none());
    assert!(SoroScanCore::restore(Some(a), vec![], 0, vec![rec.clone(), rec.clone()]).is_none());
    assert!(SoroScanCore::restore(None, vec![], 0, vec![]).is_some());
}

#[test]
fn indexer_list_follows_membership() {
    let a = account(1);
    let x = account(2);
    let y = account(3);
    let mut core = initialized(a, &[x, y, x]);
    assert_eq!(core.indexer_list(), vec![x, y]);
    core.remove_indexer(a, x).unwrap();
    assert_eq!(core.indexer_list(), vec![y]);
}

#[test]
fn counter_saturates_at_the_top() {
    let a = account(1);
    let x = account(2);
    let mut core = SoroScanCore::restore(Some(a), vec![x], u64::MAX - 1, vec![]).unwrap();
    assert_eq!(core.record_event(x, contract(3), symbol("swap"), [1u8; 32], 1, 1), Ok(u64::MAX));
    assert_eq!(core.record_event(x, contract(3), symbol("swap"), [2u8; 32], 2, 2), Ok(u64::MAX));
    assert_eq!(core.total_events(), u64::MAX);
    assert_eq!(core.latest_by_type(&symbol("swap")).unwrap().payload_hash, [2u8; 32]);
}
