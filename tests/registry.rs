use soroscan_core::{Address, ContractError, SoroScanCore, Symbol};

fn account(n: u8) -> Address {
    let mut key = [0u8; 32];
    key[0] = n;
    key[31] = n.wrapping_mul(7);
    Address { contract: false, key }
}

fn contract(n: u8) -> Address {
    let mut key = [0u8; 32];
    key[0] = n;
    Address { contract: true, key }
}

fn symbol(s: &str) -> Symbol {
    Symbol::new(s.as_bytes().to_vec())
}

#[test]
fn test_init() {
    let mut core = SoroScanCore::new();
    let admin = account(1);
    core.init(admin).unwrap();

    assert_eq!(core.get_admin(), Some(admin));
    assert_eq!(core.total_events(), 0);
}

#[test]
fn test_add_and_remove_indexer() {
    let mut core = SoroScanCore::new();
    let admin = account(1);
    let indexer = account(2);

    core.init(admin).unwrap();

    assert!(!core.is_indexer(&indexer));

    core.add_indexer(admin, indexer).unwrap();
    assert!(core.is_indexer(&indexer));

    core.remove_indexer(admin, indexer).unwrap();
    assert!(!core.is_indexer(&indexer));
}

#[test]
fn test_record_event() {
    let mut core = SoroScanCore::new();
    let admin = account(1);
    let indexer = account(2);
    let target_contract = contract(3);

    core.init(admin).unwrap();
    core.add_indexer(admin, indexer).unwrap();

    let event_type = symbol("swap");
    let payload_hash = [0u8; 32];

    let count = core
        .record_event(indexer, target_contract, event_type.clone(), payload_hash, 10, 1000)
        .unwrap();
    assert_eq!(count, 1);
    assert_eq!(core.total_events(), 1);

    let latest = core.latest_by_type(&event_type);
    assert!(latest.is_some());
    assert_eq!(latest.unwrap().event_type, event_type);
}

#[test]
fn test_add_indexer_as_non_admin() {
    let mut core = SoroScanCore::new();
    let admin = account(1);
    let non_admin = account(2);
    let indexer = account(3);

    core.init(admin).unwrap();

    let result = core.add_indexer(non_admin, indexer);
    assert_eq!(result, Err(ContractError::Unauthorized));
}

#[test]
fn test_record_event_not_whitelisted() {
    let mut core = SoroScanCore::new();
    let admin = account(1);
    let rogue = account(2);
    let target = contract(3);

    core.init(admin).unwrap();

    let event_type = symbol("swap");
    let payload_hash = [0u8; 32];

    let result = core.record_event(rogue, target, event_type, payload_hash, 10, 1000);
    assert_eq!(result, Err(ContractError::IndexerNotFound));
}

#[test]
fn test_double_initialize() {
    let mut core = SoroScanCore::new();
    let admin = account(1);
    core.init(admin).unwrap();

    let result = core.init(admin);
    assert_eq!(result, Err(ContractError::AlreadyInitialized));
}
