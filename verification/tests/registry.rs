use chain_gateway::registry::{EthersRepository, RegistryError};
use std::sync::Arc;

#[test]
fn empty_registry_holds_nothing() {
    let registry: EthersRepository<String, u32> = EthersRepository::new();
    assert_eq!(registry.get_connection(1), None);
    assert_eq!(registry.get_block_listener(1), None);
    assert_eq!(registry.get_connection(i32::MIN), None);
}

#[test]
fn later_connection_replaces_the_earlier_one() {
    let mut registry: EthersRepository<String, u32> = EthersRepository::new();
    registry.apply_connection(1, "A".to_string());
    assert_eq!(registry.get_connection(1), Some(Arc::new("A".to_string())));
    registry.apply_connection(1, "B".to_string());
    for _ in 0..5 {
        let found = registry.get_connection(1).unwrap();
        assert_eq!(*found, "B");
        assert_ne!(*found, "A");
    }
}

#[test]
fn a_share_taken_before_the_replacement_keeps_the_old_connection() {
    let mut registry: EthersRepository<String, u32> = EthersRepository::new();
    registry.apply_connection(1, "A".to_string());
    let held = registry.get_connection(1).unwrap();
    registry.apply_connection(1, "B".to_string());
    assert_eq!(*held, "A");
    assert_eq!(*registry.get_connection(1).unwrap(), "B");
}

#[test]
fn tenants_do_not_share_connections() {
    let mut registry: EthersRepository<String, u32> = EthersRepository::new();
    registry.apply_connection(1, "one".to_string());
    registry.apply_connection(2, "two".to_string());
    registry.apply_connection(-3, "minus three".to_string());
    assert_eq!(*registry.get_connection(1).unwrap(), "one");
    assert_eq!(*registry.get_connection(2).unwrap(), "two");
    assert_eq!(*registry.get_connection(-3).unwrap(), "minus three");
    assert_eq!(registry.get_connection(3), None);
    registry.apply_connection(2, "deux".to_string());
    assert_eq!(*registry.get_connection(1).unwrap(), "one");
    assert_eq!(*registry.get_connection(2).unwrap(), "deux");
}

#[test]
fn shares_point_to_one_connection() {
    let mut registry: EthersRepository<String, u32> = EthersRepository::new();
    registry.apply_connection(7, "node".to_string());
    let first = registry.get_connection(7).unwrap();
    let second = registry.get_connection(7).unwrap();
    assert!(Arc::ptr_eq(&first, &second));
}

#[test]
fn listener_is_registered_beside_the_connection() {
    let mut registry: EthersRepository<String, u32> = EthersRepository::new();
    registry.apply_connection(1, "A".to_string());
    assert_eq!(registry.get_block_listener(1), None);
    assert_eq!(registry.apply_block_listener(1, 11), Ok(()));
    assert_eq!(registry.get_block_listener(1), Some(11));
    assert_eq!(*registry.get_connection(1).unwrap(), "A");
    registry.apply_connection(1, "B".to_string());
    assert_eq!(registry.get_block_listener(1), Some(11));
}

#[test]
fn tenant_without_connection_gets_no_listener() {
    let mut registry: EthersRepository<String, u32> = EthersRepository::new();
    assert_eq!(registry.apply_block_listener(2, 22), Err(RegistryError::ConnectionNotFound));
    assert_eq!(registry.get_block_listener(2), None);
    assert_eq!(registry.get_connection(2), None);
    registry.apply_connection(1, "A".to_string());
    assert_eq!(registry.apply_block_listener(2, 22), Err(RegistryError::ConnectionNotFound));
    assert_eq!(registry.get_block_listener(2), None);
    assert_eq!(registry.get_block_listener(1), None);
    assert_eq!(*registry.get_connection(1).unwrap(), "A");
}

#[test]
fn later_listener_replaces_the_earlier_one() {
    let mut registry: EthersRepository<String, u32> = EthersRepository::new();
    registry.apply_connection(1, "A".to_string());
    assert_eq!(registry.apply_block_listener(1, 11), Ok(()));
    assert_eq!(registry.apply_block_listener(1, 12), Ok(()));
    assert_eq!(registry.get_block_listener(1), Some(12));
    assert_eq!(registry.get_block_listener(1), Some(12));
}
