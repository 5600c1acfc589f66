use template_module::identifier::InstanceId;
use template_module::registry::{ActivityRegistry, RegistryError};

fn filled() -> ActivityRegistry<&'static str> {
    let mut registry = ActivityRegistry::new();
    assert_eq!(registry.insert(InstanceId::new("main", 0), "first"), Ok(()));
    assert_eq!(registry.insert(InstanceId::new("main", 1), "second"), Ok(()));
    assert_eq!(registry.insert(InstanceId::new("side", 0), "third"), Ok(()));
    registry
}

#[test]
fn new_registry_is_empty() {
    let registry: ActivityRegistry<u8> = ActivityRegistry::new();
    assert_eq!(registry.len(), 0);
    assert!(registry.list().is_empty());
    assert_eq!(registry.lookup("", 0), None);
}

#[test]
fn registered_activities_are_listed_in_order() {
    let registry = filled();
    assert_eq!(registry.len(), 3);
    assert_eq!(
        registry.list(),
        vec![InstanceId::new("main", 0), InstanceId::new("main", 1), InstanceId::new("side", 0)]
    );
}

#[test]
fn lookup_finds_the_activity_of_a_slot() {
    let registry = filled();
    assert_eq!(registry.lookup("main", 1), Some(&"second"));
    assert_eq!(registry.lookup("side", 0), Some(&"third"));
    assert_eq!(registry.lookup("side", 1), None);
    assert_eq!(registry.lookup("other", 0), None);
    assert!(registry.is_registered(&InstanceId::new("main", 0)));
    assert!(!registry.is_registered(&InstanceId::new("main", 2)));
}

#[test]
fn second_insert_under_one_identifier_fails() {
    let mut registry = filled();
    assert_eq!(
        registry.insert(InstanceId::new("main", 1), "again"),
        Err(RegistryError::AlreadyRegistered)
    );
    assert_eq!(registry.len(), 3);
    assert_eq!(registry.lookup("main", 1), Some(&"second"));
}

#[test]
fn remove_hands_the_activity_back() {
    let mut registry = filled();
    assert_eq!(registry.remove(&InstanceId::new("main", 0)), Ok("first"));
    assert_eq!(registry.list(), vec![InstanceId::new("main", 1), InstanceId::new("side", 0)]);
    assert_eq!(registry.lookup("main", 0), None);
    assert_eq!(registry.lookup("main", 1), Some(&"second"));
    assert_eq!(registry.lookup("side", 0), Some(&"third"));
}

#[test]
fn remove_of_an_absent_identifier_fails() {
    let mut registry = filled();
    assert_eq!(registry.remove(&InstanceId::new("main", 9)), Err(RegistryError::NotRegistered));
    assert_eq!(registry.len(), 3);
    assert_eq!(registry.remove(&InstanceId::new("side", 0)), Ok("third"));
    assert_eq!(registry.remove(&InstanceId::new("side", 0)), Err(RegistryError::NotRegistered));
}

#[test]
fn insert_after_remove_succeeds_again() {
    let mut registry = filled();
    assert_eq!(registry.remove(&InstanceId::new("main", 1)), Ok("second"));
    assert_eq!(registry.insert(InstanceId::new("main", 1), "new"), Ok(()));
    assert_eq!(
        registry.list(),
        vec![InstanceId::new("main", 0), InstanceId::new("side", 0), InstanceId::new("main", 1)]
    );
    assert_eq!(registry.lookup("main", 1), Some(&"new"));
}
