use natsforge::config::{AccountConfig, ImportConfig};
use natsforge::errors::ForgeError;
use natsforge::resolve::{resolve_creation_order, topological_sort, validate_imports, validate_unique_names};

fn account(name: &str, unique: &str, imports: Vec<ImportConfig>) -> AccountConfig {
    AccountConfig {
        name: name.to_string(),
        users: vec![],
        is_system_account: false,
        unique_name: unique.to_string(),
        max_connections: None,
        max_payload: None,
        exports: vec![],
        imports,
    }
}

fn import_from(label: &str) -> ImportConfig {
    ImportConfig {
        subject: "data.>".to_string(),
        account: label.to_string(),
        local_subject: None,
        service: false,
    }
}

fn position(order: &[String], name: &str) -> usize {
    order.iter().position(|n| n == name).expect("name missing from order")
}

#[test]
fn acyclic_graph_resolves_to_topological_order() {
    // C imports from B, B imports from A: creation order must be A, B, C.
    let accounts = vec![
        account("C", "uC", vec![import_from("B")]),
        account("A", "uA", vec![]),
        account("B", "uB", vec![import_from("A")]),
    ];
    let order = resolve_creation_order(&accounts).expect("acyclic graph must resolve");
    assert_eq!(order.len(), 3);
    assert!(position(&order, "uA") < position(&order, "uB"));
    assert!(position(&order, "uB") < position(&order, "uC"));
}

#[test]
fn resolution_is_deterministic() {
    let accounts = vec![
        account("X", "uX", vec![]),
        account("Y", "uY", vec![]),
        account("Z", "uZ", vec![import_from("X")]),
    ];
    let first = resolve_creation_order(&accounts).unwrap();
    let second = resolve_creation_order(&accounts).unwrap();
    assert_eq!(first, second);
}

#[test]
fn two_cycle_fails_with_dependency_cycle() {
    // A imports from B and B imports from A.
    let accounts = vec![
        account("A", "uA", vec![import_from("B")]),
        account("B", "uB", vec![import_from("A")]),
    ];
    let err = resolve_creation_order(&accounts).expect_err("a 2-cycle must be rejected");
    assert!(matches!(err, ForgeError::DependencyCycle { .. }));
}

#[test]
fn self_import_fails_with_dependency_cycle() {
    let accounts = vec![account("A", "uA", vec![import_from("A")])];
    let err = resolve_creation_order(&accounts).expect_err("a self-cycle must be rejected");
    match err {
        ForgeError::DependencyCycle { involved_account } => assert_eq!(involved_account, "uA"),
        other => panic!("expected DependencyCycle, got {:?}", other),
    }
}

#[test]
fn unknown_import_target_fails_validation() {
    let accounts = vec![account("A", "uA", vec![import_from("GHOST")])];
    let err = resolve_creation_order(&accounts).expect_err("unknown target must be rejected");
    match err {
        ForgeError::UnknownImportTarget { account, target_name } => {
            assert_eq!(account, "A");
            assert_eq!(target_name, "GHOST");
        },
        other => panic!("expected UnknownImportTarget, got {:?}", other),
    }
    assert!(validate_imports(&accounts).is_err());
}

#[test]
fn duplicate_unique_names_fail_validation() {
    let accounts = vec![account("A", "same", vec![]), account("B", "same", vec![])];
    let err = resolve_creation_order(&accounts).expect_err("duplicates must be rejected");
    match err {
        ForgeError::DuplicateUniqueName { unique_name } => assert_eq!(unique_name, "same"),
        other => panic!("expected DuplicateUniqueName, got {:?}", other),
    }
    assert!(validate_unique_names(&accounts).is_err());
    assert!(validate_unique_names(&[account("A", "x", vec![])].to_vec()).is_ok());
}

#[test]
fn topological_sort_orders_every_edge() {
    let deps = vec![
        ("a".to_string(), vec!["b".to_string(), "c".to_string()]),
        ("b".to_string(), vec!["c".to_string()]),
        ("c".to_string(), vec![]),
    ];
    let order = topological_sort(&deps).expect("acyclic");
    assert_eq!(order.len(), 3);
    let pa = position(&order, "a");
    let pb = position(&order, "b");
    let pc = position(&order, "c");
    assert!(pa < pb && pb < pc);
}

#[test]
fn topological_sort_rejects_cycles() {
    let deps = vec![
        ("a".to_string(), vec!["b".to_string()]),
        ("b".to_string(), vec!["a".to_string()]),
    ];
    let err = topological_sort(&deps).expect_err("cycle");
    assert!(matches!(err, ForgeError::DependencyCycle { .. }));
}
