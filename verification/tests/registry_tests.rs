use wasm_central::registry::{Schema, TypingKind, TypingRegistry};

#[test]
fn a_new_registry_is_empty() {
    let registry = TypingRegistry::new();
    assert!(registry.lookup("orders", TypingKind::In).is_none());
}

#[test]
fn add_type_registers_under_name_and_direction() {
    let mut registry = TypingRegistry::new();
    registry.add_type(
        "orders".to_string(),
        TypingKind::In,
        Schema::Field("id".to_string(), "string".to_string()),
    );
    match registry.lookup("orders", TypingKind::In) {
        Some(Schema::Field(name, typing)) => {
            assert_eq!(name, "id");
            assert_eq!(typing, "string");
        },
        _ => panic!("expected the registered field schema"),
    }
    assert!(registry.lookup("orders", TypingKind::Out).is_none());
    assert!(registry.lookup("invoices", TypingKind::In).is_none());
}

#[test]
fn a_later_registration_shadows_the_earlier() {
    let mut registry = TypingRegistry::new();
    registry.add_type("orders".to_string(), TypingKind::In, Schema::RecordEnd);
    registry.add_type(
        "orders".to_string(),
        TypingKind::In,
        Schema::Record("order".to_string(), Vec::new()),
    );
    match registry.lookup("orders", TypingKind::In) {
        Some(Schema::Record(name, fields)) => {
            assert_eq!(name, "order");
            assert!(fields.is_empty());
        },
        _ => panic!("expected the later registration"),
    }
}
