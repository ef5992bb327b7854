use scientific_workflow::state::error::StateError;
use scientific_workflow::state::field::StateFieldSchema;
use scientific_workflow::state::schema::{schema_from_fields, StateSchemaProvider};

#[test]
fn fields_are_trimmed_positioned_and_found() {
    let schema = schema_from_fields("t.json", &[(" a ", Some(" alpha ")), ("b", Some(" "))]).unwrap();
    assert_eq!(schema.len(), 2);
    assert!(!schema.is_empty());
    assert_eq!(schema.template_path(), "t.json");
    let a = schema.field_schema("a").unwrap();
    assert_eq!(a.position(), 0);
    assert_eq!(a.description(), Some("alpha"));
    assert_eq!(schema.field_schema("b").unwrap().description(), None);
    assert!(schema.contains_field("b"));
    assert!(!schema.contains_field(" b"));
    assert!(schema.shares_schema_instance(&schema.clone()));
}

#[test]
fn declarations_reject_blank_and_repeated_names() {
    assert!(matches!(
        schema_from_fields("t.json", &[("a", None), ("  ", None)]),
        Err(StateError::EmptyFieldName { index: 1 })
    ));
    match schema_from_fields("t.json", &[("a", None), (" a", None)]) {
        Err(StateError::DuplicateField { field }) => assert_eq!(field, "a"),
        _ => panic!("expected a duplicate"),
    }
}

#[test]
fn field_schema_normalizes_its_declaration() {
    let field = StateFieldSchema::new(3, " x ", Some("  "));
    assert_eq!(field.position(), 3);
    assert_eq!(field.name(), "x");
    assert_eq!(field.description(), None);
}

#[test]
fn providers_return_what_they_declare() {
    static DOCUMENT: &[u8] = b"[]";
    let provider = StateSchemaProvider::new("lab.state.v1", DOCUMENT);
    assert_eq!(provider.id(), "lab.state.v1");
    assert_eq!(provider.document(), b"[]");
}

#[test]
fn separately_built_schemas_do_not_share_an_instance() {
    let a = schema_from_fields("t.json", &[("a", None)]).unwrap();
    let b = schema_from_fields("t.json", &[("a", None)]).unwrap();
    assert!(!a.shares_schema_instance(&b));
}
