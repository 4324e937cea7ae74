use michi::resilience::IdempotencyKey;

#[test]
fn inner_field_is_public_and_mutable_from_outside_the_crate() {
    assert_eq!(IdempotencyKey("manual".to_string()).as_str(), "manual");
    let mut k = IdempotencyKey::new("a".to_string());
    k.0 = "b".to_string();
    assert_eq!(k.as_str(), "b");
}
