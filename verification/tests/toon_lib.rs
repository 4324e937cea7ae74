use michi::toon::{list, render_toon, SerializedItem, ToonError, ToonOptions, Value};

fn opts(type_label: &str, fields: &[&str], rows: Vec<Vec<Value>>) -> ToonOptions {
    ToonOptions::new(type_label.to_string(), fields.iter().map(|f| f.to_string()).collect(), rows)
}

fn object(entries: &[(&str, Value)]) -> SerializedItem {
    SerializedItem::Object(entries.iter().map(|(k, v)| (k.to_string(), v.clone())).collect())
}

fn assert_send_sync_static<T: Send + Sync + 'static>() {}

#[test]
fn toon_options_and_value_are_send_sync_static() {
    assert_send_sync_static::<ToonOptions>();
    assert_send_sync_static::<Value>();
}

#[test]
fn validate_ok_for_valid_options() {
    let opts = opts("file", &["path", "size"], vec![vec![Value::from("a.rs"), Value::from(100i64)]]);
    assert!(opts.validate().is_ok());
}

#[test]
fn validate_rejects_type_name_with_bracket() {
    let opts = opts("foo[bar", &[], vec![]);
    assert!(matches!(opts.validate(), Err(ToonError::InvalidTypeName { .. })));
}

#[test]
fn ac002_invalid_type_name_error_carries_exact_offending_name() {
    let opts = opts("foo[bar", &[], vec![]);
    assert_eq!(opts.validate().unwrap_err(), ToonError::InvalidTypeName { name: "foo[bar".to_string() });
}

#[test]
fn validate_rejects_field_with_comma() {
    let opts = opts("t", &["a,b"], vec![]);
    assert!(matches!(opts.validate(), Err(ToonError::InvalidFieldName { .. })));
}

#[test]
fn ac003_type_name_violation_takes_precedence_over_field_name_violation() {
    let opts = opts("a[b", &["x,y"], vec![]);
    assert_eq!(opts.validate().unwrap_err(), ToonError::InvalidTypeName { name: "a[b".to_string() });
}

#[test]
fn ac003_invalid_field_name_error_carries_exact_offending_name() {
    let opts = opts("t", &["a,b"], vec![]);
    assert_eq!(opts.validate().unwrap_err(), ToonError::InvalidFieldName { name: "a,b".to_string() });
}

#[test]
fn ac003_multiple_bad_fields_reports_first_in_list_order() {
    let opts = opts("t", &["a,b", "c,d"], vec![]);
    assert_eq!(opts.validate().unwrap_err(), ToonError::InvalidFieldName { name: "a,b".to_string() });
}

#[test]
fn ac004b_multiple_violations_return_only_the_first_in_fixed_order() {
    let opts = opts("foo[bar", &["a,b"], vec![vec![Value::from("x"), Value::from("y")]]);
    assert_eq!(opts.validate().unwrap_err(), ToonError::InvalidTypeName { name: "foo[bar".to_string() });
}

#[test]
fn ac004b_field_name_violation_takes_precedence_over_row_length_violation() {
    let opts = opts("t", &["a,b"], vec![vec![Value::from("x"), Value::from("y")]]);
    assert_eq!(opts.validate().unwrap_err(), ToonError::InvalidFieldName { name: "a,b".to_string() });
}

#[test]
fn ac035_default_renders_exact_empty_document() {
    let opts = ToonOptions::default();
    assert_eq!(render_toon(&opts).unwrap(), "[0]{}:\n");
    let equivalent = ToonOptions::new(String::new(), Vec::new(), Vec::new());
    assert_eq!(render_toon(&opts).unwrap(), render_toon(&equivalent).unwrap());
}

#[test]
fn ac035b_default_fields_match_new_field_by_field() {
    let opts = ToonOptions::default();
    assert_eq!(opts.type_label, String::new());
    assert!(opts.fields.is_empty());
    assert!(opts.rows.is_empty());
    assert_eq!(opts.total_count, None);
    assert!(opts.hints.is_empty());
    assert_eq!(opts.max_cell_len, 200);
}

#[test]
fn ac037_direct_field_mutation_affects_render_toon_output() {
    let mut opts = ToonOptions::new("t".to_string(), vec!["a".to_string()], vec![vec![Value::from("x")]]);
    opts.total_count = Some(5);
    opts.hints = vec!["h".to_string()];
    let via_mutation = render_toon(&opts).unwrap();

    let via_builder = ToonOptions::new("t".to_string(), vec!["a".to_string()], vec![vec![Value::from("x")]])
        .total_count(Some(5))
        .hints(vec!["h".to_string()]);
    assert_eq!(via_mutation, render_toon(&via_builder).unwrap());
}

#[test]
fn validate_rejects_row_length_mismatch() {
    let opts = opts("t", &["a"], vec![vec![Value::from("x"), Value::from("y")]]);
    assert!(matches!(opts.validate(), Err(ToonError::RowLengthMismatch { row_index: 0, expected: 1, actual: 2 })));
}

#[test]
fn ac004_type_name_violation_takes_precedence_over_row_length_violation() {
    let opts = opts("a[b", &["a"], vec![vec![Value::from("x"), Value::from("y")]]);
    assert_eq!(opts.validate().unwrap_err(), ToonError::InvalidTypeName { name: "a[b".to_string() });
}

#[test]
fn list_rejects_non_object_items() {
    let items = vec![SerializedItem::NotObject, SerializedItem::NotObject, SerializedItem::NotObject];
    let result = list("t".to_string(), &items);
    assert!(
        matches!(result, Err(ToonError::InvalidItem { row_index: 0, .. })),
        "non-object items must return Err(InvalidItem), got: {result:?}"
    );
}

#[test]
fn ac025a_builder_chain_exact_output() {
    let opts = ToonOptions::new("t".to_string(), vec!["a".to_string()], vec![vec![Value::from("a".repeat(50))]])
        .total_count(Some(5))
        .hints(vec!["h".to_string()])
        .max_cell_len(10);
    assert_eq!(render_toon(&opts).unwrap(), "t[1]{a}:\n   (50 chars\ntotalCount: 5\nhelp[1]:\n  h\n");
}

#[test]
fn ac025b_builder_order_independence() {
    let forward = ToonOptions::new("t".to_string(), vec!["a".to_string()], vec![vec![Value::from("a".repeat(50))]])
        .total_count(Some(5))
        .hints(vec!["h".to_string()])
        .max_cell_len(10);
    let reversed = ToonOptions::new("t".to_string(), vec!["a".to_string()], vec![vec![Value::from("a".repeat(50))]])
        .max_cell_len(10)
        .hints(vec!["h".to_string()])
        .total_count(Some(5));
    assert_eq!(render_toon(&forward), render_toon(&reversed));
}

#[test]
fn ac027_invalid_item_reports_index_of_first_non_object_item() {
    let items = vec![object(&[("a", Value::Int(1))]), SerializedItem::NotObject];
    let result = list("t".to_string(), &items);
    assert!(
        matches!(result, Err(ToonError::InvalidItem { row_index: 1, .. })),
        "the first item is a valid object; only the second (index 1) is non-object, got: {result:?}"
    );
}

#[test]
fn ac028_missing_key_renders_as_empty_cell() {
    let items = vec![object(&[("a", Value::Int(1)), ("b", Value::Int(2))]), object(&[("a", Value::Int(3))])];
    let result = list("t".to_string(), &items);
    assert_eq!(result, Ok("t[2]{a,b}:\n  1,2\n  3,\n".to_string()));
}

#[test]
fn ac029_structural_char_in_first_items_key_rejected_before_rendering() {
    let result = list("t".to_string(), &vec![object(&[("a,b", Value::Int(1))])]);
    assert_eq!(result, Err(ToonError::InvalidFieldName { name: "a,b".to_string() }));
}

#[test]
fn ac029_type_name_violation_takes_precedence_over_field_name_violation() {
    let result = list("t[x".to_string(), &vec![object(&[("a,b", Value::Int(1))])]);
    assert_eq!(result, Err(ToonError::InvalidTypeName { name: "t[x".to_string() }));
}

#[test]
fn ac029_serialization_failure_takes_precedence_over_field_name_violation() {
    let result = list("t".to_string(), &vec![object(&[("a,b", Value::Int(1))]), SerializedItem::NotObject]);
    assert_eq!(
        result,
        Err(ToonError::InvalidItem {
            row_index: 1,
            reason: "item is not a JSON object (struct or map required)".to_string()
        })
    );
}

#[test]
fn ac027b_serialization_error_reports_reason_and_first_failing_index() {
    let result = list("t".to_string(), &vec![SerializedItem::Failed("boom".to_string())]);
    assert_eq!(result, Err(ToonError::InvalidItem { row_index: 0, reason: "boom".to_string() }));
}

#[test]
fn ac027_serialization_failure_at_lower_index_wins_over_non_object_at_higher_index() {
    let result = list("t".to_string(), &vec![SerializedItem::Failed("boom".to_string()), SerializedItem::NotObject]);
    assert_eq!(result, Err(ToonError::InvalidItem { row_index: 0, reason: "boom".to_string() }));
}

#[test]
fn ac027b_non_object_at_lower_index_wins_over_serialization_failure_at_higher_index() {
    let result = list("t".to_string(), &vec![SerializedItem::NotObject, SerializedItem::Failed("boom".to_string())]);
    assert_eq!(
        result,
        Err(ToonError::InvalidItem {
            row_index: 0,
            reason: "item is not a JSON object (struct or map required)".to_string()
        })
    );
}

#[test]
fn ac038_first_item_empty_later_item_nonempty_is_row_length_mismatch() {
    let result = list("t".to_string(), &vec![object(&[]), object(&[("k", Value::Int(1))])]);
    assert_eq!(result, Err(ToonError::RowLengthMismatch { row_index: 0, expected: 1, actual: 0 }));
}

#[test]
fn ac038_expected_is_first_nonempty_later_items_key_count_not_the_last() {
    let items = vec![
        object(&[]),
        object(&[("k", Value::Int(1))]),
        object(&[("a", Value::Int(1)), ("b", Value::Int(2))]),
    ];
    let result = list("t".to_string(), &items);
    assert_eq!(result, Err(ToonError::RowLengthMismatch { row_index: 0, expected: 1, actual: 0 }));
}

#[test]
fn ac039_empty_items_slice_renders_exact_empty_document() {
    let result = list("t".to_string(), &vec![]);
    assert_eq!(result, Ok("t[0]{}:\n".to_string()));
}

#[test]
fn ac039_invalid_type_name_rejected_even_with_empty_items_slice() {
    let result = list("a[b".to_string(), &vec![]);
    assert_eq!(result, Err(ToonError::InvalidTypeName { name: "a[b".to_string() }));
}

#[test]
fn ac040_all_empty_object_items_render_exact_blank_rows() {
    let result = list("t".to_string(), &vec![object(&[]), object(&[])]);
    assert_eq!(result, Ok("t[2]{}:\n  \n  \n".to_string()));
}

#[test]
fn ac040_invalid_type_name_rejected_even_with_all_empty_object_items() {
    let result = list("a[b".to_string(), &vec![object(&[]), object(&[])]);
    assert_eq!(result, Err(ToonError::InvalidTypeName { name: "a[b".to_string() }));
}

#[test]
fn toon_error_messages_match_their_display_text() {
    assert_eq!(
        ToonError::InvalidTypeName { name: "a[b".to_string() }.message(),
        "type_name \"a[b\" contains a structural character"
    );
    assert_eq!(ToonError::InvalidFieldName { name: "a,b".to_string() }.message(), "field \"a,b\" contains a structural character");
    assert_eq!(
        ToonError::RowLengthMismatch { row_index: 2, expected: 3, actual: 1 }.message(),
        "row 2 has 1 values but 3 fields declared"
    );
    assert_eq!(
        ToonError::InvalidItem { row_index: 4, reason: "boom".to_string() }.message(),
        "item at index 4 cannot be rendered as a TOON row: boom"
    );
}

#[test]
fn readme_example_renders_verbatim() {
    let opts = ToonOptions::new(
        "issues".to_string(),
        vec!["number".to_string(), "title".to_string(), "state".to_string()],
        vec![
            vec![Value::Int(51815), Value::Str("[Bug]: Telegram plugin".to_string()), Value::Str("open".to_string())],
            vec![Value::Int(51812), Value::Str("dark mode request".to_string()), Value::Str("open".to_string())],
        ],
    )
    .total_count(Some(8771))
    .hints(vec!["Run `gh-axi issue view <number>` to view an issue".to_string()]);
    assert_eq!(
        render_toon(&opts).unwrap(),
        "issues[2]{number,title,state}:\n  51815,[Bug]: Telegram plugin,open\n  51812,dark mode request,open\ntotalCount: 8771\nhelp[1]:\n  Run `gh-axi issue view <number>` to view an issue\n"
    );
}
