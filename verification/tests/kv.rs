use michi::hints::Hint;
use michi::kv::{kv_value_to_json, push_kv_value, render_kv, KvItem, KvValue};
use michi::resilience::Delay;
use michi::text::FloatText;

fn float(f: f64, decimals: u8) -> KvValue {
    KvValue::Float(FloatText::new(format!("{f:.*}", decimals as usize), f.to_bits()).unwrap(), decimals)
}

fn duration(d: std::time::Duration) -> KvValue {
    KvValue::Duration(
        Delay::new(d.as_secs(), d.subsec_nanos()),
        FloatText::new(format!("{:.1}", d.as_secs_f64()), d.as_secs_f64().to_bits()).unwrap(),
    )
}

#[test]
fn single_key_needs_no_padding() {
    let items = vec![KvItem { key: "id".into(), value: KvValue::Int(1) }];
    assert_eq!(render_kv(&items, None, &[]), "id: 1\n");
}

#[test]
fn text_value_with_newline_is_stripped_in_render() {
    let item = KvItem { key: "msg".into(), value: KvValue::Text("line1\nline2".into()) };
    let out = render_kv(&[item], None, &[]);
    let lines: Vec<&str> = out.lines().collect();
    assert_eq!(lines.len(), 1, "newline in value must not break KV format, got:\n{out}");
}

#[test]
fn ac008_newline_and_cr_are_removed_not_replaced_and_result_concatenates() {
    let item = KvItem { key: "k".into(), value: KvValue::Text("line1\nline2\rline3".into()) };
    let out = render_kv(&[item], None, &[]);
    assert_eq!(out, "k: line1line2line3\n");
}

#[test]
fn ac011_missing_renders_as_em_dash() {
    let mut out = String::new();
    push_kv_value(&mut out, &KvValue::Missing);
    assert_eq!(out, "—");
}

#[test]
fn ac013_nan_token_is_independent_of_decimals() {
    let mut two = String::new();
    push_kv_value(&mut two, &float(f64::NAN, 2));
    let mut six = String::new();
    push_kv_value(&mut six, &float(f64::NAN, 6));
    assert_eq!(two, "NaN");
    assert_eq!(six, "NaN");
}

#[test]
fn ac046_negative_int_renders_with_minus_sign() {
    let items = vec![KvItem { key: "n".into(), value: KvValue::Int(-7) }];
    assert_eq!(render_kv(&items, None, &[]), "n: -7\n");
}

#[test]
fn ac047_bool_renders_lowercase_unquoted() {
    let mut t = String::new();
    push_kv_value(&mut t, &KvValue::Bool(true));
    assert_eq!(t, "true");
    let mut f = String::new();
    push_kv_value(&mut f, &KvValue::Bool(false));
    assert_eq!(f, "false");
}

#[test]
fn ac048_float_renders_with_given_decimal_precision() {
    let mut two = String::new();
    push_kv_value(&mut two, &float(3.14159, 2));
    assert_eq!(two, "3.14");
    let mut zero = String::new();
    push_kv_value(&mut zero, &float(3.14159, 0));
    assert_eq!(zero, "3");
}

#[test]
fn ac017_empty_items_ignores_total_count_and_hints() {
    assert_eq!(render_kv(&[], Some(42), &[Hint::from("x")]), "");
}

#[test]
fn ac018_value_column_aligns_across_differing_key_lengths() {
    let items = vec![
        KvItem { key: "a".into(), value: KvValue::Text("short".into()) },
        KvItem { key: "longer_key".into(), value: KvValue::Text("val".into()) },
    ];
    let out = render_kv(&items, None, &[]);
    let lines: Vec<&str> = out.lines().collect();
    assert_eq!(lines.len(), 2, "got: {out:?}");
    let offset_of_value = |line: &str, value: &str| line.find(value).expect("value present");
    let a_offset = offset_of_value(lines[0], "short");
    let b_offset = offset_of_value(lines[1], "val");
    assert_eq!(a_offset, b_offset, "value columns must align, got:\n{out}");
    assert_eq!(b_offset, "longer_key:".chars().count() + 1, "must include at least one separating space");
}

#[test]
fn push_kv_value_float_nan_renders_as_nan_token() {
    let mut out = String::new();
    push_kv_value(&mut out, &float(f64::NAN, 2));
    assert_eq!(out, "NaN");
}

#[test]
fn push_kv_value_float_inf_renders_as_inf_token() {
    let mut out = String::new();
    push_kv_value(&mut out, &float(f64::INFINITY, 0));
    assert_eq!(out, "inf");
}

#[test]
fn push_kv_value_duration_renders_with_one_decimal() {
    let mut out = String::new();
    push_kv_value(&mut out, &duration(std::time::Duration::from_millis(1500)));
    assert_eq!(out, "1.5s");
}

#[test]
fn render_kv_empty_items_returns_empty_string() {
    assert_eq!(render_kv(&[], None, &[]), "");
}

#[test]
fn render_kv_total_count_appended() {
    let items = vec![KvItem { key: "id".into(), value: KvValue::Int(1) }];
    let out = render_kv(&items, Some(42), &[]);
    assert!(out.contains("totalCount: 42\n"), "got: {out}");
}

#[test]
fn float_nan_in_json_is_quoted() {
    let mut out = String::new();
    kv_value_to_json(&mut out, &float(f64::NAN, 2));
    assert!(out.starts_with('"'), "NaN must be JSON-quoted, got: {out}");
}

#[test]
fn float_nan_in_json_is_valid_json_with_serde() {
    let mut out = String::new();
    kv_value_to_json(&mut out, &float(f64::NAN, 2));
    let parsed: serde_json::Value = serde_json::from_str(&out).expect("must be valid JSON");
    assert!(parsed.is_string(), "NaN must serialize as a JSON string");
}

#[test]
fn float_inf_in_json_is_quoted() {
    let mut out = String::new();
    kv_value_to_json(&mut out, &float(f64::INFINITY, 0));
    assert!(out.starts_with('"'), "Inf must be JSON-quoted, got: {out}");
}

#[test]
fn float_neg_inf_in_json_is_quoted() {
    let mut out = String::new();
    kv_value_to_json(&mut out, &float(f64::NEG_INFINITY, 0));
    assert!(out.starts_with('"'), "-Inf must be JSON-quoted, got: {out}");
}

#[test]
fn ac042_ac043_float_special_values_render_exact_quoted_tokens() {
    let mut nan = String::new();
    kv_value_to_json(&mut nan, &float(f64::NAN, 2));
    assert_eq!(nan, "\"NaN\"");
    let mut inf = String::new();
    kv_value_to_json(&mut inf, &float(f64::INFINITY, 0));
    assert_eq!(inf, "\"inf\"");
    let mut neg_inf = String::new();
    kv_value_to_json(&mut neg_inf, &float(f64::NEG_INFINITY, 0));
    assert_eq!(neg_inf, "\"-inf\"");
}

#[test]
fn ac041_missing_renders_as_bare_json_null() {
    let mut out = String::new();
    kv_value_to_json(&mut out, &KvValue::Missing);
    assert_eq!(out, "null");
}

#[test]
fn ac044_duration_renders_as_quoted_json_string() {
    let mut out = String::new();
    kv_value_to_json(&mut out, &duration(std::time::Duration::from_millis(1500)));
    assert_eq!(out, "\"1.5s\"");
}

#[test]
fn ac045_bool_renders_as_bare_json_boolean() {
    let mut out = String::new();
    kv_value_to_json(&mut out, &KvValue::Bool(true));
    assert_eq!(out, "true");
}
