use michi::audience::Audience;
use michi::hints::Hint;
use michi::kv::{render_kv, KvItem, KvValue};
use michi::recovery::RecoveryHint;
use michi::response::{AgentResponse, OutputFormat, DEFAULT_TRUNCATE_CELLS};
use michi::resilience::Delay;
use michi::text::FloatText;
use michi::toon::Value;

fn float(f: f64, decimals: u8) -> KvValue {
    KvValue::Float(FloatText::new(format!("{f:.*}", decimals as usize), f.to_bits()).unwrap(), decimals)
}

fn duration(d: std::time::Duration) -> KvValue {
    KvValue::Duration(
        Delay::new(d.as_secs(), d.subsec_nanos()),
        FloatText::new(format!("{:.1}", d.as_secs_f64()), d.as_secs_f64().to_bits()).unwrap(),
    )
}

fn object(entries: &[(&str, i64)]) -> serde_json::Value {
    let mut m = serde_json::Map::new();
    for (k, v) in entries {
        m.insert(k.to_string(), serde_json::Value::from(*v));
    }
    serde_json::Value::Object(m)
}

#[test]
fn items_path_renders_toon() {
    let r = AgentResponse::new("issues").items(vec![vec![Value::Int(1), Value::from("open")]], &["id", "state"]);
    let out = r.render(OutputFormat::Text);
    assert!(out.starts_with("issues[1]{id,state}:\n  1,open\n"), "got: {out}");
}

#[test]
fn ac001_unset_target_renders_empty_toon_exactly() {
    let r = AgentResponse::new("widget");
    assert_eq!(r.render(OutputFormat::Text), "widget[0]{}:\n");
}

#[test]
fn ac002_items_path_renders_exact_toon_literal() {
    let r = AgentResponse::new("issues").items(vec![vec![Value::Int(1), Value::from("open")]], &["id", "state"]);
    assert_eq!(r.render(OutputFormat::Text), "issues[1]{id,state}:\n  1,open\n");
}

#[test]
fn ac003_kv_items_path_matches_direct_render_kv_call() {
    let items = vec![KvItem { key: "id".into(), value: KvValue::Int(1) }];
    let r = AgentResponse::new("t").kv_items(items.clone());
    assert_eq!(r.render(OutputFormat::Text), render_kv(&items, None, &[]));
}

#[test]
fn render_json_basic_structure() {
    let r = AgentResponse::new("items").items(vec![vec![Value::from("hello world")]], &["name"]);
    let json = r.render_json();
    assert!(json.contains("\"isError\":false"), "got: {json}");
    assert!(json.contains("\"body\""), "got: {json}");
    assert!(json.contains("\"hints\":[]"), "got: {json}");
}

#[test]
fn render_json_is_error_flag() {
    let r = AgentResponse::new("items").items(vec![vec![Value::from("fail")]], &["name"]).as_error();
    let json = r.render_json();
    assert!(json.contains("\"isError\":true"), "got: {json}");
}

#[test]
fn ac004_render_json_top_level_keys_are_exactly_the_specified_set_for_every_target() {
    let unset = AgentResponse::new("t");
    let toon = AgentResponse::new("t").items(vec![vec![Value::from("x")]], &["a"]);
    let kv = AgentResponse::new("t")
        .kv_items(vec![KvItem { key: "k".into(), value: KvValue::Int(1) }]);
    for r in [unset, toon, kv] {
        let parsed: serde_json::Value = serde_json::from_str(&r.render(OutputFormat::Json)).expect("valid JSON");
        let obj = parsed.as_object().expect("top-level object");
        let mut keys: Vec<&str> = obj.keys().map(String::as_str).collect();
        keys.sort_unstable();
        assert_eq!(keys, vec!["body", "hints", "isError", "recovery"]);
    }
}

#[test]
fn ac006_recovery_json_entry_shape_and_reason_presence() {
    let with_reason = RecoveryHint::new("retry").param("n", KvValue::Int(1)).reason("why");
    let without_reason = RecoveryHint::new("retry2");
    let r = AgentResponse::new("t").recovery_hint(with_reason).recovery_hint(without_reason);
    let parsed: serde_json::Value = serde_json::from_str(&r.render_json()).expect("valid JSON");
    let recovery = parsed["recovery"].as_array().expect("recovery array");
    assert_eq!(recovery.len(), 2);
    assert_eq!(recovery[0]["tool"], serde_json::Value::from("retry"));
    assert_eq!(recovery[0]["params"], object(&[("n", 1)]));
    assert_eq!(recovery[0]["reason"], serde_json::Value::from("why"));
    assert_eq!(recovery[1]["tool"], serde_json::Value::from("retry2"));
    assert!(recovery[1].as_object().unwrap().get("reason").is_none(), "got: {recovery:?}");
}

#[test]
fn render_json_recovery_int_param_is_numeric_not_string() {
    let recovery = RecoveryHint::new("retry").param("limit", KvValue::Int(10));
    let r =
        AgentResponse::new("items").items(vec![vec![Value::from("hit limit")]], &["name"]).recovery_hint(recovery);
    let json = r.render_json();
    assert!(json.contains("\"limit\":10"), "Int param must be unquoted, got: {json}");
    assert!(!json.contains("\"limit\":\"10\""), "Int param must not be quoted string, got: {json}");
}

#[test]
fn render_json_hint_with_quotes_is_escaped() {
    let r = AgentResponse::new("items").hint(r#"Use "get_item" instead"#);
    let json = r.render_json();
    assert!(json.contains("\\\"get_item\\\""), "quotes in hints must be escaped, got: {json}");
}

#[test]
fn ac038_hint_and_body_with_quote_backslash_newline_produce_valid_json() {
    let r = AgentResponse::new("items").hint("has \"quotes\" and \\backslash\nand newline").kv_items(vec![
        KvItem { key: "k".into(), value: KvValue::Text("body \"quoted\" \\slash".into()) },
    ]);
    let raw = r.render_json();
    let parsed: serde_json::Value = serde_json::from_str(&raw).expect("must be valid JSON");
    assert_eq!(parsed["hints"][0].as_str().unwrap(), "has \"quotes\" and \\backslash\nand newline");
    assert_eq!(parsed["body"].as_str().unwrap(), "k: body \"quoted\" \\slash\n");
}

#[test]
fn ac009_render_toon_and_render_kv_diverge_when_only_items_was_set() {
    let r = AgentResponse::new("t").items(vec![vec![Value::from("x")]], &["a"]);
    assert_eq!(r.render_toon(), "t[1]{a}:\n  x\n");
    assert_eq!(r.render_kv(), "");
}

#[test]
fn ac010_render_text_agrees_with_render_kv_when_kv_items_set() {
    let items = vec![KvItem { key: "id".into(), value: KvValue::Int(1) }];
    let r = AgentResponse::new("t").kv_items(items);
    assert_eq!(r.render(OutputFormat::Text), r.render_kv());
}

#[test]
fn ac012_missing_in_kv_items_json_body_is_embedded_em_dash() {
    let r = AgentResponse::new("t").kv_items(vec![KvItem { key: "k".into(), value: KvValue::Missing }]);
    let parsed: serde_json::Value = serde_json::from_str(&r.render_json()).expect("valid JSON");
    assert_eq!(parsed["body"].as_str().unwrap(), "k: —\n");
}

#[test]
fn ac014_float_special_values_in_kv_items_json_body_are_embedded_tokens() {
    for (value, token) in [
        (float(f64::NAN, 2), "NaN"),
        (float(f64::INFINITY, 0), "inf"),
        (float(f64::NEG_INFINITY, 0), "-inf"),
    ] {
        let r = AgentResponse::new("t").kv_items(vec![KvItem { key: "k".into(), value }]);
        let parsed: serde_json::Value = serde_json::from_str(&r.render_json()).expect("valid JSON");
        assert_eq!(parsed["body"].as_str().unwrap(), format!("k: {token}\n"), "token: {token}");
    }
}

#[test]
fn ac016_duration_in_kv_items_json_body_is_embedded_token() {
    let r = AgentResponse::new("t").kv_items(vec![KvItem {
        key: "k".into(),
        value: duration(std::time::Duration::from_millis(1500)),
    }]);
    let parsed: serde_json::Value = serde_json::from_str(&r.render_json()).expect("valid JSON");
    assert_eq!(parsed["body"].as_str().unwrap(), "k: 1.5s\n");
}

#[test]
fn ac041_to_ac045_recovery_params_use_kv_value_to_json_typing() {
    let cases: Vec<(KvValue, serde_json::Value)> = vec![
        (KvValue::Missing, serde_json::Value::Null),
        (float(f64::NAN, 2), serde_json::Value::from("NaN")),
        (float(f64::INFINITY, 0), serde_json::Value::from("inf")),
        (float(f64::NEG_INFINITY, 0), serde_json::Value::from("-inf")),
        (duration(std::time::Duration::from_millis(1500)), serde_json::Value::from("1.5s")),
        (KvValue::Bool(true), serde_json::Value::Bool(true)),
    ];
    for (value, expected) in cases {
        let recovery = RecoveryHint::new("x").param("p", value.clone());
        let r = AgentResponse::new("t").recovery_hint(recovery);
        let parsed: serde_json::Value = serde_json::from_str(&r.render_json()).expect("valid JSON");
        assert_eq!(parsed["recovery"][0]["params"]["p"], expected, "value: {value:?}");
    }
}

#[test]
fn to_call_tool_result_composes_correctly() {
    let r = AgentResponse::new("items").items(vec![vec![Value::from("ok")]], &["name"]).as_error();
    let result = r.to_call_tool_result();
    assert!(result.is_error);
    assert!(!result.content.is_empty(), "content must not be empty");
    assert!(result.structured_content.starts_with('{'), "structured_content must be JSON object");
}

#[test]
fn ac023_call_tool_result_has_exactly_one_assistant_block_matching_render_text() {
    let r = AgentResponse::new("items").items(vec![vec![Value::from("ok")]], &["name"]);
    let result = r.to_call_tool_result();
    assert_eq!(result.content.len(), 1);
    assert_eq!(result.content[0].audience, vec![Audience::Assistant]);
    assert_eq!(result.content[0].text, r.render(OutputFormat::Text));
}

#[test]
fn ac024_call_tool_result_adds_user_block_when_human_content_set() {
    let r = AgentResponse::new("items").human_content("For humans");
    let result = r.to_call_tool_result();
    assert_eq!(result.content.len(), 2);
    assert_eq!(result.content[1].audience, vec![Audience::User]);
    assert_eq!(result.content[1].text, "For humans");
}

#[test]
fn ac025_call_tool_result_has_no_user_block_without_human_content() {
    let r = AgentResponse::new("items").items(vec![vec![Value::from("x")]], &["name"]);
    let result = r.to_call_tool_result();
    assert_eq!(result.content.len(), 1);
    assert!(!result.content.iter().any(|c| c.audience == vec![Audience::User]));
}

#[test]
fn ac026_call_tool_result_structured_content_and_is_error_match_exactly() {
    let r = AgentResponse::new("items").items(vec![vec![Value::from("ok")]], &["name"]);
    let result = r.to_call_tool_result();
    assert_eq!(result.structured_content, r.render(OutputFormat::Json));
    assert!(!result.is_error);

    let err = r.as_error();
    let err_result = err.to_call_tool_result();
    assert_eq!(err_result.structured_content, err.render(OutputFormat::Json));
    assert!(err_result.is_error);
}

#[test]
fn toon_body_returns_error_on_invalid_type_name() {
    let r = AgentResponse::new("items[bad]").items(vec![vec![Value::from("x")]], &["name"]);
    let out = r.render(OutputFormat::Text);
    assert!(out.contains("error:"), "expected error output for invalid type_name, got: {out}");
}

#[test]
fn ac031_invalid_type_name_produces_the_exact_error_prefix() {
    let r = AgentResponse::new("items[bad]");
    let out = r.render(OutputFormat::Text);
    assert!(out.starts_with("error: toon_validation_failed\nmessage: "), "got: {out}");
}

#[test]
fn ac039_row_length_mismatch_names_indices_and_counts() {
    let r = AgentResponse::new("t").items(vec![vec![Value::Int(1)]], &["a", "b"]);
    let out = r.render(OutputFormat::Text);
    assert_eq!(out, "error: toon_validation_failed\nmessage: row 0 has 1 values but 2 fields declared\n");
}

#[test]
fn ac040_invalid_field_name_names_the_offending_field() {
    let r = AgentResponse::new("t").items(vec![], &["a,b"]);
    let out = r.render(OutputFormat::Text);
    assert_eq!(out, "error: toon_validation_failed\nmessage: field \"a,b\" contains a structural character\n");
}

#[test]
fn render_hints_only_contains_help_block() {
    let r = AgentResponse::new("items").hint("Try again with fewer params");
    let out = r.render_hints_only();
    assert!(out.contains("help[1]:"), "expected help block, got: {out}");
    assert!(out.contains("Try again with fewer params"), "got: {out}");
}

#[test]
fn render_hints_only_empty_when_no_hints() {
    let r = AgentResponse::new("items");
    assert!(r.render_hints_only().is_empty(), "no hints should produce empty string");
}

#[test]
fn render_for_assistant_returns_text_output() {
    let r = AgentResponse::new("items").items(vec![vec![Value::from("ok")]], &["name"]);
    let out = r.render_for(Audience::Assistant);
    assert!(!out.is_empty(), "assistant render must not be empty");
    assert!(out.contains("items"), "got: {out}");
}

#[test]
fn render_for_user_returns_human_content_when_set() {
    let r = AgentResponse::new("items").human_content("Human-readable summary.");
    let out = r.render_for(Audience::User);
    assert_eq!(out, "Human-readable summary.");
}

#[test]
fn render_for_user_falls_back_to_text_when_no_human_content() {
    let r = AgentResponse::new("items").items(vec![vec![Value::from("x")]], &["name"]);
    let assistant_out = r.render_for(Audience::Assistant);
    let user_out = r.render_for(Audience::User);
    assert_eq!(assistant_out, user_out, "user render must match assistant render when no human_content set");
}

#[test]
fn ac021_render_for_fallback_matches_render_text_directly() {
    let r = AgentResponse::new("items").items(vec![vec![Value::from("x")]], &["name"]);
    let text_out = r.render(OutputFormat::Text);
    assert_eq!(r.render_for(Audience::Assistant), text_out);
    assert_eq!(r.render_for(Audience::User), text_out);
}

#[test]
fn ac029_truncate_cells_at_bounds_total_cell_length() {
    let r = AgentResponse::new("t").truncate_cells_at(5).items(vec![vec![Value::from("abcdefghij")]], &["name"]);
    let out = r.render_toon();
    let row_line = out.lines().nth(1).expect("row line present");
    let cell = row_line.strip_prefix("  ").expect("row indent present");
    assert!(cell.chars().count() <= 5, "cell {} chars, got: {row_line:?}", cell.chars().count());
}

#[test]
fn ac030_truncate_cells_at_does_not_affect_kv_path() {
    let long_value = "x".repeat(50);
    let r = AgentResponse::new("t")
        .truncate_cells_at(5)
        .kv_items(vec![KvItem { key: "k".into(), value: KvValue::Text(long_value.clone()) }]);
    let out = r.render_kv();
    assert!(out.contains(&long_value), "value must be untruncated, got: {out}");
}

#[test]
fn ac051_total_count_is_wired_into_kv_render_path() {
    let r =
        AgentResponse::new("t").total_count(3).kv_items(vec![KvItem { key: "k".into(), value: KvValue::Int(1) }]);
    let out = r.render_kv();
    assert!(out.contains("totalCount: 3\n"), "got: {out}");
}

#[test]
fn ac052_total_count_is_wired_into_toon_render_path() {
    let r = AgentResponse::new("t").total_count(3).items(vec![vec![Value::from("x")]], &["c"]);
    let out = r.render_toon();
    assert!(out.contains('3'), "expected total_count 3 to surface, got: {out}");

    let without_total_count = AgentResponse::new("t").items(vec![vec![Value::from("x")]], &["c"]);
    assert_ne!(out, without_total_count.render_toon(), "total_count must change the output");
}

#[test]
fn ac053_hints_replaces_rather_than_appends() {
    let r = AgentResponse::new("t").hint("a").hints(vec![Hint::from("b")]);
    let out = r.render_hints_only();
    assert!(out.contains('b'), "got: {out}");
    assert!(!out.contains('a'), "got: {out}");
}

#[test]
fn ac038_control_character_below_0x20_is_escaped_and_json_stays_valid() {
    let r = AgentResponse::new("t").hint("before\u{1}after");
    let raw = r.render_json();
    assert!(raw.contains(r"\u0001"), "got: {raw}");
    let parsed: serde_json::Value = serde_json::from_str(&raw).expect("must be valid JSON");
    assert_eq!(parsed["hints"][0].as_str().unwrap(), "before\u{1}after");
}

#[test]
fn ac049_default_truncate_cells_is_200() {
    assert_eq!(DEFAULT_TRUNCATE_CELLS, 200);
}

#[test]
fn ac050_default_truncate_boundary_holds_without_explicit_call() {
    let untruncated = AgentResponse::new("t").items(vec![vec![Value::from("x".repeat(199))]], &["c"]);
    let out = untruncated.render_toon();
    let cell_line = out.lines().nth(1).expect("row line present");
    assert!(cell_line.contains(&"x".repeat(199)), "199 chars must be untruncated, got: {cell_line:?}");

    let truncated = AgentResponse::new("t").items(vec![vec![Value::from("x".repeat(250))]], &["c"]);
    let out = truncated.render_toon();
    let cell_line = out.lines().nth(1).expect("row line present");
    let value_part = cell_line.trim_start();
    assert!(
        value_part.chars().count() <= DEFAULT_TRUNCATE_CELLS,
        "got line with {} chars: {cell_line:?}",
        value_part.chars().count()
    );
}

#[test]
fn has_human_content_false_when_empty() {
    let r = AgentResponse::new("items");
    assert!(!r.has_human_content());
}

#[test]
fn has_human_content_true_when_set() {
    let r = AgentResponse::new("items").human_content("Some text for humans.");
    assert!(r.has_human_content());
}
