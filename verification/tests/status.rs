use michi::hints::{render_hints, Hint};
use michi::kv::KvValue;
use michi::status::{Health, StatusItem, StatusResponse};

#[test]
fn tool_and_description_lead_the_output() {
    let resp = StatusResponse::new("my-search-tool", "Semantic code search and symbol analysis", vec![]);
    let out = resp.render();
    assert!(
        out.starts_with("tool:        my-search-tool\ndescription: Semantic code search and symbol analysis\n"),
        "got: {out}"
    );
}

#[test]
fn empty_items_renders_only_tool_and_description() {
    let resp = StatusResponse::new("tool-x", "does things", vec![]);
    let out = resp.render();
    let lines: Vec<&str> = out.lines().collect();
    assert_eq!(lines.len(), 2, "only tool + description lines, got: {out}");
}

#[test]
fn health_ok_produces_no_annotation() {
    let resp = StatusResponse::new(
        "tool",
        "desc",
        vec![StatusItem { key: "index".into(), value: KvValue::Text("ready".into()), health: Some(Health::Healthy) }],
    );
    let out = resp.render();
    assert!(!out.contains("DEGRADED") && !out.contains("ERROR"), "Ok should add no annotation, got: {out}");
}

#[test]
fn health_degraded_annotation_appears() {
    let resp = StatusResponse::new(
        "tool",
        "desc",
        vec![StatusItem {
            key: "cache".into(),
            value: KvValue::Text("warm".into()),
            health: Some(Health::Degraded("slow eviction".into())),
        }],
    );
    let out = resp.render();
    assert!(out.contains("[DEGRADED: slow eviction]"), "got: {out}");
}

#[test]
fn ac025_degraded_suffix_has_exactly_two_leading_spaces() {
    let resp = StatusResponse::new(
        "tool",
        "desc",
        vec![StatusItem {
            key: "cache".into(),
            value: KvValue::Text("warm".into()),
            health: Some(Health::Degraded("slow eviction".into())),
        }],
    );
    let out = resp.render();
    let line = out.lines().find(|l| l.starts_with("cache:")).expect("cache line present");
    assert!(line.ends_with("  [DEGRADED: slow eviction]"), "got: {line:?}");
    assert!(!line.ends_with("   [DEGRADED: slow eviction]"), "three spaces, got: {line:?}");
}

#[test]
fn health_error_annotation_appears() {
    let resp = StatusResponse::new(
        "tool",
        "desc",
        vec![StatusItem {
            key: "db".into(),
            value: KvValue::Text("unreachable".into()),
            health: Some(Health::Error("connection refused".into())),
        }],
    );
    let out = resp.render();
    assert!(out.contains("[ERROR: connection refused]"), "got: {out}");
}

#[test]
fn ac026_error_suffix_has_exactly_two_leading_spaces() {
    let resp = StatusResponse::new(
        "tool",
        "desc",
        vec![StatusItem {
            key: "db".into(),
            value: KvValue::Text("unreachable".into()),
            health: Some(Health::Error("connection refused".into())),
        }],
    );
    let out = resp.render();
    let line = out.lines().find(|l| l.starts_with("db:")).expect("db line present");
    assert!(line.ends_with("  [ERROR: connection refused]"), "got: {line:?}");
    assert!(!line.ends_with("   [ERROR: connection refused]"), "three spaces, got: {line:?}");
}

#[test]
fn multiple_items_all_appear() {
    let resp = StatusResponse::new(
        "tool",
        "desc",
        vec![
            StatusItem { key: "alpha".into(), value: KvValue::Int(1), health: None },
            StatusItem { key: "beta".into(), value: KvValue::Int(2), health: None },
        ],
    );
    let out = resp.render();
    assert!(out.contains("alpha:"), "got: {out}");
    assert!(out.contains("beta:"), "got: {out}");
}

#[test]
fn ac021_new_defaults_hints_empty_and_with_hints_is_a_consuming_builder() {
    let resp = StatusResponse::new("tool", "desc", vec![]);
    assert!(resp.hints.is_empty());

    let hints = vec![Hint::new("a hint")];
    let with = resp.with_hints(hints.clone());
    assert_eq!(with.hints, hints);
    assert_eq!(with.tool_name, "tool");
    assert_eq!(with.description, "desc");
    assert!(with.items.is_empty());
}

#[test]
fn ac023_line_count_is_2_plus_n_with_default_hints() {
    for n in 0..=3 {
        let items: Vec<StatusItem> = (0..n)
            .map(|i| StatusItem {
                key: format!("k{i}"),
                value: KvValue::Int(i.try_into().unwrap_or(0)),
                health: None,
            })
            .collect();
        let resp = StatusResponse::new("tool", "desc", items);
        let out = resp.render();
        assert_eq!(out.lines().count(), 2 + n, "n={n}, got: {out:?}");
    }
}

#[test]
fn ac023a_with_hints_appends_append_hints_block_after_the_2_plus_n_lines() {
    let items = vec![StatusItem { key: "k".into(), value: KvValue::Int(1), health: None }];
    let hints = vec![Hint::new("h1"), Hint::new("h2")];
    let resp = StatusResponse::new("tool", "desc", items).with_hints(hints.clone());
    let out = resp.render();
    let no_hints = StatusResponse::new(
        "tool",
        "desc",
        vec![StatusItem { key: "k".into(), value: KvValue::Int(1), health: None }],
    )
    .render();
    assert!(out.starts_with(&no_hints), "got: {out:?}");
    assert_eq!(&out[no_hints.len()..], render_hints(&hints));
}

#[test]
fn ac023a_newline_in_item_key_breaks_the_2_plus_n_formula_even_with_hints() {
    let items = vec![StatusItem { key: "a\nb".into(), value: KvValue::Text("v".into()), health: None }];
    let hints = vec![Hint::new("h1")];
    let resp = StatusResponse::new("tool", "desc", items).with_hints(hints);
    let out = resp.render();
    let lines_before_help = out.lines().take_while(|l| !l.starts_with("help[")).count();
    assert_eq!(lines_before_help, 4, "2 (tool+desc) + 1 item + 1 extra from the embedded \\n, got: {out:?}");
}

#[test]
fn ac024_health_ok_renders_byte_identical_to_health_none() {
    let ok_item = StatusItem { key: "x".into(), value: KvValue::Int(1), health: Some(Health::Healthy) };
    let none_item = StatusItem { key: "x".into(), value: KvValue::Int(1), health: None };
    let ok_out = StatusResponse::new("tool", "desc", vec![ok_item]).render();
    let none_out = StatusResponse::new("tool", "desc", vec![none_item]).render();
    assert_eq!(ok_out, none_out);
}

#[test]
fn ac024_value_text_containing_bracket_literal_is_not_mistaken_for_a_real_annotation() {
    let item = StatusItem { key: "x".into(), value: KvValue::Text("[DEGRADED: fake]".into()), health: None };
    let out = StatusResponse::new("tool", "desc", vec![item]).render();
    assert_eq!(out, "tool:        tool\ndescription: desc\nx:           [DEGRADED: fake]\n");
}

#[test]
fn ac023b_newline_in_item_key_adds_a_line_beyond_the_2_plus_n_formula() {
    let items = vec![StatusItem { key: "a\nb".into(), value: KvValue::Text("v".into()), health: None }];
    let resp = StatusResponse::new("tool", "desc", items);
    let out = resp.render();
    assert_eq!(out.lines().count(), 4, "2 (tool+desc) + 1 item + 1 extra from the embedded \\n, got: {out:?}");
}
