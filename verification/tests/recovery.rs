use michi::kv::KvValue;
use michi::recovery::{append_recovery, render_recovery, RecoveryHint};

#[test]
fn hint_with_params_renders_suggested_params() {
    let hints = [RecoveryHint::new("assign_user").param("user", KvValue::Text("alice".to_string()))];
    let out = render_recovery(&hints);
    assert!(out.contains("assign_user: suggestedParams: { user: alice }"), "got: {out}");
}

#[test]
fn recovery_empty_hints_returns_empty_string() {
    assert_eq!(render_recovery(&[]), "");
}

#[test]
fn hint_with_no_params_renders_tool_name_only() {
    let hints = [RecoveryHint::new("retry_upload")];
    let out = render_recovery(&hints);
    assert_eq!(out, "recovery[1]:\n  retry_upload\n");
}

#[test]
fn hint_with_reason_but_no_params() {
    let hints = [RecoveryHint::new("reload_cache").reason("cache entry expired")];
    let out = render_recovery(&hints);
    assert!(out.contains("reload_cache — cache entry expired"), "got: {out}");
    assert!(!out.contains("suggestedParams"), "got: {out}");
}

#[test]
fn multiple_hints_all_appear() {
    let hints = [RecoveryHint::new("step_a"), RecoveryHint::new("step_b")];
    let out = render_recovery(&hints);
    assert_eq!(out, "recovery[2]:\n  step_a\n  step_b\n");
}

#[test]
fn append_recovery_on_empty_slice_does_nothing() {
    let mut buf = "prefix\n".to_string();
    append_recovery(&mut buf, &[]);
    assert_eq!(buf, "prefix\n");
}

#[test]
fn ac012_builder_methods_produce_expected_fields() {
    let hint = RecoveryHint::new("tool_name").param("a", KvValue::Int(1)).param("b", KvValue::Int(2)).reason("why");
    assert_eq!(hint.tool, "tool_name");
    assert_eq!(hint.params, vec![("a".to_string(), KvValue::Int(1)), ("b".to_string(), KvValue::Int(2))]);
    assert_eq!(hint.reason, Some("why".to_string()));

    let bare = RecoveryHint::new("tool_name");
    assert_eq!(bare.tool, "tool_name");
    assert!(bare.params.is_empty());
    assert_eq!(bare.reason, None);
}

#[test]
fn ac015_multiple_params_are_comma_separated_in_insertion_order() {
    let hints = [RecoveryHint::new("assign_user")
        .param("user", KvValue::Text("alice".to_string()))
        .param("team", KvValue::Text("backend".to_string()))];
    let out = render_recovery(&hints);
    assert!(out.contains("assign_user: suggestedParams: { user: alice, team: backend }"), "got: {out}");
}

#[test]
fn ac017_params_and_reason_appear_together_params_first() {
    let hints = [RecoveryHint::new("retry").param("attempt", KvValue::Int(2)).reason("transient network error")];
    let out = render_recovery(&hints);
    assert_eq!(out, "recovery[1]:\n  retry: suggestedParams: { attempt: 2 } — transient network error\n");
}

#[test]
fn ac018a_append_recovery_appends_render_recovery_output_in_place() {
    let hints = [RecoveryHint::new("step_a"), RecoveryHint::new("step_b")];
    let mut out = "prefix\n".to_string();
    append_recovery(&mut out, &hints);
    assert_eq!(out, format!("prefix\n{}", render_recovery(&hints)));
}

#[test]
fn ac018b_newline_in_tool_or_reason_passes_through_unstripped() {
    let hints = [RecoveryHint::new("a\nb").reason("c\nd")];
    let out = render_recovery(&hints);
    assert_eq!(out, "recovery[1]:\n  a\nb — c\nd\n");
    assert_eq!(out.lines().count(), 4, "two embedded newlines add two extra lines beyond the fixed count");
}

#[test]
fn carriage_return_in_tool_or_reason_passes_through_but_does_not_change_line_count() {
    let hints = [RecoveryHint::new("a\rb").reason("c\rd")];
    let out = render_recovery(&hints);
    assert_eq!(out, "recovery[1]:\n  a\rb — c\rd\n");
    assert_eq!(out.lines().count(), 2);
}
