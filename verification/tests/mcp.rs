use michi::audience::Audience;
use michi::mcp::{CallToolResult, ContentBlock};

#[test]
fn call_tool_result_is_constructible() {
    let r = CallToolResult::new(vec![ContentBlock::new("body", vec![Audience::Assistant])], false, "{}");
    assert_eq!(r.content.len(), 1);
    assert!(!r.is_error);
}

#[test]
fn ac027_new_preserves_text_and_audience_order() {
    let block = ContentBlock::new("body", vec![Audience::User, Audience::Assistant]);
    assert_eq!(block.text, "body");
    assert_eq!(block.audience, vec![Audience::User, Audience::Assistant]);
}

#[test]
fn ac029a_new_accepts_str_and_string_via_into_string() {
    let from_str = CallToolResult::new(vec![], false, "raw");
    let from_string = CallToolResult::new(vec![], false, &"raw".to_string());
    assert_eq!(from_str.structured_content, "raw");
    assert_eq!(from_string.structured_content, "raw");
    assert_eq!(from_str.content, vec![]);
    assert!(!from_str.is_error);
}
