//! Tests for frontmatter extraction and the marker-protocol decoder.

use dotprompt::parse::{
    extract_frontmatter_and_body, insert_history, split_by_role_and_history_markers, to_messages,
    to_parts,
};
use dotprompt::types::{duplicate_messages, DataArgument, Message, Part, Role};
use dotprompt::value::Val;

#[test]
fn test_extract_frontmatter_and_body() {
    let source = "---\nmodel: gemini-pro\n---\nHello {{name}}!";
    let (yaml, template) = extract_frontmatter_and_body(source).expect("parse should succeed");
    assert!(yaml.contains("model: gemini-pro"));
    assert_eq!(template, "Hello {{name}}!");
}

#[test]
fn test_extract_no_frontmatter() {
    let source = "Hello {{name}}!";
    let (yaml, template) = extract_frontmatter_and_body(source).expect("parse should succeed");
    assert_eq!(yaml, "");
    assert_eq!(template, "Hello {{name}}!");
}

#[test]
fn test_extract_frontmatter_exact_block() {
    let source = "---\nmodel: gemini-pro\n---\nbody here";
    let (yaml, template) = extract_frontmatter_and_body(source).expect("parse should succeed");
    assert_eq!(yaml, "model: gemini-pro");
    assert_eq!(template, "body here");
}

#[test]
fn test_extract_unclosed_frontmatter_is_body() {
    // no closing delimiter line: the whole text is the body, untrimmed
    let source = "---\nmodel: gemini-pro\nHello";
    let (yaml, template) = extract_frontmatter_and_body(source).expect("parse should succeed");
    assert_eq!(yaml, "");
    assert_eq!(template, source);
}

#[test]
fn test_extract_trims_body_only_with_frontmatter() {
    let with = "---\na: 1\n---\n\n  body  \n";
    let (_, template) = extract_frontmatter_and_body(with).expect("parse should succeed");
    assert_eq!(template, "body");

    let without = "  body  \n";
    let (_, template2) = extract_frontmatter_and_body(without).expect("parse should succeed");
    assert_eq!(template2, "  body  \n");
}

#[test]
fn test_split_keeps_markers_and_drops_blank_runs() {
    let pieces = split_by_role_and_history_markers(
        "<<<dotprompt:role:user>>>Hello\n<<<dotprompt:history>>>  \n",
    );
    assert_eq!(pieces.len(), 3);
    assert_eq!(pieces[0], "<<<dotprompt:role:user");
    assert_eq!(pieces[1], "Hello\n");
    assert_eq!(pieces[2], "<<<dotprompt:history");
}

#[test]
fn test_to_messages_simple() {
    let rendered = "Hello world!";
    let messages = to_messages(rendered, None);
    assert_eq!(messages.len(), 1);
    assert_eq!(messages[0].role, Role::User);
}

#[test]
fn test_to_messages_with_roles() {
    let rendered = "<<<dotprompt:role:user>>>Hello\n<<<dotprompt:role:model>>>Hi there!";
    let messages = to_messages(rendered, None);
    assert_eq!(messages.len(), 2);
    assert_eq!(messages[0].role, Role::User);
    assert_eq!(messages[1].role, Role::Model);
}

#[test]
fn test_to_messages_role_scenario_exact_text() {
    let rendered = "<<<dotprompt:role:user>>>Hello\n<<<dotprompt:role:model>>>Hi there!";
    let messages = to_messages(rendered, None);
    assert_eq!(messages.len(), 2);
    match &messages[0].content[0] {
        Part::Text(t, _) => assert_eq!(t, "Hello\n"),
        other => panic!("expected a text part, got {other:?}"),
    }
    match &messages[1].content[0] {
        Part::Text(t, _) => assert_eq!(t, "Hi there!"),
        other => panic!("expected a text part, got {other:?}"),
    }
}

#[test]
fn test_to_messages_with_media() {
    let rendered = "<<<dotprompt:media:url http://example.com/img.jpg image/jpeg>>>";
    let messages = to_messages(rendered, None);
    assert_eq!(messages.len(), 1);
    assert!(matches!(messages[0].content[0], Part::Media(..)));
}

#[test]
fn test_media_marker_decodes_url_and_content_type() {
    let messages = to_messages("<<<dotprompt:media:url http://x/img.jpg image/jpeg>>>", None);
    assert_eq!(messages.len(), 1);
    assert_eq!(messages[0].content.len(), 1);
    match &messages[0].content[0] {
        Part::Media(media, _) => {
            assert_eq!(media.url, "http://x/img.jpg");
            assert_eq!(media.content_type.as_deref(), Some("image/jpeg"));
        },
        other => panic!("expected a media part, got {other:?}"),
    }
}

#[test]
fn test_media_marker_without_content_type() {
    let messages = to_messages("<<<dotprompt:media:url http://x/img.jpg>>>", None);
    match &messages[0].content[0] {
        Part::Media(media, _) => {
            assert_eq!(media.url, "http://x/img.jpg");
            assert_eq!(media.content_type, None);
        },
        other => panic!("expected a media part, got {other:?}"),
    }
}

#[test]
fn test_section_marker_decodes_to_pending_part() {
    let parts = to_parts("<<<dotprompt:section examples>>>");
    assert_eq!(parts.len(), 1);
    match &parts[0] {
        Part::Pending(metadata) => {
            assert!(metadata.iter().any(|(k, v)| k == "purpose"
                && matches!(v, Val::Str(s) if s == "examples")));
            assert!(metadata.iter().any(|(k, v)| k == "pending"
                && matches!(v, Val::Bool(true))));
        },
        other => panic!("expected a pending part, got {other:?}"),
    }
}

#[test]
fn test_leading_role_marker_makes_no_empty_message() {
    let messages = to_messages("<<<dotprompt:role:system>>>You are helpful.", None);
    assert_eq!(messages.len(), 1);
    assert_eq!(messages[0].role, Role::System);
}

fn text_message(role: Role, text: &str) -> Message {
    Message {
        role,
        content: vec![Part::Text(text.to_string(), None)],
        metadata: None,
    }
}

#[test]
fn test_history_marker_injects_tagged_history() {
    let history = vec![text_message(Role::User, "earlier"), text_message(Role::Model, "reply")];
    let data = DataArgument {
        input: None,
        docs: None,
        messages: Some(history),
        context: None,
    };
    let messages = to_messages(
        "<<<dotprompt:role:system>>>sys<<<dotprompt:history>>>now",
        Some(&data),
    );
    assert_eq!(messages.len(), 4);
    assert_eq!(messages[0].role, Role::System);
    assert_eq!(messages[1].role, Role::User);
    assert_eq!(messages[2].role, Role::Model);
    // injected history is tagged with purpose: history
    for m in &messages[1..3] {
        let md = m.metadata.as_ref().expect("history should carry metadata");
        assert!(md.iter().any(|(k, v)| k == "purpose"
            && matches!(v, Val::Str(s) if s == "history")));
    }
    // and the trailing content starts a model turn
    assert_eq!(messages[3].role, Role::Model);
}

#[test]
fn test_insert_history_empty_messages_returns_history() {
    let history = vec![text_message(Role::User, "hi"), text_message(Role::Model, "hello")];
    let result = insert_history(Vec::new(), Some(&history));
    assert_eq!(result.len(), 2);
    assert_eq!(result, history);
    // implicit insertion does not tag
    assert!(result[0].metadata.is_none());
}

#[test]
fn test_insert_history_before_final_user_turn() {
    let messages = vec![text_message(Role::System, "sys"), text_message(Role::User, "question")];
    let history = vec![text_message(Role::User, "old"), text_message(Role::Model, "answer")];
    let result = insert_history(duplicate_messages(&messages), Some(&history));
    assert_eq!(result.len(), 4);
    assert_eq!(result[0], messages[0]);
    assert_eq!(result[1], history[0]);
    assert_eq!(result[2], history[1]);
    assert_eq!(result[3], messages[1]);
}

#[test]
fn test_insert_history_appends_after_model_turn() {
    let messages = vec![text_message(Role::Model, "reply")];
    let history = vec![text_message(Role::User, "old")];
    let result = insert_history(duplicate_messages(&messages), Some(&history));
    assert_eq!(result.len(), 2);
    assert_eq!(result[0], messages[0]);
    assert_eq!(result[1], history[0]);
}

#[test]
fn test_insert_history_skips_already_tagged() {
    let mut tagged = text_message(Role::User, "old");
    tagged.metadata = Some(vec![(
        "purpose".to_string(),
        Val::Str("history".to_string()),
    )]);
    let messages = vec![tagged, text_message(Role::User, "question")];
    let history = vec![text_message(Role::Model, "extra")];
    let result = insert_history(duplicate_messages(&messages), Some(&history));
    assert_eq!(result, messages);
}

#[test]
fn test_insert_history_none_or_empty_is_identity() {
    let messages = vec![text_message(Role::User, "q")];
    assert_eq!(insert_history(duplicate_messages(&messages), None), messages);
    let empty: Vec<Message> = Vec::new();
    assert_eq!(insert_history(duplicate_messages(&messages), Some(&empty)), messages);
}

#[test]
fn test_role_update_in_place_when_buffer_blank() {
    // two adjacent role markers: the first role is overwritten, not flushed
    let messages = to_messages(
        "<<<dotprompt:role:user>>><<<dotprompt:role:model>>>text",
        None,
    );
    assert_eq!(messages.len(), 1);
    assert_eq!(messages[0].role, Role::Model);
}

#[test]
fn test_whitespace_only_output_gives_no_messages() {
    let messages = to_messages("   \n  ", None);
    assert_eq!(messages.len(), 0);
}

#[test]
fn test_extract_frontmatter_crlf() {
    let source = "---\r\nmodel: gemini-pro\r\n---\r\nHello";
    let (yaml, template) = extract_frontmatter_and_body(source).expect("parse should succeed");
    assert_eq!(yaml, "model: gemini-pro");
    assert_eq!(template, "Hello");
}

#[test]
fn test_extract_empty_block() {
    let source = "---\n\n---\nbody";
    let (yaml, template) = extract_frontmatter_and_body(source).expect("parse should succeed");
    assert_eq!(yaml, "");
    assert_eq!(template, "body");
}

#[test]
fn test_extract_adjacent_delimiters_are_body() {
    // the opening line's terminator cannot also open the closing line
    let source = "---\n---\nbody";
    let (yaml, template) = extract_frontmatter_and_body(source).expect("parse should succeed");
    assert_eq!(yaml, "");
    assert_eq!(template, source);
}

#[test]
fn test_extract_requires_newline_after_closing_delimiter() {
    let source = "---\na: b\n---";
    let (yaml, template) = extract_frontmatter_and_body(source).expect("parse should succeed");
    assert_eq!(yaml, "");
    assert_eq!(template, source);
}
