//! Tests for document parsing and metadata resolution.

use dotprompt::dotprompt::{Dotprompt, DotpromptOptions};
use dotprompt::error::DotpromptError;
use dotprompt::metadata::parse_document;
use dotprompt::types::{PromptMetadata, ToolDefinition};
use dotprompt::value::Val;

#[test]
fn test_parse_document() {
    let source = "---\nmodel: gemini-pro\n---\nHello!";
    let parsed = parse_document(source).expect("parse should succeed");
    assert_eq!(parsed.metadata.model, Some("gemini-pro".to_string()));
    assert_eq!(parsed.template, "Hello!");
}

#[test]
fn test_parse() {
    let dp = Dotprompt::new(None);
    let source = "---\nmodel: gemini-pro\n---\nHello!";
    let parsed = dp.parse(source).expect("parse should succeed");
    assert_eq!(parsed.metadata.model, Some("gemini-pro".to_string()));
}

#[test]
fn test_new_dotprompt() {
    let dp = Dotprompt::new(None);
    assert!(dp.tools.is_empty());
}

#[test]
fn test_define_tool() {
    let mut dp = Dotprompt::new(None);
    let tool = ToolDefinition {
        name: "test".to_string(),
        description: Some("Test tool".to_string()),
        input_schema: Vec::new(),
        output_schema: None,
    };
    dp.define_tool(tool);
    assert!(dp.tools.iter().any(|(name, _)| name == "test"));
}

#[test]
fn test_parse_document_empty_frontmatter_gives_defaults() {
    let parsed = parse_document("no frontmatter at all").expect("parse should succeed");
    assert_eq!(parsed.metadata.model, None);
    assert_eq!(parsed.metadata.name, None);
    assert_eq!(parsed.template, "no frontmatter at all");
}

#[test]
fn test_parse_document_malformed_yaml_fails() {
    let source = "---\nmodel: [unclosed\n---\nHello!";
    let err = parse_document(source).expect_err("malformed YAML should fail");
    assert!(matches!(err, DotpromptError::FrontmatterParseError(_)));
}

#[test]
fn test_parse_document_reads_tools_and_config() {
    let source = "---\nmodel: m\ntools:\n  - alpha\n  - beta\nconfig:\n  temperature: 0.5\n---\nHi";
    let parsed = parse_document(source).expect("parse should succeed");
    assert_eq!(
        parsed.metadata.tools,
        Some(vec!["alpha".to_string(), "beta".to_string()])
    );
    match parsed.metadata.config {
        Some(Val::Obj(entries)) => {
            assert!(entries
                .iter()
                .any(|(k, v)| k == "temperature" && matches!(v, Val::Num(n) if n == "0.5")));
        },
        other => panic!("expected a config object, got {other:?}"),
    }
}

#[test]
fn test_resolve_metadata_overrides_and_default_model() {
    let dp = Dotprompt::new(Some(DotpromptOptions {
        default_model: Some("fallback-model".to_string()),
        model_configs: None,
        partials: None,
        tools: None,
        schemas: None,
    }));
    let mut base = PromptMetadata::default();
    base.description = Some("kept".to_string());
    let mut extra = PromptMetadata::default();
    extra.model = Some("override-model".to_string());

    let merged = dp.resolve_metadata(base, Some(extra)).expect("resolution should succeed");
    assert_eq!(merged.model, Some("override-model".to_string()));
    assert_eq!(merged.description, Some("kept".to_string()));

    let mut base2 = PromptMetadata::default();
    base2.description = Some("kept".to_string());
    let defaulted = dp.resolve_metadata(base2, None).expect("resolution should succeed");
    assert_eq!(defaulted.model, Some("fallback-model".to_string()));
}

fn tool(name: &str) -> ToolDefinition {
    ToolDefinition {
        name: name.to_string(),
        description: None,
        input_schema: Vec::new(),
        output_schema: None,
    }
}

#[test]
fn test_resolve_tools_appends_registry_hits_in_order() {
    let mut dp = Dotprompt::new(None);
    dp.define_tool(tool("a"));
    dp.define_tool(tool("b"));
    let mut meta = PromptMetadata::default();
    meta.tools = Some(vec!["b".to_string(), "missing".to_string(), "a".to_string()]);
    meta.tool_defs = Some(vec![tool("inline")]);

    let resolved = dp.resolve_tools(meta);
    let defs = resolved.tool_defs.expect("definitions should be present");
    let names: Vec<&str> = defs.iter().map(|d| d.name.as_str()).collect();
    // inline definitions are kept first; misses are skipped silently
    assert_eq!(names, vec!["inline", "b", "a"]);
}

#[test]
fn test_resolve_tools_twice_duplicates_entries() {
    let mut dp = Dotprompt::new(None);
    dp.define_tool(tool("a"));
    let mut meta = PromptMetadata::default();
    meta.tools = Some(vec!["a".to_string()]);

    let once = dp.resolve_tools(meta);
    let twice = dp.resolve_tools(once);
    let defs = twice.tool_defs.expect("definitions should be present");
    assert_eq!(defs.len(), 2);
    assert_eq!(defs[0].name, "a");
    assert_eq!(defs[1].name, "a");
}

#[test]
fn test_render_picoschema_expands_schemas() {
    let dp = Dotprompt::new(None);
    let source = "---\ninput:\n  schema: string[]\noutput:\n  schema: number\n---\nHi";
    let parsed = parse_document(source).expect("parse should succeed");
    let meta = dp.render_picoschema(parsed.metadata).expect("expansion should succeed");
    let input_schema = meta.input.unwrap().schema.unwrap();
    match &input_schema {
        Val::Obj(entries) => {
            assert!(entries
                .iter()
                .any(|(k, v)| k == "type" && matches!(v, Val::Str(s) if s == "array")));
        },
        other => panic!("expected an object schema, got {other:?}"),
    }
}

#[test]
fn test_render_picoschema_reports_unknown_token() {
    let dp = Dotprompt::new(None);
    let source = "---\ninput:\n  schema: mystery\n---\nHi";
    let parsed = parse_document(source).expect("parse should succeed");
    let err = dp.render_picoschema(parsed.metadata).expect_err("unknown token should fail");
    assert!(matches!(err, DotpromptError::PicoschemaError(_)));
}

#[test]
fn test_frontmatter_round_trip_reparses_same_metadata() {
    let yaml = "model: gemini-pro\ndescription: greeting";
    let body = "Hello!";
    let doc = format!("---\n{yaml}\n---\n{body}");
    let first = parse_document(&doc).expect("parse should succeed");
    let (extracted, _) =
        dotprompt::parse::extract_frontmatter_and_body(&doc).expect("split should succeed");
    assert_eq!(extracted, yaml);
    let rejoined = format!("---\n{extracted}\n---\n{body}");
    let second = parse_document(&rejoined).expect("reparse should succeed");
    assert_eq!(first.metadata, second.metadata);
}

#[test]
fn test_define_tool_replaces_same_name() {
    let mut dp = Dotprompt::new(None);
    dp.define_tool(tool("a"));
    dp.define_tool(ToolDefinition {
        name: "a".to_string(),
        description: Some("newer".to_string()),
        input_schema: Vec::new(),
        output_schema: None,
    });
    assert_eq!(dp.tools.len(), 1);
    assert_eq!(dp.tools[0].1.description.as_deref(), Some("newer"));
}
