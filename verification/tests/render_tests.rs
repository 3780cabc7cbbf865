//! Tests for render preparation, partial discovery, and resolver-based
//! tool resolution.

use dotprompt::dotprompt::Dotprompt;
use dotprompt::helpers::value_to_json_indented;
use dotprompt::render::{build_render_context, rewrite_state_refs};
use dotprompt::types::{PromptMetadata, ToolDefinition, ToolResolver};
use dotprompt::value::Val;

#[test]
fn test_rewrite_state_refs() {
    assert_eq!(
        rewrite_state_refs("Hello {{@state.name}} and {{ @state.mood }}!"),
        "Hello {{__state.name}} and {{ __state.mood }}!"
    );
    assert_eq!(rewrite_state_refs("no references"), "no references");
}

fn get<'a>(v: &'a Val, key: &str) -> Option<&'a Val> {
    match v {
        Val::Obj(entries) => entries.iter().find(|(k, _)| k == key).map(|(_, v)| v),
        _ => None,
    }
}

#[test]
fn test_build_render_context_merges_state() {
    let input = Val::Obj(vec![("name".to_string(), Val::Str("World".to_string()))]);
    let context = vec![(
        "state".to_string(),
        Val::Obj(vec![("mood".to_string(), Val::Str("calm".to_string()))]),
    )];
    let ctx = build_render_context(Some(&input), Some(&context));
    assert!(matches!(get(&ctx, "name"), Some(Val::Str(s)) if s == "World"));
    let state = get(&ctx, "__state").expect("state should be merged");
    assert!(matches!(get(state, "mood"), Some(Val::Str(s)) if s == "calm"));
}

#[test]
fn test_build_render_context_without_input_or_state() {
    let ctx = build_render_context(None, None);
    assert!(matches!(ctx, Val::Obj(entries) if entries.is_empty()));
}

#[test]
fn test_json_pretty_two_space_indent() {
    let v = Val::Obj(vec![("test".to_string(), Val::Bool(true))]);
    assert_eq!(value_to_json_indented(&v, 2), "{\n  \"test\": true\n}");
}

#[test]
fn test_json_pretty_four_space_indent_nested() {
    let v = Val::Obj(vec![(
        "a".to_string(),
        Val::Arr(vec![Val::Num("1".to_string()), Val::Num("2".to_string())]),
    )]);
    assert_eq!(
        value_to_json_indented(&v, 4),
        "{\n    \"a\": [\n        1,\n        2\n    ]\n}"
    );
}

#[test]
fn test_identify_partials() {
    let dp = Dotprompt::new(None);
    let names = dp.identify_partials("{{> header}} body {{>footer }} again {{> header}}");
    assert_eq!(names, vec!["header".to_string(), "footer".to_string()]);
}

#[test]
fn test_identify_partials_ignores_malformed_references() {
    let dp = Dotprompt::new(None);
    let names = dp.identify_partials("{{> 1bad}} {{>}} {{> good_one}}");
    assert_eq!(names, vec!["good_one".to_string()]);
}

struct FixedResolver;

impl ToolResolver for FixedResolver {
    fn resolve(&self, name: &str) -> Option<ToolDefinition> {
        if name == "remote" {
            Some(ToolDefinition {
                name: "remote".to_string(),
                description: Some("resolved elsewhere".to_string()),
                input_schema: Vec::new(),
                output_schema: None,
            })
        } else {
            None
        }
    }
}

#[test]
fn test_resolve_tools_with_resolver_fallback() {
    let mut dp = Dotprompt::new(None);
    dp.define_tool(ToolDefinition {
        name: "local".to_string(),
        description: None,
        input_schema: Vec::new(),
        output_schema: None,
    });
    let mut meta = PromptMetadata::default();
    meta.tools = Some(vec![
        "local".to_string(),
        "remote".to_string(),
        "nowhere".to_string(),
    ]);
    let resolved = dp.resolve_tools_with(meta, &FixedResolver);
    let defs = resolved.tool_defs.expect("definitions should be present");
    let names: Vec<&str> = defs.iter().map(|d| d.name.as_str()).collect();
    // the registry hit, then the resolver hit; the unknown name is skipped
    assert_eq!(names, vec!["local", "remote"]);
}

struct FixedPartials;

impl dotprompt::types::PartialResolver for FixedPartials {
    fn resolve(&self, name: &str) -> Option<String> {
        if name == "header" {
            Some("A header.".to_string())
        } else {
            None
        }
    }
}

#[test]
fn test_resolve_partials_registers_supplied_sources() {
    let mut dp = Dotprompt::new(None);
    dp.define_partial("footer".to_string(), "kept".to_string()).expect("registration succeeds");
    dp.resolve_partials("{{> header}} {{> footer}} {{> unknown}}", &FixedPartials)
        .expect("resolution succeeds");
    // the resolver's source is registered under its name
    assert!(dp.partials.iter().any(|(n, s)| n == "header" && s == "A header."));
    // an already registered name is untouched
    assert!(dp.partials.iter().any(|(n, s)| n == "footer" && s == "kept"));
    // a name the resolver cannot supply is skipped
    assert!(!dp.partials.iter().any(|(n, _)| n == "unknown"));
    assert_eq!(dp.partials.len(), 2);
}

#[test]
fn test_define_schema_replaces_same_name() {
    let mut dp = Dotprompt::new(None);
    dp.define_schema("shape".to_string(), Val::Str("string".to_string()));
    dp.define_schema("shape".to_string(), Val::Str("number".to_string()));
    assert_eq!(dp.schemas.len(), 1);
    assert!(matches!(&dp.schemas[0].1, Val::Str(s) if s == "number"));
}
