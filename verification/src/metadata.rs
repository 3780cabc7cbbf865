//! YAML frontmatter parsing: deserializing the metadata block and
//! extracting the typed prompt metadata from it.

use vstd::prelude::*;
use vstd::string::*;
use crate::error::DotpromptError;
use crate::parse::{extract_frontmatter_and_body, fm_split};
use crate::types::{
    assoc_get, map_model, opt_map_model, strings_model, tool_defs_model, default_metadata_model,
    ext_model, meta_get, duplicate_meta, ParsedPrompt, PromptInputConfig, PromptInputConfigV,
    PromptMetadata, PromptMetadataV, PromptOutputConfig, PromptOutputConfigV, ToolDefinition,
    ToolDefinitionV,
};
use crate::value::{lemma_obj_model, obj_model, Val, ValV};

verus! {

broadcast use vstd::std_specs::vec::group_vec_axioms;

/// The value a YAML text parses to in the library's data model, when the
/// text is well-formed YAML whose shape the model can hold.
pub uninterp spec fn yaml_parse(s: Seq<char>) -> Option<ValV>;

/// The object model of a pair list equals its map model.
pub proof fn lemma_obj_map_bridge(pairs: Seq<(String, Val)>)
    ensures
        obj_model(pairs) == map_model(pairs),
{
    lemma_obj_model(pairs);
    assert forall|i: int| 0 <= i < pairs.len() implies obj_model(pairs)[i] == map_model(pairs)[i]
        by {
        assert(obj_model(pairs)[i] == (pairs[i].0@, pairs[i].1@));
    }
    assert(obj_model(pairs) =~= map_model(pairs));
}

/// Relies on `serde_yaml::from_str::<serde_yaml::Value>`: parsing YAML
/// text is a function of the text alone, so the parsed value (converted to
/// the library's data model) is named `yaml_parse`.  The error carries the
/// parser's message; a parse that succeeds but yields a shape the model
/// cannot hold (a tagged value or a non-string key) is an error too.
#[verifier::external_body]
fn yaml_from_str(s: &str) -> (r: Result<Val, String>)
    ensures
        match r {
            Ok(v) => yaml_parse(s@) == Some(v@),
            Err(_) => yaml_parse(s@) is None,
        },
{
    match serde_yaml::from_str::<serde_yaml::Value>(s) {
        Ok(y) => match yaml_to_value(&y) {
            Some(v) => Ok(v),
            None => Err("unsupported YAML structure".to_string()),
        },
        Err(e) => Err(e.to_string()),
    }
}

/// The parsed YAML tree type of the YAML parser crate, carried only
/// through the trusted conversion below.
#[verifier::external_type_specification]
#[verifier::external_body]
pub struct ExYamlValue(serde_yaml::Value);

/// Converts a parsed YAML tree into the library's data model: numbers
/// become their display text; tagged values and non-string mapping keys
/// have no counterpart and yield nothing.  Only `yaml_from_str` calls this.
#[verifier::external_body]
fn yaml_to_value(y: &serde_yaml::Value) -> (r: Option<Val>)
{
    match y {
        serde_yaml::Value::Null => Some(Val::Null),
        serde_yaml::Value::Bool(b) => Some(Val::Bool(*b)),
        serde_yaml::Value::Number(n) => Some(Val::Num(n.to_string())),
        serde_yaml::Value::String(s) => Some(Val::Str(s.clone())),
        serde_yaml::Value::Sequence(_) => yaml_seq_to_value(y),
        serde_yaml::Value::Mapping(_) => yaml_map_to_value(y),
        serde_yaml::Value::Tagged(_) => None,
    }
}

/// Converts a parsed YAML sequence: see `yaml_to_value`.
#[verifier::external_body]
fn yaml_seq_to_value(y: &serde_yaml::Value) -> (r: Option<Val>)
{
    let serde_yaml::Value::Sequence(items) = y else {
        return None;
    };
    let mut out: Vec<Val> = Vec::new();
    for item in items {
        out.push(yaml_to_value(item)?);
    }
    Some(Val::Arr(out))
}

/// Converts a parsed YAML mapping: see `yaml_to_value`.
#[verifier::external_body]
fn yaml_map_to_value(y: &serde_yaml::Value) -> (r: Option<Val>)
{
    let serde_yaml::Value::Mapping(m) = y else {
        return None;
    };
    let mut out: Vec<(String, Val)> = Vec::new();
    for (k, v) in m {
        out.push((k.as_str()?.to_string(), yaml_to_value(v)?));
    }
    Some(Val::Obj(out))
}

/// An optional string field: absent or null is `None`, a string is kept,
/// anything else is a type error (the outer `None`).
pub open spec fn fld_str(m: Seq<(Seq<char>, ValV)>, key: Seq<char>) -> Option<
    Option<Seq<char>>,
> {
    match assoc_get(m, key) {
        None => Some(None),
        Some(ValV::Null) => Some(None),
        Some(ValV::Str(s)) => Some(Some(s)),
        Some(_) => None,
    }
}

/// The strings of a value list, when every element is a string.
pub open spec fn strs_of(items: Seq<ValV>) -> Option<Seq<Seq<char>>>
    decreases items.len(),
{
    if items.len() == 0 {
        Some(Seq::empty())
    } else {
        match items[0] {
            ValV::Str(s) => match strs_of(items.drop_first()) {
                Some(rest) => Some(seq![s] + rest),
                None => None,
            },
            _ => None,
        }
    }
}

/// An optional list-of-strings field.
pub open spec fn fld_strs(m: Seq<(Seq<char>, ValV)>, key: Seq<char>) -> Option<
    Option<Seq<Seq<char>>>,
> {
    match assoc_get(m, key) {
        None => Some(None),
        Some(ValV::Null) => Some(None),
        Some(ValV::Arr(items)) => match strs_of(items) {
            Some(ss) => Some(Some(ss)),
            None => None,
        },
        Some(_) => None,
    }
}

/// An optional object field.
pub open spec fn fld_obj(m: Seq<(Seq<char>, ValV)>, key: Seq<char>) -> Option<
    Option<Seq<(Seq<char>, ValV)>>,
> {
    match assoc_get(m, key) {
        None => Some(None),
        Some(ValV::Null) => Some(None),
        Some(ValV::Obj(mm)) => Some(Some(mm)),
        Some(_) => None,
    }
}

/// An optional field of any shape: absent or null is `None`.
pub open spec fn fld_any(m: Seq<(Seq<char>, ValV)>, key: Seq<char>) -> Option<ValV> {
    match assoc_get(m, key) {
        None => None,
        Some(ValV::Null) => None,
        Some(v) => Some(v),
    }
}

/// The tool definition a value describes: an object with a required string
/// `name`, an optional string `description`, a required object
/// `inputSchema`, and an optional object `outputSchema`.
pub open spec fn tool_def_of(v: ValV) -> Option<ToolDefinitionV> {
    match v {
        ValV::Obj(m) => match assoc_get(m, "name"@) {
            Some(ValV::Str(name)) => match fld_str(m, "description"@) {
                Some(description) => match assoc_get(m, "inputSchema"@) {
                    Some(ValV::Obj(input_schema)) => match fld_obj(m, "outputSchema"@) {
                        Some(output_schema) => Some(
                            ToolDefinitionV { name, description, input_schema, output_schema },
                        ),
                        None => None,
                    },
                    _ => None,
                },
                None => None,
            },
            _ => None,
        },
        _ => None,
    }
}

/// The tool definitions of a value list, when every element is one.
pub open spec fn tool_defs_of(items: Seq<ValV>) -> Option<Seq<ToolDefinitionV>>
    decreases items.len(),
{
    if items.len() == 0 {
        Some(Seq::empty())
    } else {
        match tool_def_of(items[0]) {
            Some(d) => match tool_defs_of(items.drop_first()) {
                Some(rest) => Some(seq![d] + rest),
                None => None,
            },
            None => None,
        }
    }
}

/// An optional list-of-tool-definitions field.
pub open spec fn fld_tool_defs(m: Seq<(Seq<char>, ValV)>, key: Seq<char>) -> Option<
    Option<Seq<ToolDefinitionV>>,
> {
    match assoc_get(m, key) {
        None => Some(None),
        Some(ValV::Null) => Some(None),
        Some(ValV::Arr(items)) => match tool_defs_of(items) {
            Some(ds) => Some(Some(ds)),
            None => None,
        },
        Some(_) => None,
    }
}

/// The input configuration a value describes.
pub open spec fn input_cfg_of(v: ValV) -> Option<PromptInputConfigV> {
    match v {
        ValV::Obj(m) => match fld_obj(m, "default"@) {
            Some(default) => Some(
                PromptInputConfigV { default, schema: fld_any(m, "schema"@) },
            ),
            None => None,
        },
        _ => None,
    }
}

/// The output configuration a value describes.
pub open spec fn output_cfg_of(v: ValV) -> Option<PromptOutputConfigV> {
    match v {
        ValV::Obj(m) => match fld_str(m, "format"@) {
            Some(format) => Some(
                PromptOutputConfigV { format, schema: fld_any(m, "schema"@) },
            ),
            None => None,
        },
        _ => None,
    }
}

/// The namespace entries of an extension object, when every value is an
/// object.
pub open spec fn ext_entries_of(m: Seq<(Seq<char>, ValV)>) -> Option<
    Seq<(Seq<char>, Seq<(Seq<char>, ValV)>)>,
>
    decreases m.len(),
{
    if m.len() == 0 {
        Some(Seq::empty())
    } else {
        match m[0].1 {
            ValV::Obj(inner) => match ext_entries_of(m.drop_first()) {
                Some(rest) => Some(seq![(m[0].0, inner)] + rest),
                None => None,
            },
            _ => None,
        }
    }
}

/// The metadata a frontmatter object describes, when every field has the
/// expected shape.
pub open spec fn meta_of_obj(m: Seq<(Seq<char>, ValV)>) -> Option<PromptMetadataV> {
    match fld_str(m, "name"@) {
        Some(name) => match fld_str(m, "variant"@) {
            Some(variant) => match fld_str(m, "version"@) {
                Some(version) => match fld_str(m, "description"@) {
                    Some(description) => match fld_str(m, "model"@) {
                        Some(model) => match fld_strs(m, "tools"@) {
                            Some(tools) => match fld_tool_defs(m, "toolDefs"@) {
                                Some(tool_defs) => match fld_input(m) {
                                    Some(input) => match fld_output(m) {
                                        Some(output) => match fld_obj(m, "raw"@) {
                                            Some(raw) => match fld_ext(m) {
                                                Some(ext) => match fld_obj(m, "metadata"@) {
                                                    Some(metadata) => Some(
                                                        PromptMetadataV {
                                                            name,
                                                            variant,
                                                            version,
                                                            description,
                                                            model,
                                                            tools,
                                                            tool_defs,
                                                            config: fld_any(m, "config"@),
                                                            input,
                                                            output,
                                                            raw,
                                                            ext,
                                                            metadata,
                                                        },
                                                    ),
                                                    None => None,
                                                },
                                                None => None,
                                            },
                                            None => None,
                                        },
                                        None => None,
                                    },
                                    None => None,
                                },
                                None => None,
                            },
                            None => None,
                        },
                        None => None,
                    },
                    None => None,
                },
                None => None,
            },
            None => None,
        },
        None => None,
    }
}

/// The optional `input` configuration field.
pub open spec fn fld_input(m: Seq<(Seq<char>, ValV)>) -> Option<Option<PromptInputConfigV>> {
    match assoc_get(m, "input"@) {
        None => Some(None),
        Some(ValV::Null) => Some(None),
        Some(v) => match input_cfg_of(v) {
            Some(c) => Some(Some(c)),
            None => None,
        },
    }
}

/// The optional `output` configuration field.
pub open spec fn fld_output(m: Seq<(Seq<char>, ValV)>) -> Option<Option<PromptOutputConfigV>> {
    match assoc_get(m, "output"@) {
        None => Some(None),
        Some(ValV::Null) => Some(None),
        Some(v) => match output_cfg_of(v) {
            Some(c) => Some(Some(c)),
            None => None,
        },
    }
}

/// The optional `ext` namespace map field.
pub open spec fn fld_ext(m: Seq<(Seq<char>, ValV)>) -> Option<
    Option<Seq<(Seq<char>, Seq<(Seq<char>, ValV)>)>>,
> {
    match assoc_get(m, "ext"@) {
        None => Some(None),
        Some(ValV::Null) => Some(None),
        Some(ValV::Obj(e)) => match ext_entries_of(e) {
            Some(es) => Some(Some(es)),
            None => None,
        },
        Some(_) => None,
    }
}

/// The metadata a parsed frontmatter value describes: the value must be an
/// object of well-shaped fields.
pub open spec fn metadata_of_yaml(v: ValV) -> Option<PromptMetadataV> {
    match v {
        ValV::Obj(m) => meta_of_obj(m),
        _ => None,
    }
}

/// Builds the error a malformed frontmatter field raises.
fn field_error(key: &str) -> (r: DotpromptError)
    ensures
        r is FrontmatterParseError,
{
    DotpromptError::FrontmatterParseError(
        String::from_str("invalid frontmatter field: ").concat(key),
    )
}

/// Reads an optional string field.
fn get_str_field(m: &Vec<(String, Val)>, key: &str) -> (r: Result<Option<String>, DotpromptError>)
    ensures
        match fld_str(map_model(m@), key@) {
            Some(o) => r matches Ok(s) && s.deep_view() == o,
            None => r matches Err(e) && e is FrontmatterParseError,
        },
{
    match meta_get(m, key) {
        None => Ok(None),
        Some(Val::Null) => Ok(None),
        Some(Val::Str(s)) => Ok(Some(s.clone())),
        Some(_) => Err(field_error(key)),
    }
}

/// Reads an optional list-of-strings field.
#[verifier::loop_isolation(false)]
fn get_strs_field(m: &Vec<(String, Val)>, key: &str) -> (r: Result<
    Option<Vec<String>>,
    DotpromptError,
>)
    ensures
        match fld_strs(map_model(m@), key@) {
            Some(o) => r matches Ok(s) && (match (s, o) {
                (Some(ss), Some(os)) => strings_model(ss@) == os,
                (None, None) => true,
                _ => false,
            }),
            None => r matches Err(e) && e is FrontmatterParseError,
        },
{
    match meta_get(m, key) {
        None => Ok(None),
        Some(Val::Null) => Ok(None),
        Some(Val::Arr(items)) => {
            let mut out: Vec<String> = Vec::new();
            let mut i: usize = 0;
            proof {
                crate::value::lemma_arr_model(items@);
                assert(crate::value::arr_model(items@).skip(0) =~= crate::value::arr_model(
                    items@,
                ));
                assert(strings_model(out@) =~= Seq::<Seq<char>>::empty());
                if strs_of(crate::value::arr_model(items@)) is Some {
                    assert(strings_model(out@) + strs_of(crate::value::arr_model(items@))->Some_0
                        =~= strs_of(crate::value::arr_model(items@))->Some_0);
                }
            }
            while i < items.len()
                invariant
                    i <= items@.len(),
                    out@.len() == i as int,
                    strs_of(crate::value::arr_model(items@)) is Some <==> strs_of(
                        crate::value::arr_model(items@).skip(i as int),
                    ) is Some,
                    strs_of(crate::value::arr_model(items@)) matches Some(all) ==> strs_of(
                        crate::value::arr_model(items@).skip(i as int),
                    ) matches Some(tail) && all == strings_model(out@) + tail,
                decreases items@.len() - i,
            {
                let ghost av = crate::value::arr_model(items@);
                proof {
                    assert(av.skip(i as int)[0] == items@[i as int]@);
                    assert(av.skip(i as int).drop_first() =~= av.skip(i + 1));
                }
                match &items[i] {
                    Val::Str(s) => {
                        proof {
                            assert(items@[i as int]@ == ValV::Str(s@));
                        }
                        let ghost outp = out@;
                        out.push(s.clone());
                        proof {
                            if strs_of(av) matches Some(all) {
                                assert(strings_model(out@) + strs_of(av.skip(i + 1))->Some_0
                                    =~= strings_model(out@.drop_last()) + strs_of(
                                    av.skip(i as int),
                                )->Some_0);
                            }
                        }
                        i = i + 1;
                    },
                    _ => {
                        return Err(field_error(key));
                    },
                }
            }
            proof {
                let av = crate::value::arr_model(items@);
                assert(av.skip(av.len() as int) =~= Seq::<ValV>::empty());
                if strs_of(av) is Some {
                    assert(strs_of(av)->Some_0 =~= strings_model(out@));
                }
            }
            Ok(Some(out))
        },
        Some(_) => Err(field_error(key)),
    }
}

/// Reads an optional object field.
fn get_obj_field(m: &Vec<(String, Val)>, key: &str) -> (r: Result<
    Option<Vec<(String, Val)>>,
    DotpromptError,
>)
    ensures
        match fld_obj(map_model(m@), key@) {
            Some(o) => r matches Ok(s) && opt_map_model(s) == o,
            None => r matches Err(e) && e is FrontmatterParseError,
        },
{
    match meta_get(m, key) {
        None => Ok(None),
        Some(Val::Null) => Ok(None),
        Some(Val::Obj(mm)) => {
            proof {
                lemma_obj_map_bridge(mm@);
            }
            Ok(Some(duplicate_meta(mm)))
        },
        Some(_) => Err(field_error(key)),
    }
}

/// Reads an optional field of any shape.
fn get_any_field(m: &Vec<(String, Val)>, key: &str) -> (r: Option<Val>)
    ensures
        match fld_any(map_model(m@), key@) {
            Some(o) => r matches Some(v) && v@ == o,
            None => r is None,
        },
{
    match meta_get(m, key) {
        None => None,
        Some(Val::Null) => None,
        Some(v) => Some(v.duplicate()),
    }
}

/// Reads a tool definition from a value.
fn tool_def_from_value(v: &Val) -> (r: Result<ToolDefinition, DotpromptError>)
    ensures
        match tool_def_of(v@) {
            Some(d) => r matches Ok(td) && td@ == d,
            None => r matches Err(e) && e is FrontmatterParseError,
        },
{
    match v {
        Val::Obj(pairs) => {
            proof {
                lemma_obj_map_bridge(pairs@);
            }
            let name = match meta_get(pairs, "name") {
                Some(Val::Str(s)) => s.clone(),
                _ => {
                    return Err(field_error("name"));
                },
            };
            let description = match get_str_field(pairs, "description") {
                Ok(d) => d,
                Err(e) => {
                    return Err(e);
                },
            };
            let input_schema = match meta_get(pairs, "inputSchema") {
                Some(Val::Obj(mm)) => {
                    proof {
                        lemma_obj_map_bridge(mm@);
                    }
                    duplicate_meta(mm)
                },
                _ => {
                    return Err(field_error("inputSchema"));
                },
            };
            let output_schema = match get_obj_field(pairs, "outputSchema") {
                Ok(o) => o,
                Err(e) => {
                    return Err(e);
                },
            };
            let td = ToolDefinition { name, description, input_schema, output_schema };
            proof {
                assert(td@ =~= tool_def_of(v@)->Some_0);
            }
            Ok(td)
        },
        _ => Err(field_error("toolDefs")),
    }
}

/// Reads an optional list-of-tool-definitions field.
#[verifier::loop_isolation(false)]
fn get_tool_defs_field(m: &Vec<(String, Val)>, key: &str) -> (r: Result<
    Option<Vec<ToolDefinition>>,
    DotpromptError,
>)
    ensures
        match fld_tool_defs(map_model(m@), key@) {
            Some(o) => r matches Ok(s) && (match (s, o) {
                (Some(ds), Some(os)) => tool_defs_model(ds@) == os,
                (None, None) => true,
                _ => false,
            }),
            None => r matches Err(e) && e is FrontmatterParseError,
        },
{
    match meta_get(m, key) {
        None => Ok(None),
        Some(Val::Null) => Ok(None),
        Some(Val::Arr(items)) => {
            let mut out: Vec<ToolDefinition> = Vec::new();
            let mut i: usize = 0;
            proof {
                crate::value::lemma_arr_model(items@);
                assert(crate::value::arr_model(items@).skip(0) =~= crate::value::arr_model(
                    items@,
                ));
                assert(tool_defs_model(out@) =~= Seq::<ToolDefinitionV>::empty());
                if tool_defs_of(crate::value::arr_model(items@)) is Some {
                    assert(tool_defs_model(out@) + tool_defs_of(
                        crate::value::arr_model(items@),
                    )->Some_0 =~= tool_defs_of(crate::value::arr_model(items@))->Some_0);
                }
            }
            while i < items.len()
                invariant
                    i <= items@.len(),
                    out@.len() == i as int,
                    tool_defs_of(crate::value::arr_model(items@)) is Some <==> tool_defs_of(
                        crate::value::arr_model(items@).skip(i as int),
                    ) is Some,
                    tool_defs_of(crate::value::arr_model(items@)) matches Some(all)
                        ==> tool_defs_of(crate::value::arr_model(items@).skip(i as int))
                        matches Some(tail) && all == tool_defs_model(out@) + tail,
                decreases items@.len() - i,
            {
                let ghost av = crate::value::arr_model(items@);
                proof {
                    assert(av.skip(i as int)[0] == items@[i as int]@);
                    assert(av.skip(i as int).drop_first() =~= av.skip(i + 1));
                }
                match tool_def_from_value(&items[i]) {
                    Ok(td) => {
                        out.push(td);
                        proof {
                            if tool_defs_of(av) is Some {
                                assert(tool_defs_model(out@) + tool_defs_of(av.skip(i + 1))->Some_0
                                    =~= tool_defs_model(out@.drop_last()) + tool_defs_of(
                                    av.skip(i as int),
                                )->Some_0);
                            }
                        }
                        i = i + 1;
                    },
                    Err(e) => {
                        return Err(e);
                    },
                }
            }
            proof {
                let av = crate::value::arr_model(items@);
                assert(av.skip(av.len() as int) =~= Seq::<ValV>::empty());
                if tool_defs_of(av) is Some {
                    assert(tool_defs_of(av)->Some_0 =~= tool_defs_model(out@));
                }
            }
            Ok(Some(out))
        },
        Some(_) => Err(field_error(key)),
    }
}

/// Reads the optional `input` configuration field.
fn get_input_field(m: &Vec<(String, Val)>) -> (r: Result<
    Option<PromptInputConfig>,
    DotpromptError,
>)
    ensures
        match fld_input(map_model(m@)) {
            Some(o) => r matches Ok(s) && (match (s, o) {
                (Some(c), Some(oc)) => c@ == oc,
                (None, None) => true,
                _ => false,
            }),
            None => r matches Err(e) && e is FrontmatterParseError,
        },
{
    match meta_get(m, "input") {
        None => Ok(None),
        Some(Val::Null) => Ok(None),
        Some(Val::Obj(mm)) => {
            proof {
                lemma_obj_map_bridge(mm@);
            }
            let default = match get_obj_field(mm, "default") {
                Ok(d) => d,
                Err(e) => {
                    return Err(e);
                },
            };
            let schema = get_any_field(mm, "schema");
            let cfg = PromptInputConfig { default, schema };
            proof {
                assert(cfg@ =~= fld_input(map_model(m@))->Some_0->Some_0);
            }
            Ok(Some(cfg))
        },
        Some(_) => Err(field_error("input")),
    }
}

/// Reads the optional `output` configuration field.
fn get_output_field(m: &Vec<(String, Val)>) -> (r: Result<
    Option<PromptOutputConfig>,
    DotpromptError,
>)
    ensures
        match fld_output(map_model(m@)) {
            Some(o) => r matches Ok(s) && (match (s, o) {
                (Some(c), Some(oc)) => c@ == oc,
                (None, None) => true,
                _ => false,
            }),
            None => r matches Err(e) && e is FrontmatterParseError,
        },
{
    match meta_get(m, "output") {
        None => Ok(None),
        Some(Val::Null) => Ok(None),
        Some(Val::Obj(mm)) => {
            proof {
                lemma_obj_map_bridge(mm@);
            }
            let format = match get_str_field(mm, "format") {
                Ok(f) => f,
                Err(e) => {
                    return Err(e);
                },
            };
            let schema = get_any_field(mm, "schema");
            let cfg = PromptOutputConfig { format, schema };
            proof {
                assert(cfg@ =~= fld_output(map_model(m@))->Some_0->Some_0);
            }
            Ok(Some(cfg))
        },
        Some(_) => Err(field_error("output")),
    }
}

/// Reads the optional `ext` namespace map field.
#[verifier::loop_isolation(false)]
fn get_ext_field(m: &Vec<(String, Val)>) -> (r: Result<
    Option<Vec<(String, Vec<(String, Val)>)>>,
    DotpromptError,
>)
    ensures
        match fld_ext(map_model(m@)) {
            Some(o) => r matches Ok(s) && (match (s, o) {
                (Some(es), Some(os)) => ext_model(es@) == os,
                (None, None) => true,
                _ => false,
            }),
            None => r matches Err(e) && e is FrontmatterParseError,
        },
{
    match meta_get(m, "ext") {
        None => Ok(None),
        Some(Val::Null) => Ok(None),
        Some(Val::Obj(e)) => {
            proof {
                lemma_obj_map_bridge(e@);
            }
            let mut out: Vec<(String, Vec<(String, Val)>)> = Vec::new();
            let mut i: usize = 0;
            proof {
                assert(map_model(e@).skip(0) =~= map_model(e@));
                assert(ext_model(out@) =~= Seq::<(Seq<char>, Seq<(Seq<char>, ValV)>)>::empty());
                if ext_entries_of(map_model(e@)) is Some {
                    assert(ext_model(out@) + ext_entries_of(map_model(e@))->Some_0
                        =~= ext_entries_of(map_model(e@))->Some_0);
                }
            }
            while i < e.len()
                invariant
                    i <= e@.len(),
                    out@.len() == i as int,
                    ext_entries_of(map_model(e@)) is Some <==> ext_entries_of(
                        map_model(e@).skip(i as int),
                    ) is Some,
                    ext_entries_of(map_model(e@)) matches Some(all) ==> ext_entries_of(
                        map_model(e@).skip(i as int),
                    ) matches Some(tail) && all == ext_model(out@) + tail,
                decreases e@.len() - i,
            {
                let ghost em = map_model(e@);
                proof {
                    assert(em.skip(i as int)[0] == (e@[i as int].0@, e@[i as int].1@));
                    assert(em.skip(i as int).drop_first() =~= em.skip(i + 1));
                }
                match &e[i].1 {
                    Val::Obj(inner) => {
                        proof {
                            lemma_obj_map_bridge(inner@);
                        }
                        let key = e[i].0.clone();
                        let dup = duplicate_meta(inner);
                        out.push((key, dup));
                        proof {
                            if ext_entries_of(em) is Some {
                                assert(ext_model(out@) + ext_entries_of(em.skip(i + 1))->Some_0
                                    =~= ext_model(out@.drop_last()) + ext_entries_of(
                                    em.skip(i as int),
                                )->Some_0);
                            }
                        }
                        i = i + 1;
                    },
                    _ => {
                        return Err(field_error("ext"));
                    },
                }
            }
            proof {
                let em = map_model(e@);
                assert(em.skip(em.len() as int) =~= Seq::<(Seq<char>, ValV)>::empty());
                if ext_entries_of(em) is Some {
                    assert(ext_entries_of(em)->Some_0 =~= ext_model(out@));
                }
            }
            Ok(Some(out))
        },
        Some(_) => Err(field_error("ext")),
    }
}

/// Extracts the typed prompt metadata a parsed frontmatter value carries.
///
/// The value must be an object whose fields have the shapes `meta_of_obj`
/// asks for; any other shape is a frontmatter parse error.
pub fn metadata_from_value(v: &Val) -> (r: Result<PromptMetadata, DotpromptError>)
    ensures
        match metadata_of_yaml(v@) {
            Some(mm) => r matches Ok(pm) && pm@ == mm,
            None => r matches Err(e) && e is FrontmatterParseError,
        },
{
    match v {
        Val::Obj(pairs) => {
            proof {
                lemma_obj_map_bridge(pairs@);
            }
            let name = match get_str_field(pairs, "name") {
                Ok(x) => x,
                Err(e) => {
                    return Err(e);
                },
            };
            let variant = match get_str_field(pairs, "variant") {
                Ok(x) => x,
                Err(e) => {
                    return Err(e);
                },
            };
            let version = match get_str_field(pairs, "version") {
                Ok(x) => x,
                Err(e) => {
                    return Err(e);
                },
            };
            let description = match get_str_field(pairs, "description") {
                Ok(x) => x,
                Err(e) => {
                    return Err(e);
                },
            };
            let model = match get_str_field(pairs, "model") {
                Ok(x) => x,
                Err(e) => {
                    return Err(e);
                },
            };
            let tools = match get_strs_field(pairs, "tools") {
                Ok(x) => x,
                Err(e) => {
                    return Err(e);
                },
            };
            let tool_defs = match get_tool_defs_field(pairs, "toolDefs") {
                Ok(x) => x,
                Err(e) => {
                    return Err(e);
                },
            };
            let config = get_any_field(pairs, "config");
            let input = match get_input_field(pairs) {
                Ok(x) => x,
                Err(e) => {
                    return Err(e);
                },
            };
            let output = match get_output_field(pairs) {
                Ok(x) => x,
                Err(e) => {
                    return Err(e);
                },
            };
            let raw = match get_obj_field(pairs, "raw") {
                Ok(x) => x,
                Err(e) => {
                    return Err(e);
                },
            };
            let ext = match get_ext_field(pairs) {
                Ok(x) => x,
                Err(e) => {
                    return Err(e);
                },
            };
            let metadata = match get_obj_field(pairs, "metadata") {
                Ok(x) => x,
                Err(e) => {
                    return Err(e);
                },
            };
            let pm = PromptMetadata {
                name,
                variant,
                version,
                description,
                model,
                tools,
                tool_defs,
                config,
                input,
                output,
                raw,
                ext,
                metadata,
            };
            proof {
                assert(pm@ =~= metadata_of_yaml(v@)->Some_0);
            }
            Ok(pm)
        },
        _ => Err(field_error("frontmatter")),
    }
}

/// The YAML block and body a document splits into: the split when there is
/// frontmatter, an empty block and the untouched source otherwise.
pub open spec fn doc_parts(s: Seq<char>) -> (Seq<char>, Seq<char>) {
    match fm_split(s) {
        Some(p) => p,
        None => (Seq::empty(), s),
    }
}

/// What parsing a document yields: the metadata its frontmatter carries
/// (the all-defaults metadata when the block is empty) and the template
/// body, or nothing when the YAML block cannot be parsed.
pub open spec fn parse_outcome(s: Seq<char>) -> Option<(PromptMetadataV, Seq<char>)> {
    let (y, b) = doc_parts(s);
    if y.len() == 0 {
        Some((default_metadata_model(), b))
    } else {
        match yaml_parse(y) {
            None => None,
            Some(v) => match metadata_of_yaml(v) {
                Some(mm) => Some((mm, b)),
                None => None,
            },
        }
    }
}

/// Parses a prompt document: splits off the frontmatter, deserializes its
/// YAML block (an empty block gives the all-defaults metadata), and keeps
/// the template body.
pub fn parse_document(source: &str) -> (r: Result<ParsedPrompt, DotpromptError>)
    ensures
        match parse_outcome(source@) {
            Some(o) => r matches Ok(p) && p.metadata@ == o.0 && p.template@ == o.1,
            None => r matches Err(e) && e is FrontmatterParseError,
        },
{
    let (yaml, template) = match extract_frontmatter_and_body(source) {
        Ok(p) => p,
        Err(e) => {
            return Err(e);
        },
    };
    if yaml.as_str().is_empty() {
        let metadata = PromptMetadata::default();
        proof {
            assert(metadata@ =~= default_metadata_model());
        }
        Ok(ParsedPrompt { metadata, template })
    } else {
        match yaml_from_str(yaml.as_str()) {
            Ok(v) => match metadata_from_value(&v) {
                Ok(metadata) => Ok(ParsedPrompt { metadata, template }),
                Err(e) => Err(e),
            },
            Err(msg) => Err(DotpromptError::FrontmatterParseError(msg)),
        }
    }
}


} // verus!
