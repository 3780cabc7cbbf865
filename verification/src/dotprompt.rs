//! The prompt manager: registries for tools, schemas and partials, and the
//! metadata resolution pipeline.
//!
//! A `Dotprompt` holds the read-mostly state a renderer shares across calls:
//! the default model, model configurations, and the tool, schema and partial
//! registries.  Rendering itself needs a template expander, which lives
//! outside this library; the manager supplies everything the expansion's
//! input and output sides need.

use vstd::prelude::*;
use vstd::string::*;
use crate::error::DotpromptError;
use crate::metadata::{parse_document, parse_outcome};
use crate::picoschema::{pico_of_value, picoschema_to_json_schema};
use crate::text::{chars_of, has_at, has_at_exec, skip_spaces, skip_spaces_from, string_of_range};
use crate::types::{
    assoc_get, lemma_assoc_set_get, registry_entries, registry_has, registry_set, strings_model,
    tool_defs_model, ParsedPrompt, PartialResolver, PromptFunction, PromptInputConfig,
    PromptMetadata, PromptMetadataV, PromptOutputConfig, ToolDefinition, ToolDefinitionV,
    ToolResolver,
};
use crate::value::{Val, ValV};

verus! {

broadcast use vstd::std_specs::vec::group_vec_axioms;

/// Options for configuring a `Dotprompt` instance.
#[derive(Debug, PartialEq)]
pub struct DotpromptOptions {
    /// Default model to use if none is specified.
    pub default_model: Option<String>,
    /// Model-specific configurations, by model name.
    pub model_configs: Option<Vec<(String, Val)>>,
    /// Pre-registered partials, by name.
    pub partials: Option<Vec<(String, String)>>,
    /// Pre-registered tools, by name.
    pub tools: Option<Vec<(String, ToolDefinition)>>,
    /// Pre-registered schemas, by name.
    pub schemas: Option<Vec<(String, Val)>>,
}

impl Default for DotpromptOptions {
    /// Empty options: no default model and no registrations.
    fn default() -> (r: DotpromptOptions)
        ensures
            r.default_model is None,
            r.model_configs is None,
            r.partials is None,
            r.tools is None,
            r.schemas is None,
    {
        DotpromptOptions {
            default_model: None,
            model_configs: None,
            partials: None,
            tools: None,
            schemas: None,
        }
    }
}

/// The model of a tool registry.
pub open spec fn registry_model(ts: Seq<(String, ToolDefinition)>) -> Seq<
    (Seq<char>, ToolDefinitionV),
> {
    Seq::new(ts.len(), |i: int| (ts[i].0@, ts[i].1@))
}

/// The tool definitions the registry resolves a name list to, in order;
/// names the registry does not hold are skipped.
pub open spec fn registry_lookups(
    reg: Seq<(Seq<char>, ToolDefinitionV)>,
    names: Seq<Seq<char>>,
) -> Seq<ToolDefinitionV>
    decreases names.len(),
{
    if names.len() == 0 {
        Seq::empty()
    } else {
        let head = match assoc_get(reg, names[0]) {
            Some(d) => seq![d],
            None => Seq::empty(),
        };
        head + registry_lookups(reg, names.drop_first())
    }
}

/// The metadata after overrides: each of model, config, tools, input and
/// output that `extra` provides replaces the base field wholesale.
pub open spec fn merge_model(base: PromptMetadataV, extra: PromptMetadataV) -> PromptMetadataV {
    PromptMetadataV {
        model: if extra.model is Some {
            extra.model
        } else {
            base.model
        },
        config: if extra.config is Some {
            extra.config
        } else {
            base.config
        },
        tools: if extra.tools is Some {
            extra.tools
        } else {
            base.tools
        },
        input: if extra.input is Some {
            extra.input
        } else {
            base.input
        },
        output: if extra.output is Some {
            extra.output
        } else {
            base.output
        },
        ..base
    }
}

/// The metadata with the default model substituted when none is set.
pub open spec fn apply_default_model(
    m: PromptMetadataV,
    dm: Option<Seq<char>>,
) -> PromptMetadataV {
    if m.model is None {
        PromptMetadataV { model: dm, ..m }
    } else {
        m
    }
}

/// The metadata after registry-only tool resolution: every name in `tools`
/// found in the registry is appended, in order, to the pre-existing inline
/// definitions; the result is set only when it is non-empty.
pub open spec fn resolve_tools_model(
    reg: Seq<(Seq<char>, ToolDefinitionV)>,
    m: PromptMetadataV,
) -> PromptMetadataV {
    match m.tools {
        None => m,
        Some(names) => {
            let base_defs = match m.tool_defs {
                Some(d) => d,
                None => Seq::empty(),
            };
            let resolved = base_defs + registry_lookups(reg, names);
            PromptMetadataV {
                tool_defs: if resolved.len() == 0 {
                    None
                } else {
                    Some(resolved)
                },
                ..m
            }
        },
    }
}

/// The definitions among a sequence of per-name outcomes, in order.
pub open spec fn found_defs(extras: Seq<Option<ToolDefinitionV>>) -> Seq<ToolDefinitionV>
    decreases extras.len(),
{
    if extras.len() == 0 {
        Seq::empty()
    } else {
        let head = match extras[0] {
            Some(d) => seq![d],
            None => Seq::empty(),
        };
        head + found_defs(extras.drop_first())
    }
}

/// Appending a per-name outcome appends its definition, if any.
pub proof fn lemma_found_defs_push(extras: Seq<Option<ToolDefinitionV>>, o: Option<ToolDefinitionV>)
    ensures
        found_defs(extras.push(o)) == found_defs(extras) + (match o {
            Some(d) => seq![d],
            None => Seq::<ToolDefinitionV>::empty(),
        }),
    decreases extras.len(),
{
    if extras.len() == 0 {
        assert(extras.push(o).drop_first() =~= Seq::<Option<ToolDefinitionV>>::empty());
        assert(extras.push(o)[0] == o);
        assert(found_defs(extras) =~= Seq::<ToolDefinitionV>::empty());
        assert(found_defs(Seq::<Option<ToolDefinitionV>>::empty()) =~= Seq::<
            ToolDefinitionV,
        >::empty());
        match o {
            Some(d) => {
                assert(found_defs(extras.push(o)) =~= found_defs(extras) + seq![d]);
            },
            None => {
                assert(found_defs(extras.push(o)) =~= found_defs(extras) + Seq::<
                    ToolDefinitionV,
                >::empty());
            },
        }
    } else {
        assert(extras.push(o)[0] == extras[0]);
        assert(extras.push(o).drop_first() =~= extras.drop_first().push(o));
        lemma_found_defs_push(extras.drop_first(), o);
        assert(found_defs(extras.push(o)) =~= found_defs(extras) + (match o {
            Some(d) => seq![d],
            None => Seq::<ToolDefinitionV>::empty(),
        }));
    }
}

/// The metadata with found definitions appended to its inline ones: set
/// only when the whole list is non-empty.
pub open spec fn apply_resolved_defs(
    m: PromptMetadataV,
    found: Seq<ToolDefinitionV>,
) -> PromptMetadataV {
    let base_defs = match m.tool_defs {
        Some(d) => d,
        None => Seq::empty(),
    };
    let resolved = base_defs + found;
    PromptMetadataV {
        tool_defs: if resolved.len() == 0 {
            None
        } else {
            Some(resolved)
        },
        ..m
    }
}

/// The metadata `resolve_metadata` produces: overrides merged, the default
/// model applied, and tools resolved against the registry.
pub open spec fn resolve_metadata_model(
    base: PromptMetadataV,
    additional: Option<PromptMetadataV>,
    dm: Option<Seq<char>>,
    reg: Seq<(Seq<char>, ToolDefinitionV)>,
) -> PromptMetadataV {
    let merged = match additional {
        Some(extra) => merge_model(base, extra),
        None => base,
    };
    resolve_tools_model(reg, apply_default_model(merged, dm))
}

/// The prompt manager: registries and the default model.
#[derive(Debug, PartialEq)]
pub struct Dotprompt {
    /// Default model to use if none is specified.
    pub default_model: Option<String>,
    /// Model-specific configurations, by model name.
    pub model_configs: Vec<(String, Val)>,
    /// Registered tools, by name.
    pub tools: Vec<(String, ToolDefinition)>,
    /// Registered schemas, by name.
    pub schemas: Vec<(String, Val)>,
    /// Registered partial templates, by name.
    pub partials: Vec<(String, String)>,
}

impl Dotprompt {
    /// Creates a new manager from the given options.
    pub fn new(options: Option<DotpromptOptions>) -> (r: Dotprompt)
        ensures
            match options {
                Some(o) => r.default_model == o.default_model && (match o.tools {
                    Some(ts) => r.tools == ts,
                    None => r.tools@.len() == 0,
                }) && (match o.schemas {
                    Some(ss) => r.schemas == ss,
                    None => r.schemas@.len() == 0,
                }) && (match o.partials {
                    Some(ps) => r.partials == ps,
                    None => r.partials@.len() == 0,
                }) && (match o.model_configs {
                    Some(cs) => r.model_configs == cs,
                    None => r.model_configs@.len() == 0,
                }),
                None => r.default_model is None && r.tools@.len() == 0 && r.schemas@.len() == 0
                    && r.partials@.len() == 0 && r.model_configs@.len() == 0,
            },
    {
        match options {
            Some(o) => Dotprompt {
                default_model: o.default_model,
                model_configs: match o.model_configs {
                    Some(cs) => cs,
                    None => Vec::new(),
                },
                tools: match o.tools {
                    Some(ts) => ts,
                    None => Vec::new(),
                },
                schemas: match o.schemas {
                    Some(ss) => ss,
                    None => Vec::new(),
                },
                partials: match o.partials {
                    Some(ps) => ps,
                    None => Vec::new(),
                },
            },
            None => Dotprompt {
                default_model: None,
                model_configs: Vec::new(),
                tools: Vec::new(),
                schemas: Vec::new(),
                partials: Vec::new(),
            },
        }
    }

    /// Registers a tool definition under its own name, replacing an
    /// existing registration of that name.
    #[verifier::loop_isolation(false)]
    pub fn define_tool(&mut self, def: ToolDefinition)
        ensures
            registry_model(final(self).tools@) == crate::types::assoc_set(
                registry_model(old(self).tools@),
                def.name@,
                def@,
            ),
            final(self).default_model == old(self).default_model,
            final(self).schemas == old(self).schemas,
            final(self).partials == old(self).partials,
            final(self).model_configs == old(self).model_configs,
    {
        let ghost orig = registry_model(old(self).tools@);
        let ghost key = def.name@;
        let ghost dv = def@;
        proof {
            assert(orig.skip(0) =~= orig);
            assert(orig.take(0) + crate::types::assoc_set(orig, key, dv)
                =~= crate::types::assoc_set(orig, key, dv));
        }
        let name = def.name.clone();
        let mut i: usize = 0;
        while i < self.tools.len()
            invariant
                i <= self.tools@.len(),
                self.tools@ == old(self).tools@,
                self.default_model == old(self).default_model,
                self.schemas == old(self).schemas,
                self.partials == old(self).partials,
                self.model_configs == old(self).model_configs,
                name@ == key,
                def.name@ == key,
                def@ == dv,
                crate::types::assoc_set(orig, key, dv) == orig.take(i as int)
                    + crate::types::assoc_set(orig.skip(i as int), key, dv),
            decreases self.tools@.len() - i,
        {
            proof {
                assert(orig.skip(i as int)[0] == (self.tools@[i as int].0@, self.tools@[i
                    as int].1@));
                assert(orig.skip(i as int).drop_first() =~= orig.skip(i + 1));
            }
            if self.tools[i].0.as_str().eq(name.as_str()) {
                self.tools.set(i, (name, def));
                proof {
                    assert(crate::types::assoc_set(orig.skip(i as int), key, dv) =~= seq![
                        (orig.skip(i as int)[0].0, dv),
                    ] + orig.skip(i + 1));
                    assert(registry_model(self.tools@) =~= orig.take(i as int) + (seq![
                        (orig.skip(i as int)[0].0, dv),
                    ] + orig.skip(i + 1)));
                }
                return ;
            }
            proof {
                assert(orig.take(i + 1) =~= orig.take(i as int) + seq![orig[i as int]]);
                assert(orig.take(i as int) + (seq![orig[i as int]] + crate::types::assoc_set(
                    orig.skip(i + 1),
                    key,
                    dv,
                )) =~= orig.take(i + 1) + crate::types::assoc_set(orig.skip(i + 1), key, dv));
            }
            i = i + 1;
        }
        proof {
            assert(orig.skip(self.tools@.len() as int) =~= Seq::<
                (Seq<char>, ToolDefinitionV),
            >::empty());
        }
        self.tools.push((name, def));
        proof {
            assert(registry_model(self.tools@) =~= orig.take(orig.len() as int) + seq![
                (key, dv),
            ]);
        }
    }

    /// Registers a schema definition under a name, replacing an existing
    /// registration of that name.
    pub fn define_schema(&mut self, name: String, schema: Val)
        ensures
            final(self).default_model == old(self).default_model,
            final(self).tools == old(self).tools,
            final(self).partials == old(self).partials,
            final(self).model_configs == old(self).model_configs,
            registry_entries(final(self).schemas@) == crate::types::assoc_set(
                registry_entries(old(self).schemas@),
                name@,
                schema@,
            ),
    {
        registry_set(&mut self.schemas, name, schema);
    }

    /// Registers a partial template under a name, replacing an existing
    /// registration of that name.
    pub fn define_partial(&mut self, name: String, source: String) -> (r: Result<
        (),
        DotpromptError,
    >)
        ensures
            r is Ok,
            final(self).default_model == old(self).default_model,
            final(self).tools == old(self).tools,
            final(self).schemas == old(self).schemas,
            final(self).model_configs == old(self).model_configs,
            registry_entries(final(self).partials@) == crate::types::assoc_set(
                registry_entries(old(self).partials@),
                name@,
                source@,
            ),
    {
        registry_set(&mut self.partials, name, source);
        Ok(())
    }

    /// Parses a prompt document into its metadata and template body.
    pub fn parse(&self, source: &str) -> (r: Result<ParsedPrompt, DotpromptError>)
        ensures
            match parse_outcome(source@) {
                Some(o) => r matches Ok(p) && p.metadata@ == o.0 && p.template@ == o.1,
                None => r matches Err(e) && e is FrontmatterParseError,
            },
    {
        parse_document(source)
    }

    /// Compiles a template into a reusable prompt function.
    pub fn compile(&self, source: &str, _additional_metadata: Option<PromptMetadata>) -> (r:
        Result<PromptFunction, DotpromptError>)
        ensures
            match parse_outcome(source@) {
                Some(o) => r matches Ok(f) && f.prompt.metadata@ == o.0 && f.prompt.template@
                    == o.1,
                None => r matches Err(e) && e is FrontmatterParseError,
            },
    {
        match parse_document(source) {
            Ok(prompt) => Ok(PromptFunction { prompt }),
            Err(e) => Err(e),
        }
    }

    /// Looks a tool name up in the registry.
    #[verifier::loop_isolation(false)]
    pub fn tool_lookup<'a>(&'a self, name: &str) -> (r: Option<&'a ToolDefinition>)
        ensures
            match r {
                Some(d) => assoc_get(registry_model(self.tools@), name@) == Some(d@),
                None => assoc_get(registry_model(self.tools@), name@) is None,
            },
    {
        let ghost reg = registry_model(self.tools@);
        proof {
            assert(reg.skip(0) =~= reg);
        }
        let mut i: usize = 0;
        while i < self.tools.len()
            invariant
                i <= self.tools@.len(),
                assoc_get(reg, name@) == assoc_get(reg.skip(i as int), name@),
            decreases self.tools@.len() - i,
        {
            proof {
                assert(reg.skip(i as int)[0] == (self.tools@[i as int].0@, self.tools@[i
                    as int].1@));
                assert(reg.skip(i as int).drop_first() =~= reg.skip(i + 1));
            }
            if self.tools[i].0.as_str().eq(name) {
                return Some(&self.tools[i].1);
            }
            i = i + 1;
        }
        proof {
            assert(reg.skip(reg.len() as int) =~= Seq::<(Seq<char>, ToolDefinitionV)>::empty());
        }
        None
    }

    /// Resolves the tool names of the metadata against the registry:
    /// every name found is appended, in order, to any pre-existing inline
    /// definitions, which are never replaced.  A name the registry does not
    /// hold is silently skipped.  Calling this twice appends the
    /// definitions twice.
    #[verifier::loop_isolation(false)]
    pub fn resolve_tools(&self, meta: PromptMetadata) -> (r: PromptMetadata)
        ensures
            r@ == resolve_tools_model(registry_model(self.tools@), meta@),
    {
        let ghost mv = meta@;
        let ghost reg = registry_model(self.tools@);
        let mut m = meta;
        let names = match &m.tools {
            Some(ns) => ns,
            None => {
                proof {
                    assert(m@ =~= resolve_tools_model(reg, mv));
                }
                return m;
            },
        };
        let mut resolved: Vec<ToolDefinition> = match m.tool_defs.take() {
            Some(ds) => ds,
            None => Vec::new(),
        };
        let ghost base_defs = tool_defs_model(resolved@);
        proof {
            if mv.tool_defs is None {
                assert(base_defs =~= Seq::<ToolDefinitionV>::empty());
            }
            assert(strings_model(names@).skip(0) =~= strings_model(names@));
            assert(base_defs + registry_lookups(reg, strings_model(names@)) =~= tool_defs_model(
                resolved@,
            ) + registry_lookups(reg, strings_model(names@).skip(0)));
        }
        let mut i: usize = 0;
        while i < names.len()
            invariant
                i <= names@.len(),
                base_defs + registry_lookups(reg, strings_model(names@)) == tool_defs_model(
                    resolved@,
                ) + registry_lookups(reg, strings_model(names@).skip(i as int)),
            decreases names@.len() - i,
        {
            let ghost nm = strings_model(names@);
            proof {
                assert(nm.skip(i as int)[0] == names@[i as int]@);
                assert(nm.skip(i as int).drop_first() =~= nm.skip(i + 1));
            }
            match self.tool_lookup(names[i].as_str()) {
                Some(def) => {
                    let d = def.duplicate();
                    resolved.push(d);
                    proof {
                        assert(tool_defs_model(resolved@) =~= tool_defs_model(
                            resolved@.drop_last(),
                        ).push(resolved@.last()@));
                        assert(tool_defs_model(resolved@) + registry_lookups(reg, nm.skip(i + 1))
                            =~= tool_defs_model(resolved@.drop_last()) + registry_lookups(
                            reg,
                            nm.skip(i as int),
                        ));
                    }
                },
                None => {
                    proof {
                        assert(registry_lookups(reg, nm.skip(i as int)) =~= registry_lookups(
                            reg,
                            nm.skip(i + 1),
                        ));
                    }
                },
            }
            i = i + 1;
        }
        proof {
            assert(strings_model(names@).skip(names@.len() as int) =~= Seq::<Seq<char>>::empty());
            assert(registry_lookups(reg, strings_model(names@).skip(names@.len() as int))
                =~= Seq::<ToolDefinitionV>::empty());
            assert(tool_defs_model(resolved@) =~= base_defs + registry_lookups(
                reg,
                strings_model(names@),
            ));
        }
        if resolved.len() > 0 {
            m.tool_defs = Some(resolved);
            proof {
                assert(m@ =~= resolve_tools_model(reg, mv));
            }
        } else {
            proof {
                assert(m@ =~= resolve_tools_model(reg, mv));
            }
        }
        m
    }

    /// Resolves the tool names of the metadata against the registry and,
    /// for names the registry does not hold, a pluggable resolver.  What
    /// the resolver answers is its own; whatever it answers, every
    /// definition found is appended, in order, to the pre-existing inline
    /// definitions, registry hits are exactly the registry's, and names
    /// neither side supplies are skipped silently.
    #[verifier::loop_isolation(false)]
    pub fn resolve_tools_with<R: ToolResolver>(&self, meta: PromptMetadata, resolver: &R) -> (r:
        PromptMetadata)
        ensures
            meta.tools is None ==> r@ == meta@,
            meta.tools matches Some(ns) ==> exists|extras: Seq<Option<ToolDefinitionV>>|
                #![auto]
                extras.len() == strings_model(ns@).len() && (forall|i: int|
                    0 <= i < extras.len() && assoc_get(
                        registry_model(self.tools@),
                        strings_model(ns@)[i],
                    ) is Some ==> extras[i] == assoc_get(
                        registry_model(self.tools@),
                        strings_model(ns@)[i],
                    )) && r@ == apply_resolved_defs(meta@, found_defs(extras)),
    {
        let ghost mv = meta@;
        let ghost reg = registry_model(self.tools@);
        let mut m = meta;
        let names = match &m.tools {
            Some(ns) => ns,
            None => {
                return m;
            },
        };
        let mut resolved: Vec<ToolDefinition> = match m.tool_defs.take() {
            Some(ds) => ds,
            None => Vec::new(),
        };
        let ghost base_defs = tool_defs_model(resolved@);
        let ghost mut extras: Seq<Option<ToolDefinitionV>> = Seq::empty();
        proof {
            if mv.tool_defs is None {
                assert(base_defs =~= Seq::<ToolDefinitionV>::empty());
            }
            assert(base_defs + found_defs(extras) =~= tool_defs_model(resolved@));
        }
        let mut i: usize = 0;
        while i < names.len()
            invariant
                i <= names@.len(),
                extras.len() == i as int,
                forall|k: int| 0 <= k < extras.len() && assoc_get(
                    reg,
                    strings_model(names@)[k],
                ) is Some ==> #[trigger] extras[k] == assoc_get(reg, strings_model(names@)[k]),
                tool_defs_model(resolved@) == base_defs + found_defs(extras),
            decreases names@.len() - i,
        {
            let ghost before = extras;
            let outcome: Option<ToolDefinition> = match self.tool_lookup(names[i].as_str()) {
                Some(def) => Some(def.duplicate()),
                None => resolver.resolve(names[i].as_str()),
            };
            match outcome {
                Some(def) => {
                    proof {
                        extras = extras.push(Some(def@));
                    }
                    resolved.push(def);
                    proof {
                        lemma_found_defs_push(before, Some(resolved@.last()@));
                        assert(tool_defs_model(resolved@) =~= tool_defs_model(
                            resolved@.drop_last(),
                        ).push(resolved@.last()@));
                        assert(base_defs + found_defs(extras) =~= (base_defs + found_defs(
                            before,
                        )).push(resolved@.last()@));
                        assert(tool_defs_model(resolved@) =~= base_defs + found_defs(extras));
                    }
                },
                None => {
                    proof {
                        extras = extras.push(None);
                        lemma_found_defs_push(before, None);
                        assert(found_defs(before) + Seq::<ToolDefinitionV>::empty()
                            =~= found_defs(before));
                        assert(tool_defs_model(resolved@) =~= base_defs + found_defs(extras));
                    }
                },
            }
            i = i + 1;
        }
        if resolved.len() > 0 {
            m.tool_defs = Some(resolved);
            proof {
                assert(m@ =~= apply_resolved_defs(mv, found_defs(extras)));
            }
        } else {
            proof {
                assert(m@ =~= apply_resolved_defs(mv, found_defs(extras)));
            }
        }
        m
    }

    /// Merges override metadata into the base and applies the default
    /// model, leaving tool resolution to the caller.
    fn merge_and_default(&self, base: PromptMetadata, additional: Option<PromptMetadata>) -> (r:
        PromptMetadata)
        ensures
            r@ == apply_default_model(
                match additional {
                    Some(a) => merge_model(base@, a@),
                    None => base@,
                },
                self.default_model.deep_view(),
            ),
    {
        let ghost basev = base@;
        let mut m = base;
        match additional {
            Some(extra) => {
                let ghost extrav = extra@;
                let PromptMetadata { model, config, tools, input, output, .. } = extra;
                if model.is_some() {
                    m.model = model;
                }
                if config.is_some() {
                    m.config = config;
                }
                if tools.is_some() {
                    m.tools = tools;
                }
                if input.is_some() {
                    m.input = input;
                }
                if output.is_some() {
                    m.output = output;
                }
                proof {
                    assert(m@ =~= merge_model(basev, extrav));
                }
            },
            None => {},
        }
        let ghost merged = m@;
        if m.model.is_none() {
            m.model = match &self.default_model {
                Some(dm) => Some(dm.clone()),
                None => None,
            };
            proof {
                assert(m@ =~= apply_default_model(merged, self.default_model.deep_view()));
            }
        } else {
            proof {
                assert(m@ =~= apply_default_model(merged, self.default_model.deep_view()));
            }
        }
        m
    }

    /// Merges override metadata into the base, applies the default model,
    /// and resolves tool names against the registry.
    pub fn resolve_metadata(&self, base: PromptMetadata, additional: Option<PromptMetadata>) -> (r:
        Result<PromptMetadata, DotpromptError>)
        ensures
            r matches Ok(m) && m@ == resolve_metadata_model(
                base@,
                match additional {
                    Some(a) => Some(a@),
                    None => None,
                },
                self.default_model.deep_view(),
                registry_model(self.tools@),
            ),
    {
        let merged = self.merge_and_default(base, additional);
        Ok(self.resolve_tools(merged))
    }

    /// Merges override metadata into the base, applies the default model,
    /// and resolves tool names against the registry and, for names the
    /// registry does not hold, a pluggable resolver.
    pub fn resolve_metadata_with<R: ToolResolver>(
        &self,
        base: PromptMetadata,
        additional: Option<PromptMetadata>,
        resolver: &R,
    ) -> (r: Result<PromptMetadata, DotpromptError>)
        ensures
            ({
                let merged = apply_default_model(
                    match additional {
                        Some(a) => merge_model(base@, a@),
                        None => base@,
                    },
                    self.default_model.deep_view(),
                );
                &&& merged.tools is None ==> (r matches Ok(m) && m@ == merged)
                &&& merged.tools is Some ==> (r matches Ok(m) && exists|
                    extras: Seq<Option<ToolDefinitionV>>,
                |
                    #![auto]
                    extras.len() == merged.tools->Some_0.len() && (forall|i: int|
                        0 <= i < extras.len() && assoc_get(
                            registry_model(self.tools@),
                            merged.tools->Some_0[i],
                        ) is Some ==> extras[i] == assoc_get(
                            registry_model(self.tools@),
                            merged.tools->Some_0[i],
                        )) && m@ == apply_resolved_defs(merged, found_defs(extras)))
            }),
    {
        let merged = self.merge_and_default(base, additional);
        Ok(self.resolve_tools_with(merged, resolver))
    }

    /// Parses a document and fully resolves its metadata, with overrides.
    pub fn render_metadata(&self, source: &str, additional_metadata: Option<PromptMetadata>) -> (r:
        Result<PromptMetadata, DotpromptError>)
        ensures
            match parse_outcome(source@) {
                Some(o) => r matches Ok(m) && m@ == resolve_metadata_model(
                    o.0,
                    match additional_metadata {
                        Some(a) => Some(a@),
                        None => None,
                    },
                    self.default_model.deep_view(),
                    registry_model(self.tools@),
                ),
                None => r matches Err(e) && e is FrontmatterParseError,
            },
    {
        match parse_document(source) {
            Ok(parsed) => self.resolve_metadata(parsed.metadata, additional_metadata),
            Err(e) => Err(e),
        }
    }

    /// Expands the picoschema shorthand in the input and output schemas,
    /// leaving every other field untouched.
    pub fn render_picoschema(&self, meta: PromptMetadata) -> (r: Result<
        PromptMetadata,
        DotpromptError,
    >)
        ensures
            ({
                let iv = meta@;
                match (iv.input, iv.output) {
                    (Some(ic), _) if ic.schema is Some && pico_of_value(ic.schema->Some_0)
                        is Err => r matches Err(e) && e is PicoschemaError,
                    (_, Some(oc)) if oc.schema is Some && pico_of_value(oc.schema->Some_0)
                        is Err && !(iv.input matches Some(ic2) && ic2.schema is Some
                        && pico_of_value(ic2.schema->Some_0) is Err) => r matches Err(e) && e
                        is PicoschemaError,
                    _ => r matches Ok(m) && m@ == (PromptMetadataV {
                        input: match iv.input {
                            Some(ic) => Some(
                                crate::types::PromptInputConfigV {
                                    schema: match ic.schema {
                                        Some(sch) => Some(pico_of_value(sch)->Ok_0),
                                        None => None,
                                    },
                                    ..ic
                                },
                            ),
                            None => None,
                        },
                        output: match iv.output {
                            Some(oc) => Some(
                                crate::types::PromptOutputConfigV {
                                    schema: match oc.schema {
                                        Some(sch) => Some(pico_of_value(sch)->Ok_0),
                                        None => None,
                                    },
                                    ..oc
                                },
                            ),
                            None => None,
                        },
                        ..iv
                    }),
                }
            }),
    {
        let ghost iv = meta@;
        let mut m = meta;
        let input = match m.input.take() {
            Some(ic) => {
                let PromptInputConfig { default, schema } = ic;
                let new_schema = match schema {
                    Some(sch) => match picoschema_to_json_schema(&sch) {
                        Ok(c) => Some(c),
                        Err(e) => {
                            return Err(e);
                        },
                    },
                    None => None,
                };
                Some(PromptInputConfig { default, schema: new_schema })
            },
            None => None,
        };
        m.input = input;
        let output = match m.output.take() {
            Some(oc) => {
                let PromptOutputConfig { format, schema } = oc;
                let new_schema = match schema {
                    Some(sch) => match picoschema_to_json_schema(&sch) {
                        Ok(c) => Some(c),
                        Err(e) => {
                            return Err(e);
                        },
                    },
                    None => None,
                };
                Some(PromptOutputConfig { format, schema: new_schema })
            },
            None => None,
        };
        m.output = output;
        proof {
            assert(m@.input =~= (match iv.input {
                Some(ic) => Some(
                    crate::types::PromptInputConfigV {
                        schema: match ic.schema {
                            Some(sch) => Some(pico_of_value(sch)->Ok_0),
                            None => None,
                        },
                        ..ic
                    },
                ),
                None => None,
            }));
            assert(m@ =~= (PromptMetadataV {
                input: m@.input,
                output: match iv.output {
                    Some(oc) => Some(
                        crate::types::PromptOutputConfigV {
                            schema: match oc.schema {
                                Some(sch) => Some(pico_of_value(sch)->Ok_0),
                                None => None,
                            },
                            ..oc
                        },
                    ),
                    None => None,
                },
                ..iv
            }));
        }
        Ok(m)
    }
}

/// A character that can start a partial name.
pub open spec fn is_ident_start(c: char) -> bool {
    ('a' <= c && c <= 'z') || ('A' <= c && c <= 'Z') || c == '_'
}

/// A character that can continue a partial name.
pub open spec fn is_ident_char(c: char) -> bool {
    is_ident_start(c) || ('0' <= c && c <= '9')
}

/// The end of the maximal run of name characters starting at `i`.
pub open spec fn ident_run_end(s: Seq<char>, i: int) -> int
    decreases s.len() - i when 0 <= i <= s.len()
{
    if i >= s.len() {
        i
    } else if is_ident_char(s[i]) {
        ident_run_end(s, i + 1)
    } else {
        i
    }
}

/// `ident_run_end` stays in bounds; the run is made of name characters and
/// is maximal.
pub proof fn lemma_ident_run_end(s: Seq<char>, i: int)
    requires
        0 <= i <= s.len(),
    ensures
        i <= ident_run_end(s, i) <= s.len(),
        forall|k: int| i <= k < ident_run_end(s, i) ==> is_ident_char(#[trigger] s[k]),
        ident_run_end(s, i) < s.len() ==> !is_ident_char(s[ident_run_end(s, i)]),
    decreases s.len() - i,
{
    if i < s.len() && is_ident_char(s[i]) {
        lemma_ident_run_end(s, i + 1);
    }
}

/// A partial reference starting at `i`: `{{>`, optional whitespace, a
/// name, optional whitespace, `}}`.  Returns the name's start and end and
/// the position after the reference.
pub open spec fn partial_at(s: Seq<char>, i: int) -> Option<(int, int, int)> {
    if has_at(s, i, "{{>"@) {
        let j = skip_spaces(s, i + 3);
        if j < s.len() && is_ident_start(s[j]) {
            let e = ident_run_end(s, j + 1);
            let k = skip_spaces(s, e);
            if has_at(s, k, "}}"@) {
                Some((j, e, k + 2))
            } else {
                None
            }
        } else {
            None
        }
    } else {
        None
    }
}

/// A partial reference's pieces lie in order, in bounds.
pub proof fn lemma_partial_at(s: Seq<char>, i: int)
    requires
        0 <= i <= s.len(),
    ensures
        partial_at(s, i) matches Some(m) ==> i < m.0 <= m.1 && m.1 < m.2 <= s.len(),
{
    reveal_strlit("{{>");
    reveal_strlit("}}");
    if partial_at(s, i) is Some {
        crate::text::lemma_skip_spaces(s, i + 3);
        let j = skip_spaces(s, i + 3);
        lemma_ident_run_end(s, j + 1);
        crate::text::lemma_skip_spaces(s, ident_run_end(s, j + 1));
    }
}

/// The first partial reference at or after `i`.
pub open spec fn find_partial(s: Seq<char>, i: int) -> Option<(int, int, int)>
    decreases s.len() - i when 0 <= i <= s.len()
{
    if i >= s.len() {
        None
    } else if partial_at(s, i) is Some {
        partial_at(s, i)
    } else {
        find_partial(s, i + 1)
    }
}

/// What `find_partial` returns: the earliest reference, in bounds.
pub proof fn lemma_find_partial(s: Seq<char>, i: int)
    requires
        0 <= i <= s.len(),
    ensures
        match find_partial(s, i) {
            Some(m) => i < m.0 <= m.1 && m.1 < m.2 <= s.len() && (exists|w: int|
                i <= w < s.len() && #[trigger] partial_at(s, w) == Some(m)),
            None => forall|k: int| i <= k < s.len() ==> #[trigger] partial_at(s, k) is None,
        },
    decreases s.len() - i,
{
    if i < s.len() {
        if partial_at(s, i) is Some {
            lemma_partial_at(s, i);
            assert(partial_at(s, i) == Some(find_partial(s, i)->Some_0));
        } else {
            lemma_find_partial(s, i + 1);
        }
    }
}

/// When no reference starts in `[i, j)`, the first reference at or after
/// `i` is the first one at or after `j`.
pub proof fn lemma_find_partial_from(s: Seq<char>, i: int, j: int)
    requires
        0 <= i <= j <= s.len(),
        forall|k: int| i <= k < j ==> #[trigger] partial_at(s, k) is None,
    ensures
        find_partial(s, i) == find_partial(s, j),
    decreases j - i,
{
    if i < j {
        lemma_find_partial_from(s, i + 1, j);
    }
}

/// The partial names a template references from `i` on, in scan order,
/// each kept once: `seen` holds the names already collected.
pub open spec fn partials_from(s: Seq<char>, i: int, seen: Seq<Seq<char>>) -> Seq<Seq<char>>
    decreases s.len() - i when 0 <= i <= s.len() via partials_from_decreases
{
    match find_partial(s, i) {
        None => Seq::empty(),
        Some(m) => {
            let name = s.subrange(m.0, m.1);
            if seen.contains(name) {
                partials_from(s, m.2, seen)
            } else {
                seq![name] + partials_from(s, m.2, seen.push(name))
            }
        },
    }
}

#[via_fn]
proof fn partials_from_decreases(s: Seq<char>, i: int, seen: Seq<Seq<char>>) {
    lemma_find_partial(s, i);
}

/// The names a template's scan collects are pairwise distinct and disjoint
/// from the names already seen.
pub proof fn lemma_partials_from_distinct(s: Seq<char>, i: int, seen: Seq<Seq<char>>)
    requires
        0 <= i <= s.len(),
    ensures
        ({
            let res = partials_from(s, i, seen);
            &&& forall|a: int, b: int| 0 <= a < b < res.len() ==> res[a] != res[b]
            &&& forall|a: int| 0 <= a < res.len() ==> !seen.contains(#[trigger] res[a])
        }),
    decreases s.len() - i,
{
    lemma_find_partial(s, i);
    match find_partial(s, i) {
        None => {
            assert(partials_from(s, i, seen) =~= Seq::<Seq<char>>::empty());
        },
        Some(m) => {
            let name = s.subrange(m.0, m.1);
            if seen.contains(name) {
                lemma_partials_from_distinct(s, m.2, seen);
                assert(partials_from(s, i, seen) == partials_from(s, m.2, seen));
            } else {
                lemma_partials_from_distinct(s, m.2, seen.push(name));
                let res = partials_from(s, i, seen);
                let rest = partials_from(s, m.2, seen.push(name));
                assert(res == seq![name] + rest);
                assert forall|a: int| 0 <= a < rest.len() implies rest[a] != name && !seen.contains(
                    #[trigger] rest[a],
                ) by {
                    assert(!seen.push(name).contains(rest[a]));
                    if rest[a] == name {
                        assert(seen.push(name)[seen.len() as int] == rest[a]);
                    }
                    if seen.contains(rest[a]) {
                        let j = choose|j: int| 0 <= j < seen.len() && seen[j] == rest[a];
                        assert(seen.push(name)[j] == rest[a]);
                    }
                }
                assert forall|a: int, b: int| 0 <= a < b < res.len() implies res[a] != res[b] by {
                    if a == 0 {
                        assert(res[b] == rest[b - 1]);
                    } else {
                        assert(res[a] == rest[a - 1] && res[b] == rest[b - 1]);
                    }
                }
                assert forall|a: int| 0 <= a < res.len() implies !seen.contains(
                    #[trigger] res[a],
                ) by {
                    if a > 0 {
                        assert(res[a] == rest[a - 1]);
                    }
                }
            }
        },
    }
}

/// How one per-name outcome lands in the partial registry: a supplied
/// source is registered under the name, and nothing happens otherwise.
pub open spec fn apply_partial_outcome(
    reg: Seq<(Seq<char>, Seq<char>)>,
    name: Seq<char>,
    o: Option<Seq<char>>,
) -> Seq<(Seq<char>, Seq<char>)> {
    match o {
        Some(src) => crate::types::assoc_set(reg, name, src),
        None => reg,
    }
}

/// How a sequence of per-name outcomes lands in the partial registry, in
/// order.
pub open spec fn apply_partial_outcomes(
    reg: Seq<(Seq<char>, Seq<char>)>,
    names: Seq<Seq<char>>,
    outcomes: Seq<Option<Seq<char>>>,
) -> Seq<(Seq<char>, Seq<char>)>
    decreases names.len(),
{
    if names.len() == 0 || outcomes.len() == 0 {
        reg
    } else {
        apply_partial_outcomes(
            apply_partial_outcome(reg, names[0], outcomes[0]),
            names.drop_first(),
            outcomes.drop_first(),
        )
    }
}

/// Appending one name and its outcome applies that outcome last.
proof fn lemma_apply_outcomes_snoc(
    reg: Seq<(Seq<char>, Seq<char>)>,
    names: Seq<Seq<char>>,
    outs: Seq<Option<Seq<char>>>,
    n: Seq<char>,
    o: Option<Seq<char>>,
)
    requires
        names.len() == outs.len(),
    ensures
        apply_partial_outcomes(reg, names.push(n), outs.push(o)) == apply_partial_outcome(
            apply_partial_outcomes(reg, names, outs),
            n,
            o,
        ),
    decreases names.len(),
{
    if names.len() == 0 {
        assert(names.push(n)[0] == n);
        assert(outs.push(o)[0] == o);
        assert(names.push(n).drop_first() =~= Seq::<Seq<char>>::empty());
        assert(outs.push(o).drop_first() =~= Seq::<Option<Seq<char>>>::empty());
        assert(apply_partial_outcomes(
            apply_partial_outcome(reg, n, o),
            Seq::<Seq<char>>::empty(),
            Seq::<Option<Seq<char>>>::empty(),
        ) == apply_partial_outcome(reg, n, o));
        assert(apply_partial_outcomes(reg, names, outs) == reg);
    } else {
        assert(names.push(n)[0] == names[0]);
        assert(outs.push(o)[0] == outs[0]);
        assert(names.push(n).drop_first() =~= names.drop_first().push(n));
        assert(outs.push(o).drop_first() =~= outs.drop_first().push(o));
        lemma_apply_outcomes_snoc(
            apply_partial_outcome(reg, names[0], outs[0]),
            names.drop_first(),
            outs.drop_first(),
            n,
            o,
        );
        assert(apply_partial_outcomes(reg, names.push(n), outs.push(o))
            == apply_partial_outcomes(
            apply_partial_outcome(reg, names[0], outs[0]),
            names.drop_first().push(n),
            outs.drop_first().push(o),
        ));
    }
}

/// Applying outcomes for other names leaves a name's binding alone.
proof fn lemma_apply_outcomes_get(
    reg: Seq<(Seq<char>, Seq<char>)>,
    names: Seq<Seq<char>>,
    outs: Seq<Option<Seq<char>>>,
    x: Seq<char>,
)
    requires
        names.len() == outs.len(),
        !names.contains(x),
    ensures
        assoc_get(apply_partial_outcomes(reg, names, outs), x) == assoc_get(reg, x),
    decreases names.len(),
{
    if names.len() > 0 {
        assert(names[0] != x);
        match outs[0] {
            Some(src) => {
                lemma_assoc_set_get(reg, names[0], src);
            },
            None => {},
        }
        assert(!names.drop_first().contains(x)) by {
            if names.drop_first().contains(x) {
                let j = choose|j: int|
                    0 <= j < names.drop_first().len() && names.drop_first()[j] == x;
                assert(names[j + 1] == x);
            }
        }
        lemma_apply_outcomes_get(
            apply_partial_outcome(reg, names[0], outs[0]),
            names.drop_first(),
            outs.drop_first(),
            x,
        );
    }
}

impl Dotprompt {
    /// Collects the names of the partials a template references
    /// (`{{> name}}`), in scan order, each once.
    #[verifier::loop_isolation(false)]
    pub fn identify_partials(&self, template: &str) -> (r: Vec<String>)
        ensures
            r.deep_view() == partials_from(template@, 0, Seq::empty()),
    {
        let cs = chars_of(template);
        let open_pat = chars_of("{{>");
        let close_pat = chars_of("}}");
        let n = cs.len();
        let mut out: Vec<String> = Vec::new();
        let mut i: usize = 0;
        let mut j: usize = 0;
        proof {
            assert(out.deep_view() =~= Seq::<Seq<char>>::empty());
        }
        while j < n
            invariant
                i <= j <= n,
                n == cs@.len(),
                cs@ == template@,
                open_pat@ == "{{>"@,
                close_pat@ == "}}"@,
                forall|k: int| i as int <= k < j as int ==> #[trigger] partial_at(cs@, k)
                    is None,
                partials_from(cs@, 0, Seq::empty()) == out.deep_view() + partials_from(
                    cs@,
                    i as int,
                    out.deep_view(),
                ),
            decreases n - j,
        {
            let m = partial_at_exec(&cs, &open_pat, &close_pat, j);
            match m {
                Some((ns, ne, rs)) => {
                    proof {
                        lemma_find_partial_from(cs@, i as int, j as int);
                        assert(find_partial(cs@, i as int) == Some(
                            (ns as int, ne as int, rs as int),
                        ));
                    }
                    let name = string_of_range(&cs, ns, ne);
                    let ghost seen = out.deep_view();
                    let ghost namev = name@;
                    let known = crate::config::list_contains(&out, name.as_str());
                    proof {
                        lemma_str_in_deep(&out, namev);
                    }
                    if !known {
                        out.push(name);
                        proof {
                            assert(out.deep_view() =~= seen.push(namev));
                        }
                    }
                    proof {
                        assert(partials_from(cs@, 0, Seq::empty()) =~= out.deep_view()
                            + partials_from(cs@, rs as int, out.deep_view()));
                    }
                    i = rs;
                    j = rs;
                },
                None => {
                    j = j + 1;
                },
            }
        }
        proof {
            lemma_find_partial_from(cs@, i as int, n as int);
            lemma_find_partial(cs@, i as int);
            assert(find_partial(cs@, i as int) is None);
            assert(partials_from(cs@, i as int, out.deep_view()) =~= Seq::<Seq<char>>::empty());
            assert(out.deep_view() =~= out.deep_view() + partials_from(
                cs@,
                i as int,
                out.deep_view(),
            ));
        }
        out
    }

    /// Resolves unregistered partial names referenced by a template
    /// through a pluggable resolver, registering every source it yields.
    /// Names the resolver cannot supply are skipped silently.
    #[verifier::loop_isolation(false)]
    /// Resolves the partial names a template references but the registry
    /// does not hold, through a pluggable resolver, registering every
    /// source it supplies under its name.  What the resolver answers is its
    /// own; whatever it answers, the registry ends up as the old one with
    /// the supplied sources registered in scan order, names already
    /// registered are not consulted, and names the resolver cannot supply
    /// are skipped silently.
    #[verifier::loop_isolation(false)]
    pub fn resolve_partials<R: PartialResolver>(&mut self, template: &str, resolver: &R) -> (r:
        Result<(), DotpromptError>)
        ensures
            r is Ok,
            final(self).default_model == old(self).default_model,
            final(self).tools == old(self).tools,
            final(self).schemas == old(self).schemas,
            final(self).model_configs == old(self).model_configs,
            exists|outcomes: Seq<Option<Seq<char>>>|
                #![trigger outcomes.len()]
                {
                    let names = partials_from(template@, 0, Seq::empty());
                    &&& outcomes.len() == names.len()
                    &&& (forall|k: int|
                        0 <= k < names.len() && assoc_get(
                            registry_entries(old(self).partials@),
                            names[k],
                        ) is Some ==> outcomes[k] is None)
                    &&& registry_entries(final(self).partials@) == apply_partial_outcomes(
                        registry_entries(old(self).partials@),
                        names,
                        outcomes,
                    )
                },
    {
        let ghost old_reg = registry_entries(old(self).partials@);
        let names = self.identify_partials(template);
        let ghost nsv = partials_from(template@, 0, Seq::empty());
        proof {
            lemma_partials_from_distinct(template@, 0, Seq::empty());
            assert(nsv.take(0).len() == 0);
        }
        let ghost mut outcomes: Seq<Option<Seq<char>>> = Seq::empty();
        let mut i: usize = 0;
        while i < names.len()
            invariant
                i <= names@.len(),
                names.deep_view() == nsv,
                outcomes.len() == i as int,
                forall|k: int| 0 <= k < i as int && assoc_get(old_reg, nsv[k]) is Some
                    ==> #[trigger] outcomes[k] is None,
                registry_entries(self.partials@) == apply_partial_outcomes(
                    old_reg,
                    nsv.take(i as int),
                    outcomes,
                ),
                self.default_model == old(self).default_model,
                self.tools == old(self).tools,
                self.schemas == old(self).schemas,
                self.model_configs == old(self).model_configs,
            decreases names@.len() - i,
        {
            let ghost prev_outs = outcomes;
            let ghost cur_reg = registry_entries(self.partials@);
            let name = &names[i];
            proof {
                assert(name@ == nsv[i as int]);
                assert(!nsv.take(i as int).contains(nsv[i as int])) by {
                    if nsv.take(i as int).contains(nsv[i as int]) {
                        let j = choose|j: int|
                            0 <= j < i as int && nsv.take(i as int)[j] == nsv[i as int];
                        assert(nsv[j] == nsv[i as int]);
                    }
                }
                lemma_apply_outcomes_get(old_reg, nsv.take(i as int), outcomes, nsv[i as int]);
                assert(assoc_get(cur_reg, nsv[i as int]) == assoc_get(old_reg, nsv[i as int]));
            }
            let registered = registry_has(&self.partials, name.as_str());
            let outcome: Option<String> = if registered {
                None
            } else {
                resolver.resolve(name.as_str())
            };
            match outcome {
                Some(source) => {
                    proof {
                        outcomes = outcomes.push(Some(source@));
                    }
                    match self.define_partial(name.clone(), source) {
                        Ok(_) => {},
                        Err(e) => {
                            return Err(e);
                        },
                    }
                    proof {
                        lemma_apply_outcomes_snoc(
                            old_reg,
                            nsv.take(i as int),
                            prev_outs,
                            nsv[i as int],
                            outcomes[i as int],
                        );
                        assert(nsv.take(i + 1) =~= nsv.take(i as int).push(nsv[i as int]));
                        assert(registry_entries(self.partials@) == apply_partial_outcomes(
                            old_reg,
                            nsv.take(i + 1),
                            outcomes,
                        ));
                    }
                },
                None => {
                    proof {
                        outcomes = outcomes.push(None);
                        lemma_apply_outcomes_snoc(
                            old_reg,
                            nsv.take(i as int),
                            prev_outs,
                            nsv[i as int],
                            None,
                        );
                        assert(nsv.take(i + 1) =~= nsv.take(i as int).push(nsv[i as int]));
                        assert(registry_entries(self.partials@) == apply_partial_outcomes(
                            old_reg,
                            nsv.take(i + 1),
                            outcomes,
                        ));
                    }
                },
            }
            proof {
                assert forall|k: int| 0 <= k < i + 1 && assoc_get(old_reg, nsv[k]) is Some
                    implies #[trigger] outcomes[k] is None by {
                    if k < i as int {
                        assert(outcomes[k] == prev_outs[k]);
                    }
                }
            }
            i = i + 1;
        }
        proof {
            assert(nsv.take(nsv.len() as int) =~= nsv);
        }
        Ok(())
    }
}

/// A name occurs in a string list exactly when it occurs among the list's
/// texts.
proof fn lemma_str_in_deep(v: &Vec<String>, x: Seq<char>)
    ensures
        crate::config::str_in(v@, x) <==> v.deep_view().contains(x),
{
    if crate::config::str_in(v@, x) {
        let i = choose|i: int| 0 <= i < v@.len() && (#[trigger] v@[i])@ == x;
        assert(v.deep_view()[i] == x);
    }
    if v.deep_view().contains(x) {
        let i = choose|i: int| 0 <= i < v.deep_view().len() && #[trigger] v.deep_view()[i] == x;
        assert(v@[i]@ == x);
    }
}

/// Decides whether a partial reference starts at `j`.
#[verifier::loop_isolation(false)]
fn partial_at_exec(cs: &Vec<char>, open_pat: &Vec<char>, close_pat: &Vec<char>, j: usize) -> (r:
    Option<(usize, usize, usize)>)
    requires
        j <= cs@.len(),
        open_pat@ == "{{>"@,
        close_pat@ == "}}"@,
    ensures
        match r {
            Some(m) => partial_at(cs@, j as int) == Some((m.0 as int, m.1 as int, m.2 as int))
                && j < m.0 <= m.1 && m.1 < m.2 <= cs@.len(),
            None => partial_at(cs@, j as int) is None,
        },
{
    proof {
        lemma_partial_at(cs@, j as int);
    }
    if !has_at_exec(cs, j, open_pat) {
        return None;
    }
    let total = cs.len();
    proof {
        reveal_strlit("{{>");
        assert(j as int + 3 <= cs@.len());
        assert(cs@.len() == total as int);
    }
    let ns = skip_spaces_from(cs, j + 3);
    if ns == cs.len() {
        return None;
    }
    let c = cs[ns];
    let start_ok = ('a' <= c && c <= 'z') || ('A' <= c && c <= 'Z') || c == '_';
    if !start_ok {
        return None;
    }
    let mut ne: usize = ns + 1;
    while ne < cs.len() && (('a' <= cs[ne] && cs[ne] <= 'z') || ('A' <= cs[ne] && cs[ne] <= 'Z')
        || cs[ne] == '_' || ('0' <= cs[ne] && cs[ne] <= '9'))
        invariant
            ns + 1 <= ne <= cs@.len(),
            ident_run_end(cs@, ns + 1) == ident_run_end(cs@, ne as int),
        decreases cs@.len() - ne,
    {
        ne = ne + 1;
    }
    proof {
        assert(ident_run_end(cs@, ne as int) == ne as int);
    }
    let k = skip_spaces_from(cs, ne);
    if has_at_exec(cs, k, close_pat) {
        proof {
            reveal_strlit("}}");
        }
        Some((ns, ne, k + 2))
    } else {
        None
    }
}

} // verus!
