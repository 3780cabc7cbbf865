//! Core data types: conversation messages, content parts, prompt metadata,
//! and the pluggable resolver interfaces.

use vstd::prelude::*;
use crate::value::{obj_model, Val, ValV};

verus! {

broadcast use vstd::std_specs::vec::group_vec_axioms;

/// Role of a message in a conversation.
#[derive(Debug, Clone, Copy, PartialEq, Eq, Structural)]
pub enum Role {
    /// User message.
    User,
    /// Model/assistant message.
    Model,
    /// Tool call message.
    Tool,
    /// System message.
    System,
}

/// The model of a string-keyed metadata map.
pub open spec fn map_model(m: Seq<(String, Val)>) -> Seq<(Seq<char>, ValV)> {
    Seq::new(m.len(), |i: int| (m[i].0@, m[i].1@))
}

/// The model of an optional metadata map.
pub open spec fn opt_map_model(m: Option<Vec<(String, Val)>>) -> Option<
    Seq<(Seq<char>, ValV)>,
> {
    match m {
        Some(v) => Some(map_model(v@)),
        None => None,
    }
}

/// The value bound to the first occurrence of `key` in an association
/// list.
pub open spec fn assoc_get<T>(m: Seq<(Seq<char>, T)>, key: Seq<char>) -> Option<T>
    decreases m.len(),
{
    if m.len() == 0 {
        None
    } else if m[0].0 == key {
        Some(m[0].1)
    } else {
        assoc_get(m.drop_first(), key)
    }
}

/// The list with `key` bound to `val`: the first occurrence of `key` is
/// replaced, or the pair is appended when the key is absent.
pub open spec fn assoc_set<T>(
    m: Seq<(Seq<char>, T)>,
    key: Seq<char>,
    val: T,
) -> Seq<(Seq<char>, T)>
    decreases m.len(),
{
    if m.len() == 0 {
        seq![(key, val)]
    } else if m[0].0 == key {
        seq![(m[0].0, val)] + m.drop_first()
    } else {
        seq![m[0]] + assoc_set(m.drop_first(), key, val)
    }
}

/// Returns the value bound to `key` in a metadata map, when there is one.
#[verifier::loop_isolation(false)]
pub fn meta_get<'a>(m: &'a Vec<(String, Val)>, key: &str) -> (r: Option<&'a Val>)
    ensures
        match r {
            Some(v) => assoc_get(map_model(m@), key@) == Some(v@),
            None => assoc_get(map_model(m@), key@) is None,
        },
{
    proof {
        assert(map_model(m@).skip(0) =~= map_model(m@));
    }
    let mut i: usize = 0;
    while i < m.len()
        invariant
            i <= m@.len(),
            assoc_get(map_model(m@), key@) == assoc_get(
                map_model(m@).skip(i as int),
                key@,
            ),
        decreases m@.len() - i,
    {
        proof {
            assert(map_model(m@).skip(i as int)[0] == (m@[i as int].0@, m@[i as int].1@));
            assert(map_model(m@).skip(i as int).drop_first() =~= map_model(m@).skip(i + 1));
        }
        if m[i].0.as_str().eq(key) {
            return Some(&m[i].1);
        }
        i = i + 1;
    }
    proof {
        assert(map_model(m@).skip(m@.len() as int) =~= Seq::empty());
    }
    None
}

/// Binds `key` to `val` in a metadata map, replacing the first occurrence
/// of the key or appending the pair when the key is absent.
#[verifier::loop_isolation(false)]
pub fn meta_set(m: &mut Vec<(String, Val)>, key: String, val: Val)
    ensures
        map_model(final(m)@) == assoc_set(map_model(old(m)@), key@, val@),
{
    let ghost orig = map_model(old(m)@);
    proof {
        assert(orig.skip(0) =~= orig);
        assert(orig.take(0) + assoc_set(orig, key@, val@) =~= assoc_set(orig, key@, val@));
    }
    let mut i: usize = 0;
    while i < m.len()
        invariant
            i <= m@.len(),
            m@ == old(m)@,
            forall|j: int| 0 <= j < i as int ==> (#[trigger] m@[j].0)@ != key@,
            assoc_set(orig, key@, val@) == orig.take(i as int) + assoc_set(
                orig.skip(i as int),
                key@,
                val@,
            ),
        decreases m@.len() - i,
    {
        proof {
            assert(orig.skip(i as int)[0] == (m@[i as int].0@, m@[i as int].1@));
            assert(orig.skip(i as int).drop_first() =~= orig.skip(i + 1));
        }
        if m[i].0.as_str().eq(key.as_str()) {
            proof {
                assert(assoc_set(orig.skip(i as int), key@, val@) =~= seq![
                    (orig.skip(i as int)[0].0, val@),
                ] + orig.skip(i + 1));
            }
            m.set(i, (key, val));
            proof {
                assert(map_model(m@) =~= orig.take(i as int) + (seq![
                    (orig.skip(i as int)[0].0, val@),
                ] + orig.skip(i + 1)));
            }
            return ;
        }
        proof {
            assert(orig.take(i + 1) =~= orig.take(i as int) + seq![orig[i as int]]);
            assert(orig.take(i as int) + (seq![orig[i as int]] + assoc_set(
                orig.skip(i + 1),
                key@,
                val@,
            )) =~= orig.take(i + 1) + assoc_set(orig.skip(i + 1), key@, val@));
        }
        i = i + 1;
    }
    proof {
        assert(orig.skip(m@.len() as int) =~= Seq::empty());
    }
    m.push((key, val));
    proof {
        assert(map_model(m@) =~= orig.take(orig.len() as int) + seq![(key@, val@)]);
    }
}

/// The model of a name-keyed registry: each entry's name and its value's
/// model, in order.
pub open spec fn registry_entries<T: View>(s: Seq<(String, T)>) -> Seq<(Seq<char>, T::V)> {
    Seq::new(s.len(), |i: int| (s[i].0@, s[i].1@))
}

/// What `assoc_set` binds: the key maps to the new value and every other
/// key maps to what it mapped to before.
pub proof fn lemma_assoc_set_get<T>(m: Seq<(Seq<char>, T)>, key: Seq<char>, val: T)
    ensures
        assoc_get(assoc_set(m, key, val), key) == Some(val),
        forall|k: Seq<char>| k != key ==> #[trigger] assoc_get(assoc_set(m, key, val), k)
            == assoc_get(m, k),
    decreases m.len(),
{
    let s = assoc_set(m, key, val);
    if m.len() == 0 {
        assert(s[0] == (key, val));
        assert forall|k: Seq<char>| k != key implies #[trigger] assoc_get(s, k) == assoc_get(
            m,
            k,
        ) by {
            assert(s.drop_first() =~= Seq::<(Seq<char>, T)>::empty());
            assert(assoc_get(s.drop_first(), k) is None);
            assert(assoc_get(s, k) is None);
        }
    } else if m[0].0 == key {
        assert(s[0] == (m[0].0, val));
        assert(s.drop_first() =~= m.drop_first());
        assert forall|k: Seq<char>| k != key implies #[trigger] assoc_get(s, k) == assoc_get(
            m,
            k,
        ) by {
            assert(assoc_get(s, k) == assoc_get(s.drop_first(), k));
            assert(assoc_get(m, k) == assoc_get(m.drop_first(), k));
        }
    } else {
        lemma_assoc_set_get(m.drop_first(), key, val);
        assert(s[0] == m[0]);
        assert(s.drop_first() =~= assoc_set(m.drop_first(), key, val));
        assert(assoc_get(s, key) == Some(val));
        assert forall|k: Seq<char>| k != key implies #[trigger] assoc_get(s, k) == assoc_get(
            m,
            k,
        ) by {
            if k == m[0].0 {
                assert(assoc_get(s, k) == Some(m[0].1));
                assert(assoc_get(m, k) == Some(m[0].1));
            } else {
                assert(assoc_get(s, k) == assoc_get(assoc_set(m.drop_first(), key, val), k));
                assert(assoc_get(m, k) == assoc_get(m.drop_first(), k));
            }
        }
    }
}

/// Binds `name` to `value` in a registry, replacing the first entry of
/// that name or appending one when the name is absent.
#[verifier::loop_isolation(false)]
pub fn registry_set<T: View>(reg: &mut Vec<(String, T)>, name: String, value: T)
    ensures
        registry_entries(final(reg)@) == assoc_set(registry_entries(old(reg)@), name@, value@),
{
    let ghost orig = registry_entries(old(reg)@);
    let ghost key = name@;
    let ghost vv = value@;
    proof {
        assert(orig.skip(0) =~= orig);
        assert(orig.take(0) + assoc_set(orig, key, vv) =~= assoc_set(orig, key, vv));
    }
    let mut i: usize = 0;
    while i < reg.len()
        invariant
            i <= reg@.len(),
            reg@ == old(reg)@,
            name@ == key,
            value@ == vv,
            assoc_set(orig, key, vv) == orig.take(i as int) + assoc_set(
                orig.skip(i as int),
                key,
                vv,
            ),
        decreases reg@.len() - i,
    {
        proof {
            assert(orig.skip(i as int)[0] == (reg@[i as int].0@, reg@[i as int].1@));
            assert(orig.skip(i as int).drop_first() =~= orig.skip(i + 1));
        }
        if reg[i].0.as_str().eq(name.as_str()) {
            reg.set(i, (name, value));
            proof {
                assert(assoc_set(orig.skip(i as int), key, vv) =~= seq![
                    (orig.skip(i as int)[0].0, vv),
                ] + orig.skip(i + 1));
                assert(registry_entries(reg@) =~= orig.take(i as int) + (seq![
                    (orig.skip(i as int)[0].0, vv),
                ] + orig.skip(i + 1)));
            }
            return ;
        }
        proof {
            assert(orig.take(i + 1) =~= orig.take(i as int) + seq![orig[i as int]]);
            assert(orig.take(i as int) + (seq![orig[i as int]] + assoc_set(
                orig.skip(i + 1),
                key,
                vv,
            )) =~= orig.take(i + 1) + assoc_set(orig.skip(i + 1), key, vv));
        }
        i = i + 1;
    }
    proof {
        assert(orig.skip(reg@.len() as int) =~= Seq::<(Seq<char>, T::V)>::empty());
    }
    reg.push((name, value));
    proof {
        assert(registry_entries(reg@) =~= orig.take(orig.len() as int) + seq![(key, vv)]);
    }
}

/// Returns whether a registry binds `name`.
#[verifier::loop_isolation(false)]
pub fn registry_has<T: View>(reg: &Vec<(String, T)>, name: &str) -> (r: bool)
    ensures
        r == (assoc_get(registry_entries(reg@), name@) is Some),
{
    let ghost entries = registry_entries(reg@);
    proof {
        assert(entries.skip(0) =~= entries);
    }
    let mut i: usize = 0;
    while i < reg.len()
        invariant
            i <= reg@.len(),
            assoc_get(entries, name@) == assoc_get(entries.skip(i as int), name@),
        decreases reg@.len() - i,
    {
        proof {
            assert(entries.skip(i as int)[0] == (reg@[i as int].0@, reg@[i as int].1@));
            assert(entries.skip(i as int).drop_first() =~= entries.skip(i + 1));
        }
        if reg[i].0.as_str().eq(name) {
            return true;
        }
        i = i + 1;
    }
    proof {
        assert(entries.skip(entries.len() as int) =~= Seq::<(Seq<char>, T::V)>::empty());
    }
    false
}

/// Returns a copy of a metadata map whose model is the same.
#[verifier::loop_isolation(false)]
pub fn duplicate_meta(m: &Vec<(String, Val)>) -> (r: Vec<(String, Val)>)
    ensures
        map_model(r@) == map_model(m@),
{
    let mut out: Vec<(String, Val)> = Vec::new();
    let mut i: usize = 0;
    while i < m.len()
        invariant
            i <= m@.len(),
            out@.len() == i as int,
            forall|j: int| 0 <= j < i as int ==> (#[trigger] out@[j]).0@ == m@[j].0@
                && out@[j].1@ == m@[j].1@,
        decreases m@.len() - i,
    {
        let k = m[i].0.clone();
        let v = m[i].1.duplicate();
        out.push((k, v));
        i = i + 1;
    }
    proof {
        assert(map_model(out@) =~= map_model(m@));
    }
    out
}

/// Returns a copy of an optional metadata map whose model is the same.
pub fn duplicate_opt_meta(m: &Option<Vec<(String, Val)>>) -> (r: Option<Vec<(String, Val)>>)
    ensures
        opt_map_model(r) == opt_map_model(*m),
{
    match m {
        Some(v) => Some(duplicate_meta(v)),
        None => None,
    }
}

/// Media content reference.
#[derive(Debug, Clone, PartialEq)]
pub struct MediaContent {
    /// URL of the media.
    pub url: String,
    /// Optional content type (MIME type).
    pub content_type: Option<String>,
}

/// The model of a media content reference.
pub struct MediaContentV {
    /// URL of the media.
    pub url: Seq<char>,
    /// Optional content type.
    pub content_type: Option<Seq<char>>,
}

impl View for MediaContent {
    type V = MediaContentV;

    open spec fn view(&self) -> MediaContentV {
        MediaContentV { url: self.url@, content_type: self.content_type.deep_view() }
    }
}

/// Tool request content.
#[derive(Debug, PartialEq)]
pub struct ToolRequestContent {
    /// Name of the tool being requested.
    pub name: String,
    /// Optional input parameters for the tool.
    pub input: Option<Val>,
    /// Optional reference identifier.
    pub ref_: Option<String>,
}

/// The model of a tool request.
pub struct ToolRequestContentV {
    /// Name of the tool being requested.
    pub name: Seq<char>,
    /// Optional input parameters.
    pub input: Option<ValV>,
    /// Optional reference identifier.
    pub ref_: Option<Seq<char>>,
}

impl View for ToolRequestContent {
    type V = ToolRequestContentV;

    open spec fn view(&self) -> ToolRequestContentV {
        ToolRequestContentV {
            name: self.name@,
            input: self.input.deep_view(),
            ref_: self.ref_.deep_view(),
        }
    }
}

/// Tool response content.
#[derive(Debug, PartialEq)]
pub struct ToolResponseContent {
    /// Name of the tool that was called.
    pub name: String,
    /// Optional output from the tool.
    pub output: Option<Val>,
    /// Optional reference identifier.
    pub ref_: Option<String>,
}

/// The model of a tool response.
pub struct ToolResponseContentV {
    /// Name of the tool that was called.
    pub name: Seq<char>,
    /// Optional output from the tool.
    pub output: Option<ValV>,
    /// Optional reference identifier.
    pub ref_: Option<Seq<char>>,
}

impl View for ToolResponseContent {
    type V = ToolResponseContentV;

    open spec fn view(&self) -> ToolResponseContentV {
        ToolResponseContentV {
            name: self.name@,
            output: self.output.deep_view(),
            ref_: self.ref_.deep_view(),
        }
    }
}

/// Content part within a message.  Exactly one variant is active.
#[derive(Debug, PartialEq)]
pub enum Part {
    /// Text content: the text and optional metadata.
    Text(String, Option<Vec<(String, Val)>>),
    /// Structured data content: the data map and optional metadata.
    Data(Vec<(String, Val)>, Option<Vec<(String, Val)>>),
    /// Media reference: the media and optional metadata.
    Media(MediaContent, Option<Vec<(String, Val)>>),
    /// Tool call request and optional metadata.
    ToolRequest(ToolRequestContent, Option<Vec<(String, Val)>>),
    /// Tool call response and optional metadata.
    ToolResponse(ToolResponseContent, Option<Vec<(String, Val)>>),
    /// Pending/placeholder content, carrying only metadata.
    Pending(Vec<(String, Val)>),
}

/// The model of a content part.
#[verifier::ext_equal]
pub enum PartV {
    /// Text content.
    Text(Seq<char>, Option<Seq<(Seq<char>, ValV)>>),
    /// Structured data content.
    Data(Seq<(Seq<char>, ValV)>, Option<Seq<(Seq<char>, ValV)>>),
    /// Media reference.
    Media(MediaContentV, Option<Seq<(Seq<char>, ValV)>>),
    /// Tool call request.
    ToolRequest(ToolRequestContentV, Option<Seq<(Seq<char>, ValV)>>),
    /// Tool call response.
    ToolResponse(ToolResponseContentV, Option<Seq<(Seq<char>, ValV)>>),
    /// Pending/placeholder content.
    Pending(Seq<(Seq<char>, ValV)>),
}

impl View for Part {
    type V = PartV;

    open spec fn view(&self) -> PartV {
        match self {
            Part::Text(t, m) => PartV::Text(t@, opt_map_model(*m)),
            Part::Data(d, m) => PartV::Data(map_model(d@), opt_map_model(*m)),
            Part::Media(c, m) => PartV::Media(c@, opt_map_model(*m)),
            Part::ToolRequest(c, m) => PartV::ToolRequest(c@, opt_map_model(*m)),
            Part::ToolResponse(c, m) => PartV::ToolResponse(c@, opt_map_model(*m)),
            Part::Pending(m) => PartV::Pending(map_model(m@)),
        }
    }
}

/// The model of a part list.
pub open spec fn parts_model(parts: Seq<Part>) -> Seq<PartV> {
    Seq::new(parts.len(), |i: int| parts[i]@)
}

/// A message in a conversation.
#[derive(Debug, PartialEq)]
pub struct Message {
    /// Role of the message sender.
    pub role: Role,
    /// Content parts of the message.
    pub content: Vec<Part>,
    /// Optional metadata.
    pub metadata: Option<Vec<(String, Val)>>,
}

/// The model of a message.
#[verifier::ext_equal]
pub struct MessageV {
    /// Role of the message sender.
    pub role: Role,
    /// Content parts of the message.
    pub content: Seq<PartV>,
    /// Optional metadata.
    pub metadata: Option<Seq<(Seq<char>, ValV)>>,
}

impl View for Message {
    type V = MessageV;

    open spec fn view(&self) -> MessageV {
        MessageV {
            role: self.role,
            content: parts_model(self.content@),
            metadata: opt_map_model(self.metadata),
        }
    }
}

/// The model of a message list.
pub open spec fn messages_model(msgs: Seq<Message>) -> Seq<MessageV> {
    Seq::new(msgs.len(), |i: int| msgs[i]@)
}

/// Returns a copy of a content part whose model is the same.
pub fn duplicate_part(p: &Part) -> (r: Part)
    ensures
        r@ == p@,
{
    match p {
        Part::Text(t, m) => Part::Text(t.clone(), duplicate_opt_meta(m)),
        Part::Data(d, m) => Part::Data(duplicate_meta(d), duplicate_opt_meta(m)),
        Part::Media(c, m) => Part::Media(
            MediaContent {
                url: c.url.clone(),
                content_type: match &c.content_type {
                    Some(t) => Some(t.clone()),
                    None => None,
                },
            },
            duplicate_opt_meta(m),
        ),
        Part::ToolRequest(c, m) => Part::ToolRequest(
            ToolRequestContent {
                name: c.name.clone(),
                input: match &c.input {
                    Some(v) => Some(v.duplicate()),
                    None => None,
                },
                ref_: match &c.ref_ {
                    Some(s) => Some(s.clone()),
                    None => None,
                },
            },
            duplicate_opt_meta(m),
        ),
        Part::ToolResponse(c, m) => Part::ToolResponse(
            ToolResponseContent {
                name: c.name.clone(),
                output: match &c.output {
                    Some(v) => Some(v.duplicate()),
                    None => None,
                },
                ref_: match &c.ref_ {
                    Some(s) => Some(s.clone()),
                    None => None,
                },
            },
            duplicate_opt_meta(m),
        ),
        Part::Pending(m) => Part::Pending(duplicate_meta(m)),
    }
}

/// Returns a copy of a part list whose model is the same.
#[verifier::loop_isolation(false)]
pub fn duplicate_parts(parts: &Vec<Part>) -> (r: Vec<Part>)
    ensures
        parts_model(r@) == parts_model(parts@),
{
    let mut out: Vec<Part> = Vec::new();
    let mut i: usize = 0;
    while i < parts.len()
        invariant
            i <= parts@.len(),
            out@.len() == i as int,
            forall|j: int| 0 <= j < i as int ==> (#[trigger] out@[j])@ == parts@[j]@,
        decreases parts@.len() - i,
    {
        let p = duplicate_part(&parts[i]);
        out.push(p);
        i = i + 1;
    }
    proof {
        assert(parts_model(out@) =~= parts_model(parts@));
    }
    out
}

/// Returns a copy of a message whose model is the same.
pub fn duplicate_message(m: &Message) -> (r: Message)
    ensures
        r@ == m@,
{
    let r = Message {
        role: m.role,
        content: duplicate_parts(&m.content),
        metadata: duplicate_opt_meta(&m.metadata),
    };
    proof {
        assert(r@ =~= m@);
    }
    r
}

/// Returns a copy of a message list whose model is the same.
#[verifier::loop_isolation(false)]
pub fn duplicate_messages(msgs: &Vec<Message>) -> (r: Vec<Message>)
    ensures
        messages_model(r@) == messages_model(msgs@),
{
    let mut out: Vec<Message> = Vec::new();
    let mut i: usize = 0;
    while i < msgs.len()
        invariant
            i <= msgs@.len(),
            out@.len() == i as int,
            forall|j: int| 0 <= j < i as int ==> (#[trigger] out@[j])@ == msgs@[j]@,
        decreases msgs@.len() - i,
    {
        let m = duplicate_message(&msgs[i]);
        out.push(m);
        i = i + 1;
    }
    proof {
        assert(messages_model(out@) =~= messages_model(msgs@));
    }
    out
}

/// A holder of arbitrary metadata.
pub trait HasMetadata {
    /// Returns the arbitrary metadata, if any.
    fn metadata(&self) -> Option<&Vec<(String, Val)>>;
}

impl HasMetadata for Message {
    fn metadata(&self) -> Option<&Vec<(String, Val)>> {
        match &self.metadata {
            Some(m) => Some(m),
            None => None,
        }
    }
}

/// A document with structured content.
#[derive(Debug, PartialEq)]
pub struct Document {
    /// Content parts of the document.
    pub content: Vec<Part>,
    /// Optional metadata.
    pub metadata: Option<Vec<(String, Val)>>,
}

impl HasMetadata for Document {
    fn metadata(&self) -> Option<&Vec<(String, Val)>> {
        match &self.metadata {
            Some(m) => Some(m),
            None => None,
        }
    }
}

/// Data provided to render a prompt template.
#[derive(Debug, PartialEq)]
pub struct DataArgument {
    /// Input variables for template rendering.
    pub input: Option<Val>,
    /// Relevant documents for context.
    pub docs: Option<Vec<Document>>,
    /// Previous messages in a multi-turn conversation.
    pub messages: Option<Vec<Message>>,
    /// Context variables exposed to templates under a reserved namespace.
    pub context: Option<Vec<(String, Val)>>,
}

impl Default for DataArgument {
    /// An empty data argument.
    fn default() -> (r: DataArgument)
        ensures
            r.input is None,
            r.docs is None,
            r.messages is None,
            r.context is None,
    {
        DataArgument { input: None, docs: None, messages: None, context: None }
    }
}

/// Tool definition specifying inputs and outputs.
#[derive(Debug, PartialEq)]
pub struct ToolDefinition {
    /// Name of the tool.
    pub name: String,
    /// Optional description of what the tool does.
    pub description: Option<String>,
    /// Schema for the tool's input parameters.
    pub input_schema: Vec<(String, Val)>,
    /// Optional schema for the tool's output.
    pub output_schema: Option<Vec<(String, Val)>>,
}

/// The model of a tool definition.
#[verifier::ext_equal]
pub struct ToolDefinitionV {
    /// Name of the tool.
    pub name: Seq<char>,
    /// Optional description.
    pub description: Option<Seq<char>>,
    /// Schema for the tool's input parameters.
    pub input_schema: Seq<(Seq<char>, ValV)>,
    /// Optional schema for the tool's output.
    pub output_schema: Option<Seq<(Seq<char>, ValV)>>,
}

impl View for ToolDefinition {
    type V = ToolDefinitionV;

    open spec fn view(&self) -> ToolDefinitionV {
        ToolDefinitionV {
            name: self.name@,
            description: self.description.deep_view(),
            input_schema: map_model(self.input_schema@),
            output_schema: opt_map_model(self.output_schema),
        }
    }
}

impl ToolDefinition {
    /// Returns a copy of this definition whose model is the same.
    pub fn duplicate(&self) -> (r: ToolDefinition)
        ensures
            r@ == self@,
    {
        let r = ToolDefinition {
            name: self.name.clone(),
            description: match &self.description {
                Some(d) => Some(d.clone()),
                None => None,
            },
            input_schema: duplicate_meta(&self.input_schema),
            output_schema: match &self.output_schema {
                Some(s) => Some(duplicate_meta(s)),
                None => None,
            },
        };
        proof {
            assert(r@ =~= self@);
        }
        r
    }
}

/// A tool argument: either a tool name or a full definition.
#[derive(Debug, PartialEq)]
pub enum ToolArgument {
    /// Tool referenced by name, to be resolved against a registry.
    Name(String),
    /// Full tool definition.
    Definition(ToolDefinition),
}

/// Reference to a prompt by name, variant, and version.
#[derive(Debug, Clone, PartialEq)]
pub struct PromptRef {
    /// Name of the prompt.
    pub name: String,
    /// Optional variant identifier.
    pub variant: Option<String>,
    /// Optional version identifier.
    pub version: Option<String>,
}

/// Prompt data including source template.
#[derive(Debug, Clone, PartialEq)]
pub struct PromptData {
    /// Prompt reference fields.
    pub prompt_ref: PromptRef,
    /// Template source code.
    pub source: String,
}

/// Reference to a partial template.
#[derive(Debug, Clone, PartialEq)]
pub struct PartialRef {
    /// Name of the partial.
    pub name: String,
    /// Optional variant identifier.
    pub variant: Option<String>,
    /// Optional version identifier.
    pub version: Option<String>,
}

/// Partial template data with source.
#[derive(Debug, Clone, PartialEq)]
pub struct PartialData {
    /// Partial reference fields.
    pub partial_ref: PartialRef,
    /// Template source for the partial.
    pub source: String,
}

/// Configuration for prompt input variables.
#[derive(Debug, PartialEq)]
pub struct PromptInputConfig {
    /// Default values for input variables.
    pub default: Option<Vec<(String, Val)>>,
    /// Schema for input variables: a picoschema value or a full schema.
    pub schema: Option<Val>,
}

/// Configuration for prompt output format.
#[derive(Debug, PartialEq)]
pub struct PromptOutputConfig {
    /// Desired output format (e.g. "json", "text").
    pub format: Option<String>,
    /// Schema for the output structure.
    pub schema: Option<Val>,
}

/// Metadata associated with a prompt template.
#[derive(Debug, PartialEq)]
pub struct PromptMetadata {
    /// Name of the prompt.
    pub name: Option<String>,
    /// Variant identifier.
    pub variant: Option<String>,
    /// Version identifier.
    pub version: Option<String>,
    /// Human-readable description.
    pub description: Option<String>,
    /// Model identifier.
    pub model: Option<String>,
    /// Names of tools available to this prompt.
    pub tools: Option<Vec<String>>,
    /// Inline tool definitions.
    pub tool_defs: Option<Vec<ToolDefinition>>,
    /// Model-specific configuration: an opaque structured value.
    pub config: Option<Val>,
    /// Input variable configuration.
    pub input: Option<PromptInputConfig>,
    /// Output format configuration.
    pub output: Option<PromptOutputConfig>,
    /// Raw frontmatter as parsed.
    pub raw: Option<Vec<(String, Val)>>,
    /// Extension fields organized by namespace.
    pub ext: Option<Vec<(String, Vec<(String, Val)>)>>,
    /// Arbitrary metadata.
    pub metadata: Option<Vec<(String, Val)>>,
}

impl Default for PromptMetadata {
    /// The all-defaults metadata: every field absent.
    fn default() -> (r: PromptMetadata)
        ensures
            r == (PromptMetadata {
                name: None,
                variant: None,
                version: None,
                description: None,
                model: None,
                tools: None,
                tool_defs: None,
                config: None,
                input: None,
                output: None,
                raw: None,
                ext: None,
                metadata: None,
            }),
    {
        PromptMetadata {
            name: None,
            variant: None,
            version: None,
            description: None,
            model: None,
            tools: None,
            tool_defs: None,
            config: None,
            input: None,
            output: None,
            raw: None,
            ext: None,
            metadata: None,
        }
    }
}

/// The model of a list of strings.
pub open spec fn strings_model(ss: Seq<String>) -> Seq<Seq<char>> {
    Seq::new(ss.len(), |i: int| ss[i]@)
}

/// The model of a list of tool definitions.
pub open spec fn tool_defs_model(ds: Seq<ToolDefinition>) -> Seq<ToolDefinitionV> {
    Seq::new(ds.len(), |i: int| ds[i]@)
}

/// The model of a namespaced extension map.
pub open spec fn ext_model(e: Seq<(String, Vec<(String, Val)>)>) -> Seq<
    (Seq<char>, Seq<(Seq<char>, ValV)>),
> {
    Seq::new(e.len(), |i: int| (e[i].0@, map_model(e[i].1@)))
}

/// The model of prompt input configuration.
#[verifier::ext_equal]
pub struct PromptInputConfigV {
    /// Default values for input variables.
    pub default: Option<Seq<(Seq<char>, ValV)>>,
    /// Schema for input variables.
    pub schema: Option<ValV>,
}

impl View for PromptInputConfig {
    type V = PromptInputConfigV;

    open spec fn view(&self) -> PromptInputConfigV {
        PromptInputConfigV {
            default: opt_map_model(self.default),
            schema: match self.schema {
                Some(v) => Some(v@),
                None => None,
            },
        }
    }
}

/// The model of prompt output configuration.
#[verifier::ext_equal]
pub struct PromptOutputConfigV {
    /// Desired output format.
    pub format: Option<Seq<char>>,
    /// Schema for the output structure.
    pub schema: Option<ValV>,
}

impl View for PromptOutputConfig {
    type V = PromptOutputConfigV;

    open spec fn view(&self) -> PromptOutputConfigV {
        PromptOutputConfigV {
            format: self.format.deep_view(),
            schema: match self.schema {
                Some(v) => Some(v@),
                None => None,
            },
        }
    }
}

/// The model of prompt metadata.
#[verifier::ext_equal]
pub struct PromptMetadataV {
    /// Name of the prompt.
    pub name: Option<Seq<char>>,
    /// Variant identifier.
    pub variant: Option<Seq<char>>,
    /// Version identifier.
    pub version: Option<Seq<char>>,
    /// Human-readable description.
    pub description: Option<Seq<char>>,
    /// Model identifier.
    pub model: Option<Seq<char>>,
    /// Names of tools available to this prompt.
    pub tools: Option<Seq<Seq<char>>>,
    /// Inline tool definitions.
    pub tool_defs: Option<Seq<ToolDefinitionV>>,
    /// Model-specific configuration.
    pub config: Option<ValV>,
    /// Input variable configuration.
    pub input: Option<PromptInputConfigV>,
    /// Output format configuration.
    pub output: Option<PromptOutputConfigV>,
    /// Raw frontmatter as parsed.
    pub raw: Option<Seq<(Seq<char>, ValV)>>,
    /// Extension fields organized by namespace.
    pub ext: Option<Seq<(Seq<char>, Seq<(Seq<char>, ValV)>)>>,
    /// Arbitrary metadata.
    pub metadata: Option<Seq<(Seq<char>, ValV)>>,
}

impl View for PromptMetadata {
    type V = PromptMetadataV;

    open spec fn view(&self) -> PromptMetadataV {
        PromptMetadataV {
            name: self.name.deep_view(),
            variant: self.variant.deep_view(),
            version: self.version.deep_view(),
            description: self.description.deep_view(),
            model: self.model.deep_view(),
            tools: match self.tools {
                Some(ts) => Some(strings_model(ts@)),
                None => None,
            },
            tool_defs: match self.tool_defs {
                Some(ds) => Some(tool_defs_model(ds@)),
                None => None,
            },
            config: match self.config {
                Some(v) => Some(v@),
                None => None,
            },
            input: match self.input {
                Some(c) => Some(c@),
                None => None,
            },
            output: match self.output {
                Some(c) => Some(c@),
                None => None,
            },
            raw: opt_map_model(self.raw),
            ext: match self.ext {
                Some(e) => Some(ext_model(e@)),
                None => None,
            },
            metadata: opt_map_model(self.metadata),
        }
    }
}

/// The model of the all-defaults metadata: every field absent.
pub open spec fn default_metadata_model() -> PromptMetadataV {
    PromptMetadataV {
        name: None,
        variant: None,
        version: None,
        description: None,
        model: None,
        tools: None,
        tool_defs: None,
        config: None,
        input: None,
        output: None,
        raw: None,
        ext: None,
        metadata: None,
    }
}

/// Parsed prompt with extracted metadata and template.
#[derive(Debug, PartialEq)]
pub struct ParsedPrompt {
    /// Prompt metadata from the frontmatter.
    pub metadata: PromptMetadata,
    /// Template source with the frontmatter removed.
    pub template: String,
}

/// Rendered prompt output with messages.
#[derive(Debug, PartialEq)]
pub struct RenderedPrompt {
    /// Prompt metadata.
    pub metadata: PromptMetadata,
    /// Rendered messages to send to the model.
    pub messages: Vec<Message>,
}

/// A compiled prompt function that can be rendered with data.
#[derive(Debug, PartialEq)]
pub struct PromptFunction {
    /// The parsed prompt with metadata.
    pub prompt: ParsedPrompt,
}

/// A prompt function that loads from a reference.
#[derive(Debug, Clone, PartialEq)]
pub struct PromptRefFunction {
    /// The prompt reference.
    pub prompt_ref: PromptRef,
}

/// A bundle of prompts and partials.
#[derive(Debug, Clone, PartialEq)]
pub struct PromptBundle {
    /// Partial templates.
    pub partials: Vec<PartialData>,
    /// Prompt templates.
    pub prompts: Vec<PromptData>,
}

/// Options for listing prompts with pagination.
#[derive(Debug, Clone, PartialEq)]
pub struct ListPromptsOptions {
    /// Cursor to start listing from.
    pub cursor: Option<String>,
    /// Maximum number of items to return.
    pub limit: Option<usize>,
    /// Specific variant to filter.
    pub variant: Option<String>,
}

/// Options for listing partials with pagination.
#[derive(Debug, Clone, PartialEq)]
pub struct ListPartialsOptions {
    /// Cursor to start listing from.
    pub cursor: Option<String>,
    /// Maximum number of items to return.
    pub limit: Option<usize>,
    /// Specific variant to filter.
    pub variant: Option<String>,
}

/// Options for loading a prompt.
#[derive(Debug, Clone, PartialEq)]
pub struct LoadPromptOptions {
    /// Specific variant to load.
    pub variant: Option<String>,
    /// Specific version hash to load.
    pub version: Option<String>,
}

/// Options for loading a partial.
#[derive(Debug, Clone, PartialEq)]
pub struct LoadPartialOptions {
    /// Specific variant to load.
    pub variant: Option<String>,
    /// Specific version hash to load.
    pub version: Option<String>,
}

/// A paginated list of prompts.
#[derive(Debug, Clone, PartialEq)]
pub struct PaginatedPrompts {
    /// The list of prompts.
    pub prompts: Vec<PromptRef>,
    /// Cursor for the next page.
    pub cursor: Option<String>,
}

/// A paginated list of partials.
#[derive(Debug, Clone, PartialEq)]
pub struct PaginatedPartials {
    /// The list of partials.
    pub partials: Vec<PartialRef>,
    /// Cursor for the next page.
    pub cursor: Option<String>,
}

/// Base trait for paginated responses.
pub trait PaginatedResponse {
    /// Returns the cursor for the next page, if any.
    fn cursor(&self) -> Option<&String>;
}

impl PaginatedResponse for PaginatedPrompts {
    fn cursor(&self) -> (r: Option<&String>) {
        match &self.cursor {
            Some(c) => Some(c),
            None => None,
        }
    }
}

impl PaginatedResponse for PaginatedPartials {
    fn cursor(&self) -> (r: Option<&String>) {
        match &self.cursor {
            Some(c) => Some(c),
            None => None,
        }
    }
}

/// Resolves schema names to schema definitions.
///
/// Looks up named schemas not found in the in-memory registry; returning
/// nothing means "not found", never an error.
pub trait SchemaResolver {
    /// Resolves a schema name to its definition.
    fn resolve(&self, name: &str) -> Option<Val>;
}

/// Resolves tool names to tool definitions.
///
/// Looks up tool definitions not found in the in-memory registry; returning
/// nothing means "not found", never an error.
pub trait ToolResolver {
    /// Resolves a tool name to its definition.
    fn resolve(&self, name: &str) -> Option<ToolDefinition>;
}

/// Resolves partial names to their template source.
///
/// Looks up partial templates not found in the in-memory registry; returning
/// nothing means "not found", never an error.
pub trait PartialResolver {
    /// Resolves a partial name to its template source.
    fn resolve(&self, name: &str) -> Option<String>;
}

} // verus!
