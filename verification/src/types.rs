//! The remaining data model: roles, messages, documents, rendering
//! inputs and outputs, tool definitions, and prompt metadata, with
//! their deterministic wire encodings where the wire form matters.

use vstd::prelude::*;

use crate::codec::{
    encode_part, env_entries, env_has, env_of, env_wf, opt_str_entry, opt_value_entry, part_wf,
    spec_encode_part, DecodeError,
};
use crate::json::{
    arr_view, json_clone, json_view, lemma_arr_view, lemma_obj_view, lemma_obj_view_push,
    obj_get, obj_remove, obj_view, JsonObject, JsonV, JsonValue,
};
use crate::part::{env_view, opt_json_view, opt_str_view, Part, PartV};

verus! {

/// A schema: an opaque structured value, never interpreted here.
pub type Schema = JsonValue;

/// A JSON schema, likewise opaque to this layer.
pub type JsonSchema = JsonValue;

/// The speaker of a conversation turn.
#[derive(Debug, Clone, Copy, PartialEq, Eq, Structural)]
pub enum Role {
    User,
    Model,
    Tool,
    System,
}

/// The wire text of a role.
pub open spec fn role_text(r: Role) -> Seq<char> {
    match r {
        Role::User => "user"@,
        Role::Model => "model"@,
        Role::Tool => "tool"@,
        Role::System => "system"@,
    }
}

impl Role {
    /// The wire text of this role.
    pub fn as_str(&self) -> (r: &'static str)
        ensures
            r@ == role_text(*self),
    {
        match self {
            Role::User => "user",
            Role::Model => "model",
            Role::Tool => "tool",
            Role::System => "system",
        }
    }
}

/// A conversation turn: its speaker and its ordered content parts,
/// whose order is meaningful and preserved end-to-end.
#[derive(Debug, PartialEq)]
pub struct Message {
    pub role: Role,
    pub content: Vec<Part>,
    pub metadata: Option<JsonObject>,
}

/// The model of a conversation turn.
pub struct MessageV {
    pub role: Role,
    pub content: Seq<PartV>,
    pub metadata: Option<Seq<(Seq<char>, JsonV)>>,
}

impl View for Message {
    type V = MessageV;

    open spec fn view(&self) -> MessageV {
        MessageV {
            role: self.role,
            content: Seq::new(self.content@.len(), |i: int| self.content@[i]@),
            metadata: env_view(self.metadata),
        }
    }
}

/// A context document: ordered content parts without a role.
#[derive(Debug, PartialEq)]
pub struct Document {
    pub content: Vec<Part>,
    pub metadata: Option<JsonObject>,
}

/// The model of a context document.
pub struct DocumentV {
    pub content: Seq<PartV>,
    pub metadata: Option<Seq<(Seq<char>, JsonV)>>,
}

impl View for Document {
    type V = DocumentV;

    open spec fn view(&self) -> DocumentV {
        DocumentV {
            content: Seq::new(self.content@.len(), |i: int| self.content@[i]@),
            metadata: env_view(self.metadata),
        }
    }
}

/// A tool definition: its name, an optional description, and its
/// input and output schemas.
#[derive(Debug, PartialEq)]
pub struct ToolDefinition {
    pub name: String,
    pub description: Option<String>,
    pub input_schema: Schema,
    pub output_schema: Option<Schema>,
}

/// The model of a tool definition.
pub struct ToolDefV {
    pub name: Seq<char>,
    pub description: Option<Seq<char>>,
    pub input_schema: JsonV,
    pub output_schema: Option<JsonV>,
}

impl View for ToolDefinition {
    type V = ToolDefV;

    open spec fn view(&self) -> ToolDefV {
        ToolDefV {
            name: self.name@,
            description: opt_str_view(self.description),
            input_schema: self.input_schema@,
            output_schema: opt_json_view(self.output_schema),
        }
    }
}

/// A tool argument: a bare name resolved externally, or a full
/// definition given inline.
#[derive(Debug, PartialEq)]
pub enum ToolArgument {
    Name(String),
    Definition(ToolDefinition),
}

/// Everything a render call consumes at runtime: input variables,
/// context documents, prior turns, and per-key context state.
#[derive(Debug, PartialEq)]
pub struct DataArgument {
    /// Input variables for the prompt template.
    pub input: Option<JsonValue>,
    /// Relevant documents.
    pub docs: Option<Vec<Document>>,
    /// Previous turns of a multi-turn conversation.
    pub messages: Option<Vec<Message>>,
    /// Per-key state exposed to the template.
    pub context: Option<JsonObject>,
}

/// Configuration for input variables.
#[derive(Debug, PartialEq)]
pub struct InputConfig {
    /// Default input variable values used when none are provided.
    pub default: Option<JsonObject>,
    /// Schema for the input variables.
    pub schema: Option<Schema>,
}

/// A predefined output format.
#[derive(Debug, Clone, Copy, PartialEq, Eq, Structural)]
pub enum PredefinedFormat {
    Json,
    Text,
}

/// The expected model output format: a predefined one or a custom name.
#[derive(Debug, PartialEq)]
pub enum OutputFormat {
    Predefined(PredefinedFormat),
    Custom(String),
}

/// Configuration for the expected model output.
#[derive(Debug, PartialEq)]
pub struct OutputConfig {
    /// The desired output format.
    pub format: Option<OutputFormat>,
    /// Schema for the output structure.
    pub schema: Option<Schema>,
}

/// Frontmatter-derived prompt configuration. `raw` always reproduces
/// the original frontmatter exactly, whatever typed fields were derived
/// from it; `ext` keeps namespaced extension fields verbatim.
#[derive(Debug, PartialEq)]
pub struct PromptMetadata {
    /// The open metadata envelope.
    pub metadata: Option<JsonObject>,
    pub name: Option<String>,
    pub variant: Option<String>,
    pub version: Option<String>,
    pub description: Option<String>,
    pub model: Option<String>,
    /// Names of tools registered elsewhere, resolved externally.
    pub tools: Option<Vec<String>>,
    /// Full tool definitions given inline.
    pub tool_defs: Option<Vec<ToolDefinition>>,
    /// Opaque model-specific settings.
    pub config: Option<JsonValue>,
    pub input: Option<InputConfig>,
    pub output: Option<OutputConfig>,
    /// The unprocessed frontmatter, preserved verbatim.
    pub raw: Option<JsonObject>,
    /// Extension fields by namespace, preserved verbatim.
    pub ext: Option<Vec<(String, JsonObject)>>,
}

/// A prompt whose frontmatter has been split off by the external
/// frontmatter splitter.
#[derive(Debug, PartialEq)]
pub struct ParsedPrompt {
    pub metadata: PromptMetadata,
    /// The template source with the frontmatter removed.
    pub template: String,
}

/// The terminal artifact of a render call: the merged metadata and the
/// rendered conversation turns.
#[derive(Debug, PartialEq)]
pub struct RenderedPrompt {
    pub metadata: PromptMetadata,
    pub messages: Vec<Message>,
}

/// The wire values of a sequence of content parts, in order.
pub open spec fn spec_encode_parts(parts: Seq<PartV>) -> Seq<JsonV>
    decreases parts.len(),
{
    if parts.len() == 0 {
        Seq::empty()
    } else {
        seq![spec_encode_part(parts[0])] + spec_encode_parts(parts.drop_first())
    }
}

/// `spec_encode_parts` encodes the parts index by index.
pub proof fn lemma_encode_parts_index(parts: Seq<PartV>)
    ensures
        spec_encode_parts(parts).len() == parts.len(),
        forall|i: int|
            0 <= i < parts.len() ==> #[trigger] spec_encode_parts(parts)[i] == spec_encode_part(
                parts[i],
            ),
    decreases parts.len(),
{
    if parts.len() > 0 {
        lemma_encode_parts_index(parts.drop_first());
        assert forall|i: int|
            0 <= i < parts.len() implies #[trigger] spec_encode_parts(parts)[i]
            == spec_encode_part(parts[i]) by {
            if i > 0 {
                assert(parts.drop_first()[i - 1] == parts[i]);
                assert(spec_encode_parts(parts)[i] == spec_encode_parts(parts.drop_first())[i
                    - 1]);
            }
        }
    }
}

/// The wire value of a conversation turn: its role, its content parts
/// in order, then the envelope entries.
pub open spec fn spec_encode_message(m: MessageV) -> JsonV {
    JsonV::Obj(
        seq![
            ("role"@, JsonV::Str(role_text(m.role))),
            ("content"@, JsonV::Arr(spec_encode_parts(m.content))),
        ] + env_entries(m.metadata),
    )
}

/// The wire value of a context document.
pub open spec fn spec_encode_document(d: DocumentV) -> JsonV {
    JsonV::Obj(
        seq![("content"@, JsonV::Arr(spec_encode_parts(d.content)))] + env_entries(d.metadata),
    )
}

/// The wire value of a tool definition.
pub open spec fn spec_encode_tool_definition(t: ToolDefV) -> JsonV {
    JsonV::Obj(
        seq![("name"@, JsonV::Str(t.name))] + opt_str_entry("description"@, t.description) + seq![
            ("inputSchema"@, t.input_schema),
        ] + opt_value_entry("outputSchema"@, t.output_schema),
    )
}

#[verifier::loop_isolation(false)]
fn encode_parts(parts: &Vec<Part>) -> (r: Vec<JsonValue>)
    ensures
        arr_view(r@) == spec_encode_parts(Seq::new(parts@.len(), |i: int| parts@[i]@)),
{
    let mut out: Vec<JsonValue> = Vec::new();
    let mut i: usize = 0;
    while i < parts.len()
        invariant
            i <= parts@.len(),
            out@.len() == i,
            forall|j: int| 0 <= j < i ==> json_view(#[trigger] out@[j]) == spec_encode_part(
                parts@[j]@,
            ),
        decreases parts@.len() - i,
    {
        let v = encode_part(&parts[i]);
        out.push(v);
        i = i + 1;
    }
    proof {
        lemma_arr_view(out@);
        lemma_encode_parts_index(Seq::new(parts@.len(), |i: int| parts@[i]@));
        assert(arr_view(out@) =~= spec_encode_parts(
            Seq::new(parts@.len(), |i: int| parts@[i]@),
        ));
    }
    out
}

/// The wire value of a conversation turn.
pub fn encode_message(m: &Message) -> (r: JsonValue)
    ensures
        r@ == spec_encode_message(m@),
{
    let mut out: JsonObject = Vec::new();
    let role_entry = ("role".to_owned(), JsonValue::Str(m.role.as_str().to_owned()));
    proof {
        lemma_obj_view_push(out@, role_entry);
    }
    out.push(role_entry);
    let content_entry = ("content".to_owned(), JsonValue::Arr(encode_parts(&m.content)));
    proof {
        lemma_obj_view_push(out@, content_entry);
    }
    out.push(content_entry);
    crate::codec::push_env(&mut out, &m.metadata);
    proof {
        assert(obj_view(out@) =~= seq![
            ("role"@, JsonV::Str(role_text(m.role))),
            ("content"@, JsonV::Arr(spec_encode_parts(m@.content))),
        ] + env_entries(m@.metadata));
    }
    JsonValue::Obj(out)
}

/// The wire value of a context document.
pub fn encode_document(d: &Document) -> (r: JsonValue)
    ensures
        r@ == spec_encode_document(d@),
{
    let mut out: JsonObject = Vec::new();
    let content_entry = ("content".to_owned(), JsonValue::Arr(encode_parts(&d.content)));
    proof {
        lemma_obj_view_push(out@, content_entry);
    }
    out.push(content_entry);
    crate::codec::push_env(&mut out, &d.metadata);
    proof {
        assert(obj_view(out@) =~= seq![("content"@, JsonV::Arr(spec_encode_parts(d@.content)))]
            + env_entries(d@.metadata));
    }
    JsonValue::Obj(out)
}

/// The wire value of a tool definition: name, optional description,
/// input schema, optional output schema, in that order.
pub fn encode_tool_definition(t: &ToolDefinition) -> (r: JsonValue)
    ensures
        r@ == spec_encode_tool_definition(t@),
{
    let mut out: JsonObject = Vec::new();
    let name_entry = ("name".to_owned(), JsonValue::Str(t.name.clone()));
    proof {
        lemma_obj_view_push(out@, name_entry);
    }
    out.push(name_entry);
    crate::codec::push_opt_str(&mut out, "description", &t.description);
    let schema_entry = ("inputSchema".to_owned(), json_clone(&t.input_schema));
    proof {
        lemma_obj_view_push(out@, schema_entry);
    }
    out.push(schema_entry);
    crate::codec::push_opt_value(&mut out, "outputSchema", &t.output_schema);
    proof {
        assert(obj_view(out@) =~= seq![("name"@, JsonV::Str(t.name@))] + opt_str_entry(
            "description"@,
            opt_str_view(t.description),
        ) + seq![("inputSchema"@, t.input_schema@)] + opt_value_entry(
            "outputSchema"@,
            opt_json_view(t.output_schema),
        ));
    }
    JsonValue::Obj(out)
}

/// The wire value of a resource payload: the reference fields first,
/// absent ones skipped, then the raw source.
pub open spec fn spec_encode_resource_data(d: crate::refs::ResourceDataV) -> JsonV {
    JsonV::Obj(
        seq![("name"@, JsonV::Str(d.resource_ref.name))] + opt_str_entry(
            "variant"@,
            d.resource_ref.variant,
        ) + opt_str_entry("version"@, d.resource_ref.version) + seq![
            ("source"@, JsonV::Str(d.source)),
        ],
    )
}

/// The wire value of a prompt payload.
pub fn encode_prompt_data(d: &crate::refs::PromptData) -> (r: JsonValue)
    ensures
        r@ == spec_encode_resource_data(d@),
{
    let mut out: JsonObject = Vec::new();
    let name_entry = ("name".to_owned(), JsonValue::Str(d.prompt_ref.name.clone()));
    proof {
        lemma_obj_view_push(out@, name_entry);
    }
    out.push(name_entry);
    crate::codec::push_opt_str(&mut out, "variant", &d.prompt_ref.variant);
    crate::codec::push_opt_str(&mut out, "version", &d.prompt_ref.version);
    let source_entry = ("source".to_owned(), JsonValue::Str(d.source.clone()));
    proof {
        lemma_obj_view_push(out@, source_entry);
    }
    out.push(source_entry);
    proof {
        assert(obj_view(out@) =~= seq![("name"@, JsonV::Str(d.prompt_ref.name@))]
            + opt_str_entry("variant"@, opt_str_view(d.prompt_ref.variant)) + opt_str_entry(
            "version"@,
            opt_str_view(d.prompt_ref.version),
        ) + seq![("source"@, JsonV::Str(d.source@))]);
    }
    JsonValue::Obj(out)
}

/// The wire value of a partial payload; partials encode exactly like
/// prompts.
pub fn encode_partial_data(d: &crate::refs::PartialData) -> (r: JsonValue)
    ensures
        r@ == spec_encode_resource_data(d@),
{
    let mut out: JsonObject = Vec::new();
    let name_entry = ("name".to_owned(), JsonValue::Str(d.partial_ref.name.clone()));
    proof {
        lemma_obj_view_push(out@, name_entry);
    }
    out.push(name_entry);
    crate::codec::push_opt_str(&mut out, "variant", &d.partial_ref.variant);
    crate::codec::push_opt_str(&mut out, "version", &d.partial_ref.version);
    let source_entry = ("source".to_owned(), JsonValue::Str(d.source.clone()));
    proof {
        lemma_obj_view_push(out@, source_entry);
    }
    out.push(source_entry);
    proof {
        assert(obj_view(out@) =~= seq![("name"@, JsonV::Str(d.partial_ref.name@))]
            + opt_str_entry("variant"@, opt_str_view(d.partial_ref.variant)) + opt_str_entry(
            "version"@,
            opt_str_view(d.partial_ref.version),
        ) + seq![("source"@, JsonV::Str(d.source@))]);
    }
    JsonValue::Obj(out)
}

/// The model of a render input.
pub struct DataArgV {
    pub input: Option<JsonV>,
    pub docs: Option<Seq<DocumentV>>,
    pub messages: Option<Seq<MessageV>>,
    pub context: Option<Seq<(Seq<char>, JsonV)>>,
}

impl View for DataArgument {
    type V = DataArgV;

    open spec fn view(&self) -> DataArgV {
        DataArgV {
            input: opt_json_view(self.input),
            docs: match self.docs {
                None => None,
                Some(ds) => Some(Seq::new(ds@.len(), |i: int| ds@[i]@)),
            },
            messages: match self.messages {
                None => None,
                Some(ms) => Some(Seq::new(ms@.len(), |i: int| ms@[i]@)),
            },
            context: match self.context {
                None => None,
                Some(c) => Some(obj_view(c@)),
            },
        }
    }
}

/// The wire values of a sequence of documents, in order.
pub open spec fn spec_encode_documents(ds: Seq<DocumentV>) -> Seq<JsonV> {
    Seq::new(ds.len(), |i: int| spec_encode_document(ds[i]))
}

/// The wire values of a sequence of conversation turns, in order.
pub open spec fn spec_encode_messages(ms: Seq<MessageV>) -> Seq<JsonV> {
    Seq::new(ms.len(), |i: int| spec_encode_message(ms[i]))
}

/// The wire value of a render input: input variables, documents,
/// prior turns and context, absent fields skipped.
pub open spec fn spec_encode_data_argument(a: DataArgV) -> JsonV {
    JsonV::Obj(
        opt_value_entry("input"@, a.input) + (match a.docs {
            None => Seq::empty(),
            Some(ds) => seq![("docs"@, JsonV::Arr(spec_encode_documents(ds)))],
        }) + (match a.messages {
            None => Seq::empty(),
            Some(ms) => seq![("messages"@, JsonV::Arr(spec_encode_messages(ms)))],
        }) + (match a.context {
            None => Seq::empty(),
            Some(c) => seq![("context"@, JsonV::Obj(c))],
        }),
    )
}

#[verifier::loop_isolation(false)]
fn encode_documents(ds: &Vec<Document>) -> (r: Vec<JsonValue>)
    ensures
        arr_view(r@) == spec_encode_documents(Seq::new(ds@.len(), |i: int| ds@[i]@)),
{
    let mut out: Vec<JsonValue> = Vec::new();
    let mut i: usize = 0;
    while i < ds.len()
        invariant
            i <= ds@.len(),
            out@.len() == i,
            forall|j: int| 0 <= j < i ==> json_view(#[trigger] out@[j]) == spec_encode_document(
                ds@[j]@,
            ),
        decreases ds@.len() - i,
    {
        let v = encode_document(&ds[i]);
        out.push(v);
        i = i + 1;
    }
    proof {
        lemma_arr_view(out@);
        assert(arr_view(out@) =~= spec_encode_documents(Seq::new(ds@.len(), |i: int| ds@[i]@)));
    }
    out
}

#[verifier::loop_isolation(false)]
fn encode_messages(ms: &Vec<Message>) -> (r: Vec<JsonValue>)
    ensures
        arr_view(r@) == spec_encode_messages(Seq::new(ms@.len(), |i: int| ms@[i]@)),
{
    let mut out: Vec<JsonValue> = Vec::new();
    let mut i: usize = 0;
    while i < ms.len()
        invariant
            i <= ms@.len(),
            out@.len() == i,
            forall|j: int| 0 <= j < i ==> json_view(#[trigger] out@[j]) == spec_encode_message(
                ms@[j]@,
            ),
        decreases ms@.len() - i,
    {
        let v = encode_message(&ms[i]);
        out.push(v);
        i = i + 1;
    }
    proof {
        lemma_arr_view(out@);
        assert(arr_view(out@) =~= spec_encode_messages(Seq::new(ms@.len(), |i: int| ms@[i]@)));
    }
    out
}

/// The wire value of a render input.
pub fn encode_data_argument(a: &DataArgument) -> (r: JsonValue)
    ensures
        r@ == spec_encode_data_argument(a@),
{
    let mut out: JsonObject = Vec::new();
    crate::codec::push_opt_value(&mut out, "input", &a.input);
    match &a.docs {
        None => {},
        Some(ds) => {
            let docs_entry = ("docs".to_owned(), JsonValue::Arr(encode_documents(ds)));
            proof {
                lemma_obj_view_push(out@, docs_entry);
            }
            out.push(docs_entry);
        },
    }
    match &a.messages {
        None => {},
        Some(ms) => {
            let msgs_entry = ("messages".to_owned(), JsonValue::Arr(encode_messages(ms)));
            proof {
                lemma_obj_view_push(out@, msgs_entry);
            }
            out.push(msgs_entry);
        },
    }
    match &a.context {
        None => {},
        Some(c) => {
            let ctx_entry = ("context".to_owned(), JsonValue::Obj(crate::json::obj_clone(c)));
            proof {
                lemma_obj_view_push(out@, ctx_entry);
            }
            out.push(ctx_entry);
        },
    }
    proof {
        assert(obj_view(out@) =~= (opt_value_entry("input"@, opt_json_view(a.input)) + (match a@.docs {
            None => Seq::<(Seq<char>, JsonV)>::empty(),
            Some(ds) => seq![("docs"@, JsonV::Arr(spec_encode_documents(ds)))],
        }) + (match a@.messages {
            None => Seq::<(Seq<char>, JsonV)>::empty(),
            Some(ms) => seq![("messages"@, JsonV::Arr(spec_encode_messages(ms)))],
        }) + (match a@.context {
            None => Seq::<(Seq<char>, JsonV)>::empty(),
            Some(c) => seq![("context"@, JsonV::Obj(c))],
        })));
    }
    JsonValue::Obj(out)
}

/// The role a wire text names, if any.
pub open spec fn role_of(s: Seq<char>) -> Option<Role> {
    if s == "user"@ {
        Some(Role::User)
    } else if s == "model"@ {
        Some(Role::Model)
    } else if s == "tool"@ {
        Some(Role::Tool)
    } else if s == "system"@ {
        Some(Role::System)
    } else {
        None
    }
}

impl Role {
    /// The role a wire text names.
    pub fn from_str(s: &str) -> (r: Option<Role>)
        ensures
            r == role_of(s@),
    {
        if crate::json::str_eq(s, "user") {
            Some(Role::User)
        } else if crate::json::str_eq(s, "model") {
            Some(Role::Model)
        } else if crate::json::str_eq(s, "tool") {
            Some(Role::Tool)
        } else if crate::json::str_eq(s, "system") {
            Some(Role::System)
        } else {
            None
        }
    }
}

/// The content parts a sequence of wire values denotes, or the first
/// reason one of them is rejected.
pub open spec fn spec_decode_parts(items: Seq<JsonV>) -> Result<Seq<PartV>, DecodeError>
    decreases items.len(),
{
    if items.len() == 0 {
        Ok(Seq::empty())
    } else {
        match crate::codec::spec_decode_part(items[0]) {
            Ok(p) => match spec_decode_parts(items.drop_first()) {
                Ok(ps) => Ok(seq![p] + ps),
                Err(e) => Err(e),
            },
            Err(e) => Err(e),
        }
    }
}

/// The conversation turn a wire value denotes: a valid role, an array
/// of content parts, and the leftover entries as the envelope.
pub open spec fn spec_decode_message(v: JsonV) -> Result<MessageV, DecodeError> {
    match v {
        JsonV::Obj(o) => match obj_get(o, "role"@) {
            Some(JsonV::Str(rs)) => match role_of(rs) {
                Some(role) => match obj_get(o, "content"@) {
                    Some(JsonV::Arr(items)) => match spec_decode_parts(items) {
                        Ok(parts) => Ok(
                            MessageV {
                                role,
                                content: parts,
                                metadata: env_of(
                                    obj_remove(obj_remove(o, "role"@), "content"@),
                                ),
                            },
                        ),
                        Err(e) => Err(e),
                    },
                    Some(_) => Err(DecodeError::SchemaViolation),
                    None => Err(DecodeError::SchemaViolation),
                },
                None => Err(DecodeError::SchemaViolation),
            },
            Some(_) => Err(DecodeError::SchemaViolation),
            None => Err(DecodeError::SchemaViolation),
        },
        _ => Err(DecodeError::SchemaViolation),
    }
}

/// The context document a wire value denotes.
pub open spec fn spec_decode_document(v: JsonV) -> Result<DocumentV, DecodeError> {
    match v {
        JsonV::Obj(o) => match obj_get(o, "content"@) {
            Some(JsonV::Arr(items)) => match spec_decode_parts(items) {
                Ok(parts) => Ok(
                    DocumentV { content: parts, metadata: env_of(obj_remove(o, "content"@)) },
                ),
                Err(e) => Err(e),
            },
            Some(_) => Err(DecodeError::SchemaViolation),
            None => Err(DecodeError::SchemaViolation),
        },
        _ => Err(DecodeError::SchemaViolation),
    }
}

/// Validity of a conversation turn for the wire codec: a well-formed
/// envelope that uses neither shape key, and valid parts throughout.
pub open spec fn message_wf(m: MessageV) -> bool {
    &&& env_wf(m.metadata)
    &&& !env_has(m.metadata, "role"@)
    &&& !env_has(m.metadata, "content"@)
    &&& forall|i: int| 0 <= i < m.content.len() ==> part_wf(#[trigger] m.content[i])
}

/// Validity of a context document for the wire codec.
pub open spec fn document_wf(d: DocumentV) -> bool {
    &&& env_wf(d.metadata)
    &&& !env_has(d.metadata, "content"@)
    &&& forall|i: int| 0 <= i < d.content.len() ==> part_wf(#[trigger] d.content[i])
}

/// The round-trip law lifted to part sequences: decoding the encoded
/// parts gives them back, in order.
#[verifier::rlimit(100)]
#[verifier::spinoff_prover]
pub proof fn lemma_parts_round_trip(ps: Seq<PartV>)
    requires
        forall|i: int| 0 <= i < ps.len() ==> part_wf(#[trigger] ps[i]),
    ensures
        spec_decode_parts(spec_encode_parts(ps)) == Ok::<Seq<PartV>, DecodeError>(ps),
    decreases ps.len(),
{
    let enc = spec_encode_parts(ps);
    if ps.len() == 0 {
        assert(enc =~= Seq::<JsonV>::empty());
        assert(ps =~= Seq::<PartV>::empty());
    } else {
        crate::codec::lemma_part_round_trip(ps[0]);
        assert(forall|i: int|
            0 <= i < ps.drop_first().len() ==> part_wf(#[trigger] ps.drop_first()[i]));
        lemma_parts_round_trip(ps.drop_first());
        assert(enc[0] == spec_encode_part(ps[0]));
        assert(enc.drop_first() =~= spec_encode_parts(ps.drop_first()));
        assert(seq![ps[0]] + ps.drop_first() =~= ps);
    }
}

/// A role's wire text names that role back.
pub proof fn lemma_role_round(r: Role)
    ensures
        role_of(role_text(r)) == Some(r),
{
    reveal_strlit("user");
    reveal_strlit("model");
    reveal_strlit("tool");
    reveal_strlit("system");
    assert("user"@.len() == 4 && "model"@.len() == 5 && "tool"@.len() == 4 && "system"@.len()
        == 6);
    assert("user"@[0] == 'u' && "tool"@[0] == 't');
}

proof fn lemma_message_keys()
    ensures
        "role"@ != "content"@,
        "user"@ != "model"@,
        "user"@ != "tool"@,
        "user"@ != "system"@,
        "model"@ != "tool"@,
        "model"@ != "system"@,
        "tool"@ != "system"@,
{
    reveal_strlit("role");
    reveal_strlit("content");
    reveal_strlit("user");
    reveal_strlit("model");
    reveal_strlit("tool");
    reveal_strlit("system");
    assert("role"@.len() == 4);
    assert("content"@.len() == 7);
    assert("user"@.len() == 4);
    assert("model"@.len() == 5);
    assert("tool"@.len() == 4);
    assert("system"@.len() == 6);
    assert("user"@[0] == 'u' && "tool"@[0] == 't');
}

proof fn lemma_two_key_object(
    role_e: (Seq<char>, JsonV),
    content_e: (Seq<char>, JsonV),
    env: Seq<(Seq<char>, JsonV)>,
)
    requires
        role_e.0 == "role"@,
        content_e.0 == "content"@,
        !crate::json::obj_has_key(env, "role"@),
        !crate::json::obj_has_key(env, "content"@),
    ensures
        obj_get(seq![role_e, content_e] + env, "role"@) == Some(role_e.1),
        obj_get(seq![role_e, content_e] + env, "content"@) == Some(content_e.1),
        obj_remove(obj_remove(seq![role_e, content_e] + env, "role"@), "content"@) == env,
{
    lemma_message_keys();
    let rest = seq![content_e] + env;
    let o = seq![role_e, content_e] + env;
    assert(o =~= seq![role_e] + rest);
    assert(!crate::json::obj_has_key(rest, "role"@)) by {
        if crate::json::obj_has_key(rest, "role"@) {
            let i = choose|i: int|
                0 <= i < rest.len() && (#[trigger] rest[i]).0 == "role"@;
            assert(rest[i] == env[i - 1]);
            assert(crate::json::obj_has_key(env, "role"@));
        }
    }
    crate::codec::lemma_head_found(role_e, rest, "role"@);
    crate::codec::lemma_head_found(content_e, env, "content"@);
    assert(o.drop_first() =~= rest);
    assert(obj_get(o, "content"@) == obj_get(rest, "content"@));
}

/// The round-trip law of the message codec: decoding an encoded
/// well-formed turn gives it back, role, part order and envelope alike.
pub proof fn lemma_message_round_trip(m: MessageV)
    requires
        message_wf(m),
    ensures
        spec_decode_message(spec_encode_message(m)) == Ok::<MessageV, DecodeError>(m),
{
    lemma_role_round(m.role);
    let role_e = ("role"@, JsonV::Str(role_text(m.role)));
    let content_e = ("content"@, JsonV::Arr(spec_encode_parts(m.content)));
    let env = env_entries(m.metadata);
    lemma_two_key_object(role_e, content_e, env);
    lemma_parts_round_trip(m.content);
}

/// The round-trip law of the document codec.
pub proof fn lemma_document_round_trip(d: DocumentV)
    requires
        document_wf(d),
    ensures
        spec_decode_document(spec_encode_document(d)) == Ok::<DocumentV, DecodeError>(d),
{
    let content_e = ("content"@, JsonV::Arr(spec_encode_parts(d.content)));
    let env = env_entries(d.metadata);
    let o = seq![content_e] + env;
    assert(spec_encode_document(d) == JsonV::Obj(o));
    assert forall|j: int| 1 <= j < o.len() implies (#[trigger] o[j]).0 != "content"@ by {
        assert(o[j] == env[j - 1]);
        if env[j - 1].0 == "content"@ {
            assert(crate::json::obj_has_key(env, "content"@));
        }
    }
    crate::json::lemma_obj_get_index(o, "content"@, 0);
    lemma_parts_round_trip(d.content);
    crate::json::lemma_obj_remove_head(o, "content"@);
    assert(o.drop_first() =~= env);
}

proof fn lemma_decode_parts_split(items: Seq<JsonV>, i: int, acc: Seq<PartV>)
    requires
        0 <= i <= items.len(),
        acc.len() == i,
        forall|j: int|
            0 <= j < i ==> crate::codec::spec_decode_part(#[trigger] items[j]) == Ok::<
                PartV,
                DecodeError,
            >(acc[j]),
    ensures
        spec_decode_parts(items) == (match spec_decode_parts(
            items.subrange(i, items.len() as int),
        ) {
            Ok(tail) => Ok::<Seq<PartV>, DecodeError>(acc + tail),
            Err(e) => Err(e),
        }),
    decreases i,
{
    let n = items.len() as int;
    if i == 0 {
        assert(items.subrange(0, n) =~= items);
        assert(acc =~= Seq::<PartV>::empty());
        if spec_decode_parts(items) is Ok {
            assert(acc + spec_decode_parts(items)->Ok_0 =~= spec_decode_parts(items)->Ok_0);
        }
    } else {
        assert(forall|j: int|
            0 <= j < i - 1 ==> acc.subrange(0, i - 1)[j] == #[trigger] acc[j]);
        lemma_decode_parts_split(items, i - 1, acc.subrange(0, i - 1));
        let mid = items.subrange(i - 1, n);
        assert(mid[0] == items[i - 1]);
        assert(mid.drop_first() =~= items.subrange(i, n));
        match spec_decode_parts(items.subrange(i, n)) {
            Ok(tail) => {
                assert(spec_decode_parts(mid) == Ok::<Seq<PartV>, DecodeError>(
                    seq![acc[i - 1]] + tail,
                ));
                assert(acc.subrange(0, i - 1) + (seq![acc[i - 1]] + tail) =~= acc + tail);
            },
            Err(_) => {},
        }
    }
}

fn decode_parts_vec(items: &Vec<JsonValue>) -> (r: Result<Vec<Part>, DecodeError>)
    ensures
        (match r {
            Ok(ps) => spec_decode_parts(arr_view(items@)) == Ok::<Seq<PartV>, DecodeError>(
                Seq::new(ps@.len(), |i: int| ps@[i]@),
            ),
            Err(e) => spec_decode_parts(arr_view(items@)) == Err::<Seq<PartV>, DecodeError>(e),
        }),
{
    proof {
        lemma_arr_view(items@);
    }
    let ghost av = arr_view(items@);
    let mut out: Vec<Part> = Vec::new();
    let mut i: usize = 0;
    while i < items.len()
        invariant
            i <= items@.len(),
            av == arr_view(items@),
            av.len() == items@.len(),
            forall|j: int| 0 <= j < items@.len() ==> #[trigger] av[j] == json_view(items@[j]),
            out@.len() == i,
            forall|j: int|
                0 <= j < i ==> crate::codec::spec_decode_part(#[trigger] av[j]) == Ok::<
                    PartV,
                    DecodeError,
                >(out@[j]@),
        decreases items@.len() - i,
    {
        let d = crate::codec::decode_part(&items[i]);
        match d {
            Ok(p) => {
                out.push(p);
            },
            Err(e) => {
                proof {
                    let acc = Seq::new(i as nat, |j: int| out@[j]@);
                    lemma_decode_parts_split(av, i as int, acc);
                    let rest = av.subrange(i as int, av.len() as int);
                    assert(rest[0] == av[i as int]);
                }
                return Err(e);
            },
        }
        i = i + 1;
    }
    proof {
        let acc = Seq::new(out@.len() as nat, |j: int| out@[j]@);
        lemma_decode_parts_split(av, av.len() as int, acc);
        assert(av.subrange(av.len() as int, av.len() as int) =~= Seq::<JsonV>::empty());
        assert(acc + Seq::<PartV>::empty() =~= acc);
    }
    Ok(out)
}

/// The model of a message decode result.
pub open spec fn message_result_view(r: Result<Message, DecodeError>) -> Result<
    MessageV,
    DecodeError,
> {
    match r {
        Ok(m) => Ok(m@),
        Err(e) => Err(e),
    }
}

/// The model of a document decode result.
pub open spec fn document_result_view(r: Result<Document, DecodeError>) -> Result<
    DocumentV,
    DecodeError,
> {
    match r {
        Ok(d) => Ok(d@),
        Err(e) => Err(e),
    }
}

/// The conversation turn a wire value denotes: a valid role, an array
/// of content parts decoded in order, and the leftover entries as the
/// envelope.
pub fn decode_message(v: &JsonValue) -> (r: Result<Message, DecodeError>)
    ensures
        message_result_view(r) == spec_decode_message(v@),
{
    let o = match v {
        JsonValue::Obj(o) => o,
        _ => {
            return Err(DecodeError::SchemaViolation);
        },
    };
    proof {
        lemma_obj_view(o@);
    }
    let ghost ov = obj_view(o@);
    let role_s = match crate::codec::get_str_value(o, "role") {
        Some(s) => s,
        None => {
            return Err(DecodeError::SchemaViolation);
        },
    };
    let role = match Role::from_str(role_s.as_str()) {
        Some(r) => r,
        None => {
            return Err(DecodeError::SchemaViolation);
        },
    };
    match crate::json::obj_find(o, "content") {
        Some(i) => {
            proof {
                crate::json::lemma_obj_get_index(ov, "content"@, i as int);
            }
            match &o[i].1 {
                JsonValue::Arr(items) => match decode_parts_vec(items) {
                    Ok(parts) => {
                        let env1 = crate::json::obj_without(o, "role");
                        let env = crate::json::obj_without(&env1, "content");
                        Ok(
                            Message {
                                role,
                                content: parts,
                                metadata: crate::codec::env_opt(env),
                            },
                        )
                    },
                    Err(e) => Err(e),
                },
                _ => Err(DecodeError::SchemaViolation),
            }
        },
        None => {
            proof {
                crate::json::lemma_obj_get_none(ov, "content"@);
            }
            Err(DecodeError::SchemaViolation)
        },
    }
}

/// The context document a wire value denotes.
pub fn decode_document(v: &JsonValue) -> (r: Result<Document, DecodeError>)
    ensures
        document_result_view(r) == spec_decode_document(v@),
{
    let o = match v {
        JsonValue::Obj(o) => o,
        _ => {
            return Err(DecodeError::SchemaViolation);
        },
    };
    proof {
        lemma_obj_view(o@);
    }
    let ghost ov = obj_view(o@);
    match crate::json::obj_find(o, "content") {
        Some(i) => {
            proof {
                crate::json::lemma_obj_get_index(ov, "content"@, i as int);
            }
            match &o[i].1 {
                JsonValue::Arr(items) => match decode_parts_vec(items) {
                    Ok(parts) => {
                        let env = crate::json::obj_without(o, "content");
                        Ok(Document { content: parts, metadata: crate::codec::env_opt(env) })
                    },
                    Err(e) => Err(e),
                },
                _ => Err(DecodeError::SchemaViolation),
            }
        },
        None => {
            proof {
                crate::json::lemma_obj_get_none(ov, "content"@);
            }
            Err(DecodeError::SchemaViolation)
        },
    }
}

/// The model of an output format.
pub enum OutputFormatV {
    Predefined(PredefinedFormat),
    Custom(Seq<char>),
}

/// The model of an input configuration.
pub struct InputConfigV {
    pub default: Option<Seq<(Seq<char>, JsonV)>>,
    pub schema: Option<JsonV>,
}

/// The model of an output configuration.
pub struct OutputConfigV {
    pub format: Option<OutputFormatV>,
    pub schema: Option<JsonV>,
}

/// The model of prompt metadata.
pub struct MetadataV {
    pub metadata: Option<Seq<(Seq<char>, JsonV)>>,
    pub name: Option<Seq<char>>,
    pub variant: Option<Seq<char>>,
    pub version: Option<Seq<char>>,
    pub description: Option<Seq<char>>,
    pub model: Option<Seq<char>>,
    pub tools: Option<Seq<Seq<char>>>,
    pub tool_defs: Option<Seq<ToolDefV>>,
    pub config: Option<JsonV>,
    pub input: Option<InputConfigV>,
    pub output: Option<OutputConfigV>,
    pub raw: Option<Seq<(Seq<char>, JsonV)>>,
    pub ext: Option<Seq<(Seq<char>, Seq<(Seq<char>, JsonV)>)>>,
}

impl View for OutputFormat {
    type V = OutputFormatV;

    open spec fn view(&self) -> OutputFormatV {
        match *self {
            OutputFormat::Predefined(p) => OutputFormatV::Predefined(p),
            OutputFormat::Custom(s) => OutputFormatV::Custom(s@),
        }
    }
}

impl View for InputConfig {
    type V = InputConfigV;

    open spec fn view(&self) -> InputConfigV {
        InputConfigV {
            default: match self.default {
                None => None,
                Some(d) => Some(obj_view(d@)),
            },
            schema: opt_json_view(self.schema),
        }
    }
}

impl View for OutputConfig {
    type V = OutputConfigV;

    open spec fn view(&self) -> OutputConfigV {
        OutputConfigV {
            format: match self.format {
                None => None,
                Some(f) => Some(f@),
            },
            schema: opt_json_view(self.schema),
        }
    }
}

impl View for PromptMetadata {
    type V = MetadataV;

    open spec fn view(&self) -> MetadataV {
        MetadataV {
            metadata: env_view(self.metadata),
            name: opt_str_view(self.name),
            variant: opt_str_view(self.variant),
            version: opt_str_view(self.version),
            description: opt_str_view(self.description),
            model: opt_str_view(self.model),
            tools: match self.tools {
                None => None,
                Some(ts) => Some(Seq::new(ts@.len(), |i: int| ts@[i]@)),
            },
            tool_defs: match self.tool_defs {
                None => None,
                Some(ds) => Some(Seq::new(ds@.len(), |i: int| ds@[i]@)),
            },
            config: opt_json_view(self.config),
            input: match self.input {
                None => None,
                Some(c) => Some(c@),
            },
            output: match self.output {
                None => None,
                Some(c) => Some(c@),
            },
            raw: match self.raw {
                None => None,
                Some(r) => Some(obj_view(r@)),
            },
            ext: match self.ext {
                None => None,
                Some(e) => Some(Seq::new(e@.len(), |i: int| (e@[i].0@, obj_view(e@[i].1@)))),
            },
        }
    }
}

/// The entry for an optional nested object, absent when the object is.
pub open spec fn opt_obj_entry(k: Seq<char>, m: Option<Seq<(Seq<char>, JsonV)>>) -> Seq<
    (Seq<char>, JsonV),
> {
    match m {
        None => Seq::empty(),
        Some(e) => seq![(k, JsonV::Obj(e))],
    }
}

/// The wire text of an output format.
pub open spec fn format_text(f: OutputFormatV) -> Seq<char> {
    match f {
        OutputFormatV::Predefined(PredefinedFormat::Json) => "json"@,
        OutputFormatV::Predefined(PredefinedFormat::Text) => "text"@,
        OutputFormatV::Custom(s) => s,
    }
}

/// The body of the `input` configuration object.
pub open spec fn input_cfg_entries(c: InputConfigV) -> Seq<(Seq<char>, JsonV)> {
    opt_obj_entry("default"@, c.default) + opt_value_entry("schema"@, c.schema)
}

/// The body of the `output` configuration object.
pub open spec fn output_cfg_entries(c: OutputConfigV) -> Seq<(Seq<char>, JsonV)> {
    (match c.format {
        None => Seq::empty(),
        Some(f) => seq![("format"@, JsonV::Str(format_text(f)))],
    }) + opt_value_entry("schema"@, c.schema)
}

/// The first half of the encoded metadata fields: envelope, naming
/// and tools.
pub open spec fn spec_metadata_front(m: MetadataV) -> Seq<(Seq<char>, JsonV)> {
    opt_obj_entry("metadata"@, m.metadata) + opt_str_entry("name"@, m.name) + opt_str_entry(
        "variant"@,
        m.variant,
    ) + opt_str_entry("version"@, m.version) + opt_str_entry("description"@, m.description)
        + opt_str_entry("model"@, m.model) + (match m.tools {
        None => Seq::empty(),
        Some(ts) => seq![("tools"@, JsonV::Arr(Seq::new(ts.len(), |i: int| JsonV::Str(ts[i]))))],
    }) + (match m.tool_defs {
        None => Seq::empty(),
        Some(ds) => seq![
            (
                "toolDefs"@,
                JsonV::Arr(Seq::new(ds.len(), |i: int| spec_encode_tool_definition(ds[i]))),
            ),
        ],
    })
}

/// The second half of the encoded metadata fields: configuration and
/// the verbatim frontmatter.
pub open spec fn spec_metadata_back(m: MetadataV) -> Seq<(Seq<char>, JsonV)> {
    opt_value_entry("config"@, m.config) + (match m.input {
        None => Seq::empty(),
        Some(c) => seq![("input"@, JsonV::Obj(input_cfg_entries(c)))],
    }) + (match m.output {
        None => Seq::empty(),
        Some(c) => seq![("output"@, JsonV::Obj(output_cfg_entries(c)))],
    }) + opt_obj_entry("raw"@, m.raw) + (match m.ext {
        None => Seq::empty(),
        Some(e) => seq![
            ("ext"@, JsonV::Obj(Seq::new(e.len(), |i: int| (e[i].0, JsonV::Obj(e[i].1))))),
        ],
    })
}

/// The entries of encoded prompt metadata: every present field under
/// its own key, in a fixed order, absent fields skipped.
pub open spec fn spec_metadata_entries(m: MetadataV) -> Seq<(Seq<char>, JsonV)> {
    spec_metadata_front(m) + spec_metadata_back(m)
}

/// The wire value of prompt metadata.
pub open spec fn spec_encode_prompt_metadata(m: MetadataV) -> JsonV {
    JsonV::Obj(spec_metadata_entries(m))
}

/// The wire value of a parsed prompt: the metadata fields with the
/// template body beside them.
pub open spec fn spec_encode_parsed_prompt(m: MetadataV, template: Seq<char>) -> JsonV {
    JsonV::Obj(spec_metadata_entries(m) + seq![("template"@, JsonV::Str(template))])
}

/// The wire value of a rendered prompt: the metadata fields with the
/// rendered turns beside them.
pub open spec fn spec_encode_rendered_prompt(m: MetadataV, messages: Seq<MessageV>) -> JsonV {
    JsonV::Obj(
        spec_metadata_entries(m) + seq![("messages"@, JsonV::Arr(spec_encode_messages(messages)))],
    )
}

fn push_obj_entry_opt(out: &mut JsonObject, key: &str, m: &Option<JsonObject>)
    ensures
        obj_view(final(out)@) == obj_view(old(out)@) + opt_obj_entry(key@, env_view(*m)),
{
    match m {
        None => {
            proof {
                assert(obj_view(out@) =~= obj_view(out@) + opt_obj_entry(key@, env_view(*m)));
            }
        },
        Some(o) => {
            let e = (key.to_owned(), JsonValue::Obj(crate::json::obj_clone(o)));
            proof {
                lemma_obj_view_push(out@, e);
            }
            out.push(e);
            proof {
                assert(obj_view(out@) =~= obj_view(old(out)@) + opt_obj_entry(
                    key@,
                    env_view(*m),
                ));
            }
        },
    }
}

#[verifier::loop_isolation(false)]
fn encode_string_arr(ts: &Vec<String>) -> (r: Vec<JsonValue>)
    ensures
        arr_view(r@) == Seq::new(ts@.len(), |i: int| JsonV::Str(ts@[i]@)),
{
    let mut out: Vec<JsonValue> = Vec::new();
    let mut i: usize = 0;
    while i < ts.len()
        invariant
            i <= ts@.len(),
            out@.len() == i,
            forall|j: int| 0 <= j < i ==> json_view(#[trigger] out@[j]) == JsonV::Str(ts@[j]@),
        decreases ts@.len() - i,
    {
        let s = ts[i].clone();
        out.push(JsonValue::Str(s));
        i = i + 1;
    }
    proof {
        lemma_arr_view(out@);
        assert(arr_view(out@) =~= Seq::new(ts@.len(), |i: int| JsonV::Str(ts@[i]@)));
    }
    out
}

#[verifier::loop_isolation(false)]
fn encode_tool_defs(ds: &Vec<ToolDefinition>) -> (r: Vec<JsonValue>)
    ensures
        arr_view(r@) == Seq::new(ds@.len(), |i: int| spec_encode_tool_definition(ds@[i]@)),
{
    let mut out: Vec<JsonValue> = Vec::new();
    let mut i: usize = 0;
    while i < ds.len()
        invariant
            i <= ds@.len(),
            out@.len() == i,
            forall|j: int|
                0 <= j < i ==> json_view(#[trigger] out@[j]) == spec_encode_tool_definition(
                    ds@[j]@,
                ),
        decreases ds@.len() - i,
    {
        let v = encode_tool_definition(&ds[i]);
        out.push(v);
        i = i + 1;
    }
    proof {
        lemma_arr_view(out@);
        assert(arr_view(out@) =~= Seq::new(
            ds@.len(),
            |i: int| spec_encode_tool_definition(ds@[i]@),
        ));
    }
    out
}

#[verifier::loop_isolation(false)]
fn encode_ext(e: &Vec<(String, JsonObject)>) -> (r: JsonObject)
    ensures
        obj_view(r@) == Seq::new(e@.len(), |i: int| (e@[i].0@, JsonV::Obj(obj_view(e@[i].1@)))),
{
    let mut out: JsonObject = Vec::new();
    let mut i: usize = 0;
    while i < e.len()
        invariant
            i <= e@.len(),
            out@.len() == i,
            forall|j: int|
                0 <= j < i ==> (#[trigger] out@[j]).0@ == e@[j].0@ && json_view(out@[j].1)
                    == JsonV::Obj(obj_view(e@[j].1@)),
        decreases e@.len() - i,
    {
        let ns = e[i].0.clone();
        let body = crate::json::obj_clone(&e[i].1);
        out.push((ns, JsonValue::Obj(body)));
        i = i + 1;
    }
    proof {
        lemma_obj_view(out@);
        assert(obj_view(out@) =~= Seq::new(
            e@.len(),
            |i: int| (e@[i].0@, JsonV::Obj(obj_view(e@[i].1@))),
        ));
    }
    out
}

/// The wire text of an output format.
pub fn format_str(f: &OutputFormat) -> (r: String)
    ensures
        r@ == format_text(f@),
{
    match f {
        OutputFormat::Predefined(PredefinedFormat::Json) => "json".to_owned(),
        OutputFormat::Predefined(PredefinedFormat::Text) => "text".to_owned(),
        OutputFormat::Custom(s) => s.clone(),
    }
}

fn encode_input_config(c: &InputConfig) -> (r: JsonObject)
    ensures
        obj_view(r@) == input_cfg_entries(c@),
{
    let mut out: JsonObject = Vec::new();
    push_obj_entry_opt(&mut out, "default", &c.default);
    crate::codec::push_opt_value(&mut out, "schema", &c.schema);
    proof {
        assert(obj_view(out@) =~= input_cfg_entries(c@));
    }
    out
}

fn encode_output_config(c: &OutputConfig) -> (r: JsonObject)
    ensures
        obj_view(r@) == output_cfg_entries(c@),
{
    let mut out: JsonObject = Vec::new();
    match &c.format {
        None => {},
        Some(f) => {
            let e = ("format".to_owned(), JsonValue::Str(format_str(f)));
            proof {
                lemma_obj_view_push(out@, e);
            }
            out.push(e);
        },
    }
    crate::codec::push_opt_value(&mut out, "schema", &c.schema);
    proof {
        assert(obj_view(out@) =~= output_cfg_entries(c@));
    }
    out
}

#[verifier::rlimit(100)]
fn push_metadata_front(out: &mut JsonObject, m: &PromptMetadata)
    ensures
        obj_view(final(out)@) == obj_view(old(out)@) + spec_metadata_front(m@),
{
    let ghost base = obj_view(out@);
    let ghost mut acc = base;
    push_obj_entry_opt(out, "metadata", &m.metadata);
    proof {
        acc = acc + opt_obj_entry("metadata"@, m@.metadata);
        assert(obj_view(out@) =~~= acc);
    }
    crate::codec::push_opt_str(out, "name", &m.name);
    proof {
        acc = acc + opt_str_entry("name"@, m@.name);
        assert(obj_view(out@) =~~= acc);
    }
    crate::codec::push_opt_str(out, "variant", &m.variant);
    proof {
        acc = acc + opt_str_entry("variant"@, m@.variant);
        assert(obj_view(out@) =~~= acc);
    }
    crate::codec::push_opt_str(out, "version", &m.version);
    proof {
        acc = acc + opt_str_entry("version"@, m@.version);
        assert(obj_view(out@) =~~= acc);
    }
    crate::codec::push_opt_str(out, "description", &m.description);
    proof {
        acc = acc + opt_str_entry("description"@, m@.description);
        assert(obj_view(out@) =~~= acc);
    }
    crate::codec::push_opt_str(out, "model", &m.model);
    proof {
        acc = acc + opt_str_entry("model"@, m@.model);
        assert(obj_view(out@) =~~= acc);
    }
    match &m.tools {
        None => {},
        Some(ts) => {
            let arr = encode_string_arr(ts);
            proof {
                assert(arr_view(arr@) =~~= (match m@.tools {
                    None => Seq::<JsonV>::empty(),
                    Some(tsv) => Seq::new(tsv.len(), |i: int| JsonV::Str(tsv[i])),
                }));
            }
            let e = ("tools".to_owned(), JsonValue::Arr(arr));
            proof {
                lemma_obj_view_push(out@, e);
            }
            out.push(e);
        },
    }
    proof {
        acc = acc + (match m@.tools {
            None => Seq::<(Seq<char>, JsonV)>::empty(),
            Some(ts) => seq![
                ("tools"@, JsonV::Arr(Seq::new(ts.len(), |i: int| JsonV::Str(ts[i])))),
            ],
        });
        assert(obj_view(out@) =~~= acc);
    }
    match &m.tool_defs {
        None => {},
        Some(ds) => {
            let arr = encode_tool_defs(ds);
            proof {
                assert(arr_view(arr@) =~~= (match m@.tool_defs {
                    None => Seq::<JsonV>::empty(),
                    Some(dsv) => Seq::new(
                        dsv.len(),
                        |i: int| spec_encode_tool_definition(dsv[i]),
                    ),
                }));
            }
            let e = ("toolDefs".to_owned(), JsonValue::Arr(arr));
            proof {
                lemma_obj_view_push(out@, e);
            }
            out.push(e);
        },
    }
    proof {
        acc = acc + (match m@.tool_defs {
            None => Seq::<(Seq<char>, JsonV)>::empty(),
            Some(ds) => seq![
                (
                    "toolDefs"@,
                    JsonV::Arr(Seq::new(ds.len(), |i: int| spec_encode_tool_definition(ds[i]))),
                ),
            ],
        });
        assert(obj_view(out@) =~~= acc);
    }
    proof {
        assert(acc =~~= base + spec_metadata_front(m@));
    }
}

#[verifier::rlimit(100)]
fn push_metadata_back(out: &mut JsonObject, m: &PromptMetadata)
    ensures
        obj_view(final(out)@) == obj_view(old(out)@) + spec_metadata_back(m@),
{
    let ghost base = obj_view(out@);
    let ghost mut acc = base;
    crate::codec::push_opt_value(out, "config", &m.config);
    proof {
        acc = acc + opt_value_entry("config"@, m@.config);
        assert(obj_view(out@) =~~= acc);
    }
    match &m.input {
        None => {},
        Some(c) => {
            let e = ("input".to_owned(), JsonValue::Obj(encode_input_config(c)));
            proof {
                lemma_obj_view_push(out@, e);
            }
            out.push(e);
        },
    }
    proof {
        acc = acc + (match m@.input {
            None => Seq::<(Seq<char>, JsonV)>::empty(),
            Some(c) => seq![("input"@, JsonV::Obj(input_cfg_entries(c)))],
        });
        assert(obj_view(out@) =~~= acc);
    }
    match &m.output {
        None => {},
        Some(c) => {
            let e = ("output".to_owned(), JsonValue::Obj(encode_output_config(c)));
            proof {
                lemma_obj_view_push(out@, e);
            }
            out.push(e);
        },
    }
    proof {
        acc = acc + (match m@.output {
            None => Seq::<(Seq<char>, JsonV)>::empty(),
            Some(c) => seq![("output"@, JsonV::Obj(output_cfg_entries(c)))],
        });
        assert(obj_view(out@) =~~= acc);
    }
    push_obj_entry_opt(out, "raw", &m.raw);
    proof {
        acc = acc + opt_obj_entry("raw"@, m@.raw);
        assert(obj_view(out@) =~~= acc);
    }
    match &m.ext {
        None => {},
        Some(ex) => {
            let body = encode_ext(ex);
            proof {
                assert(obj_view(body@) =~~= (match m@.ext {
                    None => Seq::<(Seq<char>, JsonV)>::empty(),
                    Some(ev) => Seq::new(ev.len(), |i: int| (ev[i].0, JsonV::Obj(ev[i].1))),
                }));
            }
            let e = ("ext".to_owned(), JsonValue::Obj(body));
            proof {
                lemma_obj_view_push(out@, e);
            }
            out.push(e);
        },
    }
    proof {
        acc = acc + (match m@.ext {
            None => Seq::<(Seq<char>, JsonV)>::empty(),
            Some(e) => seq![
                ("ext"@, JsonV::Obj(Seq::new(e.len(), |i: int| (e[i].0, JsonV::Obj(e[i].1))))),
            ],
        });
        assert(obj_view(out@) =~~= acc);
        assert(acc =~~= base + spec_metadata_back(m@));
    }
}

/// Appends the encoded metadata fields, each present field under its
/// own key, absent fields skipped.
pub fn push_metadata_entries(out: &mut JsonObject, m: &PromptMetadata)
    ensures
        obj_view(final(out)@) == obj_view(old(out)@) + spec_metadata_entries(m@),
{
    push_metadata_front(out, m);
    push_metadata_back(out, m);
    proof {
        assert(obj_view(out@) =~~= obj_view(old(out)@) + spec_metadata_entries(m@));
    }
}


/// The wire value of prompt metadata.
pub fn encode_prompt_metadata(m: &PromptMetadata) -> (r: JsonValue)
    ensures
        r@ == spec_encode_prompt_metadata(m@),
{
    let mut out: JsonObject = Vec::new();
    push_metadata_entries(&mut out, m);
    proof {
        assert(obj_view(out@) =~= spec_metadata_entries(m@));
    }
    JsonValue::Obj(out)
}

/// The wire value of a parsed prompt: the metadata fields with the
/// template body beside them.
pub fn encode_parsed_prompt(p: &ParsedPrompt) -> (r: JsonValue)
    ensures
        r@ == spec_encode_parsed_prompt(p.metadata@, p.template@),
{
    let mut out: JsonObject = Vec::new();
    push_metadata_entries(&mut out, &p.metadata);
    let e = ("template".to_owned(), JsonValue::Str(p.template.clone()));
    proof {
        lemma_obj_view_push(out@, e);
    }
    out.push(e);
    proof {
        assert(obj_view(out@) =~= spec_metadata_entries(p.metadata@) + seq![
            ("template"@, JsonV::Str(p.template@)),
        ]);
    }
    JsonValue::Obj(out)
}

/// The wire value of a rendered prompt: the metadata fields with the
/// rendered turns beside them.
pub fn encode_rendered_prompt(rp: &RenderedPrompt) -> (r: JsonValue)
    ensures
        r@ == spec_encode_rendered_prompt(
            rp.metadata@,
            Seq::new(rp.messages@.len(), |i: int| rp.messages@[i]@),
        ),
{
    let mut out: JsonObject = Vec::new();
    push_metadata_entries(&mut out, &rp.metadata);
    let e = ("messages".to_owned(), JsonValue::Arr(encode_messages(&rp.messages)));
    proof {
        lemma_obj_view_push(out@, e);
    }
    out.push(e);
    proof {
        assert(obj_view(out@) =~= spec_metadata_entries(rp.metadata@) + seq![
            (
                "messages"@,
                JsonV::Arr(
                    spec_encode_messages(
                        Seq::new(rp.messages@.len(), |i: int| rp.messages@[i]@),
                    ),
                ),
            ),
        ]);
    }
    JsonValue::Obj(out)
}

} // verus!
