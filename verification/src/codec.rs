//! The wire codec of the content model.
//!
//! Encoding is deterministic: each variant emits exactly its required
//! field plus the envelope entries as siblings at the same object level;
//! an absent envelope adds nothing. Decoding applies shape matching in
//! the fixed order text, data, media, toolRequest, toolResponse, pending,
//! and accepts the first structurally compatible match; a payload that
//! matches no shape is rejected.

use vstd::prelude::*;

use crate::json::{
    json_clone, keys_unique, lemma_obj_get_index, lemma_obj_get_none, lemma_obj_remove_head,
    lemma_obj_view, lemma_obj_view_push, obj_find, obj_get, obj_has_key, obj_remove, obj_view,
    obj_without, str_eq, JsonObject, JsonV, JsonValue,
};
use crate::part::{
    env_view, opt_json_view, opt_str_view, DataPart, MediaContent, MediaPart, Part, PartV,
    PendingPart, TextPart, ToolRequest, ToolRequestPart, ToolResponse, ToolResponsePart,
};

verus! {

/// Why a wire payload was rejected by the content-model decoder.
#[derive(Debug, Clone, Copy, PartialEq, Eq, Structural)]
pub enum DecodeError {
    /// The payload matches none of the six shapes.
    NoVariantMatched,
    /// The payload has the pending shape, but the `pending` flag is not
    /// the literal `true`.
    InvalidPendingFlag,
    /// The payload violates the shape of a message or document.
    SchemaViolation,
}

/// The entries of an optional envelope; an absent envelope has none.
pub open spec fn env_entries(m: Option<Seq<(Seq<char>, JsonV)>>) -> Seq<(Seq<char>, JsonV)> {
    match m {
        None => Seq::empty(),
        Some(e) => e,
    }
}

/// The envelope holding the given entries; no entries mean no envelope.
pub open spec fn env_of(e: Seq<(Seq<char>, JsonV)>) -> Option<Seq<(Seq<char>, JsonV)>> {
    if e.len() == 0 {
        None
    } else {
        Some(e)
    }
}

/// Whether an optional envelope has an entry under key `k`.
pub open spec fn env_has(m: Option<Seq<(Seq<char>, JsonV)>>, k: Seq<char>) -> bool {
    obj_has_key(env_entries(m), k)
}

/// The entry for an optional value, absent when the value is.
pub open spec fn opt_value_entry(k: Seq<char>, v: Option<JsonV>) -> Seq<(Seq<char>, JsonV)> {
    match v {
        None => Seq::empty(),
        Some(x) => seq![(k, x)],
    }
}

/// The entry for an optional string, absent when the string is.
pub open spec fn opt_str_entry(k: Seq<char>, v: Option<Seq<char>>) -> Seq<(Seq<char>, JsonV)> {
    match v {
        None => Seq::empty(),
        Some(s) => seq![(k, JsonV::Str(s))],
    }
}

/// The body of the `media` object: the URL, then the content type if any.
pub open spec fn media_entries(url: Seq<char>, ct: Option<Seq<char>>) -> Seq<(Seq<char>, JsonV)> {
    seq![("url"@, JsonV::Str(url))] + opt_str_entry("contentType"@, ct)
}

/// The body of a `toolRequest` or `toolResponse` object: the tool name,
/// the optional payload under `vk` (`input` or `output`), and the
/// optional correlation `ref`.
pub open spec fn tool_call_entries(
    name: Seq<char>,
    vk: Seq<char>,
    v: Option<JsonV>,
    reference: Option<Seq<char>>,
) -> Seq<(Seq<char>, JsonV)> {
    seq![("name"@, JsonV::Str(name))] + opt_value_entry(vk, v) + opt_str_entry("ref"@, reference)
}

/// The wire value of a content part.
pub open spec fn spec_encode_part(p: PartV) -> JsonV {
    match p {
        PartV::Text { text, metadata } => JsonV::Obj(
            seq![("text"@, JsonV::Str(text))] + env_entries(metadata),
        ),
        PartV::Data { data, metadata } => JsonV::Obj(
            seq![("data"@, data)] + env_entries(metadata),
        ),
        PartV::Media { url, content_type, metadata } => JsonV::Obj(
            seq![("media"@, JsonV::Obj(media_entries(url, content_type)))] + env_entries(metadata),
        ),
        PartV::ToolRequest { name, input, reference, metadata } => JsonV::Obj(
            seq![("toolRequest"@, JsonV::Obj(tool_call_entries(name, "input"@, input, reference)))]
                + env_entries(metadata),
        ),
        PartV::ToolResponse { name, output, reference, metadata } => JsonV::Obj(
            seq![
                ("toolResponse"@, JsonV::Obj(tool_call_entries(name, "output"@, output, reference))),
            ] + env_entries(metadata),
        ),
        PartV::Pending { metadata } => JsonV::Obj(
            seq![("metadata"@, JsonV::Obj(seq![("pending"@, JsonV::Bool(true))] + metadata))],
        ),
    }
}

/// Structural compatibility with the `media` shape: a string `url`, an
/// optional string `contentType`, and nothing else.
pub open spec fn media_shape(mo: Seq<(Seq<char>, JsonV)>) -> bool {
    &&& obj_get(mo, "url"@) matches Some(JsonV::Str(_))
    &&& keys_unique(mo)
    &&& forall|i: int|
        0 <= i < mo.len() ==> ((#[trigger] mo[i]).0 == "url"@ || mo[i].0 == "contentType"@)
    &&& (obj_has_key(mo, "contentType"@) ==> obj_get(mo, "contentType"@) matches Some(
        JsonV::Str(_),
    ))
}

/// Structural compatibility with a tool-call shape: a string `name`, an
/// optional payload under `vk`, an optional string `ref`, nothing else.
pub open spec fn tool_call_shape(ro: Seq<(Seq<char>, JsonV)>, vk: Seq<char>) -> bool {
    &&& obj_get(ro, "name"@) matches Some(JsonV::Str(_))
    &&& keys_unique(ro)
    &&& forall|i: int|
        0 <= i < ro.len() ==> ((#[trigger] ro[i]).0 == "name"@ || ro[i].0 == vk || ro[i].0
            == "ref"@)
    &&& (obj_has_key(ro, "ref"@) ==> obj_get(ro, "ref"@) matches Some(JsonV::Str(_)))
}

/// The characters of a string value; used only under a shape guarantee.
pub open spec fn str_of(v: Option<JsonV>) -> Seq<char> {
    match v {
        Some(JsonV::Str(s)) => s,
        _ => Seq::empty(),
    }
}

/// The optional string under key `k`, used only under a shape guarantee.
pub open spec fn opt_str_of(o: Seq<(Seq<char>, JsonV)>, k: Seq<char>) -> Option<Seq<char>> {
    if obj_has_key(o, k) {
        Some(str_of(obj_get(o, k)))
    } else {
        None
    }
}

pub open spec fn decode_pending(o: Seq<(Seq<char>, JsonV)>) -> Result<PartV, DecodeError> {
    if o.len() == 1 && o[0].0 == "metadata"@ {
        match o[0].1 {
            JsonV::Obj(mo) => match obj_get(mo, "pending"@) {
                Some(JsonV::Bool(b)) => if b {
                    Ok(PartV::Pending { metadata: obj_remove(mo, "pending"@) })
                } else {
                    Err(DecodeError::InvalidPendingFlag)
                },
                Some(_) => Err(DecodeError::InvalidPendingFlag),
                None => Err(DecodeError::InvalidPendingFlag),
            },
            _ => Err(DecodeError::NoVariantMatched),
        }
    } else {
        Err(DecodeError::NoVariantMatched)
    }
}

pub open spec fn decode_after_tool_request(o: Seq<(Seq<char>, JsonV)>) -> Result<PartV, DecodeError> {
    match obj_get(o, "toolResponse"@) {
        Some(JsonV::Obj(ro)) => if tool_call_shape(ro, "output"@) {
            Ok(
                PartV::ToolResponse {
                    name: str_of(obj_get(ro, "name"@)),
                    output: obj_get(ro, "output"@),
                    reference: opt_str_of(ro, "ref"@),
                    metadata: env_of(obj_remove(o, "toolResponse"@)),
                },
            )
        } else {
            decode_pending(o)
        },
        Some(_) => decode_pending(o),
        None => decode_pending(o),
    }
}

pub open spec fn decode_after_media(o: Seq<(Seq<char>, JsonV)>) -> Result<PartV, DecodeError> {
    match obj_get(o, "toolRequest"@) {
        Some(JsonV::Obj(ro)) => if tool_call_shape(ro, "input"@) {
            Ok(
                PartV::ToolRequest {
                    name: str_of(obj_get(ro, "name"@)),
                    input: obj_get(ro, "input"@),
                    reference: opt_str_of(ro, "ref"@),
                    metadata: env_of(obj_remove(o, "toolRequest"@)),
                },
            )
        } else {
            decode_after_tool_request(o)
        },
        Some(_) => decode_after_tool_request(o),
        None => decode_after_tool_request(o),
    }
}

pub open spec fn decode_after_data(o: Seq<(Seq<char>, JsonV)>) -> Result<PartV, DecodeError> {
    match obj_get(o, "media"@) {
        Some(JsonV::Obj(mo)) => if media_shape(mo) {
            Ok(
                PartV::Media {
                    url: str_of(obj_get(mo, "url"@)),
                    content_type: opt_str_of(mo, "contentType"@),
                    metadata: env_of(obj_remove(o, "media"@)),
                },
            )
        } else {
            decode_after_media(o)
        },
        Some(_) => decode_after_media(o),
        None => decode_after_media(o),
    }
}

pub open spec fn decode_after_text(o: Seq<(Seq<char>, JsonV)>) -> Result<PartV, DecodeError> {
    match obj_get(o, "data"@) {
        Some(d) => Ok(PartV::Data { data: d, metadata: env_of(obj_remove(o, "data"@)) }),
        None => decode_after_data(o),
    }
}

/// The content part denoted by a wire value, or why it is rejected:
/// the ordered shape matcher of the content model.
pub open spec fn spec_decode_part(v: JsonV) -> Result<PartV, DecodeError> {
    match v {
        JsonV::Obj(o) => match obj_get(o, "text"@) {
            Some(JsonV::Str(s)) => Ok(
                PartV::Text { text: s, metadata: env_of(obj_remove(o, "text"@)) },
            ),
            Some(_) => decode_after_text(o),
            None => decode_after_text(o),
        },
        _ => Err(DecodeError::NoVariantMatched),
    }
}

/// Well-formedness of an optional envelope: if present it is nonempty
/// (an empty envelope is written as an absent one) and its keys are
/// pairwise distinct.
pub open spec fn env_wf(m: Option<Seq<(Seq<char>, JsonV)>>) -> bool {
    match m {
        None => true,
        Some(e) => e.len() > 0 && keys_unique(e),
    }
}

/// Validity of a content part for the wire codec: the envelope is
/// well-formed and does not use the shape key of its own variant, nor
/// one of an earlier variant in the matching order, which would change
/// how the encoded payload decodes.
pub open spec fn part_wf(p: PartV) -> bool {
    match p {
        PartV::Text { metadata, .. } => env_wf(metadata) && !env_has(metadata, "text"@),
        PartV::Data { metadata, .. } => env_wf(metadata) && !env_has(metadata, "text"@) && !env_has(
            metadata,
            "data"@,
        ),
        PartV::Media { metadata, .. } => env_wf(metadata) && !env_has(metadata, "text"@)
            && !env_has(metadata, "data"@) && !env_has(metadata, "media"@),
        PartV::ToolRequest { metadata, .. } => env_wf(metadata) && !env_has(metadata, "text"@)
            && !env_has(metadata, "data"@) && !env_has(metadata, "media"@) && !env_has(
            metadata,
            "toolRequest"@,
        ),
        PartV::ToolResponse { metadata, .. } => env_wf(metadata) && !env_has(metadata, "text"@)
            && !env_has(metadata, "data"@) && !env_has(metadata, "media"@) && !env_has(
            metadata,
            "toolRequest"@,
        ) && !env_has(metadata, "toolResponse"@),
        PartV::Pending { metadata } => keys_unique(metadata) && !obj_has_key(
            metadata,
            "pending"@,
        ),
    }
}

pub(crate) proof fn lemma_head_absent(head: (Seq<char>, JsonV), env: Seq<(Seq<char>, JsonV)>, k: Seq<char>)
    requires
        head.0 != k,
        !obj_has_key(env, k),
    ensures
        obj_get(seq![head] + env, k) == None::<JsonV>,
        !obj_has_key(seq![head] + env, k),
{
    let o = seq![head] + env;
    assert forall|j: int| 0 <= j < o.len() implies (#[trigger] o[j]).0 != k by {
        if j > 0 {
            assert(o[j] == env[j - 1]);
            if env[j - 1].0 == k {
                assert(obj_has_key(env, k));
            }
        }
    }
    lemma_obj_get_none(o, k);
}

pub(crate) proof fn lemma_head_found(head: (Seq<char>, JsonV), env: Seq<(Seq<char>, JsonV)>, k: Seq<char>)
    requires
        head.0 == k,
        !obj_has_key(env, k),
    ensures
        obj_get(seq![head] + env, k) == Some(head.1),
        obj_remove(seq![head] + env, k) == env,
{
    let o = seq![head] + env;
    assert forall|j: int| 1 <= j < o.len() implies (#[trigger] o[j]).0 != k by {
        assert(o[j] == env[j - 1]);
        if env[j - 1].0 == k {
            assert(obj_has_key(env, k));
        }
    }
    lemma_obj_get_index(o, k, 0);
    lemma_obj_remove_head(o, k);
    assert(o.drop_first() =~= env);
}

proof fn lemma_inner_keys()
    ensures
        "name"@ != "input"@,
        "name"@ != "output"@,
        "name"@ != "ref"@,
        "input"@ != "ref"@,
        "output"@ != "ref"@,
        "url"@ != "contentType"@,
{
    reveal_strlit("name");
    reveal_strlit("input");
    reveal_strlit("output");
    reveal_strlit("ref");
    reveal_strlit("url");
    reveal_strlit("contentType");
    assert("name"@.len() == 4);
    assert("input"@.len() == 5);
    assert("output"@.len() == 6);
    assert("ref"@.len() == 3);
    assert("url"@.len() == 3);
    assert("contentType"@.len() == 11);
}

proof fn lemma_tool_call_entries(
    name: Seq<char>,
    vk: Seq<char>,
    v: Option<JsonV>,
    r: Option<Seq<char>>,
)
    requires
        vk == "input"@ || vk == "output"@,
    ensures
        tool_call_shape(tool_call_entries(name, vk, v, r), vk),
        obj_get(tool_call_entries(name, vk, v, r), "name"@) == Some(JsonV::Str(name)),
        obj_get(tool_call_entries(name, vk, v, r), vk) == v,
        opt_str_of(tool_call_entries(name, vk, v, r), "ref"@) == r,
{
    lemma_inner_keys();
    let tce = tool_call_entries(name, vk, v, r);
    let ne = ("name"@, JsonV::Str(name));
    reveal_with_fuel(obj_get, 5);
    match (v, r) {
        (None, None) => {
            assert(tce =~= seq![ne]);
            lemma_obj_get_none(tce, vk);
            lemma_obj_get_none(tce, "ref"@);
        },
        (Some(x), None) => {
            assert(tce =~= seq![ne, (vk, x)]);
            assert(tce.drop_first() =~= seq![(vk, x)]);
            lemma_obj_get_none(tce, "ref"@);
        },
        (None, Some(s)) => {
            assert(tce =~= seq![ne, ("ref"@, JsonV::Str(s))]);
            assert(tce.drop_first() =~= seq![("ref"@, JsonV::Str(s))]);
            lemma_obj_get_none(tce, vk);
            assert(obj_has_key(tce, "ref"@)) by {
                assert(tce[1].0 == "ref"@);
            }
        },
        (Some(x), Some(s)) => {
            assert(tce =~= seq![ne, (vk, x), ("ref"@, JsonV::Str(s))]);
            assert(tce.drop_first() =~= seq![(vk, x), ("ref"@, JsonV::Str(s))]);
            assert(tce.drop_first().drop_first() =~= seq![("ref"@, JsonV::Str(s))]);
            assert(obj_has_key(tce, "ref"@)) by {
                assert(tce[2].0 == "ref"@);
            }
        },
    }
}

proof fn lemma_media_entries(url: Seq<char>, ct: Option<Seq<char>>)
    ensures
        media_shape(media_entries(url, ct)),
        obj_get(media_entries(url, ct), "url"@) == Some(JsonV::Str(url)),
        opt_str_of(media_entries(url, ct), "contentType"@) == ct,
{
    lemma_inner_keys();
    let me = media_entries(url, ct);
    let ue = ("url"@, JsonV::Str(url));
    reveal_with_fuel(obj_get, 4);
    match ct {
        None => {
            assert(me =~= seq![ue]);
            lemma_obj_get_none(me, "contentType"@);
        },
        Some(s) => {
            assert(me =~= seq![ue, ("contentType"@, JsonV::Str(s))]);
            assert(me.drop_first() =~= seq![("contentType"@, JsonV::Str(s))]);
            assert(obj_has_key(me, "contentType"@)) by {
                assert(me[1].0 == "contentType"@);
            }
        },
    }
}

proof fn lemma_outer_keys()
    ensures
        "text"@ != "data"@,
        "text"@ != "media"@,
        "text"@ != "toolRequest"@,
        "text"@ != "toolResponse"@,
        "text"@ != "metadata"@,
        "data"@ != "media"@,
        "data"@ != "toolRequest"@,
        "data"@ != "toolResponse"@,
        "data"@ != "metadata"@,
        "media"@ != "toolRequest"@,
        "media"@ != "toolResponse"@,
        "media"@ != "metadata"@,
        "toolRequest"@ != "toolResponse"@,
        "toolRequest"@ != "metadata"@,
        "toolResponse"@ != "metadata"@,
{
    reveal_strlit("text");
    reveal_strlit("data");
    reveal_strlit("media");
    reveal_strlit("toolRequest");
    reveal_strlit("toolResponse");
    reveal_strlit("metadata");
    assert("text"@[0] == 't' && "data"@[0] == 'd');
    assert("text"@.len() == 4);
    assert("data"@.len() == 4);
    assert("media"@.len() == 5);
    assert("toolRequest"@.len() == 11);
    assert("toolResponse"@.len() == 12);
    assert("metadata"@.len() == 8);
}

/// The round-trip law of the content codec: decoding an encoded
/// well-formed part gives the part back, envelope and all.
pub proof fn lemma_part_round_trip(p: PartV)
    requires
        part_wf(p),
    ensures
        spec_decode_part(spec_encode_part(p)) == Ok::<PartV, DecodeError>(p),
{
    lemma_outer_keys();
    match p {
        PartV::Text { text, metadata } => {
            let head = ("text"@, JsonV::Str(text));
            let env = env_entries(metadata);
            lemma_head_found(head, env, "text"@);
        },
        PartV::Data { data, metadata } => {
            let head = ("data"@, data);
            let env = env_entries(metadata);
            lemma_head_absent(head, env, "text"@);
            lemma_head_found(head, env, "data"@);
        },
        PartV::Media { url, content_type, metadata } => {
            let head = ("media"@, JsonV::Obj(media_entries(url, content_type)));
            let env = env_entries(metadata);
            lemma_head_absent(head, env, "text"@);
            lemma_head_absent(head, env, "data"@);
            lemma_head_found(head, env, "media"@);
            lemma_media_entries(url, content_type);
        },
        PartV::ToolRequest { name, input, reference, metadata } => {
            let head = (
                "toolRequest"@,
                JsonV::Obj(tool_call_entries(name, "input"@, input, reference)),
            );
            let env = env_entries(metadata);
            lemma_head_absent(head, env, "text"@);
            lemma_head_absent(head, env, "data"@);
            lemma_head_absent(head, env, "media"@);
            lemma_head_found(head, env, "toolRequest"@);
            lemma_tool_call_entries(name, "input"@, input, reference);
        },
        PartV::ToolResponse { name, output, reference, metadata } => {
            let head = (
                "toolResponse"@,
                JsonV::Obj(tool_call_entries(name, "output"@, output, reference)),
            );
            let env = env_entries(metadata);
            lemma_head_absent(head, env, "text"@);
            lemma_head_absent(head, env, "data"@);
            lemma_head_absent(head, env, "media"@);
            lemma_head_absent(head, env, "toolRequest"@);
            lemma_head_found(head, env, "toolResponse"@);
            lemma_tool_call_entries(name, "output"@, output, reference);
        },
        PartV::Pending { metadata } => {
            reveal_strlit("pending");
            let inner = seq![("pending"@, JsonV::Bool(true))] + metadata;
            let head = ("metadata"@, JsonV::Obj(inner));
            let o = seq![head] + Seq::<(Seq<char>, JsonV)>::empty();
            assert(o =~= seq![head]);
            lemma_head_absent(head, Seq::empty(), "text"@);
            lemma_head_absent(head, Seq::empty(), "data"@);
            lemma_head_absent(head, Seq::empty(), "media"@);
            lemma_head_absent(head, Seq::empty(), "toolRequest"@);
            lemma_head_absent(head, Seq::empty(), "toolResponse"@);
            assert(spec_encode_part(p) == JsonV::Obj(o));
            lemma_head_found(("pending"@, JsonV::Bool(true)), metadata, "pending"@);
            assert(o.len() == 1 && o[0].0 == "metadata"@);
        },
    }
}

#[verifier::loop_isolation(false)]
fn push_entries(out: &mut JsonObject, src: &JsonObject)
    ensures
        obj_view(final(out)@) == obj_view(old(out)@) + obj_view(src@),
{
    proof {
        lemma_obj_view(src@);
    }
    let mut i: usize = 0;
    proof {
        assert(obj_view(out@) =~= obj_view(out@) + obj_view(src@).subrange(0, 0));
    }
    while i < src.len()
        invariant
            i <= src.len(),
            obj_view(out@) == obj_view(old(out)@) + obj_view(src@).subrange(0, i as int),
        decreases src.len() - i,
    {
        let entry = &src[i];
        let key = entry.0.clone();
        let val = json_clone(&entry.1);
        proof {
            lemma_obj_view_push(out@, (key, val));
            assert(obj_view(src@).subrange(0, i as int + 1) =~= obj_view(src@).subrange(
                0,
                i as int,
            ).push(obj_view(src@)[i as int]));
        }
        out.push((key, val));
        i = i + 1;
    }
    proof {
        assert(obj_view(src@).subrange(0, src@.len() as int) =~= obj_view(src@));
    }
}

pub(crate) fn push_env(out: &mut JsonObject, m: &Option<JsonObject>)
    ensures
        obj_view(final(out)@) == obj_view(old(out)@) + env_entries(env_view(*m)),
{
    match m {
        None => {
            proof {
                assert(obj_view(out@) =~= obj_view(out@) + env_entries(env_view(*m)));
            }
        },
        Some(src) => {
            push_entries(out, src);
        },
    }
}

fn entry(key: &str, val: JsonValue) -> (r: (String, JsonValue))
    ensures
        r.0@ == key@,
        r.1@ == val@,
{
    (key.to_owned(), val)
}

fn singleton(key: &str, val: JsonValue) -> (r: JsonObject)
    ensures
        obj_view(r@) == seq![(key@, val@)],
{
    let mut out: JsonObject = Vec::new();
    let e = entry(key, val);
    proof {
        lemma_obj_view_push(out@, e);
    }
    out.push(e);
    proof {
        assert(obj_view(out@) =~= seq![(key@, val@)]);
    }
    out
}

pub(crate) fn push_opt_str(out: &mut JsonObject, key: &str, v: &Option<String>)
    ensures
        obj_view(final(out)@) == obj_view(old(out)@) + opt_str_entry(key@, opt_str_view(*v)),
{
    match v {
        None => {
            proof {
                assert(obj_view(out@) =~= obj_view(out@) + opt_str_entry(
                    key@,
                    opt_str_view(*v),
                ));
            }
        },
        Some(s) => {
            let e = entry(key, JsonValue::Str(s.clone()));
            proof {
                lemma_obj_view_push(out@, e);
            }
            out.push(e);
            proof {
                assert(obj_view(out@) =~= obj_view(old(out)@) + opt_str_entry(
                    key@,
                    opt_str_view(*v),
                ));
            }
        },
    }
}

pub(crate) fn push_opt_value(out: &mut JsonObject, key: &str, v: &Option<JsonValue>)
    ensures
        obj_view(final(out)@) == obj_view(old(out)@) + opt_value_entry(key@, opt_json_view(*v)),
{
    match v {
        None => {
            proof {
                assert(obj_view(out@) =~= obj_view(out@) + opt_value_entry(
                    key@,
                    opt_json_view(*v),
                ));
            }
        },
        Some(x) => {
            let e = entry(key, json_clone(x));
            proof {
                lemma_obj_view_push(out@, e);
            }
            out.push(e);
            proof {
                assert(obj_view(out@) =~= obj_view(old(out)@) + opt_value_entry(
                    key@,
                    opt_json_view(*v),
                ));
            }
        },
    }
}

fn encode_media_content(m: &MediaContent) -> (r: JsonObject)
    ensures
        obj_view(r@) == media_entries(m.url@, opt_str_view(m.content_type)),
{
    let mut out = singleton("url", JsonValue::Str(m.url.clone()));
    push_opt_str(&mut out, "contentType", &m.content_type);
    proof {
        assert(obj_view(out@) =~= media_entries(m.url@, opt_str_view(m.content_type)));
    }
    out
}

fn encode_tool_call(
    name: &String,
    vk: &str,
    v: &Option<JsonValue>,
    reference: &Option<String>,
) -> (r: JsonObject)
    ensures
        obj_view(r@) == tool_call_entries(name@, vk@, opt_json_view(*v), opt_str_view(*reference)),
{
    let mut out = singleton("name", JsonValue::Str(name.clone()));
    push_opt_value(&mut out, vk, v);
    push_opt_str(&mut out, "ref", reference);
    proof {
        assert(obj_view(out@) =~= tool_call_entries(
            name@,
            vk@,
            opt_json_view(*v),
            opt_str_view(*reference),
        ));
    }
    out
}

/// The wire value of a content part: the variant's required field first,
/// then the envelope entries as siblings.
pub fn encode_part(p: &Part) -> (r: JsonValue)
    ensures
        r@ == spec_encode_part(p@),
{
    match p {
        Part::Text(t) => {
            let mut out = singleton("text", JsonValue::Str(t.text.clone()));
            push_env(&mut out, &t.metadata);
            proof {
                assert(obj_view(out@) =~= seq![("text"@, JsonV::Str(t.text@))] + env_entries(
                    env_view(t.metadata),
                ));
            }
            JsonValue::Obj(out)
        },
        Part::Data(d) => {
            let mut out = singleton("data", json_clone(&d.data));
            push_env(&mut out, &d.metadata);
            proof {
                assert(obj_view(out@) =~= seq![("data"@, d.data@)] + env_entries(
                    env_view(d.metadata),
                ));
            }
            JsonValue::Obj(out)
        },
        Part::Media(m) => {
            let inner = encode_media_content(&m.media);
            let mut out = singleton("media", JsonValue::Obj(inner));
            push_env(&mut out, &m.metadata);
            proof {
                assert(obj_view(out@) =~= seq![
                    (
                        "media"@,
                        JsonV::Obj(media_entries(m.media.url@, opt_str_view(m.media.content_type))),
                    ),
                ] + env_entries(env_view(m.metadata)));
            }
            JsonValue::Obj(out)
        },
        Part::ToolRequest(t) => {
            let inner = encode_tool_call(
                &t.tool_request.name,
                "input",
                &t.tool_request.input,
                &t.tool_request.reference,
            );
            let mut out = singleton("toolRequest", JsonValue::Obj(inner));
            push_env(&mut out, &t.metadata);
            proof {
                assert(obj_view(out@) =~= seq![
                    (
                        "toolRequest"@,
                        JsonV::Obj(
                            tool_call_entries(
                                t.tool_request.name@,
                                "input"@,
                                opt_json_view(t.tool_request.input),
                                opt_str_view(t.tool_request.reference),
                            ),
                        ),
                    ),
                ] + env_entries(env_view(t.metadata)));
            }
            JsonValue::Obj(out)
        },
        Part::ToolResponse(t) => {
            let inner = encode_tool_call(
                &t.tool_response.name,
                "output",
                &t.tool_response.output,
                &t.tool_response.reference,
            );
            let mut out = singleton("toolResponse", JsonValue::Obj(inner));
            push_env(&mut out, &t.metadata);
            proof {
                assert(obj_view(out@) =~= seq![
                    (
                        "toolResponse"@,
                        JsonV::Obj(
                            tool_call_entries(
                                t.tool_response.name@,
                                "output"@,
                                opt_json_view(t.tool_response.output),
                                opt_str_view(t.tool_response.reference),
                            ),
                        ),
                    ),
                ] + env_entries(env_view(t.metadata)));
            }
            JsonValue::Obj(out)
        },
        Part::Pending(pp) => {
            let mut inner = singleton("pending", JsonValue::Bool(true));
            push_entries(&mut inner, &pp.metadata);
            proof {
                assert(obj_view(inner@) =~= seq![("pending"@, JsonV::Bool(true))] + obj_view(
                    pp.metadata@,
                ));
            }
            let out = singleton("metadata", JsonValue::Obj(inner));
            proof {
                assert(obj_view(out@) =~= seq![
                    (
                        "metadata"@,
                        JsonV::Obj(seq![("pending"@, JsonV::Bool(true))] + obj_view(pp.metadata@)),
                    ),
                ]);
            }
            JsonValue::Obj(out)
        },
    }
}

/// The model of a decode result.
pub open spec fn decode_result_view(r: Result<Part, DecodeError>) -> Result<PartV, DecodeError> {
    match r {
        Ok(p) => Ok(p@),
        Err(e) => Err(e),
    }
}

pub(crate) fn env_opt(e: JsonObject) -> (r: Option<JsonObject>)
    ensures
        env_view(r) == env_of(obj_view(e@)),
{
    proof {
        lemma_obj_view(e@);
    }
    if e.len() == 0 {
        None
    } else {
        Some(e)
    }
}

pub(crate) fn get_str_value(o: &JsonObject, k: &str) -> (r: Option<String>)
    ensures
        match r {
            Some(s) => obj_get(obj_view(o@), k@) == Some(JsonV::Str(s@)),
            None => !(obj_get(obj_view(o@), k@) matches Some(JsonV::Str(_))),
        },
{
    proof {
        lemma_obj_view(o@);
    }
    match obj_find(o, k) {
        Some(i) => {
            proof {
                lemma_obj_get_index(obj_view(o@), k@, i as int);
            }
            match &o[i].1 {
                JsonValue::Str(s) => Some(s.clone()),
                _ => None,
            }
        },
        None => {
            proof {
                lemma_obj_get_none(obj_view(o@), k@);
            }
            None
        },
    }
}

fn get_value(o: &JsonObject, k: &str) -> (r: Option<JsonValue>)
    ensures
        opt_json_view(r) == obj_get(obj_view(o@), k@),
{
    proof {
        lemma_obj_view(o@);
    }
    match obj_find(o, k) {
        Some(i) => {
            proof {
                lemma_obj_get_index(obj_view(o@), k@, i as int);
            }
            Some(json_clone(&o[i].1))
        },
        None => {
            proof {
                lemma_obj_get_none(obj_view(o@), k@);
            }
            None
        },
    }
}

fn has_key_exec(o: &JsonObject, k: &str) -> (r: bool)
    ensures
        r == obj_has_key(obj_view(o@), k@),
{
    proof {
        lemma_obj_view(o@);
    }
    match obj_find(o, k) {
        Some(i) => {
            proof {
                lemma_obj_get_index(obj_view(o@), k@, i as int);
            }
            true
        },
        None => {
            proof {
                lemma_obj_get_none(obj_view(o@), k@);
            }
            false
        },
    }
}

#[verifier::loop_isolation(false)]
fn keys_unique_exec(o: &JsonObject) -> (r: bool)
    ensures
        r == keys_unique(obj_view(o@)),
{
    proof {
        lemma_obj_view(o@);
    }
    let ghost ov = obj_view(o@);
    let mut i: usize = 0;
    while i < o.len()
        invariant
            i <= o@.len(),
            forall|x: int, y: int|
                0 <= x < y < ov.len() && x < i ==> (#[trigger] ov[x]).0 != (#[trigger] ov[y]).0,
        decreases o@.len() - i,
    {
        let mut j: usize = i + 1;
        while j < o.len()
            invariant
                i < j <= o@.len(),
                i < o@.len(),
                forall|y: int| i < y < j ==> (#[trigger] ov[y]).0 != ov[i as int].0,
            decreases o@.len() - j,
        {
            if str_eq(o[i].0.as_str(), o[j].0.as_str()) {
                proof {
                    assert(ov[i as int].0 == ov[j as int].0);
                }
                return false;
            }
            j = j + 1;
        }
        i = i + 1;
    }
    true
}

#[verifier::loop_isolation(false)]
fn keys_among(o: &JsonObject, k1: &str, k2: &str, k3: &str) -> (r: bool)
    ensures
        r == (forall|i: int|
            0 <= i < obj_view(o@).len() ==> ((#[trigger] obj_view(o@)[i]).0 == k1@ || obj_view(
                o@,
            )[i].0 == k2@ || obj_view(o@)[i].0 == k3@)),
{
    proof {
        lemma_obj_view(o@);
    }
    let ghost ov = obj_view(o@);
    let mut i: usize = 0;
    while i < o.len()
        invariant
            i <= o@.len(),
            forall|j: int|
                0 <= j < i ==> ((#[trigger] ov[j]).0 == k1@ || ov[j].0 == k2@ || ov[j].0 == k3@),
        decreases o@.len() - i,
    {
        let key = o[i].0.as_str();
        if !str_eq(key, k1) && !str_eq(key, k2) && !str_eq(key, k3) {
            proof {
                assert(!((obj_view(o@)[i as int]).0 == k1@ || obj_view(o@)[i as int].0 == k2@
                    || obj_view(o@)[i as int].0 == k3@));
            }
            return false;
        }
        i = i + 1;
    }
    true
}

fn check_media(mo: &JsonObject) -> (r: bool)
    ensures
        r == media_shape(obj_view(mo@)),
{
    let url_ok = match get_str_value(mo, "url") {
        Some(_) => true,
        None => false,
    };
    let unique = keys_unique_exec(mo);
    let among = keys_among(mo, "url", "contentType", "contentType");
    let ct_ok = if has_key_exec(mo, "contentType") {
        match get_str_value(mo, "contentType") {
            Some(_) => true,
            None => false,
        }
    } else {
        true
    };
    url_ok && unique && among && ct_ok
}

fn check_tool_call(ro: &JsonObject, vk: &str) -> (r: bool)
    ensures
        r == tool_call_shape(obj_view(ro@), vk@),
{
    let name_ok = match get_str_value(ro, "name") {
        Some(_) => true,
        None => false,
    };
    let unique = keys_unique_exec(ro);
    let among = keys_among(ro, "name", vk, "ref");
    let ref_ok = if has_key_exec(ro, "ref") {
        match get_str_value(ro, "ref") {
            Some(_) => true,
            None => false,
        }
    } else {
        true
    };
    name_ok && unique && among && ref_ok
}

fn opt_str_value(o: &JsonObject, k: &str) -> (r: Option<String>)
    requires
        obj_has_key(obj_view(o@), k@) ==> obj_get(obj_view(o@), k@) matches Some(JsonV::Str(_)),
    ensures
        opt_str_view(r) == opt_str_of(obj_view(o@), k@),
{
    if has_key_exec(o, k) {
        match get_str_value(o, k) {
            Some(s) => Some(s),
            None => {
                proof {
                    assert(false);
                }
                None
            },
        }
    } else {
        None
    }
}

/// The content part denoted by a wire value: the ordered shape matcher,
/// trying text, data, media, toolRequest, toolResponse, then pending,
/// and accepting the first structurally compatible shape.
#[verifier::rlimit(100)]
pub fn decode_part(v: &JsonValue) -> (r: Result<Part, DecodeError>)
    ensures
        decode_result_view(r) == spec_decode_part(v@),
{
    let o = match v {
        JsonValue::Obj(o) => o,
        _ => {
            return Err(DecodeError::NoVariantMatched);
        },
    };
    proof {
        lemma_obj_view(o@);
    }
    let ghost ov = obj_view(o@);
    // text
    match obj_find(o, "text") {
        Some(i) => {
            proof {
                lemma_obj_get_index(ov, "text"@, i as int);
            }
            match &o[i].1 {
                JsonValue::Str(s) => {
                    let env = obj_without(o, "text");
                    return Ok(Part::Text(TextPart { text: s.clone(), metadata: env_opt(env) }));
                },
                _ => {},
            }
        },
        None => {
            proof {
                lemma_obj_get_none(ov, "text"@);
            }
        },
    }
    // data
    match obj_find(o, "data") {
        Some(i) => {
            proof {
                lemma_obj_get_index(ov, "data"@, i as int);
            }
            let d = json_clone(&o[i].1);
            let env = obj_without(o, "data");
            return Ok(Part::Data(DataPart { data: d, metadata: env_opt(env) }));
        },
        None => {
            proof {
                lemma_obj_get_none(ov, "data"@);
            }
        },
    }
    // media
    match obj_find(o, "media") {
        Some(i) => {
            proof {
                lemma_obj_get_index(ov, "media"@, i as int);
            }
            match &o[i].1 {
                JsonValue::Obj(mo) => {
                    if check_media(mo) {
                        let url = match get_str_value(mo, "url") {
                            Some(s) => s,
                            None => {
                                proof {
                                    assert(false);
                                }
                                String::new()
                            },
                        };
                        let content_type = opt_str_value(mo, "contentType");
                        let env = obj_without(o, "media");
                        return Ok(
                            Part::Media(
                                MediaPart {
                                    media: MediaContent { url, content_type },
                                    metadata: env_opt(env),
                                },
                            ),
                        );
                    }
                },
                _ => {},
            }
        },
        None => {
            proof {
                lemma_obj_get_none(ov, "media"@);
            }
        },
    }
    // toolRequest
    match obj_find(o, "toolRequest") {
        Some(i) => {
            proof {
                lemma_obj_get_index(ov, "toolRequest"@, i as int);
            }
            match &o[i].1 {
                JsonValue::Obj(ro) => {
                    if check_tool_call(ro, "input") {
                        let name = match get_str_value(ro, "name") {
                            Some(s) => s,
                            None => {
                                proof {
                                    assert(false);
                                }
                                String::new()
                            },
                        };
                        let input = get_value(ro, "input");
                        let reference = opt_str_value(ro, "ref");
                        let env = obj_without(o, "toolRequest");
                        return Ok(
                            Part::ToolRequest(
                                ToolRequestPart {
                                    tool_request: ToolRequest { name, input, reference },
                                    metadata: env_opt(env),
                                },
                            ),
                        );
                    }
                },
                _ => {},
            }
        },
        None => {
            proof {
                lemma_obj_get_none(ov, "toolRequest"@);
            }
        },
    }
    // toolResponse
    match obj_find(o, "toolResponse") {
        Some(i) => {
            proof {
                lemma_obj_get_index(ov, "toolResponse"@, i as int);
            }
            match &o[i].1 {
                JsonValue::Obj(ro) => {
                    if check_tool_call(ro, "output") {
                        let name = match get_str_value(ro, "name") {
                            Some(s) => s,
                            None => {
                                proof {
                                    assert(false);
                                }
                                String::new()
                            },
                        };
                        let output = get_value(ro, "output");
                        let reference = opt_str_value(ro, "ref");
                        let env = obj_without(o, "toolResponse");
                        return Ok(
                            Part::ToolResponse(
                                ToolResponsePart {
                                    tool_response: ToolResponse { name, output, reference },
                                    metadata: env_opt(env),
                                },
                            ),
                        );
                    }
                },
                _ => {},
            }
        },
        None => {
            proof {
                lemma_obj_get_none(ov, "toolResponse"@);
            }
        },
    }
    // pending
    if o.len() == 1 {
        if str_eq(o[0].0.as_str(), "metadata") {
            match &o[0].1 {
                JsonValue::Obj(mo) => {
                    proof {
                        lemma_obj_view(mo@);
                    }
                    match obj_find(mo, "pending") {
                        Some(i) => {
                            proof {
                                lemma_obj_get_index(obj_view(mo@), "pending"@, i as int);
                            }
                            match &mo[i].1 {
                                JsonValue::Bool(b) => {
                                    if *b {
                                        let env = obj_without(mo, "pending");
                                        return Ok(Part::Pending(PendingPart { metadata: env }));
                                    } else {
                                        return Err(DecodeError::InvalidPendingFlag);
                                    }
                                },
                                _ => {
                                    return Err(DecodeError::InvalidPendingFlag);
                                },
                            }
                        },
                        None => {
                            proof {
                                lemma_obj_get_none(obj_view(mo@), "pending"@);
                            }
                            return Err(DecodeError::InvalidPendingFlag);
                        },
                    }
                },
                _ => {
                    return Err(DecodeError::NoVariantMatched);
                },
            }
        }
    }
    Err(DecodeError::NoVariantMatched)
}

} // verus!
