//! The polymorphic content model: the six-variant `Part` union with its
//! open metadata envelope, and the well-formedness conditions under which
//! the wire codec is lossless.

use vstd::prelude::*;

use crate::json::{obj_view, JsonObject, JsonV, JsonValue};

verus! {

/// Plain text content.
#[derive(Debug, PartialEq)]
pub struct TextPart {
    pub text: String,
    pub metadata: Option<JsonObject>,
}

/// Arbitrary structured content.
#[derive(Debug, PartialEq)]
pub struct DataPart {
    pub data: JsonValue,
    pub metadata: Option<JsonObject>,
}

/// A media reference: a URL and an optional content type.
#[derive(Debug, PartialEq)]
pub struct MediaContent {
    pub url: String,
    pub content_type: Option<String>,
}

/// Media content.
#[derive(Debug, PartialEq)]
pub struct MediaPart {
    pub media: MediaContent,
    pub metadata: Option<JsonObject>,
}

/// A request to invoke a tool; `reference` correlates the request with a
/// later response.
#[derive(Debug, PartialEq)]
pub struct ToolRequest {
    pub name: String,
    pub input: Option<JsonValue>,
    pub reference: Option<String>,
}

/// Tool-request content.
#[derive(Debug, PartialEq)]
pub struct ToolRequestPart {
    pub tool_request: ToolRequest,
    pub metadata: Option<JsonObject>,
}

/// The outcome of a tool invocation; `reference` matches the originating
/// request's `reference` when correlation is used.
#[derive(Debug, PartialEq)]
pub struct ToolResponse {
    pub name: String,
    pub output: Option<JsonValue>,
    pub reference: Option<String>,
}

/// Tool-response content.
#[derive(Debug, PartialEq)]
pub struct ToolResponsePart {
    pub tool_response: ToolResponse,
    pub metadata: Option<JsonObject>,
}

/// Content that is not available yet. `metadata` holds the envelope
/// entries beside the literal `pending: true` flag of the wire form.
#[derive(Debug, PartialEq)]
pub struct PendingPart {
    pub metadata: JsonObject,
}

/// A content part: the six-variant union tagged by structural shape on
/// the wire, not by an explicit discriminator field.
#[derive(Debug, PartialEq)]
pub enum Part {
    Text(TextPart),
    Data(DataPart),
    Media(MediaPart),
    ToolRequest(ToolRequestPart),
    ToolResponse(ToolResponsePart),
    Pending(PendingPart),
}

/// The mathematical model of a content part.
pub enum PartV {
    Text { text: Seq<char>, metadata: Option<Seq<(Seq<char>, JsonV)>> },
    Data { data: JsonV, metadata: Option<Seq<(Seq<char>, JsonV)>> },
    Media {
        url: Seq<char>,
        content_type: Option<Seq<char>>,
        metadata: Option<Seq<(Seq<char>, JsonV)>>,
    },
    ToolRequest {
        name: Seq<char>,
        input: Option<JsonV>,
        reference: Option<Seq<char>>,
        metadata: Option<Seq<(Seq<char>, JsonV)>>,
    },
    ToolResponse {
        name: Seq<char>,
        output: Option<JsonV>,
        reference: Option<Seq<char>>,
        metadata: Option<Seq<(Seq<char>, JsonV)>>,
    },
    Pending { metadata: Seq<(Seq<char>, JsonV)> },
}

/// The model of an optional string.
pub open spec fn opt_str_view(o: Option<String>) -> Option<Seq<char>> {
    match o {
        None => None,
        Some(s) => Some(s@),
    }
}

/// The model of an optional JSON value.
pub open spec fn opt_json_view(o: Option<JsonValue>) -> Option<JsonV> {
    match o {
        None => None,
        Some(v) => Some(v@),
    }
}

/// The model of an optional metadata envelope.
pub open spec fn env_view(m: Option<JsonObject>) -> Option<Seq<(Seq<char>, JsonV)>> {
    match m {
        None => None,
        Some(o) => Some(obj_view(o@)),
    }
}

impl View for Part {
    type V = PartV;

    open spec fn view(&self) -> PartV {
        match *self {
            Part::Text(t) => PartV::Text { text: t.text@, metadata: env_view(t.metadata) },
            Part::Data(d) => PartV::Data { data: d.data@, metadata: env_view(d.metadata) },
            Part::Media(m) => PartV::Media {
                url: m.media.url@,
                content_type: opt_str_view(m.media.content_type),
                metadata: env_view(m.metadata),
            },
            Part::ToolRequest(t) => PartV::ToolRequest {
                name: t.tool_request.name@,
                input: opt_json_view(t.tool_request.input),
                reference: opt_str_view(t.tool_request.reference),
                metadata: env_view(t.metadata),
            },
            Part::ToolResponse(t) => PartV::ToolResponse {
                name: t.tool_response.name@,
                output: opt_json_view(t.tool_response.output),
                reference: opt_str_view(t.tool_response.reference),
                metadata: env_view(t.metadata),
            },
            Part::Pending(pp) => PartV::Pending { metadata: obj_view(pp.metadata@) },
        }
    }
}

/// Whether a string is a valid absolute URL; the result depends on the
/// characters alone.
pub uninterp spec fn is_valid_url(s: Seq<char>) -> bool;

/// Relies on url::Url::parse: it accepts exactly the well-formed
/// absolute URLs, as a pure function of the input string.
#[verifier::external_body]
fn url_parses(s: &str) -> (r: bool)
    ensures
        r == is_valid_url(s@),
{
    url::Url::parse(s).is_ok()
}

impl MediaContent {
    /// The media reference for `url`, exactly when `url` is a valid
    /// absolute URL.
    pub fn new_checked(url: &str, content_type: Option<String>) -> (r: Option<MediaContent>)
        ensures
            (match r {
                Some(m) => is_valid_url(url@) && m.url@ == url@ && opt_str_view(m.content_type)
                    == opt_str_view(content_type),
                None => !is_valid_url(url@),
            }),
    {
        if url_parses(url) {
            Some(MediaContent { url: url.to_owned(), content_type })
        } else {
            None
        }
    }
}

impl Part {
    /// A text part with no envelope.
    pub fn text(content: &str) -> (r: Part)
        ensures
            r@ == (PartV::Text { text: content@, metadata: None }),
    {
        Part::Text(TextPart { text: content.to_owned(), metadata: None })
    }

    /// A data part with no envelope.
    pub fn data(data: JsonValue) -> (r: Part)
        ensures
            r@ == (PartV::Data { data: data@, metadata: None }),
    {
        Part::Data(DataPart { data, metadata: None })
    }

    /// A media part with no envelope.
    pub fn media(url: &str, content_type: Option<String>) -> (r: Part)
        ensures
            r@ == (PartV::Media {
                url: url@,
                content_type: opt_str_view(content_type),
                metadata: None,
            }),
    {
        Part::Media(
            MediaPart {
                media: MediaContent { url: url.to_owned(), content_type },
                metadata: None,
            },
        )
    }
}

} // verus!
