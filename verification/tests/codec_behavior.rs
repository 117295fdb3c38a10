//! Round trips and rejections of the content-model codec, and the
//! content-hash versioning.

use dotprompt::codec::{decode_part, encode_part, DecodeError};
use dotprompt::json::JsonValue;
use dotprompt::part::{
    DataPart, MediaContent, MediaPart, Part, PendingPart, TextPart, ToolRequest, ToolRequestPart,
    ToolResponse, ToolResponsePart,
};
use dotprompt::version::version_of;

fn envelope() -> Vec<(String, JsonValue)> {
    vec![
        ("note".to_string(), JsonValue::Str("x".to_string())),
        ("count".to_string(), JsonValue::Int(3)),
    ]
}

fn assert_round_trip(p: Part) {
    let wire = encode_part(&p);
    let back = decode_part(&wire).unwrap();
    assert_eq!(back, p);
}

#[test]
fn round_trip_text() {
    assert_round_trip(Part::Text(TextPart {
        text: "hello".to_string(),
        metadata: None,
    }));
    assert_round_trip(Part::Text(TextPart {
        text: "hello".to_string(),
        metadata: Some(envelope()),
    }));
}

#[test]
fn round_trip_data() {
    assert_round_trip(Part::Data(DataPart {
        data: JsonValue::Obj(vec![("k".to_string(), JsonValue::Int(1))]),
        metadata: None,
    }));
    assert_round_trip(Part::Data(DataPart {
        data: JsonValue::Null,
        metadata: Some(envelope()),
    }));
}

#[test]
fn round_trip_media() {
    assert_round_trip(Part::Media(MediaPart {
        media: MediaContent {
            url: "https://example.com/a.png".to_string(),
            content_type: None,
        },
        metadata: None,
    }));
    assert_round_trip(Part::Media(MediaPart {
        media: MediaContent {
            url: "https://example.com/a.png".to_string(),
            content_type: Some("image/png".to_string()),
        },
        metadata: Some(envelope()),
    }));
}

#[test]
fn round_trip_tool_request() {
    assert_round_trip(Part::ToolRequest(ToolRequestPart {
        tool_request: ToolRequest {
            name: "lookup".to_string(),
            input: Some(JsonValue::Obj(vec![(
                "q".to_string(),
                JsonValue::Str("verse".to_string()),
            )])),
            reference: Some("call-1".to_string()),
        },
        metadata: None,
    }));
    assert_round_trip(Part::ToolRequest(ToolRequestPart {
        tool_request: ToolRequest {
            name: "lookup".to_string(),
            input: None,
            reference: None,
        },
        metadata: Some(envelope()),
    }));
}

#[test]
fn round_trip_tool_response() {
    assert_round_trip(Part::ToolResponse(ToolResponsePart {
        tool_response: ToolResponse {
            name: "lookup".to_string(),
            output: Some(JsonValue::Arr(vec![JsonValue::Int(1), JsonValue::Int(2)])),
            reference: Some("call-1".to_string()),
        },
        metadata: Some(envelope()),
    }));
    assert_round_trip(Part::ToolResponse(ToolResponsePart {
        tool_response: ToolResponse {
            name: "lookup".to_string(),
            output: None,
            reference: None,
        },
        metadata: None,
    }));
}

#[test]
fn round_trip_pending() {
    assert_round_trip(Part::Pending(PendingPart { metadata: vec![] }));
    assert_round_trip(Part::Pending(PendingPart {
        metadata: envelope(),
    }));
}

#[test]
fn decode_rejects_unmatched_shapes() {
    assert_eq!(
        decode_part(&JsonValue::Obj(vec![])),
        Err(DecodeError::NoVariantMatched)
    );
    assert_eq!(
        decode_part(&JsonValue::Int(5)),
        Err(DecodeError::NoVariantMatched)
    );
    assert_eq!(
        decode_part(&JsonValue::Obj(vec![(
            "unknown".to_string(),
            JsonValue::Int(1)
        )])),
        Err(DecodeError::NoVariantMatched)
    );
}

#[test]
fn decode_rejects_bad_pending_flags() {
    let not_true = JsonValue::Obj(vec![(
        "metadata".to_string(),
        JsonValue::Obj(vec![("pending".to_string(), JsonValue::Bool(false))]),
    )]);
    assert_eq!(decode_part(&not_true), Err(DecodeError::InvalidPendingFlag));

    let stringy = JsonValue::Obj(vec![(
        "metadata".to_string(),
        JsonValue::Obj(vec![(
            "pending".to_string(),
            JsonValue::Str("true".to_string()),
        )]),
    )]);
    assert_eq!(decode_part(&stringy), Err(DecodeError::InvalidPendingFlag));

    let absent = JsonValue::Obj(vec![(
        "metadata".to_string(),
        JsonValue::Obj(vec![("note".to_string(), JsonValue::Int(1))]),
    )]);
    assert_eq!(decode_part(&absent), Err(DecodeError::InvalidPendingFlag));
}

#[test]
fn decode_takes_first_matching_shape() {
    // Both the text and data shapes match; the fixed order picks text.
    let both = JsonValue::Obj(vec![
        ("data".to_string(), JsonValue::Int(1)),
        ("text".to_string(), JsonValue::Str("hi".to_string())),
    ]);
    let p = decode_part(&both).unwrap();
    match p {
        Part::Text(t) => {
            assert_eq!(t.text, "hi");
            let md = t.metadata.unwrap();
            assert_eq!(md.len(), 1);
            assert_eq!(md[0].0, "data");
        }
        _ => panic!("expected the text shape to win"),
    }
}

#[test]
fn version_matches_reference_digests() {
    assert_eq!(
        version_of(""),
        "e3b0c44298fc1c149afbf4c8996fb92427ae41e4649b934ca495991b7852b855"
    );
    assert_eq!(
        version_of("abc"),
        "ba7816bf8f01cfea414140de5dae2223b00361a396177a9cb410ff61f20015ad"
    );
}

#[test]
fn version_is_deterministic() {
    let a = version_of("Hello {{name}}");
    let b = version_of("Hello {{name}}");
    assert_eq!(a, b);
}

#[test]
fn version_separates_near_identical_sources() {
    let corpus = [
        "prompt", "prompt ", " prompt", "Prompt", "prompt!", "prompt.", "prxmpt", "prompts",
        "promp", "",
    ];
    let versions: Vec<String> = corpus.iter().map(|s| version_of(s)).collect();
    for i in 0..versions.len() {
        assert_eq!(versions[i].len(), 64);
        for j in 0..versions.len() {
            if i != j {
                assert_ne!(versions[i], versions[j]);
            }
        }
    }
}

#[test]
fn round_trip_message_and_document() {
    let msg = dotprompt::types::Message {
        role: dotprompt::types::Role::User,
        content: vec![
            Part::Text(TextPart {
                text: "first".to_string(),
                metadata: None,
            }),
            Part::Text(TextPart {
                text: "second".to_string(),
                metadata: Some(envelope()),
            }),
            Part::Data(DataPart {
                data: JsonValue::Int(7),
                metadata: None,
            }),
        ],
        metadata: Some(envelope()),
    };
    let wire = dotprompt::types::encode_message(&msg);
    let back = dotprompt::types::decode_message(&wire).unwrap();
    assert_eq!(back, msg);

    let doc = dotprompt::types::Document {
        content: vec![Part::Text(TextPart {
            text: "ctx".to_string(),
            metadata: None,
        })],
        metadata: None,
    };
    let wire = dotprompt::types::encode_document(&doc);
    let back = dotprompt::types::decode_document(&wire).unwrap();
    assert_eq!(back, doc);
}

#[test]
fn message_decode_rejects_bad_shapes() {
    // No role.
    let no_role = JsonValue::Obj(vec![("content".to_string(), JsonValue::Arr(vec![]))]);
    assert_eq!(
        dotprompt::types::decode_message(&no_role),
        Err(DecodeError::SchemaViolation)
    );
    // A role outside the wire vocabulary.
    let bad_role = JsonValue::Obj(vec![
        ("role".to_string(), JsonValue::Str("robot".to_string())),
        ("content".to_string(), JsonValue::Arr(vec![])),
    ]);
    assert_eq!(
        dotprompt::types::decode_message(&bad_role),
        Err(DecodeError::SchemaViolation)
    );
    // A part that matches no shape inside the content array.
    let bad_part = JsonValue::Obj(vec![
        ("role".to_string(), JsonValue::Str("user".to_string())),
        (
            "content".to_string(),
            JsonValue::Arr(vec![JsonValue::Obj(vec![])]),
        ),
    ]);
    assert_eq!(
        dotprompt::types::decode_message(&bad_part),
        Err(DecodeError::NoVariantMatched)
    );
}

#[test]
fn media_urls_are_checked() {
    let good = MediaContent::new_checked("https://example.com/a.png", Some("image/png".to_string()));
    match good {
        Some(m) => {
            assert_eq!(m.url, "https://example.com/a.png");
            assert_eq!(m.content_type, Some("image/png".to_string()));
        }
        None => panic!("a well-formed URL was rejected"),
    }
    assert!(MediaContent::new_checked("not a url", None).is_none());
}
