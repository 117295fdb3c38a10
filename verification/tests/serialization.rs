//! The wire serialization of the content model and the payload types.

use dotprompt::codec::encode_part;
use dotprompt::json::JsonValue;
use dotprompt::part::{Part, PendingPart, TextPart};
use dotprompt::refs::{PromptData, PromptRef};
use dotprompt::store::PromptStoreError;
use dotprompt::text::to_json_string;
use dotprompt::types::{encode_data_argument, encode_tool_definition, DataArgument, ToolDefinition};

#[test]
fn it_works() {
    let result = dotprompt::add(2, 2);
    assert_eq!(result, 4);
}

#[test]
fn test_tool_definition_serialization() {
    let tool_def = ToolDefinition {
        name: "myTool".to_string(),
        description: Some("A test tool".to_string()),
        input_schema: JsonValue::Obj(vec![
            ("type".to_string(), JsonValue::Str("object".to_string())),
            (
                "properties".to_string(),
                JsonValue::Obj(vec![(
                    "query".to_string(),
                    JsonValue::Obj(vec![(
                        "type".to_string(),
                        JsonValue::Str("string".to_string()),
                    )]),
                )]),
            ),
        ]),
        output_schema: None,
    };
    let expected_json = r#"{"name":"myTool","description":"A test tool","inputSchema":{"type":"object","properties":{"query":{"type":"string"}}}}"#;
    assert_eq!(to_json_string(&encode_tool_definition(&tool_def)), expected_json);
}

fn from_serde(v: &serde_json::Value) -> JsonValue {
    match v {
        serde_json::Value::Null => JsonValue::Null,
        serde_json::Value::Bool(b) => JsonValue::Bool(*b),
        serde_json::Value::Number(n) => JsonValue::Int(n.as_i64().unwrap()),
        serde_json::Value::String(s) => JsonValue::Str(s.clone()),
        serde_json::Value::Array(a) => JsonValue::Arr(a.iter().map(from_serde).collect()),
        serde_json::Value::Object(o) => {
            JsonValue::Obj(o.iter().map(|(k, x)| (k.clone(), from_serde(x))).collect())
        }
    }
}

fn parse_wire(text: &str) -> JsonValue {
    let v: serde_json::Value = serde_json::from_str(text).unwrap();
    from_serde(&v)
}

#[test]
fn test_part_enum_text() {
    let part = Part::Text(TextPart {
        text: "Hello, world!".to_string(),
        metadata: None,
    });
    let expected_json = r#"{"text":"Hello, world!"}"#;
    assert_eq!(to_json_string(&encode_part(&part)), expected_json);

    let deserialized: Part = dotprompt::codec::decode_part(&parse_wire(expected_json)).unwrap();
    assert_eq!(deserialized, part);
}

#[test]
fn test_part_enum_pending_with_metadata() {
    let part = Part::Pending(PendingPart {
        metadata: vec![(
            "requestId".to_string(),
            JsonValue::Str("abc-123".to_string()),
        )],
    });
    let expected_json = r#"{"metadata":{"pending":true,"requestId":"abc-123"}}"#;
    let serialized = to_json_string(&encode_part(&part));
    assert!(serialized.contains(r#""pending":true"#));
    assert!(serialized.contains(r#""requestId":"abc-123""#));

    let deserialized: Part = dotprompt::codec::decode_part(&parse_wire(expected_json)).unwrap();
    assert_eq!(deserialized, part);
}

#[test]
fn test_prompt_data_serialization() {
    let prompt_data = PromptData {
        prompt_ref: PromptRef {
            name: "testPrompt".to_string(),
            variant: Some("dev".to_string()),
            version: None,
        },
        source: "prompt source content".to_string(),
    };
    let expected_json = r#"{"name":"testPrompt","variant":"dev","source":"prompt source content"}"#;
    assert_eq!(
        to_json_string(&dotprompt::types::encode_prompt_data(&prompt_data)),
        expected_json
    );
}

#[test]
fn test_data_argument_serialization() {
    let data_arg = DataArgument {
        input: Some(JsonValue::Obj(vec![(
            "param1".to_string(),
            JsonValue::Str("value1".to_string()),
        )])),
        docs: None,
        messages: None,
        context: Some(vec![(
            "state".to_string(),
            JsonValue::Obj(vec![(
                "status".to_string(),
                JsonValue::Str("active".to_string()),
            )]),
        )]),
    };
    let serialized = to_json_string(&encode_data_argument(&data_arg));
    assert!(serialized.contains(r#""input":{"param1":"value1"}"#));
    assert!(serialized.contains(r#""context":{"state":{"status":"active"}}"#));
}

#[test]
fn test_prompt_store_error() {
    let error = PromptStoreError::NotFound {
        name: "my_prompt".to_string(),
    };
    assert_eq!(error.message(), "Prompt or partial 'my_prompt' not found");

    let error_from_io = PromptStoreError::Io {
        message: "disk full".to_string(),
    };
    assert_eq!(error_from_io.message(), "I/O error: disk full");
}

#[test]
fn integer_and_escape_text_forms() {
    let v = JsonValue::Arr(vec![
        JsonValue::Int(-42),
        JsonValue::Int(0),
        JsonValue::Str("a\"b\\c\nd".to_string()),
        JsonValue::Null,
        JsonValue::Bool(false),
    ]);
    assert_eq!(to_json_string(&v), "[-42,0,\"a\\\"b\\\\c\\nd\",null,false]");
}

#[test]
fn prompt_metadata_serialization() {
    let md = dotprompt::types::PromptMetadata {
        metadata: None,
        name: Some("greet".to_string()),
        variant: None,
        version: None,
        description: Some("says hello".to_string()),
        model: Some("example/model-1".to_string()),
        tools: Some(vec!["clock".to_string(), "lookup".to_string()]),
        tool_defs: None,
        config: Some(JsonValue::Obj(vec![(
            "temperature".to_string(),
            JsonValue::Int(1),
        )])),
        input: Some(dotprompt::types::InputConfig {
            default: Some(vec![("name".to_string(), JsonValue::Str("world".to_string()))]),
            schema: None,
        }),
        output: Some(dotprompt::types::OutputConfig {
            format: Some(dotprompt::types::OutputFormat::Predefined(
                dotprompt::types::PredefinedFormat::Json,
            )),
            schema: None,
        }),
        raw: Some(vec![("name".to_string(), JsonValue::Str("greet".to_string()))]),
        ext: None,
    };
    let text = to_json_string(&dotprompt::types::encode_prompt_metadata(&md));
    let expected = r#"{"name":"greet","description":"says hello","model":"example/model-1","tools":["clock","lookup"],"config":{"temperature":1},"input":{"default":{"name":"world"}},"output":{"format":"json"},"raw":{"name":"greet"}}"#;
    assert_eq!(text, expected);

    let parsed = dotprompt::types::ParsedPrompt {
        metadata: md,
        template: "Hello {{name}}".to_string(),
    };
    let text = to_json_string(&dotprompt::types::encode_parsed_prompt(&parsed));
    assert!(text.ends_with(",\"template\":\"Hello {{name}}\"}"));
}

#[test]
fn wire_text_agrees_with_reference_parser() {
    let v = JsonValue::Obj(vec![
        ("k".to_string(), JsonValue::Arr(vec![JsonValue::Int(7)])),
        ("s".to_string(), JsonValue::Str("x y".to_string())),
    ]);
    let text = to_json_string(&v);
    let reparsed = parse_wire(&text);
    assert_eq!(reparsed, v);
}
