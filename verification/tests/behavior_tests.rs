use proto_file_parser::{EnumDef, EnumValue, Field, Message, ParserError, Proto, Service};

// The canonical example: exact JSON document, field order and all.
#[test]
fn test_canonical_example_exact_json() {
    let input = "syntax = \"proto3\";\nmessage Test { string name = 1; }";
    let json = Proto::parse(input).unwrap();
    assert_eq!(
        json,
        "{\"syntax\":\"proto3\",\"package\":null,\"imports\":[],\"messages\":[\
         {\"name\":\"Test\",\"fields\":[{\"name\":\"name\",\"type_name\":\"string\",\
         \"tag\":1,\"repeated\":false}],\"nested_messages\":[],\"nested_enums\":[]}],\
         \"enums\":[],\"services\":[]}"
    );
}

// Round-trip structural fidelity on the canonical example: deserializing the
// output reproduces every declared name, type, tag and nesting relationship.
#[test]
fn test_round_trip_canonical_example() {
    let input = "syntax = \"proto3\";\nmessage Test { string name = 1; }";
    let json = Proto::parse(input).unwrap();
    let value: serde_json::Value = serde_json::from_str(&json).unwrap();
    let expected: serde_json::Value = serde_json::from_str(
        r#"{
          "syntax": "proto3",
          "package": null,
          "imports": [],
          "messages": [
            {"name": "Test", "fields": [
              {"name": "name", "type_name": "string", "tag": 1, "repeated": false}
            ], "nested_messages": [], "nested_enums": []}
          ],
          "enums": [],
          "services": []
        }"#,
    )
    .unwrap();
    assert_eq!(value, expected);
}

// An input with no syntax statement defaults to proto3.
#[test]
fn test_default_syntax() {
    let json = Proto::parse("message Test { string name = 1; }").unwrap();
    let value: serde_json::Value = serde_json::from_str(&json).unwrap();
    assert_eq!(value["syntax"], "proto3");
}

// An empty input is a valid file: everything defaulted or empty.
#[test]
fn test_empty_input() {
    let json = Proto::parse("").unwrap();
    let value: serde_json::Value = serde_json::from_str(&json).unwrap();
    assert_eq!(value["syntax"], "proto3");
    assert_eq!(value["package"], serde_json::Value::Null);
    assert!(value["imports"].as_array().unwrap().is_empty());
    assert!(value["messages"].as_array().unwrap().is_empty());
    assert!(value["enums"].as_array().unwrap().is_empty());
    assert!(value["services"].as_array().unwrap().is_empty());
}

// The repeated flag is set exactly by a leading `repeated` token.
#[test]
fn test_repeated_flag_exclusivity() {
    let input = r#"
        syntax = "proto3";
        message M {
            string plain = 1;
            repeated string reps = 2;
            optional string opt = 3;
            required string req = 4;
        }
    "#;
    let json = Proto::parse(input).unwrap();
    let value: serde_json::Value = serde_json::from_str(&json).unwrap();
    let fields = &value["messages"][0]["fields"];
    assert_eq!(fields[0]["repeated"], false);
    assert_eq!(fields[1]["repeated"], true);
    assert_eq!(fields[2]["repeated"], false);
    assert_eq!(fields[3]["repeated"], false);
}

// Three levels of message nesting round-trip with correct chaining.
#[test]
fn test_three_level_nesting() {
    let input = r#"
        syntax = "proto3";
        message Outer {
            string a = 1;
            message Middle {
                string b = 1;
                message Inner {
                    string c = 1;
                }
            }
        }
    "#;
    let json = Proto::parse(input).unwrap();
    let value: serde_json::Value = serde_json::from_str(&json).unwrap();
    let outer = &value["messages"][0];
    assert_eq!(outer["name"], "Outer");
    assert_eq!(outer["fields"][0]["name"], "a");
    let middle = &outer["nested_messages"][0];
    assert_eq!(middle["name"], "Middle");
    assert_eq!(middle["fields"][0]["name"], "b");
    let inner = &middle["nested_messages"][0];
    assert_eq!(inner["name"], "Inner");
    assert_eq!(inner["fields"][0]["name"], "c");
    assert!(inner["nested_messages"].as_array().unwrap().is_empty());
}

// Streaming markers are recognized and stripped from both sides.
#[test]
fn test_stream_markers_stripped() {
    let input = r#"
        syntax = "proto3";
        service S {
            rpc M (stream A) returns (stream B);
        }
    "#;
    let json = Proto::parse(input).unwrap();
    let value: serde_json::Value = serde_json::from_str(&json).unwrap();
    let method = &value["services"][0]["methods"][0];
    assert_eq!(method["input_type"], "A");
    assert_eq!(method["output_type"], "B");
    assert!(!json.contains("stream"));
}

// Inputs differing only in whitespace style and comment placement produce
// byte-identical output.
#[test]
fn test_whitespace_and_comment_invariance() {
    let a = "syntax = \"proto3\";\nmessage Test {\n    string name = 1;\n}\n";
    let b = "/* head */ syntax\t=\t\"proto3\";// trailing\n\r\nmessage /* x */ Test {string name=1;}";
    let ja = Proto::parse(a).unwrap();
    let jb = Proto::parse(b).unwrap();
    assert_eq!(ja, jb);
}

// A missing statement terminator is a syntax error.
#[test]
fn test_missing_semicolon_rejected() {
    let r = Proto::parse("syntax = \"proto3\"\nmessage Test { }");
    assert!(matches!(r, Err(ParserError::SyntaxError(_))));
}

// An unterminated string literal is a syntax error.
#[test]
fn test_unterminated_string_rejected() {
    let r = Proto::parse("syntax = \"proto3;");
    assert!(matches!(r, Err(ParserError::SyntaxError(_))));
}

// An unmatched brace is a syntax error.
#[test]
fn test_unmatched_brace_rejected() {
    let r = Proto::parse("syntax = \"proto3\"; message Test { string name = 1;");
    assert!(matches!(r, Err(ParserError::SyntaxError(_))));
}

// An unterminated block comment is a syntax error.
#[test]
fn test_unterminated_block_comment_rejected() {
    let r = Proto::parse("syntax = \"proto3\"; /* never closed");
    assert!(matches!(r, Err(ParserError::SyntaxError(_))));
}

// A character that starts no token is a syntax error.
#[test]
fn test_stray_character_rejected() {
    let r = Proto::parse("syntax = \"proto3\"; message Test { string name = 1; } %");
    assert!(matches!(r, Err(ParserError::SyntaxError(_))));
}

// Trailing tokens after the last definition are a syntax error, never a
// partially populated document.
#[test]
fn test_trailing_garbage_rejected() {
    let r = Proto::parse("syntax = \"proto3\"; message Test { } returns");
    assert!(matches!(r, Err(ParserError::SyntaxError(_))));
}

// A field tag that overflows a 32-bit signed integer falls back to zero.
#[test]
fn test_tag_overflow_falls_back_to_zero() {
    let input = r#"
        syntax = "proto3";
        message M {
            string huge = 99999999999999999999;
            string max = 2147483647;
            string over = 2147483648;
        }
    "#;
    let json = Proto::parse(input).unwrap();
    let value: serde_json::Value = serde_json::from_str(&json).unwrap();
    let fields = &value["messages"][0]["fields"];
    assert_eq!(fields[0]["tag"], 0);
    assert_eq!(fields[1]["tag"], 2147483647i64);
    assert_eq!(fields[2]["tag"], 0);
}

// An enum number that overflows falls back to zero as well.
#[test]
fn test_enum_number_overflow_falls_back_to_zero() {
    let input = r#"
        syntax = "proto3";
        enum E {
            BIG = 4294967296;
            OK = 7;
        }
    "#;
    let json = Proto::parse(input).unwrap();
    let value: serde_json::Value = serde_json::from_str(&json).unwrap();
    let values = &value["enums"][0]["values"];
    assert_eq!(values[0]["number"], 0);
    assert_eq!(values[1]["number"], 7);
}

// Dotted type references are kept joined, as written.
#[test]
fn test_dotted_type_reference() {
    let input = r#"
        syntax = "proto3";
        message M {
            com.example.Other refed = 1;
        }
    "#;
    let json = Proto::parse(input).unwrap();
    let value: serde_json::Value = serde_json::from_str(&json).unwrap();
    assert_eq!(value["messages"][0]["fields"][0]["type_name"], "com.example.Other");
}

// The serializer emits the canonical document for a hand-built tree.
#[test]
fn test_to_json_on_built_tree() {
    let p = Proto {
        syntax: "proto3".to_string(),
        package: Some("a.b".to_string()),
        imports: vec!["x.proto".to_string()],
        messages: vec![Message {
            name: "M".to_string(),
            fields: vec![Field {
                name: "f".to_string(),
                type_ref: "int32".to_string(),
                tag: 5,
                repeated: true,
            }],
            nested_messages: vec![],
            nested_enums: vec![EnumDef {
                name: "E".to_string(),
                values: vec![EnumValue { name: "V".to_string(), number: 0 }],
            }],
        }],
        enums: vec![],
        services: vec![Service { name: "S".to_string(), methods: vec![] }],
    };
    let json = p.to_json();
    assert_eq!(
        json,
        "{\"syntax\":\"proto3\",\"package\":\"a.b\",\"imports\":[\"x.proto\"],\
         \"messages\":[{\"name\":\"M\",\"fields\":[{\"name\":\"f\",\"type_name\":\"int32\",\
         \"tag\":5,\"repeated\":true}],\"nested_messages\":[],\"nested_enums\":[\
         {\"name\":\"E\",\"values\":[{\"name\":\"V\",\"number\":0}]}]}],\"enums\":[],\
         \"services\":[{\"name\":\"S\",\"methods\":[]}]}"
    );
}

// The grammar-level entry point yields the typed tree directly.
#[test]
fn test_parse_source_tree() {
    let p = proto_file_parser::ProtoParser::parse_source(
        "package demo; message M { int32 n = 3; }",
    )
    .unwrap();
    assert_eq!(p.syntax, "proto3");
    assert_eq!(p.package.as_deref(), Some("demo"));
    assert_eq!(p.messages.len(), 1);
    assert_eq!(p.messages[0].name, "M");
    assert_eq!(p.messages[0].fields[0].name, "n");
    assert_eq!(p.messages[0].fields[0].type_ref, "int32");
    assert_eq!(p.messages[0].fields[0].tag, 3);
    assert!(!p.messages[0].fields[0].repeated);
}

// A `stream` keyword with no following type name is rejected, and an RPC may
// end in an empty body instead of a semicolon.
#[test]
fn test_rpc_terminators_and_bad_stream() {
    let ok = Proto::parse("service S { rpc M (A) returns (B) {} }");
    assert!(ok.is_ok());
    let bad = Proto::parse("service S { rpc M (stream) returns (B); }");
    assert!(matches!(bad, Err(ParserError::SyntaxError(_))));
}

// Empty statements inside a message body are skipped silently.
#[test]
fn test_empty_statements_skipped() {
    let json = Proto::parse("message M { ; string a = 1; ; }").unwrap();
    let value: serde_json::Value = serde_json::from_str(&json).unwrap();
    let fields = value["messages"][0]["fields"].as_array().unwrap();
    assert_eq!(fields.len(), 1);
    assert_eq!(fields[0]["name"], "a");
}

// The declared syntax string is kept as written, whatever version it names.
#[test]
fn test_other_syntax_version() {
    let json = Proto::parse("syntax = \"proto2\"; message M { required string a = 1; }").unwrap();
    let value: serde_json::Value = serde_json::from_str(&json).unwrap();
    assert_eq!(value["syntax"], "proto2");
    assert_eq!(value["messages"][0]["fields"][0]["repeated"], false);
}

// Imports may stand alone; the syntax still defaults.
#[test]
fn test_imports_without_syntax() {
    let json = Proto::parse("import \"a.proto\";\nimport \"b.proto\";").unwrap();
    let value: serde_json::Value = serde_json::from_str(&json).unwrap();
    assert_eq!(value["syntax"], "proto3");
    let imports = value["imports"].as_array().unwrap();
    assert_eq!(imports.len(), 2);
    assert_eq!(imports[0], "a.proto");
    assert_eq!(imports[1], "b.proto");
}
