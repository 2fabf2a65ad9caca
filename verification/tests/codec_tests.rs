use derive_codegen::codec::{decode_input, decode_output, encode_input};
use derive_codegen::json::{parse_json_text, print_json, Json};
use derive_codegen::schema::Format;
use derive_codegen::wire::{
    Attrs, ContainerFormat, EnumRepresentation, Input, InputDeclaration, LocationID, NamedField,
    NamedVariant, VariantFormat,
};

fn empty_attrs() -> Attrs {
    Attrs {
        rust_docs: None,
        rust_generics: vec![],
        serde_attrs: vec![],
        serde_flags: vec![],
        codegen_attrs: vec![],
        codegen_flags: vec![],
    }
}

#[test]
fn test_print_json_scalars() {
    assert_eq!(print_json(&Json::Null), "null");
    assert_eq!(print_json(&Json::Bool(true)), "true");
    assert_eq!(print_json(&Json::Bool(false)), "false");
    assert_eq!(print_json(&Json::Num(0)), "0");
    assert_eq!(print_json(&Json::Num(90_125)), "90125");
    assert_eq!(print_json(&Json::Text("plain".to_string())), "\"plain\"");
}

#[test]
fn test_print_json_escapes() {
    // quotes and backslashes get escaped; control characters become
    // four-digit hexadecimal escapes
    assert_eq!(
        print_json(&Json::Text("a\"b\\c".to_string())),
        "\"a\\\"b\\\\c\""
    );
    assert_eq!(print_json(&Json::Text("x\ny".to_string())), "\"x\\u000ay\"");
}

#[test]
fn test_print_json_containers() {
    let arr = Json::Arr(vec![Json::Num(1), Json::Null, Json::Bool(false)]);
    assert_eq!(print_json(&arr), "[1,null,false]");
    let obj = Json::Obj(vec![
        ("a".to_string(), Json::Num(1)),
        ("b".to_string(), Json::Arr(vec![])),
    ]);
    assert_eq!(print_json(&obj), "{\"a\":1,\"b\":[]}");
}

#[test]
fn test_enum_of_ints() {
    // externally tagged union values on the wire: a unit case is its name,
    // a payload case is a single-pair object
    assert_eq!(print_json(&Json::Text("A1".to_string())), "\"A1\"");
    assert_eq!(print_json(&Json::Text("A2".to_string())), "\"A2\"");
    let c = Json::Obj(vec![("C".to_string(), Json::Num(14))]);
    assert_eq!(print_json(&c), "{\"C\":14}");
}

#[test]
fn test_parse_json_accepts_whitespace_and_escapes() {
    let parsed = parse_json_text("  [ 1 , \"a\\nb\" , {\"k\": null} ]  ").unwrap();
    match parsed {
        Json::Arr(elems) => {
            assert_eq!(elems.len(), 3);
            assert_eq!(elems[0], Json::Num(1));
            assert_eq!(elems[1], Json::Text("a\nb".to_string()));
            assert_eq!(
                elems[2],
                Json::Obj(vec![("k".to_string(), Json::Null)])
            );
        }
        other => panic!("expected an array, found {:?}", other),
    }
}

#[test]
fn test_parse_json_unicode_escapes() {
    assert_eq!(
        parse_json_text("\"\\u0041\"").unwrap(),
        Json::Text("A".to_string())
    );
    // a surrogate pair decodes to one character above the basic plane
    let parsed = parse_json_text("\"\\ud83d\\ude00\"").unwrap();
    assert_eq!(parsed, Json::Text("\u{1F600}".to_string()));
}

#[test]
fn test_parse_json_rejects_malformed_text() {
    assert!(parse_json_text("tru").is_err());
    assert!(parse_json_text("\"unterminated").is_err());
    assert!(parse_json_text("[1,]").is_err());
    assert!(parse_json_text("{\"a\" 1}").is_err());
    assert!(parse_json_text("1 2").is_err());
    assert!(parse_json_text("18446744073709551616").is_err());
}

#[test]
fn test_json_text_round_trip() {
    let doc = Json::Obj(vec![
        ("name".to_string(), Json::Text("quote \" here".to_string())),
        ("values".to_string(), Json::Arr(vec![Json::Num(7), Json::Bool(true)])),
        ("none".to_string(), Json::Null),
    ]);
    let text = print_json(&doc);
    assert_eq!(parse_json_text(&text).unwrap(), doc);
}

#[test]
fn test_input_document_round_trip() {
    // a record and a union, with docs, renames and a tagged representation
    let record = InputDeclaration {
        id: "Basic".to_string(),
        id_location: LocationID("L(src/lib.rs:3 #B10-B15)".to_string()),
        attrs: Attrs {
            rust_docs: Some("Test doc comment\nSecond line".to_string()),
            rust_generics: vec![("T".to_string(), LocationID("L(src/lib.rs:3:4 #B12-B13)".to_string()))],
            serde_attrs: vec![(
                "rename".to_string(),
                ("basically".to_string(), LocationID("L(src/lib.rs:3:1 #B11-B12)".to_string())),
            )],
            serde_flags: vec![],
            codegen_attrs: vec![(
                "tags".to_string(),
                ("docs".to_string(), LocationID("L(src/lib.rs:3:2 #B13-B14)".to_string())),
            )],
            codegen_flags: vec![],
        },
        container_kind: ContainerFormat::Struct {
            fields: vec![NamedField {
                id: "a".to_string(),
                id_location: LocationID("L(src/lib.rs:4:2 #B20-B21)".to_string()),
                attrs: empty_attrs(),
                format: Format::USIZE,
            }],
        },
    };
    let union = InputDeclaration {
        id: "Choice".to_string(),
        id_location: LocationID("L(src/lib.rs:9 #B40-B46)".to_string()),
        attrs: empty_attrs(),
        container_kind: ContainerFormat::Enum {
            repr: EnumRepresentation::Tagged {
                tag: "kind".to_string(),
                tag_location: LocationID("L(src/lib.rs:8:1 #B30-B34)".to_string()),
                content: None,
                content_location: None,
            },
            variants: vec![NamedVariant {
                id: "One".to_string(),
                id_location: LocationID("L(src/lib.rs:10:4 #B50-B53)".to_string()),
                attrs: empty_attrs(),
                variant_format: VariantFormat::NewType(Box::new(Format::Option(Box::new(
                    Format::Str,
                )))),
            }],
        },
    };
    let doc = Input { declarations: vec![record, union], functions: vec![] };
    let text = encode_input(&doc);
    let back = decode_input(&text).unwrap();
    assert_eq!(back, doc);
}

#[test]
fn test_decode_output_tolerates_order_and_unknown_keys() {
    let text = r#" {
        "extra": 7,
        "files": [ {"source": "hello", "path": "out/a.txt", "mode": null} ],
        "warnings": [],
        "errors": [ {"labels": [["here", "L(f:1:0 #B0-B1)"]], "message": "m"} ]
    } "#;
    let out = decode_output(text).unwrap();
    assert_eq!(out.files.len(), 1);
    assert_eq!(out.files[0].path, "out/a.txt");
    assert_eq!(out.files[0].source, "hello");
    assert_eq!(out.warnings.len(), 0);
    assert_eq!(out.errors.len(), 1);
    assert_eq!(out.errors[0].message, "m");
    assert_eq!(out.errors[0].labels.len(), 1);
    assert_eq!(out.errors[0].labels[0].0, "here");
}

#[test]
fn test_decode_output_rejects_missing_fields() {
    assert!(decode_output("{\"errors\": [], \"warnings\": []}").is_err());
    assert!(decode_output("[]").is_err());
    assert!(decode_output("not json at all").is_err());
}
