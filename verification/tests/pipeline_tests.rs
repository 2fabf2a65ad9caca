use derive_codegen::builtins::BuiltinRegistry;
use derive_codegen::classify::resolve_representation;
use derive_codegen::convert::{convert_type_roots, should_include};
use derive_codegen::gen1::GenKind;
use derive_codegen::line_index::SourceLineNumberIndex;
use derive_codegen::protocol::{interpret_generator_response, output_summary, RunError};
use derive_codegen::schema::{
    ContainerFormat, Format, Named, RootItem, Spanned, TypeRoot, VariantFormat,
};
use derive_codegen::wire;

fn named<T>(ident: &str, bytes: (usize, usize), value: T) -> Named<T> {
    Named {
        rust_ident: Spanned { value: ident.to_string(), bytes },
        rust_generics: vec![],
        rust_docs: None,
        serde_attrs: vec![],
        serde_flags: vec![],
        codegen_attrs: vec![],
        codegen_flags: vec![],
        value,
    }
}

fn attr_pair(key: &str, value: &str) -> Spanned<(Spanned<String>, Spanned<String>)> {
    Spanned {
        value: (
            Spanned { value: key.to_string(), bytes: (0, 0) },
            Spanned { value: value.to_string(), bytes: (0, 0) },
        ),
        bytes: (0, 0),
    }
}

fn flag(name: &str) -> Spanned<String> {
    Spanned { value: name.to_string(), bytes: (0, 0) }
}

fn type_ref(name: &str) -> Format {
    Format::TypeName { ident: name.to_string(), generics: vec![] }
}

fn root(file: &str, line: u32, inner: Named<RootItem>) -> TypeRoot {
    TypeRoot { file: file.to_string(), line, inner, extras: vec![] }
}

fn no_sources() -> Vec<(String, SourceLineNumberIndex)> {
    vec![]
}

#[test]
fn test_both_keys_resolve_to_tagged_with_content() {
    let attrs = wire::Attrs {
        rust_docs: None,
        rust_generics: vec![],
        serde_attrs: vec![
            (
                "tag".to_string(),
                ("type".to_string(), wire::LocationID("t".to_string())),
            ),
            (
                "content".to_string(),
                ("content".to_string(), wire::LocationID("c".to_string())),
            ),
        ],
        serde_flags: vec![],
        codegen_attrs: vec![],
        codegen_flags: vec![],
    };
    match resolve_representation(&attrs) {
        wire::EnumRepresentation::Tagged { tag, content, .. } => {
            assert_eq!(tag, "type");
            assert_eq!(content.as_deref(), Some("content"));
        }
        other => panic!("expected a tagged representation, found {:?}", other),
    }
}

#[test]
fn test_untagged_flag_wins() {
    let attrs = wire::Attrs {
        rust_docs: None,
        rust_generics: vec![],
        serde_attrs: vec![(
            "tag".to_string(),
            ("type".to_string(), wire::LocationID("t".to_string())),
        )],
        serde_flags: vec![("untagged".to_string(), wire::LocationID("u".to_string()))],
        codegen_attrs: vec![],
        codegen_flags: vec![],
    };
    assert_eq!(resolve_representation(&attrs), wire::EnumRepresentation::Untagged);
}

#[test]
fn test_union_with_tag_and_no_content() {
    // a union declared with an attribute pair tag="kind" and no content key
    let mut inner = named(
        "Choice",
        (5, 11),
        RootItem::Container(ContainerFormat::Enum(vec![
            (0, named("One", (20, 23), VariantFormat::Unit)),
            (
                1,
                named("Two", (30, 33), VariantFormat::NewType(Box::new(type_ref("u8")))),
            ),
        ])),
    );
    inner.serde_attrs.push(attr_pair("tag", "kind"));
    let input = convert_type_roots(&no_sources(), vec![root("src/choice.rs", 9, inner)]);
    assert_eq!(input.declarations.len(), 1);
    let decl = &input.declarations[0];
    assert_eq!(decl.id, "Choice");
    match &decl.container_kind {
        wire::ContainerFormat::Enum { repr, variants } => {
            match repr {
                wire::EnumRepresentation::Tagged { tag, content, .. } => {
                    assert_eq!(tag, "kind");
                    assert!(content.is_none());
                }
                other => panic!("expected a tagged representation, found {:?}", other),
            }
            assert_eq!(variants.len(), 2);
            assert_eq!(variants[0].id, "One");
            assert_eq!(variants[1].id, "Two");
            assert_eq!(
                variants[1].variant_format,
                wire::VariantFormat::NewType(Box::new(Format::U8))
            );
        }
        other => panic!("expected a union, found {:?}", other),
    }
}

#[test]
fn test_record_with_primitive_and_reference_fields() {
    // a record with a primitive numeric field and a field referencing
    // another declared record
    let fields = vec![
        named("count", (40, 45), type_ref("u32")),
        named("other", (50, 55), type_ref("Other")),
    ];
    let inner = named(
        "Pair",
        (10, 14),
        RootItem::Container(ContainerFormat::Struct(fields)),
    );
    let input = convert_type_roots(&no_sources(), vec![root("src/pair.rs", 4, inner)]);
    assert_eq!(input.declarations.len(), 1);
    match &input.declarations[0].container_kind {
        wire::ContainerFormat::Struct { fields } => {
            assert_eq!(fields.len(), 2);
            assert_eq!(fields[0].id, "count");
            assert_eq!(fields[0].format, Format::U32);
            assert_eq!(fields[1].id, "other");
            assert_eq!(
                fields[1].format,
                Format::TypeName { ident: "Other".to_string(), generics: vec![] }
            );
            // the wire name falls back to the field's own identifier
            assert!(!fields[0].id.is_empty());
            assert!(!fields[1].id.is_empty());
        }
        other => panic!("expected a struct, found {:?}", other),
    }
}

#[test]
fn test_outcome_generic_synthesized_once_across_declarations() {
    // two distinct declarations reference the same two-argument outcome
    // shape; the session registry synthesizes exactly one entry for it
    let result_field = || {
        Format::TypeName {
            ident: "Result".to_string(),
            generics: vec![type_ref("u8"), type_ref("String")],
        }
    };
    let first = named(
        "First",
        (0, 5),
        RootItem::Container(ContainerFormat::Struct(vec![named(
            "value",
            (6, 11),
            result_field(),
        )])),
    );
    let second = named(
        "Second",
        (0, 6),
        RootItem::Container(ContainerFormat::Struct(vec![named(
            "value",
            (7, 12),
            result_field(),
        )])),
    );
    let input = convert_type_roots(
        &no_sources(),
        vec![root("src/a.rs", 1, first), root("src/b.rs", 2, second)],
    );
    let synthesized: Vec<_> = input
        .declarations
        .iter()
        .filter(|d| d.id == "Result_OkU8_ErrStr")
        .collect();
    assert_eq!(synthesized.len(), 1);
    // both fields reference the one synthesized name
    let field_formats: Vec<_> = input
        .declarations
        .iter()
        .filter_map(|d| match &d.container_kind {
            wire::ContainerFormat::Struct { fields } => Some(fields[0].format.dup()),
            _ => None,
        })
        .collect();
    assert_eq!(field_formats.len(), 2);
    for f in field_formats {
        assert_eq!(
            f,
            Format::TypeName { ident: "Result_OkU8_ErrStr".to_string(), generics: vec![] }
        );
    }
}

#[test]
fn test_collection_and_wrapper_resolution() {
    let mut reg = BuiltinRegistry::new();
    let vec_u8 = reg.resolve_format(&Format::TypeName {
        ident: "Vec".to_string(),
        generics: vec![type_ref("u8")],
    });
    assert_eq!(vec_u8, Format::SeqOf(Box::new(Format::U8)));
    let boxed = reg.resolve_format(&Format::TypeName {
        ident: "Box".to_string(),
        generics: vec![type_ref("bool")],
    });
    assert_eq!(boxed, Format::Bool);
    let map = reg.resolve_format(&Format::TypeName {
        ident: "BTreeMap".to_string(),
        generics: vec![type_ref("String"), type_ref("u64")],
    });
    assert_eq!(
        map,
        Format::MapOf { key: Box::new(Format::Str), value: Box::new(Format::U64) }
    );
    let set = reg.resolve_format(&Format::TypeName {
        ident: "HashSet".to_string(),
        generics: vec![type_ref("u16")],
    });
    assert_eq!(set, Format::SeqOf(Box::new(Format::U16)));
    let opt = reg.resolve_format(&Format::TypeName {
        ident: "Option".to_string(),
        generics: vec![type_ref("char")],
    });
    assert_eq!(opt, Format::Option(Box::new(Format::Char)));
}

#[test]
fn test_duration_synthesizes_canonical_struct() {
    let inner = named(
        "Timed",
        (0, 5),
        RootItem::Container(ContainerFormat::Struct(vec![named(
            "elapsed",
            (6, 13),
            type_ref("Duration"),
        )])),
    );
    let input = convert_type_roots(&no_sources(), vec![root("src/t.rs", 1, inner)]);
    assert_eq!(input.declarations.len(), 2);
    let d = &input.declarations[1];
    assert_eq!(d.id, "Duration");
    match &d.container_kind {
        wire::ContainerFormat::Struct { fields } => {
            assert_eq!(fields.len(), 2);
            assert_eq!(fields[0].id, "secs");
            assert_eq!(fields[0].format, Format::U64);
            assert_eq!(fields[1].id, "nanos");
            assert_eq!(fields[1].format, Format::U32);
        }
        other => panic!("expected a struct, found {:?}", other),
    }
}

#[test]
fn test_skipped_field_is_dropped() {
    let mut hidden = named("hidden", (0, 6), type_ref("u8"));
    hidden.serde_flags.push(flag("skip"));
    let fields = vec![hidden, named("kept", (10, 14), type_ref("u8"))];
    let inner = named(
        "Partial",
        (20, 27),
        RootItem::Container(ContainerFormat::Struct(fields)),
    );
    let input = convert_type_roots(&no_sources(), vec![root("src/p.rs", 2, inner)]);
    match &input.declarations[0].container_kind {
        wire::ContainerFormat::Struct { fields } => {
            assert_eq!(fields.len(), 1);
            assert_eq!(fields[0].id, "kept");
        }
        other => panic!("expected a struct, found {:?}", other),
    }
}

#[test]
fn test_tuple_degrade_rules() {
    // no visible fields: the unit shape
    let empty = named(
        "Empty",
        (0, 5),
        RootItem::Container(ContainerFormat::TupleStruct(vec![])),
    );
    let input = convert_type_roots(&no_sources(), vec![root("src/e.rs", 1, empty)]);
    assert_eq!(
        input.declarations[0].container_kind,
        wire::ContainerFormat::UnitStruct
    );
    // one visible field under a transparent flag: the newtype shape
    let mut transparent = named(
        "Wrapper",
        (0, 7),
        RootItem::Container(ContainerFormat::TupleStruct(vec![type_ref("u32")])),
    );
    transparent.serde_flags.push(flag("transparent"));
    let input = convert_type_roots(&no_sources(), vec![root("src/w.rs", 1, transparent)]);
    assert_eq!(
        input.declarations[0].container_kind,
        wire::ContainerFormat::NewTypeStruct(Box::new(Format::U32))
    );
}

#[test]
fn test_root_location_uses_explicit_line() {
    let inner = named("Here", (100, 104), RootItem::Container(ContainerFormat::UnitStruct));
    let input = convert_type_roots(&no_sources(), vec![root("src/here.rs", 7, inner)]);
    assert_eq!(input.declarations[0].id_location.0, "L(src/here.rs:7 #B100-B104)");
}

#[test]
fn test_nested_location_uses_indexer() {
    // the nested field identifier resolves through the line-start table,
    // not through the explicit line override
    let text: Vec<u8> = b"line0\nline1\nline2\n".to_vec();
    let index = SourceLineNumberIndex::new(&text);
    let sources = vec![("src/ix.rs".to_string(), index)];
    let fields = vec![named("field", (8, 13), type_ref("u8"))];
    let inner = named(
        "Indexed",
        (0, 7),
        RootItem::Container(ContainerFormat::Struct(fields)),
    );
    let input = convert_type_roots(&sources, vec![root("src/ix.rs", 3, inner)]);
    match &input.declarations[0].container_kind {
        wire::ContainerFormat::Struct { fields } => {
            // byte 8 sits on line 1 (starting at offset 6), column 2
            assert_eq!(fields[0].id_location.0, "L(src/ix.rs:1:2 #B8-B13)");
        }
        other => panic!("expected a struct, found {:?}", other),
    }
    assert_eq!(input.declarations[0].id_location.0, "L(src/ix.rs:3 #B0-B7)");
}

#[test]
fn test_function_declaration_converts() {
    let ff = derive_codegen::schema::FunctionFormat {
        is_async: true,
        self_opt: None,
        params: vec![named("item", (3, 7), type_ref("i32"))],
        ret: Box::new(type_ref("bool")),
    };
    let inner = named("start", (0, 5), RootItem::Function(ff));
    let input = convert_type_roots(&no_sources(), vec![root("src/f.rs", 2, inner)]);
    assert_eq!(input.declarations.len(), 0);
    assert_eq!(input.functions.len(), 1);
    let f = &input.functions[0];
    assert_eq!(f.id, "start");
    assert!(f.function.is_async);
    assert_eq!(f.function.params.len(), 1);
    assert_eq!(f.function.params[0].format, Format::I32);
    assert_eq!(*f.function.return_type, Format::Bool);
}

#[test]
fn test_should_include_rules() {
    let none: Vec<String> = vec![];
    let some = vec!["go".to_string(), "ts".to_string()];
    let declared_none: Vec<String> = vec![];
    let declared_go = vec!["go".to_string()];
    let declared_py = vec!["py".to_string()];
    assert!(should_include(&none, &declared_none));
    assert!(!should_include(&some, &declared_none));
    assert!(should_include(&some, &declared_go));
    assert!(!should_include(&some, &declared_py));
}

#[test]
fn test_process_failure_is_fatal_despite_wellformed_output() {
    // the process printed a perfectly well-formed document, but exited
    // non-zero: the run reports a fatal process failure and surfaces no
    // files
    let wellformed = "{\"errors\":[],\"warnings\":[],\"files\":[{\"path\":\"a\",\"source\":\"b\"}]}";
    let r = interpret_generator_response(false, wellformed.to_string());
    match r {
        Err(RunError::ProcessFailure { stdout }) => assert_eq!(stdout, wellformed),
        other => panic!("expected a process failure, found {:?}", other),
    }
}

#[test]
fn test_unparseable_output_is_protocol_error() {
    let r = interpret_generator_response(true, "garbage".to_string());
    assert!(matches!(r, Err(RunError::ProtocolError { .. })));
}

#[test]
fn test_diagnostics_are_not_fatal() {
    let with_errors = "{\"errors\":[{\"message\":\"warn\",\"labels\":[]}],\"warnings\":[],\"files\":[{\"path\":\"x\",\"source\":\"1234\"}]}";
    let out = interpret_generator_response(true, with_errors.to_string()).unwrap();
    assert_eq!(out.errors.len(), 1);
    let summary = output_summary(&out);
    assert_eq!(summary, vec![("x".to_string(), 4)]);
}

#[test]
fn test_block_rendering() {
    let ts_block = GenKind {
        item_indent: "  ",
        item_suffix: "\n",
        scope_start: "{\n",
        scope_end: "\n}",
    };
    let mut block = ts_block.start();
    block.ad0("str");
    assert_eq!(block.to_string(), "{\nstr\n}");
    block.ad1("deep");
    assert_eq!(block.to_string(), "{\nstr\n  deep\n}");
}
