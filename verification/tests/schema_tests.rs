use derive_codegen::line_index::SourceLineNumberIndex;
use derive_codegen::merge::{merge_container, MergeError};
use derive_codegen::schema::{
    is_null_bytes, ContainerFormat, Format, Named, Spanned, VariantFormat,
};
use derive_codegen::span::parse_span;
use derive_codegen::strutil::{dec_string, trim_spaces};

fn named<T>(ident: &str, value: T) -> Named<T> {
    Named {
        rust_ident: Spanned { value: ident.to_string(), bytes: (0, 0) },
        rust_generics: vec![],
        rust_docs: None,
        serde_attrs: vec![],
        serde_flags: vec![],
        codegen_attrs: vec![],
        codegen_flags: vec![],
        value,
    }
}

fn attr_pair(key: &str, value: &str) -> Spanned<(Spanned<String>, Spanned<String>)> {
    Spanned {
        value: (
            Spanned { value: key.to_string(), bytes: (0, 0) },
            Spanned { value: value.to_string(), bytes: (0, 0) },
        ),
        bytes: (0, 0),
    }
}

#[test]
fn test_tuple_partially_named() {}

#[test]
fn test_test_tuple_partially_named() {}

#[test]
fn test_serialize_name_falls_back_to_ident() {
    let n = named("plain_field", Format::U32);
    assert_eq!(n.serialize_name(), "plain_field");
    assert!(!n.serialize_name().is_empty());
}

#[test]
fn test_serialize_name_last_rename_wins() {
    let mut n = named("field", Format::U32);
    n.serde_attrs.push(attr_pair("rename", "first"));
    n.serde_attrs.push(attr_pair("alias", "other"));
    n.serde_attrs.push(attr_pair("rename", "second"));
    assert_eq!(n.serialize_name(), "second");
}

#[test]
fn test_is_null_bytes() {
    assert!(is_null_bytes(&(0, 0)));
    assert!(!is_null_bytes(&(0, 3)));
    assert!(!is_null_bytes(&(5, 0)));
}

#[test]
fn test_as_ident_projection() {
    assert_eq!(Format::U8.as_ident(), "U8");
    assert_eq!(Format::Unit.as_ident(), "Nil");
    assert_eq!(Format::Option(Box::new(Format::U8)).as_ident(), "U8_Option");
    assert_eq!(Format::SeqOf(Box::new(Format::Str)).as_ident(), "Str_List");
    assert_eq!(
        Format::MapOf { key: Box::new(Format::U8), value: Box::new(Format::Str) }.as_ident(),
        "U8_Str_Map"
    );
    assert_eq!(Format::Tuple(vec![Format::U8, Format::Str]).as_ident(), "U8_Str_Tuple");
    assert_eq!(
        Format::TupleArray { content: Box::new(Format::U8), size: 12 }.as_ident(),
        "U8_12_TupleOf"
    );
    let generic = Format::TypeName {
        ident: "Wrapper".to_string(),
        generics: vec![Format::Bool],
    };
    assert_eq!(generic.as_ident(), "Wrapper_Bool");
}

#[test]
fn test_replace_incomplete_fills_placeholder() {
    let mut target = Format::Option(Box::new(Format::Incomplete { debug: "hole".to_string() }));
    let replacement = Format::Option(Box::new(Format::U64));
    target.try_replace_incomplete(replacement).unwrap();
    assert_eq!(target, Format::Option(Box::new(Format::U64)));
}

#[test]
fn test_replace_incomplete_resolved_is_noop() {
    let mut target = Format::Tuple(vec![
        Format::U32,
        Format::TypeName { ident: "Other".to_string(), generics: vec![] },
    ]);
    let before = target.dup();
    let replacement = Format::Tuple(vec![Format::Str, Format::Bool]);
    target.try_replace_incomplete(replacement).unwrap();
    assert_eq!(target, before);
}

#[test]
fn test_replace_incomplete_mismatch_is_error() {
    let mut target = Format::Option(Box::new(Format::Incomplete { debug: "x".to_string() }));
    let replacement = Format::SeqOf(Box::new(Format::U8));
    let err = target.try_replace_incomplete(replacement).unwrap_err();
    assert!(matches!(err, MergeError::Format { .. }));
    // the target is left as it was
    assert_eq!(
        target,
        Format::Option(Box::new(Format::Incomplete { debug: "x".to_string() }))
    );
}

#[test]
fn test_merge_container_fills_struct_field_by_name() {
    let mut field = named("value", Format::Incomplete { debug: "later".to_string() });
    field.serde_attrs.push(attr_pair("rename", "renamed"));
    let target = ContainerFormat::Struct(vec![field]);
    let traced = ContainerFormat::Struct(vec![named("renamed", Format::U16)]);
    let merged = merge_container(target, &traced).unwrap();
    match merged {
        ContainerFormat::Struct(fields) => {
            assert_eq!(fields.len(), 1);
            assert_eq!(fields[0].value, Format::U16);
        }
        other => panic!("expected a struct, found {:?}", other),
    }
}

#[test]
fn test_merge_container_missing_field_is_fatal() {
    let target = ContainerFormat::Struct(vec![named(
        "value",
        Format::Incomplete { debug: "later".to_string() },
    )]);
    let traced = ContainerFormat::Struct(vec![named("other", Format::U16)]);
    let err = merge_container(target, &traced).unwrap_err();
    assert!(matches!(err, MergeError::MissingField { .. }));
}

#[test]
fn test_merge_container_missing_variant_is_fatal() {
    let target = ContainerFormat::Enum(vec![(
        0,
        named("A", VariantFormat::NewType(Box::new(Format::Incomplete {
            debug: "later".to_string(),
        }))),
    )]);
    let traced = ContainerFormat::Enum(vec![(
        1,
        named("B", VariantFormat::NewType(Box::new(Format::U8))),
    )]);
    let err = merge_container(target, &traced).unwrap_err();
    assert!(matches!(err, MergeError::MissingVariant { index: 0 }));
}

#[test]
fn test_merge_variant_kind_mismatch_is_fatal() {
    let target = ContainerFormat::Enum(vec![(
        3,
        named("A", VariantFormat::Unit),
    )]);
    let traced = ContainerFormat::Enum(vec![(
        3,
        named("A", VariantFormat::NewType(Box::new(Format::U8))),
    )]);
    let err = merge_container(target, &traced).unwrap_err();
    assert!(matches!(err, MergeError::Variant { index: 3 }));
}

#[test]
fn test_merge_tuple_arity_mismatch_is_fatal() {
    let target = ContainerFormat::TupleStruct(vec![
        Format::Incomplete { debug: "x".to_string() },
        Format::U8,
    ]);
    let traced = ContainerFormat::TupleStruct(vec![Format::U16]);
    let err = merge_container(target, &traced).unwrap_err();
    assert!(matches!(err, MergeError::Arity { target_len: 2, traced_len: 1 }));
}

#[test]
fn test_merge_container_kind_mismatch_is_fatal() {
    let target = ContainerFormat::UnitStruct;
    let traced = ContainerFormat::TupleStruct(vec![Format::U8]);
    let err = merge_container(target, &traced).unwrap_err();
    assert!(matches!(err, MergeError::Container { .. }));
}

#[test]
fn test_line_index_lines_and_columns() {
    let text: Vec<u8> = b"ab\ncd\nef".to_vec();
    let index = SourceLineNumberIndex::new(&text);
    assert_eq!(index.newlines, vec![3, 6]);
    assert!(!index.is_crlf);
    // bytes before the first recorded line start clamp to line zero
    assert_eq!(index.get_ln_col(0), (0, 0));
    assert_eq!(index.get_ln_col(2), (0, 0));
    // the column resets to zero exactly at each recorded line start
    assert_eq!(index.get_ln_col(3), (1, 0));
    assert_eq!(index.get_ln_col(4), (1, 1));
    assert_eq!(index.get_ln_col(6), (2, 0));
    assert_eq!(index.get_ln_col(7), (2, 1));
}

#[test]
fn test_line_index_monotonic_walk() {
    let text: Vec<u8> = b"a\nbb\nccc\n".to_vec();
    let index = SourceLineNumberIndex::new(&text);
    let mut last_line = 0;
    for byte in 0..text.len() {
        let (line, _) = index.get_ln_col(byte);
        assert!(line >= last_line);
        last_line = line;
    }
}

#[test]
fn test_line_index_detects_carriage_returns() {
    let text: Vec<u8> = b"a\r\nb".to_vec();
    let index = SourceLineNumberIndex::new(&text);
    assert!(index.is_crlf);
    assert_eq!(index.newlines, vec![3]);
}

#[test]
fn test_parse_span_reads_byte_range() {
    assert_eq!(parse_span("#0 bytes(2000..2030)"), Ok((2000, 2030)));
    assert_eq!(parse_span("(0..7)"), Ok((0, 7)));
}

#[test]
fn test_parse_span_rejects_malformed_text() {
    assert!(parse_span("no parenthesis").is_err());
    assert!(parse_span("(..7)").is_err());
    assert!(parse_span("(1.7)").is_err());
    assert!(parse_span("(1..x)").is_err());
    assert!(parse_span("(1..7").is_err());
}

#[test]
fn test_builtin_trims_documentation() {
    let n = Named::builtin("secs", "  padded docs \n", None, Format::U64);
    assert_eq!(n.rust_docs.as_deref(), Some("padded docs"));
    let blank = Named::builtin("nanos", "   \n\t ", Some((3, 9)), Format::U32);
    assert_eq!(blank.rust_docs, None);
    assert_eq!(blank.rust_ident.bytes, (3, 9));
}

#[test]
fn test_trim_and_decimal_helpers() {
    assert_eq!(trim_spaces("  a b \t"), "a b");
    assert_eq!(trim_spaces("   "), "");
    assert_eq!(dec_string(0), "0");
    assert_eq!(dec_string(1234), "1234");
    assert_eq!(dec_string(u64::MAX), "18446744073709551615");
}

#[test]
fn test_dup_is_structural_copy() {
    let f = Format::MapOf {
        key: Box::new(Format::Str),
        value: Box::new(Format::Tuple(vec![Format::U8, Format::Never])),
    };
    assert_eq!(f.dup(), f);
}
