//! The JSON shapes of the wire documents: how schema formats, attribute
//! bags, declarations and generator output are laid out as JSON values,
//! with the proof that an encoded `Input` document decodes back to itself.

use vstd::prelude::*;

use crate::json::{Json, SpecJson, jsons_view, jpairs_view, lemma_jsons_view, lemma_jpairs_view};
use crate::schema::{Format, SpecFormat, fmts_view, lemma_fmts_view};
use crate::strutil::str_eq;

verus! {

/// The JSON tag of a primitive format kind.
pub open spec fn spec_prim_tag(f: SpecFormat) -> Seq<char> {
    match f {
        SpecFormat::Unit => "Unit"@,
        SpecFormat::Bool => "Bool"@,
        SpecFormat::I8 => "I8"@,
        SpecFormat::I16 => "I16"@,
        SpecFormat::I32 => "I32"@,
        SpecFormat::I64 => "I64"@,
        SpecFormat::I128 => "I128"@,
        SpecFormat::ISIZE => "ISIZE"@,
        SpecFormat::U8 => "U8"@,
        SpecFormat::U16 => "U16"@,
        SpecFormat::U32 => "U32"@,
        SpecFormat::U64 => "U64"@,
        SpecFormat::U128 => "U128"@,
        SpecFormat::USIZE => "USIZE"@,
        SpecFormat::F32 => "F32"@,
        SpecFormat::F64 => "F64"@,
        SpecFormat::Char => "Char"@,
        SpecFormat::Str => "Str"@,
        SpecFormat::Bytes => "Bytes"@,
        _ => "Never"@,
    }
}

/// The JSON encoding of a format: primitive kinds as their tag string,
/// composite kinds as a single-pair object keyed by their tag.
pub open spec fn spec_format_to_json(f: SpecFormat) -> SpecJson
    decreases f,
{
    match f {
        SpecFormat::Incomplete { debug } => SpecJson::Obj(
            seq![
                ("Incomplete"@, SpecJson::Obj(seq![("debug"@, SpecJson::Text(debug))])),
            ],
        ),
        SpecFormat::TypeName { ident, generics } => SpecJson::Obj(
            seq![
                (
                    "TypeName"@,
                    SpecJson::Obj(
                        seq![
                            ("ident"@, SpecJson::Text(ident)),
                            ("generics"@, SpecJson::Arr(spec_formats_to_json(generics))),
                        ],
                    ),
                ),
            ],
        ),
        SpecFormat::Option(inner) => SpecJson::Obj(
            seq![("Option"@, spec_format_to_json(*inner))],
        ),
        SpecFormat::SeqOf(inner) => SpecJson::Obj(seq![("Seq"@, spec_format_to_json(*inner))]),
        SpecFormat::MapOf { key, value } => SpecJson::Obj(
            seq![
                (
                    "Map"@,
                    SpecJson::Obj(
                        seq![
                            ("key"@, spec_format_to_json(*key)),
                            ("value"@, spec_format_to_json(*value)),
                        ],
                    ),
                ),
            ],
        ),
        SpecFormat::Tuple(elems) => SpecJson::Obj(
            seq![("Tuple"@, SpecJson::Arr(spec_formats_to_json(elems)))],
        ),
        SpecFormat::TupleArray { content, size } => SpecJson::Obj(
            seq![
                (
                    "TupleArray"@,
                    SpecJson::Obj(
                        seq![
                            ("content"@, spec_format_to_json(*content)),
                            ("size"@, SpecJson::Num(size as u64)),
                        ],
                    ),
                ),
            ],
        ),
        _ => SpecJson::Text(spec_prim_tag(f)),
    }
}

/// The JSON encodings of a list of formats, element by element.
pub open spec fn spec_formats_to_json(v: Seq<SpecFormat>) -> Seq<SpecJson>
    decreases v,
{
    if v.len() == 0 {
        Seq::empty()
    } else {
        seq![spec_format_to_json(v[0])] + spec_formats_to_json(v.drop_first())
    }
}

/// `spec_formats_to_json` encodes element by element.
pub proof fn lemma_formats_to_json(v: Seq<SpecFormat>)
    ensures
        spec_formats_to_json(v).len() == v.len(),
        forall|i: int|
            0 <= i < v.len() ==> #[trigger] spec_formats_to_json(v)[i] == spec_format_to_json(
                v[i],
            ),
    decreases v.len(),
{
    if v.len() > 0 {
        lemma_formats_to_json(v.drop_first());
    }
}

/// Decodes a format from its JSON encoding; `None` for anything the
/// encoding never produces.
pub open spec fn spec_json_to_format(j: SpecJson) -> Option<SpecFormat>
    decreases j, 1int,
{
    match j {
        SpecJson::Text(name) => {
            if name == "Unit"@ {
                Some(SpecFormat::Unit)
            } else if name == "Bool"@ {
                Some(SpecFormat::Bool)
            } else if name == "I8"@ {
                Some(SpecFormat::I8)
            } else if name == "I16"@ {
                Some(SpecFormat::I16)
            } else if name == "I32"@ {
                Some(SpecFormat::I32)
            } else if name == "I64"@ {
                Some(SpecFormat::I64)
            } else if name == "I128"@ {
                Some(SpecFormat::I128)
            } else if name == "ISIZE"@ {
                Some(SpecFormat::ISIZE)
            } else if name == "U8"@ {
                Some(SpecFormat::U8)
            } else if name == "U16"@ {
                Some(SpecFormat::U16)
            } else if name == "U32"@ {
                Some(SpecFormat::U32)
            } else if name == "U64"@ {
                Some(SpecFormat::U64)
            } else if name == "U128"@ {
                Some(SpecFormat::U128)
            } else if name == "USIZE"@ {
                Some(SpecFormat::USIZE)
            } else if name == "F32"@ {
                Some(SpecFormat::F32)
            } else if name == "F64"@ {
                Some(SpecFormat::F64)
            } else if name == "Char"@ {
                Some(SpecFormat::Char)
            } else if name == "Str"@ {
                Some(SpecFormat::Str)
            } else if name == "Bytes"@ {
                Some(SpecFormat::Bytes)
            } else if name == "Never"@ {
                Some(SpecFormat::Never)
            } else {
                None
            }
        },
        SpecJson::Obj(pairs) => {
            if pairs.len() != 1 {
                None
            } else {
                let tag = pairs[0].0;
                let payload = pairs[0].1;
                if tag == "Incomplete"@ {
                    match payload {
                        SpecJson::Obj(inner) => {
                            if inner.len() == 1 && inner[0].0 == "debug"@ && inner[0].1 is Text {
                                Some(SpecFormat::Incomplete { debug: inner[0].1->Text_0 })
                            } else {
                                None
                            }
                        },
                        _ => None,
                    }
                } else if tag == "TypeName"@ {
                    match payload {
                        SpecJson::Obj(inner) => {
                            if inner.len() == 2 && inner[0].0 == "ident"@ && inner[0].1 is Text
                                && inner[1].0 == "generics"@ && inner[1].1 is Arr {
                                match spec_json_to_formats(inner[1].1->Arr_0) {
                                    Some(generics) => Some(
                                        SpecFormat::TypeName {
                                            ident: inner[0].1->Text_0,
                                            generics,
                                        },
                                    ),
                                    None => None,
                                }
                            } else {
                                None
                            }
                        },
                        _ => None,
                    }
                } else if tag == "Option"@ {
                    match spec_json_to_format(payload) {
                        Some(inner) => Some(SpecFormat::Option(Box::new(inner))),
                        None => None,
                    }
                } else if tag == "Seq"@ {
                    match spec_json_to_format(payload) {
                        Some(inner) => Some(SpecFormat::SeqOf(Box::new(inner))),
                        None => None,
                    }
                } else if tag == "Map"@ {
                    match payload {
                        SpecJson::Obj(inner) => {
                            if inner.len() == 2 && inner[0].0 == "key"@ && inner[1].0
                                == "value"@ {
                                match (spec_json_to_format(inner[0].1), spec_json_to_format(
                                    inner[1].1,
                                )) {
                                    (Some(k), Some(v)) => Some(
                                        SpecFormat::MapOf { key: Box::new(k), value: Box::new(v) },
                                    ),
                                    _ => None,
                                }
                            } else {
                                None
                            }
                        },
                        _ => None,
                    }
                } else if tag == "Tuple"@ {
                    match payload {
                        SpecJson::Arr(elems) => {
                            match spec_json_to_formats(elems) {
                                Some(fs) => Some(SpecFormat::Tuple(fs)),
                                None => None,
                            }
                        },
                        _ => None,
                    }
                } else if tag == "TupleArray"@ {
                    match payload {
                        SpecJson::Obj(inner) => {
                            if inner.len() == 2 && inner[0].0 == "content"@ && inner[1].0
                                == "size"@ && inner[1].1 is Num {
                                match spec_json_to_format(inner[0].1) {
                                    Some(content) => {
                                        if inner[1].1->Num_0 <= usize::MAX {
                                            Some(
                                                SpecFormat::TupleArray {
                                                    content: Box::new(content),
                                                    size: inner[1].1->Num_0 as usize,
                                                },
                                            )
                                        } else {
                                            None
                                        }
                                    },
                                    None => None,
                                }
                            } else {
                                None
                            }
                        },
                        _ => None,
                    }
                } else {
                    None
                }
            }
        },
        _ => None,
    }
}

/// Decodes a list of formats, element by element.
pub open spec fn spec_json_to_formats(elems: Seq<SpecJson>) -> Option<Seq<SpecFormat>>
    decreases elems, 2int,
{
    if elems.len() == 0 {
        Some(Seq::empty())
    } else {
        match spec_json_to_format(elems[0]) {
            Some(f) => match spec_json_to_formats(elems.drop_first()) {
                Some(fs) => Some(seq![f] + fs),
                None => None,
            },
            None => None,
        }
    }
}

/// Decoding an encoded format yields it back.
pub proof fn lemma_format_json_round(f: SpecFormat)
    ensures
        spec_json_to_format(spec_format_to_json(f)) == Some(f),
    decreases f, 1int,
{
    reveal_strlit("Unit");
    reveal_strlit("Bool");
    reveal_strlit("I8");
    reveal_strlit("I16");
    reveal_strlit("I32");
    reveal_strlit("I64");
    reveal_strlit("I128");
    reveal_strlit("ISIZE");
    reveal_strlit("U8");
    reveal_strlit("U16");
    reveal_strlit("U32");
    reveal_strlit("U64");
    reveal_strlit("U128");
    reveal_strlit("USIZE");
    reveal_strlit("F32");
    reveal_strlit("F64");
    reveal_strlit("Char");
    reveal_strlit("Str");
    reveal_strlit("Bytes");
    reveal_strlit("Never");
    reveal_strlit("Incomplete");
    reveal_strlit("TypeName");
    reveal_strlit("Option");
    reveal_strlit("Seq");
    reveal_strlit("Map");
    reveal_strlit("Tuple");
    reveal_strlit("TupleArray");
    reveal_strlit("debug");
    reveal_strlit("ident");
    reveal_strlit("generics");
    reveal_strlit("key");
    reveal_strlit("value");
    reveal_strlit("content");
    reveal_strlit("size");
    assert("Unit"@.len() == 4);
    assert("Unit"@[0] == 'U');
    assert("Bool"@.len() == 4);
    assert("Bool"@[0] == 'B');
    assert("I8"@.len() == 2);
    assert("I8"@[0] == 'I');
    assert("I16"@.len() == 3);
    assert("I16"@[0] == 'I');
    assert("I32"@.len() == 3);
    assert("I32"@[0] == 'I');
    assert("I64"@.len() == 3);
    assert("I64"@[0] == 'I');
    assert("I128"@.len() == 4);
    assert("I128"@[0] == 'I');
    assert("ISIZE"@.len() == 5);
    assert("ISIZE"@[0] == 'I');
    assert("U8"@.len() == 2);
    assert("U8"@[0] == 'U');
    assert("U16"@.len() == 3);
    assert("U16"@[0] == 'U');
    assert("U32"@.len() == 3);
    assert("U32"@[0] == 'U');
    assert("U64"@.len() == 3);
    assert("U64"@[0] == 'U');
    assert("U128"@.len() == 4);
    assert("U128"@[0] == 'U');
    assert("USIZE"@.len() == 5);
    assert("USIZE"@[0] == 'U');
    assert("F32"@.len() == 3);
    assert("F32"@[0] == 'F');
    assert("F64"@.len() == 3);
    assert("F64"@[0] == 'F');
    assert("Char"@.len() == 4);
    assert("Char"@[0] == 'C');
    assert("Str"@.len() == 3);
    assert("Str"@[0] == 'S');
    assert("Bytes"@.len() == 5);
    assert("Bytes"@[0] == 'B');
    assert("Never"@.len() == 5);
    assert("Never"@[0] == 'N');
    assert("Incomplete"@.len() == 10);
    assert("Incomplete"@[0] == 'I');
    assert("TypeName"@.len() == 8);
    assert("TypeName"@[0] == 'T');
    assert("Option"@.len() == 6);
    assert("Option"@[0] == 'O');
    assert("Seq"@.len() == 3);
    assert("Seq"@[0] == 'S');
    assert("Map"@.len() == 3);
    assert("Map"@[0] == 'M');
    assert("Tuple"@.len() == 5);
    assert("Tuple"@[0] == 'T');
    assert("TupleArray"@.len() == 10);
    assert("TupleArray"@[0] == 'T');
    assert("I16"@[1] == '1');
    assert("I32"@[1] == '3');
    assert("I64"@[1] == '6');
    assert("U16"@[1] == '1');
    assert("U32"@[1] == '3');
    assert("U64"@[1] == '6');
    assert("F32"@[1] == '3');
    assert("F64"@[1] == '6');
    assert("I128"@[1] == '1');
    assert("U128"@[1] == '1');
    assert("ISIZE"@[1] == 'S');
    assert("USIZE"@[1] == 'S');
    match f {
        SpecFormat::Option(inner) => {
            lemma_format_json_round(*inner);
        },
        SpecFormat::SeqOf(inner) => {
            lemma_format_json_round(*inner);
        },
        SpecFormat::MapOf { key, value } => {
            lemma_format_json_round(*key);
            lemma_format_json_round(*value);
        },
        SpecFormat::TypeName { ident, generics } => {
            lemma_formats_json_round(generics);
        },
        SpecFormat::Tuple(elems) => {
            lemma_formats_json_round(elems);
        },
        SpecFormat::TupleArray { content, size } => {
            lemma_format_json_round(*content);
            assert((size as u64) as usize == size);
        },
        _ => {},
    }
}

/// Decoding an encoded list of formats yields it back.
pub proof fn lemma_formats_json_round(v: Seq<SpecFormat>)
    ensures
        spec_json_to_formats(spec_formats_to_json(v)) == Some(v),
    decreases v, 2int,
{
    if v.len() == 0 {
        assert(spec_formats_to_json(v) =~= Seq::<SpecJson>::empty());
    } else {
        lemma_format_json_round(v[0]);
        lemma_formats_json_round(v.drop_first());
        let e = spec_formats_to_json(v);
        assert(e[0] == spec_format_to_json(v[0]));
        assert(e.drop_first() =~= spec_formats_to_json(v.drop_first()));
        assert(seq![v[0]] + v.drop_first() =~= v);
    }
}

/// Encodes a format as its JSON wire shape.
#[verifier::loop_isolation(false)]
pub fn format_to_json(f: &Format) -> (r: Json)
    ensures
        r@ == spec_format_to_json(f@),
    decreases f,
{
    match f {
        Format::Incomplete { debug } => {
            let mut inner: Vec<(String, Json)> = Vec::new();
            inner.push(("debug".to_owned(), Json::Text(debug.clone())));
            let ghost innerv = inner@;
            let mut outer: Vec<(String, Json)> = Vec::new();
            outer.push(("Incomplete".to_owned(), Json::Obj(inner)));
            let r = Json::Obj(outer);
            proof {
                lemma_jpairs_view(outer@);
                lemma_jpairs_view(innerv);
                assert(jpairs_view(innerv) =~~= seq![("debug"@, SpecJson::Text(debug@))]);
                assert(jpairs_view(outer@) =~~= seq![
                    ("Incomplete"@, SpecJson::Obj(jpairs_view(innerv))),
                ]);
                assert(r@ =~~= spec_format_to_json(f@));
            }
            r
        },
        Format::TypeName { ident, generics } => {
            proof {
                lemma_fmts_view(generics@);
                lemma_formats_to_json(fmts_view(generics@));
            }
            let n: usize = generics.len();
            let mut elems: Vec<Json> = Vec::new();
            let mut i: usize = 0;
            while i < n
                invariant
                    0 <= i <= n,
                    elems@.len() == i,
                    forall|k: int|
                        0 <= k < i ==> #[trigger] crate::json::json_view(elems@[k])
                            == spec_format_to_json(fmts_view(generics@)[k]),
                decreases n - i,
            {
                proof {
                    assert(decreases_to!(*f => generics@[i as int]));
                }
                let e = format_to_json(&generics[i]);
                elems.push(e);
                i = i + 1;
            }
            proof {
                lemma_jsons_view(elems@);
                assert(jsons_view(elems@) =~= spec_formats_to_json(fmts_view(generics@)));
            }
            let ghost elemsv = elems@;
            let mut inner: Vec<(String, Json)> = Vec::new();
            inner.push(("ident".to_owned(), Json::Text(ident.clone())));
            inner.push(("generics".to_owned(), Json::Arr(elems)));
            let ghost innerv = inner@;
            let mut outer: Vec<(String, Json)> = Vec::new();
            outer.push(("TypeName".to_owned(), Json::Obj(inner)));
            let r = Json::Obj(outer);
            proof {
                lemma_jpairs_view(outer@);
                lemma_jpairs_view(innerv);
                assert(jpairs_view(innerv) =~~= seq![
                    ("ident"@, SpecJson::Text(ident@)),
                    ("generics"@, SpecJson::Arr(jsons_view(elemsv))),
                ]);
                assert(jpairs_view(outer@) =~~= seq![
                    ("TypeName"@, SpecJson::Obj(jpairs_view(innerv))),
                ]);
                assert(r@ =~~= spec_format_to_json(f@));
            }
            r
        },
        Format::Option(inner) => {
            let payload = format_to_json(inner);
            let mut outer: Vec<(String, Json)> = Vec::new();
            outer.push(("Option".to_owned(), payload));
            let r = Json::Obj(outer);
            proof {
                lemma_jpairs_view(outer@);
                assert(r@ =~~= spec_format_to_json(f@));
            }
            r
        },
        Format::SeqOf(inner) => {
            let payload = format_to_json(inner);
            let mut outer: Vec<(String, Json)> = Vec::new();
            outer.push(("Seq".to_owned(), payload));
            let r = Json::Obj(outer);
            proof {
                lemma_jpairs_view(outer@);
                assert(r@ =~~= spec_format_to_json(f@));
            }
            r
        },
        Format::MapOf { key, value } => {
            let kj = format_to_json(key);
            let vj = format_to_json(value);
            let mut inner: Vec<(String, Json)> = Vec::new();
            inner.push(("key".to_owned(), kj));
            inner.push(("value".to_owned(), vj));
            let ghost innerv = inner@;
            let mut outer: Vec<(String, Json)> = Vec::new();
            outer.push(("Map".to_owned(), Json::Obj(inner)));
            let r = Json::Obj(outer);
            proof {
                lemma_jpairs_view(outer@);
                lemma_jpairs_view(innerv);
                assert(jpairs_view(innerv) =~~= seq![
                    ("key"@, kj@),
                    ("value"@, vj@),
                ]);
                assert(jpairs_view(outer@) =~~= seq![
                    ("Map"@, SpecJson::Obj(jpairs_view(innerv))),
                ]);
                assert(r@ =~~= spec_format_to_json(f@));
            }
            r
        },
        Format::Tuple(elems0) => {
            proof {
                lemma_fmts_view(elems0@);
                lemma_formats_to_json(fmts_view(elems0@));
            }
            let n: usize = elems0.len();
            let mut elems: Vec<Json> = Vec::new();
            let mut i: usize = 0;
            while i < n
                invariant
                    0 <= i <= n,
                    elems@.len() == i,
                    forall|k: int|
                        0 <= k < i ==> #[trigger] crate::json::json_view(elems@[k])
                            == spec_format_to_json(fmts_view(elems0@)[k]),
                decreases n - i,
            {
                proof {
                    assert(decreases_to!(*f => elems0@[i as int]));
                }
                let e = format_to_json(&elems0[i]);
                elems.push(e);
                i = i + 1;
            }
            proof {
                lemma_jsons_view(elems@);
                assert(jsons_view(elems@) =~= spec_formats_to_json(fmts_view(elems0@)));
            }
            let ghost elemsv = elems@;
            let mut outer: Vec<(String, Json)> = Vec::new();
            outer.push(("Tuple".to_owned(), Json::Arr(elems)));
            let r = Json::Obj(outer);
            proof {
                lemma_jpairs_view(outer@);
                assert(jpairs_view(outer@) =~~= seq![
                    ("Tuple"@, SpecJson::Arr(jsons_view(elemsv))),
                ]);
                assert(r@ =~~= spec_format_to_json(f@));
            }
            r
        },
        Format::TupleArray { content, size } => {
            let cj = format_to_json(content);
            let mut inner: Vec<(String, Json)> = Vec::new();
            inner.push(("content".to_owned(), cj));
            inner.push(("size".to_owned(), Json::Num(*size as u64)));
            let ghost innerv = inner@;
            let mut outer: Vec<(String, Json)> = Vec::new();
            outer.push(("TupleArray".to_owned(), Json::Obj(inner)));
            let r = Json::Obj(outer);
            proof {
                lemma_jpairs_view(outer@);
                lemma_jpairs_view(innerv);
                assert(jpairs_view(innerv) =~~= seq![
                    ("content"@, cj@),
                    ("size"@, SpecJson::Num(*size as u64)),
                ]);
                assert(jpairs_view(outer@) =~~= seq![
                    ("TupleArray"@, SpecJson::Obj(jpairs_view(innerv))),
                ]);
                assert(r@ =~~= spec_format_to_json(f@));
            }
            r
        },
        Format::Unit => Json::Text("Unit".to_owned()),
        Format::Bool => Json::Text("Bool".to_owned()),
        Format::I8 => Json::Text("I8".to_owned()),
        Format::I16 => Json::Text("I16".to_owned()),
        Format::I32 => Json::Text("I32".to_owned()),
        Format::I64 => Json::Text("I64".to_owned()),
        Format::I128 => Json::Text("I128".to_owned()),
        Format::ISIZE => Json::Text("ISIZE".to_owned()),
        Format::U8 => Json::Text("U8".to_owned()),
        Format::U16 => Json::Text("U16".to_owned()),
        Format::U32 => Json::Text("U32".to_owned()),
        Format::U64 => Json::Text("U64".to_owned()),
        Format::U128 => Json::Text("U128".to_owned()),
        Format::USIZE => Json::Text("USIZE".to_owned()),
        Format::F32 => Json::Text("F32".to_owned()),
        Format::F64 => Json::Text("F64".to_owned()),
        Format::Char => Json::Text("Char".to_owned()),
        Format::Str => Json::Text("Str".to_owned()),
        Format::Bytes => Json::Text("Bytes".to_owned()),
        Format::Never => Json::Text("Never".to_owned()),
    }
}

/// Decodes a format from its JSON wire shape.
#[verifier::loop_isolation(false)]
#[verifier::rlimit(100)]
pub fn json_to_format(j: &Json) -> (r: Result<Format, ()>)
    ensures
        (r matches Ok(f) ==> spec_json_to_format(j@) == Some(f@)),
        r is Err ==> spec_json_to_format(j@) is None,
    decreases j, 1int,
{
    match j {
        Json::Text(name) => {
            let s = name.as_str();
            if str_eq(s, "Unit") {
                Ok(Format::Unit)
            } else if str_eq(s, "Bool") {
                Ok(Format::Bool)
            } else if str_eq(s, "I8") {
                Ok(Format::I8)
            } else if str_eq(s, "I16") {
                Ok(Format::I16)
            } else if str_eq(s, "I32") {
                Ok(Format::I32)
            } else if str_eq(s, "I64") {
                Ok(Format::I64)
            } else if str_eq(s, "I128") {
                Ok(Format::I128)
            } else if str_eq(s, "ISIZE") {
                Ok(Format::ISIZE)
            } else if str_eq(s, "U8") {
                Ok(Format::U8)
            } else if str_eq(s, "U16") {
                Ok(Format::U16)
            } else if str_eq(s, "U32") {
                Ok(Format::U32)
            } else if str_eq(s, "U64") {
                Ok(Format::U64)
            } else if str_eq(s, "U128") {
                Ok(Format::U128)
            } else if str_eq(s, "USIZE") {
                Ok(Format::USIZE)
            } else if str_eq(s, "F32") {
                Ok(Format::F32)
            } else if str_eq(s, "F64") {
                Ok(Format::F64)
            } else if str_eq(s, "Char") {
                Ok(Format::Char)
            } else if str_eq(s, "Str") {
                Ok(Format::Str)
            } else if str_eq(s, "Bytes") {
                Ok(Format::Bytes)
            } else if str_eq(s, "Never") {
                Ok(Format::Never)
            } else {
                Err(())
            }
        },
        Json::Obj(pairs) => {
            if pairs.len() != 1 {
                proof {
                    lemma_jpairs_view(pairs@);
                }
                return Err(());
            }
            let tag = pairs[0].0.as_str();
            let payload = &pairs[0].1;
            proof {
                assert(jpairs_view(pairs@).len() == 1) by {
                    lemma_jpairs_view(pairs@);
                }
                assert(jpairs_view(pairs@)[0] == (pairs@[0].0@, crate::json::json_view(
                    pairs@[0].1,
                ))) by {
                    lemma_jpairs_view(pairs@);
                }
            }
            if str_eq(tag, "Incomplete") {
                match payload {
                    Json::Obj(inner) => {
                        proof {
                            lemma_jpairs_view(inner@);
                        }
                        if inner.len() == 1 && str_eq(inner[0].0.as_str(), "debug") {
                            match &inner[0].1 {
                                Json::Text(d) => Ok(
                                    Format::Incomplete { debug: d.clone() },
                                ),
                                _ => Err(()),
                            }
                        } else {
                            Err(())
                        }
                    },
                    _ => Err(()),
                }
            } else if str_eq(tag, "TypeName") {
                match payload {
                    Json::Obj(inner) => {
                        proof {
                            lemma_jpairs_view(inner@);
                        }
                        if inner.len() == 2 && str_eq(inner[0].0.as_str(), "ident") && str_eq(
                            inner[1].0.as_str(),
                            "generics",
                        ) {
                            match (&inner[0].1, &inner[1].1) {
                                (Json::Text(idn), Json::Arr(gen_elems)) => {
                                    proof {
                                        assert(decreases_to!(*j => gen_elems@));
                                    }
                                    match json_to_formats(gen_elems) {
                                        Ok(generics) => Ok(
                                            Format::TypeName { ident: idn.clone(), generics },
                                        ),
                                        Err(()) => Err(()),
                                    }
                                },
                                _ => Err(()),
                            }
                        } else {
                            Err(())
                        }
                    },
                    _ => Err(()),
                }
            } else if str_eq(tag, "Option") {
                match json_to_format(payload) {
                    Ok(inner) => Ok(Format::Option(Box::new(inner))),
                    Err(()) => Err(()),
                }
            } else if str_eq(tag, "Seq") {
                match json_to_format(payload) {
                    Ok(inner) => Ok(Format::SeqOf(Box::new(inner))),
                    Err(()) => Err(()),
                }
            } else if str_eq(tag, "Map") {
                match payload {
                    Json::Obj(inner) => {
                        proof {
                            lemma_jpairs_view(inner@);
                        }
                        if inner.len() == 2 && str_eq(inner[0].0.as_str(), "key") && str_eq(
                            inner[1].0.as_str(),
                            "value",
                        ) {
                            proof {
                                assert(decreases_to!(*j => inner@[0].1));
                                assert(decreases_to!(*j => inner@[1].1));
                            }
                            let k = json_to_format(&inner[0].1);
                            let v = json_to_format(&inner[1].1);
                            match (k, v) {
                                (Ok(kf), Ok(vf)) => Ok(
                                    Format::MapOf { key: Box::new(kf), value: Box::new(vf) },
                                ),
                                _ => Err(()),
                            }
                        } else {
                            Err(())
                        }
                    },
                    _ => Err(()),
                }
            } else if str_eq(tag, "Tuple") {
                match payload {
                    Json::Arr(elems) => {
                        proof {
                            assert(decreases_to!(*j => elems@));
                        }
                        match json_to_formats(elems) {
                            Ok(fs) => Ok(Format::Tuple(fs)),
                            Err(()) => Err(()),
                        }
                    },
                    _ => Err(()),
                }
            } else if str_eq(tag, "TupleArray") {
                match payload {
                    Json::Obj(inner) => {
                        proof {
                            lemma_jpairs_view(inner@);
                        }
                        if inner.len() == 2 && str_eq(inner[0].0.as_str(), "content") && str_eq(
                            inner[1].0.as_str(),
                            "size",
                        ) {
                            proof {
                                assert(decreases_to!(*j => inner@[0].1));
                            }
                            let content = match json_to_format(&inner[0].1) {
                                Ok(c) => c,
                                Err(()) => {
                                    return Err(());
                                },
                            };
                            match &inner[1].1 {
                                Json::Num(nv) => {
                                    if *nv <= usize::MAX as u64 {
                                        Ok(
                                            Format::TupleArray {
                                                content: Box::new(content),
                                                size: *nv as usize,
                                            },
                                        )
                                    } else {
                                        Err(())
                                    }
                                },
                                _ => Err(()),
                            }
                        } else {
                            Err(())
                        }
                    },
                    _ => Err(()),
                }
            } else {
                Err(())
            }
        },
        _ => Err(()),
    }
}

/// Decodes a list of formats from their JSON encodings.
#[verifier::loop_isolation(false)]
pub fn json_to_formats(elems: &Vec<Json>) -> (r: Result<Vec<Format>, ()>)
    ensures
        (r matches Ok(fs) ==> spec_json_to_formats(jsons_view(elems@)) == Some(
            fmts_view(fs@),
        )),
        r is Err ==> spec_json_to_formats(jsons_view(elems@)) is None,
    decreases elems@, 2int,
{
    proof {
        lemma_jsons_view(elems@);
    }
    let n: usize = elems.len();
    let mut out: Vec<Format> = Vec::new();
    let mut i: usize = 0;
    proof {
        assert(jsons_view(elems@).skip(0) =~= jsons_view(elems@));
        if let Some(fs) = spec_json_to_formats(jsons_view(elems@)) {
            assert(fmts_view(out@) + fs =~= fs);
        }
    }
    while i < n
        invariant
            0 <= i <= n,
            out@.len() == i,
            (match spec_json_to_formats(jsons_view(elems@).skip(i as int)) {
                Some(fs) => spec_json_to_formats(jsons_view(elems@)) == Some(
                    fmts_view(out@) + fs,
                ),
                None => spec_json_to_formats(jsons_view(elems@)) is None,
            }),
        decreases n - i,
    {
        proof {
            assert(jsons_view(elems@).skip(i as int)[0] == jsons_view(elems@)[i as int]);
            assert(jsons_view(elems@).skip(i as int).drop_first() =~= jsons_view(elems@).skip(
                i + 1,
            ));
            assert(decreases_to!(elems@ => elems@[i as int]));
        }
        let f = match json_to_format(&elems[i]) {
            Ok(f) => f,
            Err(()) => {
                return Err(());
            },
        };
        let ghost out0 = fmts_view(out@);
        let ghost outseq0 = out@;
        let ghost fv = f@;
        out.push(f);
        proof {
            lemma_fmts_view(out@);
            lemma_fmts_view(outseq0);
            assert(fmts_view(out@) =~= out0.push(fv));
            if let Some(fs) = spec_json_to_formats(jsons_view(elems@).skip(i + 1)) {
                assert(spec_json_to_formats(jsons_view(elems@).skip(i as int)) == Some(
                    seq![fv] + fs,
                ));
                assert(fmts_view(out@) + fs =~= out0 + (seq![fv] + fs));
            }
        }
        i = i + 1;
    }
    proof {
        assert(jsons_view(elems@).skip(n as int) =~= Seq::<SpecJson>::empty());
        assert(spec_json_to_formats(Seq::<SpecJson>::empty()) == Some(
            Seq::<SpecFormat>::empty(),
        ));
        assert(fmts_view(out@) + Seq::<SpecFormat>::empty() =~= fmts_view(out@));
    }
    Ok(out)
}

/// The JSON encoding of optional documentation: null when absent.
pub open spec fn spec_docs_to_json(d: Option<Seq<char>>) -> SpecJson {
    match d {
        Some(t) => SpecJson::Text(t),
        None => SpecJson::Null,
    }
}

/// Decodes optional documentation.
pub open spec fn spec_json_to_docs(j: SpecJson) -> Option<Option<Seq<char>>> {
    match j {
        SpecJson::Null => Some(None),
        SpecJson::Text(t) => Some(Some(t)),
        _ => None,
    }
}

/// The JSON encoding of a name-location pair: a two-element array.
pub open spec fn spec_genpair_to_json(p: (Seq<char>, Seq<char>)) -> SpecJson {
    SpecJson::Arr(seq![SpecJson::Text(p.0), SpecJson::Text(p.1)])
}

/// The JSON encodings of a generic-parameter list.
pub open spec fn spec_genpairs_to_json(v: Seq<(Seq<char>, Seq<char>)>) -> Seq<SpecJson>
    decreases v,
{
    if v.len() == 0 {
        Seq::empty()
    } else {
        seq![spec_genpair_to_json(v[0])] + spec_genpairs_to_json(v.drop_first())
    }
}

/// Decodes one name-location pair.
pub open spec fn spec_json_to_genpair(j: SpecJson) -> Option<(Seq<char>, Seq<char>)> {
    match j {
        SpecJson::Arr(elems) => {
            if elems.len() == 2 && elems[0] is Text && elems[1] is Text {
                Some((elems[0]->Text_0, elems[1]->Text_0))
            } else {
                None
            }
        },
        _ => None,
    }
}

/// Decodes a generic-parameter list.
pub open spec fn spec_json_to_genpairs(elems: Seq<SpecJson>) -> Option<
    Seq<(Seq<char>, Seq<char>)>,
>
    decreases elems,
{
    if elems.len() == 0 {
        Some(Seq::empty())
    } else {
        match spec_json_to_genpair(elems[0]) {
            Some(p) => match spec_json_to_genpairs(elems.drop_first()) {
                Some(ps) => Some(seq![p] + ps),
                None => None,
            },
            None => None,
        }
    }
}

/// Decoding an encoded generic-parameter list yields it back.
pub proof fn lemma_genpairs_json_round(v: Seq<(Seq<char>, Seq<char>)>)
    ensures
        spec_json_to_genpairs(spec_genpairs_to_json(v)) == Some(v),
    decreases v,
{
    if v.len() == 0 {
        assert(spec_genpairs_to_json(v) =~= Seq::<SpecJson>::empty());
    } else {
        lemma_genpairs_json_round(v.drop_first());
        let e = spec_genpairs_to_json(v);
        assert(e[0] == spec_genpair_to_json(v[0]));
        assert(e.drop_first() =~= spec_genpairs_to_json(v.drop_first()));
        assert(seq![v[0]] + v.drop_first() =~= v);
    }
}

/// The JSON encoding of a valued-attribute map: an object whose pairs carry
/// each key with its value and the value's location, in map order.
pub open spec fn spec_attr_entries_to_json(
    v: Seq<(Seq<char>, (Seq<char>, Seq<char>))>,
) -> Seq<(Seq<char>, SpecJson)>
    decreases v,
{
    if v.len() == 0 {
        Seq::empty()
    } else {
        seq![
            (
                v[0].0,
                SpecJson::Arr(seq![SpecJson::Text(v[0].1.0), SpecJson::Text(v[0].1.1)]),
            ),
        ] + spec_attr_entries_to_json(v.drop_first())
    }
}

/// Decodes a valued-attribute map.
pub open spec fn spec_json_to_attr_entries(pairs: Seq<(Seq<char>, SpecJson)>) -> Option<
    Seq<(Seq<char>, (Seq<char>, Seq<char>))>,
>
    decreases pairs,
{
    if pairs.len() == 0 {
        Some(Seq::empty())
    } else {
        match pairs[0].1 {
            SpecJson::Arr(elems) => {
                if elems.len() == 2 && elems[0] is Text && elems[1] is Text {
                    match spec_json_to_attr_entries(pairs.drop_first()) {
                        Some(es) => Some(
                            seq![(pairs[0].0, (elems[0]->Text_0, elems[1]->Text_0))] + es,
                        ),
                        None => None,
                    }
                } else {
                    None
                }
            },
            _ => None,
        }
    }
}

/// Decoding an encoded valued-attribute map yields it back.
pub proof fn lemma_attr_entries_json_round(v: Seq<(Seq<char>, (Seq<char>, Seq<char>))>)
    ensures
        spec_json_to_attr_entries(spec_attr_entries_to_json(v)) == Some(v),
    decreases v,
{
    if v.len() == 0 {
        assert(spec_attr_entries_to_json(v) =~= Seq::<(Seq<char>, SpecJson)>::empty());
    } else {
        lemma_attr_entries_json_round(v.drop_first());
        let e = spec_attr_entries_to_json(v);
        assert(e[0] == (
            v[0].0,
            SpecJson::Arr(seq![SpecJson::Text(v[0].1.0), SpecJson::Text(v[0].1.1)]),
        ));
        assert(e.drop_first() =~= spec_attr_entries_to_json(v.drop_first()));
        assert(seq![v[0]] + v.drop_first() =~= v);
    }
}

/// The JSON encoding of a flag map: an object whose pairs carry each flag
/// with its location, in map order.
pub open spec fn spec_flag_entries_to_json(v: Seq<(Seq<char>, Seq<char>)>) -> Seq<(
    Seq<char>,
    SpecJson,
)>
    decreases v,
{
    if v.len() == 0 {
        Seq::empty()
    } else {
        seq![(v[0].0, SpecJson::Text(v[0].1))] + spec_flag_entries_to_json(v.drop_first())
    }
}

/// Decodes a flag map.
pub open spec fn spec_json_to_flag_entries(pairs: Seq<(Seq<char>, SpecJson)>) -> Option<
    Seq<(Seq<char>, Seq<char>)>,
>
    decreases pairs,
{
    if pairs.len() == 0 {
        Some(Seq::empty())
    } else {
        match pairs[0].1 {
            SpecJson::Text(loc) => {
                match spec_json_to_flag_entries(pairs.drop_first()) {
                    Some(es) => Some(seq![(pairs[0].0, loc)] + es),
                    None => None,
                }
            },
            _ => None,
        }
    }
}

/// Decoding an encoded flag map yields it back.
pub proof fn lemma_flag_entries_json_round(v: Seq<(Seq<char>, Seq<char>)>)
    ensures
        spec_json_to_flag_entries(spec_flag_entries_to_json(v)) == Some(v),
    decreases v,
{
    if v.len() == 0 {
        assert(spec_flag_entries_to_json(v) =~= Seq::<(Seq<char>, SpecJson)>::empty());
    } else {
        lemma_flag_entries_json_round(v.drop_first());
        let e = spec_flag_entries_to_json(v);
        assert(e[0] == (v[0].0, SpecJson::Text(v[0].1)));
        assert(e.drop_first() =~= spec_flag_entries_to_json(v.drop_first()));
        assert(seq![v[0]] + v.drop_first() =~= v);
    }
}

/// The six object pairs an attribute bag contributes to its owner's JSON
/// object.
pub open spec fn spec_attrs_pairs(a: crate::wire::SpecAttrs) -> Seq<(Seq<char>, SpecJson)> {
    seq![
        ("rust_docs"@, spec_docs_to_json(a.rust_docs)),
        ("rust_generics"@, SpecJson::Arr(spec_genpairs_to_json(a.rust_generics))),
        ("serde_attrs"@, SpecJson::Obj(spec_attr_entries_to_json(a.serde_attrs))),
        ("serde_flags"@, SpecJson::Obj(spec_flag_entries_to_json(a.serde_flags))),
        ("codegen_attrs"@, SpecJson::Obj(spec_attr_entries_to_json(a.codegen_attrs))),
        ("codegen_flags"@, SpecJson::Obj(spec_flag_entries_to_json(a.codegen_flags))),
    ]
}

/// Decodes the six attribute pairs of an owner's JSON object, given as the
/// slice of that object at their positions.
pub open spec fn spec_json_to_attrs(pairs: Seq<(Seq<char>, SpecJson)>) -> Option<
    crate::wire::SpecAttrs,
> {
    if pairs.len() == 6 && pairs[0].0 == "rust_docs"@ && pairs[1].0 == "rust_generics"@
        && pairs[1].1 is Arr && pairs[2].0 == "serde_attrs"@ && pairs[2].1 is Obj && pairs[3].0
        == "serde_flags"@ && pairs[3].1 is Obj && pairs[4].0 == "codegen_attrs"@
        && pairs[4].1 is Obj && pairs[5].0 == "codegen_flags"@ && pairs[5].1 is Obj {
        match (
            spec_json_to_docs(pairs[0].1),
            spec_json_to_genpairs(pairs[1].1->Arr_0),
            spec_json_to_attr_entries(pairs[2].1->Obj_0),
            spec_json_to_flag_entries(pairs[3].1->Obj_0),
            spec_json_to_attr_entries(pairs[4].1->Obj_0),
            spec_json_to_flag_entries(pairs[5].1->Obj_0),
        ) {
            (Some(docs), Some(gens), Some(sa), Some(sf), Some(ca), Some(cf)) => Some(
                crate::wire::SpecAttrs {
                    rust_docs: docs,
                    rust_generics: gens,
                    serde_attrs: sa,
                    serde_flags: sf,
                    codegen_attrs: ca,
                    codegen_flags: cf,
                },
            ),
            _ => None,
        }
    } else {
        None
    }
}

/// Decoding encoded attribute pairs yields the bag back.
pub proof fn lemma_attrs_json_round(a: crate::wire::SpecAttrs)
    ensures
        spec_json_to_attrs(spec_attrs_pairs(a)) == Some(a),
{
    lemma_genpairs_json_round(a.rust_generics);
    lemma_attr_entries_json_round(a.serde_attrs);
    lemma_flag_entries_json_round(a.serde_flags);
    lemma_attr_entries_json_round(a.codegen_attrs);
    lemma_flag_entries_json_round(a.codegen_flags);
    assert(spec_json_to_attrs(spec_attrs_pairs(a)) =~~= Some(a));
}

/// `spec_genpairs_to_json` encodes element by element.
pub proof fn lemma_genpairs_to_json(v: Seq<(Seq<char>, Seq<char>)>)
    ensures
        spec_genpairs_to_json(v).len() == v.len(),
        forall|i: int|
            0 <= i < v.len() ==> #[trigger] spec_genpairs_to_json(v)[i] == spec_genpair_to_json(
                v[i],
            ),
    decreases v.len(),
{
    if v.len() > 0 {
        lemma_genpairs_to_json(v.drop_first());
    }
}

/// `spec_attr_entries_to_json` encodes entry by entry.
pub proof fn lemma_attr_entries_to_json(v: Seq<(Seq<char>, (Seq<char>, Seq<char>))>)
    ensures
        spec_attr_entries_to_json(v).len() == v.len(),
        forall|i: int|
            0 <= i < v.len() ==> #[trigger] spec_attr_entries_to_json(v)[i] == (
                v[i].0,
                SpecJson::Arr(seq![SpecJson::Text(v[i].1.0), SpecJson::Text(v[i].1.1)]),
            ),
    decreases v.len(),
{
    if v.len() > 0 {
        lemma_attr_entries_to_json(v.drop_first());
    }
}

/// `spec_flag_entries_to_json` encodes entry by entry.
pub proof fn lemma_flag_entries_to_json(v: Seq<(Seq<char>, Seq<char>)>)
    ensures
        spec_flag_entries_to_json(v).len() == v.len(),
        forall|i: int|
            0 <= i < v.len() ==> #[trigger] spec_flag_entries_to_json(v)[i] == (
                v[i].0,
                SpecJson::Text(v[i].1),
            ),
    decreases v.len(),
{
    if v.len() > 0 {
        lemma_flag_entries_to_json(v.drop_first());
    }
}

/// Encodes a generic-parameter list as an array of two-element arrays.
#[verifier::loop_isolation(false)]
pub fn genpairs_to_json(v: &Vec<(String, crate::wire::LocationID)>) -> (r: Vec<Json>)
    ensures
        jsons_view(r@) == spec_genpairs_to_json(v.deep_view()),
{
    proof {
        lemma_genpairs_to_json(v.deep_view());
    }
    let n: usize = v.len();
    let mut out: Vec<Json> = Vec::new();
    let mut i: usize = 0;
    while i < n
        invariant
            0 <= i <= n,
            out@.len() == i,
            forall|k: int|
                0 <= k < i ==> #[trigger] crate::json::json_view(out@[k])
                    == spec_genpair_to_json(v.deep_view()[k]),
        decreases n - i,
    {
        let c0 = Json::Text(v[i].0.clone());
        let c1 = Json::Text(v[i].1.0.clone());
        let ghost c0v = crate::json::json_view(c0);
        let ghost c1v = crate::json::json_view(c1);
        let mut pairvec: Vec<Json> = Vec::new();
        pairvec.push(c0);
        pairvec.push(c1);
        let ghost pv = pairvec@;
        let e = Json::Arr(pairvec);
        proof {
            lemma_jsons_view(pv);
            assert(c0v == SpecJson::Text(v.deep_view()[i as int].0));
            assert(c1v == SpecJson::Text(v.deep_view()[i as int].1));
            assert(jsons_view(pv) =~= seq![c0v, c1v]);
            assert(crate::json::json_view(e) =~~= spec_genpair_to_json(v.deep_view()[i as int]));
        }
        out.push(e);
        i = i + 1;
    }
    proof {
        lemma_jsons_view(out@);
        assert(jsons_view(out@) =~= spec_genpairs_to_json(v.deep_view()));
    }
    out
}

/// Encodes a valued-attribute map as a JSON object.
#[verifier::loop_isolation(false)]
pub fn attr_entries_to_json(v: &Vec<(String, (String, crate::wire::LocationID))>) -> (r: Vec<(
    String,
    Json,
)>)
    ensures
        jpairs_view(r@) == spec_attr_entries_to_json(v.deep_view()),
{
    proof {
        lemma_attr_entries_to_json(v.deep_view());
    }
    let n: usize = v.len();
    let mut out: Vec<(String, Json)> = Vec::new();
    let mut i: usize = 0;
    while i < n
        invariant
            0 <= i <= n,
            out@.len() == i,
            jpairs_view(out@).len() == i,
            forall|k: int|
                0 <= k < i ==> #[trigger] jpairs_view(out@)[k] == spec_attr_entries_to_json(
                    v.deep_view(),
                )[k],
        decreases n - i,
    {
        let c0 = Json::Text(v[i].1.0.clone());
        let c1 = Json::Text(v[i].1.1.0.clone());
        let ghost c0v = crate::json::json_view(c0);
        let ghost c1v = crate::json::json_view(c1);
        let mut pairvec: Vec<Json> = Vec::new();
        pairvec.push(c0);
        pairvec.push(c1);
        let ghost pv = pairvec@;
        let entry = (v[i].0.clone(), Json::Arr(pairvec));
        let ghost out0 = out@;
        out.push(entry);
        proof {
            lemma_jsons_view(pv);
            lemma_jpairs_view(out@);
            lemma_jpairs_view(out0);
            assert(c0v == SpecJson::Text(v.deep_view()[i as int].1.0));
            assert(c1v == SpecJson::Text(v.deep_view()[i as int].1.1));
            assert(jsons_view(pv) =~= seq![c0v, c1v]);
            assert(jpairs_view(out@)[i as int] == (entry.0@, crate::json::json_view(entry.1)));
            assert(jpairs_view(out@)[i as int] =~~= spec_attr_entries_to_json(v.deep_view())[
                i as int]);
            assert(forall|k: int|
                0 <= k < i ==> #[trigger] jpairs_view(out@)[k] == jpairs_view(out0)[k]);
        }
        i = i + 1;
    }
    proof {
        lemma_jpairs_view(out@);
        assert(jpairs_view(out@) =~= spec_attr_entries_to_json(v.deep_view()));
    }
    out
}

/// Encodes a flag map as a JSON object.
#[verifier::loop_isolation(false)]
pub fn flag_entries_to_json(v: &Vec<(String, crate::wire::LocationID)>) -> (r: Vec<(
    String,
    Json,
)>)
    ensures
        jpairs_view(r@) == spec_flag_entries_to_json(v.deep_view()),
{
    proof {
        lemma_flag_entries_to_json(v.deep_view());
    }
    let n: usize = v.len();
    let mut out: Vec<(String, Json)> = Vec::new();
    let mut i: usize = 0;
    while i < n
        invariant
            0 <= i <= n,
            out@.len() == i,
            jpairs_view(out@).len() == i,
            forall|k: int|
                0 <= k < i ==> #[trigger] jpairs_view(out@)[k] == spec_flag_entries_to_json(
                    v.deep_view(),
                )[k],
        decreases n - i,
    {
        let entry = (v[i].0.clone(), Json::Text(v[i].1.0.clone()));
        let ghost out0 = out@;
        out.push(entry);
        proof {
            lemma_jpairs_view(out@);
            lemma_jpairs_view(out0);
            assert(jpairs_view(out@)[i as int] =~~= spec_flag_entries_to_json(v.deep_view())[
                i as int]);
            assert(forall|k: int|
                0 <= k < i ==> #[trigger] jpairs_view(out@)[k] == jpairs_view(out0)[k]);
        }
        i = i + 1;
    }
    proof {
        lemma_jpairs_view(out@);
        assert(jpairs_view(out@) =~= spec_flag_entries_to_json(v.deep_view()));
    }
    out
}

/// Pushes the six attribute pairs of a bag onto an object under
/// construction.
#[verifier::loop_isolation(false)]
pub fn push_attrs_pairs(out: &mut Vec<(String, Json)>, a: &crate::wire::Attrs)
    ensures
        jpairs_view(final(out)@) == jpairs_view(old(out)@) + spec_attrs_pairs(a@),
{
    let docs_json = match &a.rust_docs {
        Some(d) => Json::Text(d.clone()),
        None => Json::Null,
    };
    let gens = genpairs_to_json(&a.rust_generics);
    let sa = attr_entries_to_json(&a.serde_attrs);
    let sf = flag_entries_to_json(&a.serde_flags);
    let ca = attr_entries_to_json(&a.codegen_attrs);
    let cf = flag_entries_to_json(&a.codegen_flags);
    let ghost gensv = gens@;
    let ghost sav = sa@;
    let ghost sfv = sf@;
    let ghost cav = ca@;
    let ghost cfv = cf@;
    out.push(("rust_docs".to_owned(), docs_json));
    out.push(("rust_generics".to_owned(), Json::Arr(gens)));
    out.push(("serde_attrs".to_owned(), Json::Obj(sa)));
    out.push(("serde_flags".to_owned(), Json::Obj(sf)));
    out.push(("codegen_attrs".to_owned(), Json::Obj(ca)));
    out.push(("codegen_flags".to_owned(), Json::Obj(cf)));
    proof {
        lemma_jpairs_view(out@);
        lemma_jpairs_view(old(out)@);
        assert(jpairs_view(out@) =~= jpairs_view(old(out)@) + spec_attrs_pairs(a@)) by {
            assert(forall|k: int|
                0 <= k < old(out)@.len() ==> out@[k] == #[trigger] old(out)@[k]);
            let base = old(out)@.len() as int;
            assert(out@[base].1 == docs_json);
            assert(crate::json::json_view(docs_json) == spec_docs_to_json(a@.rust_docs));
            assert(crate::json::json_view(out@[base + 1].1) == SpecJson::Arr(
                jsons_view(gensv),
            ));
            assert(crate::json::json_view(out@[base + 2].1) == SpecJson::Obj(
                jpairs_view(sav),
            ));
            assert(crate::json::json_view(out@[base + 3].1) == SpecJson::Obj(
                jpairs_view(sfv),
            ));
            assert(crate::json::json_view(out@[base + 4].1) == SpecJson::Obj(
                jpairs_view(cav),
            ));
            assert(crate::json::json_view(out@[base + 5].1) == SpecJson::Obj(
                jpairs_view(cfv),
            ));
        }
    }
}

/// Decodes a generic-parameter list from a JSON array.
#[verifier::loop_isolation(false)]
pub fn json_to_genpairs(elems: &Vec<Json>) -> (r: Result<
    Vec<(String, crate::wire::LocationID)>,
    (),
>)
    ensures
        (r matches Ok(v) ==> spec_json_to_genpairs(jsons_view(elems@)) == Some(v.deep_view())),
        r is Err ==> spec_json_to_genpairs(jsons_view(elems@)) is None,
{
    proof {
        lemma_jsons_view(elems@);
    }
    let n: usize = elems.len();
    let mut out: Vec<(String, crate::wire::LocationID)> = Vec::new();
    let mut i: usize = 0;
    proof {
        assert(jsons_view(elems@).skip(0) =~= jsons_view(elems@));
        if let Some(ps) = spec_json_to_genpairs(jsons_view(elems@)) {
            assert(out.deep_view() + ps =~= ps);
        }
    }
    while i < n
        invariant
            0 <= i <= n,
            out@.len() == i,
            (match spec_json_to_genpairs(jsons_view(elems@).skip(i as int)) {
                Some(ps) => spec_json_to_genpairs(jsons_view(elems@)) == Some(
                    out.deep_view() + ps,
                ),
                None => spec_json_to_genpairs(jsons_view(elems@)) is None,
            }),
        decreases n - i,
    {
        proof {
            assert(jsons_view(elems@).skip(i as int)[0] == jsons_view(elems@)[i as int]);
            assert(jsons_view(elems@).skip(i as int).drop_first() =~= jsons_view(elems@).skip(
                i + 1,
            ));
        }
        let p = match &elems[i] {
            Json::Arr(parts) => {
                proof {
                    lemma_jsons_view(parts@);
                }
                if parts.len() != 2 {
                    return Err(());
                }
                match (&parts[0], &parts[1]) {
                    (Json::Text(nm), Json::Text(loc)) => (
                        nm.clone(),
                        crate::wire::LocationID(loc.clone()),
                    ),
                    _ => {
                        return Err(());
                    },
                }
            },
            _ => {
                return Err(());
            },
        };
        let ghost out0 = out.deep_view();
        let ghost pvv = p.deep_view();
        out.push(p);
        proof {
            assert(out.deep_view() =~= out0.push(pvv));
            assert(pvv == spec_json_to_genpair(jsons_view(elems@)[i as int])->0);
            if let Some(ps) = spec_json_to_genpairs(jsons_view(elems@).skip(i + 1)) {
                assert(spec_json_to_genpairs(jsons_view(elems@).skip(i as int)) == Some(
                    seq![pvv] + ps,
                ));
                assert(out.deep_view() + ps =~= out0 + (seq![pvv] + ps));
            }
        }
        i = i + 1;
    }
    proof {
        assert(jsons_view(elems@).skip(n as int) =~= Seq::<SpecJson>::empty());
        assert(spec_json_to_genpairs(Seq::<SpecJson>::empty()) == Some(Seq::<(
            Seq<char>,
            Seq<char>,
        )>::empty()));
        assert(out.deep_view() + Seq::<(Seq<char>, Seq<char>)>::empty() =~= out.deep_view());
    }
    Ok(out)
}

/// Decodes a valued-attribute map from a JSON object.
#[verifier::loop_isolation(false)]
pub fn json_to_attr_entries(pairs: &Vec<(String, Json)>) -> (r: Result<
    Vec<(String, (String, crate::wire::LocationID))>,
    (),
>)
    ensures
        (r matches Ok(v) ==> spec_json_to_attr_entries(jpairs_view(pairs@)) == Some(
            v.deep_view(),
        )),
        r is Err ==> spec_json_to_attr_entries(jpairs_view(pairs@)) is None,
{
    proof {
        lemma_jpairs_view(pairs@);
    }
    let n: usize = pairs.len();
    let mut out: Vec<(String, (String, crate::wire::LocationID))> = Vec::new();
    let mut i: usize = 0;
    proof {
        assert(jpairs_view(pairs@).skip(0) =~= jpairs_view(pairs@));
        if let Some(ps) = spec_json_to_attr_entries(jpairs_view(pairs@)) {
            assert(out.deep_view() + ps =~= ps);
        }
    }
    while i < n
        invariant
            0 <= i <= n,
            out@.len() == i,
            (match spec_json_to_attr_entries(jpairs_view(pairs@).skip(i as int)) {
                Some(ps) => spec_json_to_attr_entries(jpairs_view(pairs@)) == Some(
                    out.deep_view() + ps,
                ),
                None => spec_json_to_attr_entries(jpairs_view(pairs@)) is None,
            }),
        decreases n - i,
    {
        proof {
            assert(jpairs_view(pairs@).skip(i as int)[0] == jpairs_view(pairs@)[i as int]);
            assert(jpairs_view(pairs@).skip(i as int).drop_first() =~= jpairs_view(pairs@).skip(
                i + 1,
            ));
        }
        let e = match &pairs[i].1 {
            Json::Arr(parts) => {
                proof {
                    lemma_jsons_view(parts@);
                }
                if parts.len() != 2 {
                    return Err(());
                }
                match (&parts[0], &parts[1]) {
                    (Json::Text(val), Json::Text(loc)) => (
                        pairs[i].0.clone(),
                        (val.clone(), crate::wire::LocationID(loc.clone())),
                    ),
                    _ => {
                        return Err(());
                    },
                }
            },
            _ => {
                return Err(());
            },
        };
        let ghost out0 = out.deep_view();
        let ghost evv = e.deep_view();
        out.push(e);
        proof {
            assert(out.deep_view() =~= out0.push(evv));
            if let Some(ps) = spec_json_to_attr_entries(jpairs_view(pairs@).skip(i + 1)) {
                assert(spec_json_to_attr_entries(jpairs_view(pairs@).skip(i as int)) == Some(
                    seq![evv] + ps,
                ));
                assert(out.deep_view() + ps =~= out0 + (seq![evv] + ps));
            }
        }
        i = i + 1;
    }
    proof {
        assert(jpairs_view(pairs@).skip(n as int) =~= Seq::<(Seq<char>, SpecJson)>::empty());
        assert(spec_json_to_attr_entries(Seq::<(Seq<char>, SpecJson)>::empty()) == Some(Seq::<(
            Seq<char>,
            (Seq<char>, Seq<char>),
        )>::empty()));
        assert(out.deep_view() + Seq::<(Seq<char>, (Seq<char>, Seq<char>))>::empty()
            =~= out.deep_view());
    }
    Ok(out)
}

/// Decodes a flag map from a JSON object.
#[verifier::loop_isolation(false)]
pub fn json_to_flag_entries(pairs: &Vec<(String, Json)>) -> (r: Result<
    Vec<(String, crate::wire::LocationID)>,
    (),
>)
    ensures
        (r matches Ok(v) ==> spec_json_to_flag_entries(jpairs_view(pairs@)) == Some(
            v.deep_view(),
        )),
        r is Err ==> spec_json_to_flag_entries(jpairs_view(pairs@)) is None,
{
    proof {
        lemma_jpairs_view(pairs@);
    }
    let n: usize = pairs.len();
    let mut out: Vec<(String, crate::wire::LocationID)> = Vec::new();
    let mut i: usize = 0;
    proof {
        assert(jpairs_view(pairs@).skip(0) =~= jpairs_view(pairs@));
        if let Some(ps) = spec_json_to_flag_entries(jpairs_view(pairs@)) {
            assert(out.deep_view() + ps =~= ps);
        }
    }
    while i < n
        invariant
            0 <= i <= n,
            out@.len() == i,
            (match spec_json_to_flag_entries(jpairs_view(pairs@).skip(i as int)) {
                Some(ps) => spec_json_to_flag_entries(jpairs_view(pairs@)) == Some(
                    out.deep_view() + ps,
                ),
                None => spec_json_to_flag_entries(jpairs_view(pairs@)) is None,
            }),
        decreases n - i,
    {
        proof {
            assert(jpairs_view(pairs@).skip(i as int)[0] == jpairs_view(pairs@)[i as int]);
            assert(jpairs_view(pairs@).skip(i as int).drop_first() =~= jpairs_view(pairs@).skip(
                i + 1,
            ));
        }
        let e = match &pairs[i].1 {
            Json::Text(loc) => (pairs[i].0.clone(), crate::wire::LocationID(loc.clone())),
            _ => {
                return Err(());
            },
        };
        let ghost out0 = out.deep_view();
        let ghost evv = e.deep_view();
        out.push(e);
        proof {
            assert(out.deep_view() =~= out0.push(evv));
            if let Some(ps) = spec_json_to_flag_entries(jpairs_view(pairs@).skip(i + 1)) {
                assert(spec_json_to_flag_entries(jpairs_view(pairs@).skip(i as int)) == Some(
                    seq![evv] + ps,
                ));
                assert(out.deep_view() + ps =~= out0 + (seq![evv] + ps));
            }
        }
        i = i + 1;
    }
    proof {
        assert(jpairs_view(pairs@).skip(n as int) =~= Seq::<(Seq<char>, SpecJson)>::empty());
        assert(spec_json_to_flag_entries(Seq::<(Seq<char>, SpecJson)>::empty()) == Some(Seq::<(
            Seq<char>,
            Seq<char>,
        )>::empty()));
        assert(out.deep_view() + Seq::<(Seq<char>, Seq<char>)>::empty() =~= out.deep_view());
    }
    Ok(out)
}

/// Decodes the six attribute pairs at the given position of an object.
#[verifier::loop_isolation(false)]
pub fn json_to_attrs_at(pairs: &Vec<(String, Json)>, i: usize) -> (r: Result<
    crate::wire::Attrs,
    (),
>)
    requires
        i + 6 <= pairs@.len(),
    ensures
        (r matches Ok(a) ==> spec_json_to_attrs(jpairs_view(pairs@).subrange(i as int, i + 6))
            == Some(a@)),
        r is Err ==> spec_json_to_attrs(jpairs_view(pairs@).subrange(i as int, i + 6)) is None,
{
    proof {
        lemma_jpairs_view(pairs@);
        assert(forall|k: int|
            0 <= k < 6 ==> jpairs_view(pairs@).subrange(i as int, i + 6)[k] == #[trigger]
                jpairs_view(pairs@)[i + k]);
    }
    let n: usize = pairs.len();
    let ghost slice = jpairs_view(pairs@).subrange(i as int, i + 6);
    if !(str_eq(pairs[i].0.as_str(), "rust_docs") && str_eq(
        pairs[i + 1].0.as_str(),
        "rust_generics",
    ) && str_eq(pairs[i + 2].0.as_str(), "serde_attrs") && str_eq(
        pairs[i + 3].0.as_str(),
        "serde_flags",
    ) && str_eq(pairs[i + 4].0.as_str(), "codegen_attrs") && str_eq(
        pairs[i + 5].0.as_str(),
        "codegen_flags",
    )) {
        return Err(());
    }
    let rust_docs = match &pairs[i].1 {
        Json::Null => None,
        Json::Text(d) => Some(d.clone()),
        _ => {
            return Err(());
        },
    };
    let rust_generics = match &pairs[i + 1].1 {
        Json::Arr(elems) => {
            match json_to_genpairs(elems) {
                Ok(v) => v,
                Err(()) => {
                    return Err(());
                },
            }
        },
        _ => {
            return Err(());
        },
    };
    let serde_attrs = match &pairs[i + 2].1 {
        Json::Obj(ps) => {
            match json_to_attr_entries(ps) {
                Ok(v) => v,
                Err(()) => {
                    return Err(());
                },
            }
        },
        _ => {
            return Err(());
        },
    };
    let serde_flags = match &pairs[i + 3].1 {
        Json::Obj(ps) => {
            match json_to_flag_entries(ps) {
                Ok(v) => v,
                Err(()) => {
                    return Err(());
                },
            }
        },
        _ => {
            return Err(());
        },
    };
    let codegen_attrs = match &pairs[i + 4].1 {
        Json::Obj(ps) => {
            match json_to_attr_entries(ps) {
                Ok(v) => v,
                Err(()) => {
                    return Err(());
                },
            }
        },
        _ => {
            return Err(());
        },
    };
    let codegen_flags = match &pairs[i + 5].1 {
        Json::Obj(ps) => {
            match json_to_flag_entries(ps) {
                Ok(v) => v,
                Err(()) => {
                    return Err(());
                },
            }
        },
        _ => {
            return Err(());
        },
    };
    let a = crate::wire::Attrs {
        rust_docs,
        rust_generics,
        serde_attrs,
        serde_flags,
        codegen_attrs,
        codegen_flags,
    };
    proof {
        assert(spec_json_to_attrs(slice) =~~= Some(a@));
    }
    Ok(a)
}

/// The JSON encoding of an enum representation.
pub open spec fn spec_repr_to_json(r: crate::wire::SpecEnumRepresentation) -> SpecJson {
    match r {
        crate::wire::SpecEnumRepresentation::External => SpecJson::Text("External"@),
        crate::wire::SpecEnumRepresentation::Untagged => SpecJson::Text("Untagged"@),
        crate::wire::SpecEnumRepresentation::Tagged { tag, tag_location, content, content_location } =>
            SpecJson::Obj(
            seq![
                (
                    "Tagged"@,
                    SpecJson::Obj(
                        seq![
                            ("tag"@, SpecJson::Text(tag)),
                            ("tag_location"@, SpecJson::Text(tag_location)),
                            ("content"@, spec_docs_to_json(content)),
                            ("content_location"@, spec_docs_to_json(content_location)),
                        ],
                    ),
                ),
            ],
        ),
    }
}

/// Decodes an enum representation.
pub open spec fn spec_json_to_repr(j: SpecJson) -> Option<
    crate::wire::SpecEnumRepresentation,
> {
    match j {
        SpecJson::Text(name) => {
            if name == "External"@ {
                Some(crate::wire::SpecEnumRepresentation::External)
            } else if name == "Untagged"@ {
                Some(crate::wire::SpecEnumRepresentation::Untagged)
            } else {
                None
            }
        },
        SpecJson::Obj(pairs) => {
            if pairs.len() == 1 && pairs[0].0 == "Tagged"@ && pairs[0].1 is Obj {
                let inner = pairs[0].1->Obj_0;
                if inner.len() == 4 && inner[0].0 == "tag"@ && inner[0].1 is Text && inner[1].0
                    == "tag_location"@ && inner[1].1 is Text && inner[2].0 == "content"@
                    && inner[3].0 == "content_location"@ {
                    match (spec_json_to_docs(inner[2].1), spec_json_to_docs(inner[3].1)) {
                        (Some(content), Some(content_location)) => Some(
                            crate::wire::SpecEnumRepresentation::Tagged {
                                tag: inner[0].1->Text_0,
                                tag_location: inner[1].1->Text_0,
                                content,
                                content_location,
                            },
                        ),
                        _ => None,
                    }
                } else {
                    None
                }
            } else {
                None
            }
        },
        _ => None,
    }
}

/// Decoding an encoded enum representation yields it back.
pub proof fn lemma_repr_json_round(r: crate::wire::SpecEnumRepresentation)
    ensures
        spec_json_to_repr(spec_repr_to_json(r)) == Some(r),
{
    reveal_strlit("External");
    reveal_strlit("Untagged");
    reveal_strlit("Tagged");
    assert("External"@[0] == 'E');
    assert("Untagged"@[0] == 'U');
    assert("External"@.len() == 8);
    assert("Untagged"@.len() == 8);
    assert(spec_json_to_repr(spec_repr_to_json(r)) =~~= Some(r));
}

/// The JSON object of a named field: its name, location, attribute pairs
/// and format.
pub open spec fn spec_field_to_json(f: crate::wire::SpecNamedField) -> SpecJson {
    SpecJson::Obj(
        seq![("id"@, SpecJson::Text(f.id)), ("id_location"@, SpecJson::Text(f.id_location))]
            + spec_attrs_pairs(f.attrs) + seq![("format"@, spec_format_to_json(f.format))],
    )
}

/// Decodes a named field.
pub open spec fn spec_json_to_field(j: SpecJson) -> Option<crate::wire::SpecNamedField> {
    match j {
        SpecJson::Obj(pairs) => {
            if pairs.len() == 9 && pairs[0].0 == "id"@ && pairs[0].1 is Text && pairs[1].0
                == "id_location"@ && pairs[1].1 is Text && pairs[8].0 == "format"@ {
                match (spec_json_to_attrs(pairs.subrange(2, 8)), spec_json_to_format(
                    pairs[8].1,
                )) {
                    (Some(attrs), Some(format)) => Some(
                        crate::wire::SpecNamedField {
                            id: pairs[0].1->Text_0,
                            id_location: pairs[1].1->Text_0,
                            attrs,
                            format,
                        },
                    ),
                    _ => None,
                }
            } else {
                None
            }
        },
        _ => None,
    }
}

/// Decoding an encoded named field yields it back.
pub proof fn lemma_field_json_round(f: crate::wire::SpecNamedField)
    ensures
        spec_json_to_field(spec_field_to_json(f)) == Some(f),
{
    lemma_attrs_json_round(f.attrs);
    lemma_format_json_round(f.format);
    let pairs = seq![("id"@, SpecJson::Text(f.id)), ("id_location"@, SpecJson::Text(
        f.id_location,
    ))] + spec_attrs_pairs(f.attrs) + seq![("format"@, spec_format_to_json(f.format))];
    assert(pairs.len() == 9);
    assert(pairs.subrange(2, 8) =~= spec_attrs_pairs(f.attrs));
    assert(pairs[8] == ("format"@, spec_format_to_json(f.format)));
    assert(spec_json_to_field(spec_field_to_json(f)) =~~= Some(f));
}

/// The JSON encodings of a field list.
pub open spec fn spec_fields_to_json(v: Seq<crate::wire::SpecNamedField>) -> Seq<SpecJson>
    decreases v,
{
    if v.len() == 0 {
        Seq::empty()
    } else {
        seq![spec_field_to_json(v[0])] + spec_fields_to_json(v.drop_first())
    }
}

/// Decodes a field list.
pub open spec fn spec_json_to_fields(elems: Seq<SpecJson>) -> Option<
    Seq<crate::wire::SpecNamedField>,
>
    decreases elems,
{
    if elems.len() == 0 {
        Some(Seq::empty())
    } else {
        match spec_json_to_field(elems[0]) {
            Some(f) => match spec_json_to_fields(elems.drop_first()) {
                Some(fs) => Some(seq![f] + fs),
                None => None,
            },
            None => None,
        }
    }
}

/// `spec_fields_to_json` encodes element by element.
pub proof fn lemma_fields_to_json(v: Seq<crate::wire::SpecNamedField>)
    ensures
        spec_fields_to_json(v).len() == v.len(),
        forall|i: int|
            0 <= i < v.len() ==> #[trigger] spec_fields_to_json(v)[i] == spec_field_to_json(
                v[i],
            ),
    decreases v.len(),
{
    if v.len() > 0 {
        lemma_fields_to_json(v.drop_first());
    }
}

/// Decoding an encoded field list yields it back.
pub proof fn lemma_fields_json_round(v: Seq<crate::wire::SpecNamedField>)
    ensures
        spec_json_to_fields(spec_fields_to_json(v)) == Some(v),
    decreases v,
{
    if v.len() == 0 {
        assert(spec_fields_to_json(v) =~= Seq::<SpecJson>::empty());
    } else {
        lemma_field_json_round(v[0]);
        lemma_fields_json_round(v.drop_first());
        let e = spec_fields_to_json(v);
        assert(e[0] == spec_field_to_json(v[0]));
        assert(e.drop_first() =~= spec_fields_to_json(v.drop_first()));
        assert(seq![v[0]] + v.drop_first() =~= v);
    }
}

/// The JSON encoding of a variant payload.
pub open spec fn spec_vf_to_json(v: crate::wire::SpecVariantFormat) -> SpecJson {
    match v {
        crate::wire::SpecVariantFormat::Unit => SpecJson::Text("Unit"@),
        crate::wire::SpecVariantFormat::NewType(f) => SpecJson::Obj(
            seq![("NewType"@, spec_format_to_json(*f))],
        ),
        crate::wire::SpecVariantFormat::Tuple(fs) => SpecJson::Obj(
            seq![("Tuple"@, SpecJson::Arr(spec_formats_to_json(fs)))],
        ),
        crate::wire::SpecVariantFormat::Struct { fields } => SpecJson::Obj(
            seq![
                (
                    "Struct"@,
                    SpecJson::Obj(
                        seq![("fields"@, SpecJson::Arr(spec_fields_to_json(fields)))],
                    ),
                ),
            ],
        ),
    }
}

/// Decodes a variant payload.
pub open spec fn spec_json_to_vf(j: SpecJson) -> Option<crate::wire::SpecVariantFormat> {
    match j {
        SpecJson::Text(name) => {
            if name == "Unit"@ {
                Some(crate::wire::SpecVariantFormat::Unit)
            } else {
                None
            }
        },
        SpecJson::Obj(pairs) => {
            if pairs.len() != 1 {
                None
            } else if pairs[0].0 == "NewType"@ {
                match spec_json_to_format(pairs[0].1) {
                    Some(f) => Some(crate::wire::SpecVariantFormat::NewType(Box::new(f))),
                    None => None,
                }
            } else if pairs[0].0 == "Tuple"@ {
                match pairs[0].1 {
                    SpecJson::Arr(elems) => match spec_json_to_formats(elems) {
                        Some(fs) => Some(crate::wire::SpecVariantFormat::Tuple(fs)),
                        None => None,
                    },
                    _ => None,
                }
            } else if pairs[0].0 == "Struct"@ {
                match pairs[0].1 {
                    SpecJson::Obj(inner) => {
                        if inner.len() == 1 && inner[0].0 == "fields"@ && inner[0].1 is Arr {
                            match spec_json_to_fields(inner[0].1->Arr_0) {
                                Some(fields) => Some(
                                    crate::wire::SpecVariantFormat::Struct { fields },
                                ),
                                None => None,
                            }
                        } else {
                            None
                        }
                    },
                    _ => None,
                }
            } else {
                None
            }
        },
        _ => None,
    }
}

/// Decoding an encoded variant payload yields it back.
pub proof fn lemma_vf_json_round(v: crate::wire::SpecVariantFormat)
    ensures
        spec_json_to_vf(spec_vf_to_json(v)) == Some(v),
{
    reveal_strlit("Unit");
    reveal_strlit("NewType");
    reveal_strlit("Tuple");
    reveal_strlit("Struct");
    reveal_strlit("fields");
    assert("Unit"@.len() == 4);
    assert("NewType"@.len() == 7);
    assert("Tuple"@.len() == 5);
    assert("Struct"@.len() == 6);
    match v {
        crate::wire::SpecVariantFormat::NewType(f) => {
            lemma_format_json_round(*f);
        },
        crate::wire::SpecVariantFormat::Tuple(fs) => {
            lemma_formats_json_round(fs);
        },
        crate::wire::SpecVariantFormat::Struct { fields } => {
            lemma_fields_json_round(fields);
        },
        _ => {},
    }
    assert(spec_json_to_vf(spec_vf_to_json(v)) =~~= Some(v));
}

/// The JSON object of a named variant.
pub open spec fn spec_variant_to_json(v: crate::wire::SpecNamedVariant) -> SpecJson {
    SpecJson::Obj(
        seq![("id"@, SpecJson::Text(v.id)), ("id_location"@, SpecJson::Text(v.id_location))]
            + spec_attrs_pairs(v.attrs) + seq![("variant_format"@, spec_vf_to_json(
            v.variant_format,
        ))],
    )
}

/// Decodes a named variant.
pub open spec fn spec_json_to_variant(j: SpecJson) -> Option<crate::wire::SpecNamedVariant> {
    match j {
        SpecJson::Obj(pairs) => {
            if pairs.len() == 9 && pairs[0].0 == "id"@ && pairs[0].1 is Text && pairs[1].0
                == "id_location"@ && pairs[1].1 is Text && pairs[8].0 == "variant_format"@ {
                match (spec_json_to_attrs(pairs.subrange(2, 8)), spec_json_to_vf(pairs[8].1)) {
                    (Some(attrs), Some(variant_format)) => Some(
                        crate::wire::SpecNamedVariant {
                            id: pairs[0].1->Text_0,
                            id_location: pairs[1].1->Text_0,
                            attrs,
                            variant_format,
                        },
                    ),
                    _ => None,
                }
            } else {
                None
            }
        },
        _ => None,
    }
}

/// Decoding an encoded named variant yields it back.
pub proof fn lemma_variant_json_round(v: crate::wire::SpecNamedVariant)
    ensures
        spec_json_to_variant(spec_variant_to_json(v)) == Some(v),
{
    lemma_attrs_json_round(v.attrs);
    lemma_vf_json_round(v.variant_format);
    let pairs = seq![("id"@, SpecJson::Text(v.id)), ("id_location"@, SpecJson::Text(
        v.id_location,
    ))] + spec_attrs_pairs(v.attrs) + seq![("variant_format"@, spec_vf_to_json(
        v.variant_format,
    ))];
    assert(pairs.len() == 9);
    assert(pairs.subrange(2, 8) =~= spec_attrs_pairs(v.attrs));
    assert(pairs[8] == ("variant_format"@, spec_vf_to_json(v.variant_format)));
    assert(spec_json_to_variant(spec_variant_to_json(v)) =~~= Some(v));
}

/// The JSON encodings of a variant list.
pub open spec fn spec_variants_to_json(v: Seq<crate::wire::SpecNamedVariant>) -> Seq<SpecJson>
    decreases v,
{
    if v.len() == 0 {
        Seq::empty()
    } else {
        seq![spec_variant_to_json(v[0])] + spec_variants_to_json(v.drop_first())
    }
}

/// Decodes a variant list.
pub open spec fn spec_json_to_variants(elems: Seq<SpecJson>) -> Option<
    Seq<crate::wire::SpecNamedVariant>,
>
    decreases elems,
{
    if elems.len() == 0 {
        Some(Seq::empty())
    } else {
        match spec_json_to_variant(elems[0]) {
            Some(v) => match spec_json_to_variants(elems.drop_first()) {
                Some(vs) => Some(seq![v] + vs),
                None => None,
            },
            None => None,
        }
    }
}

/// `spec_variants_to_json` encodes element by element.
pub proof fn lemma_variants_to_json(v: Seq<crate::wire::SpecNamedVariant>)
    ensures
        spec_variants_to_json(v).len() == v.len(),
        forall|i: int|
            0 <= i < v.len() ==> #[trigger] spec_variants_to_json(v)[i] == spec_variant_to_json(
                v[i],
            ),
    decreases v.len(),
{
    if v.len() > 0 {
        lemma_variants_to_json(v.drop_first());
    }
}

/// Decoding an encoded variant list yields it back.
pub proof fn lemma_variants_json_round(v: Seq<crate::wire::SpecNamedVariant>)
    ensures
        spec_json_to_variants(spec_variants_to_json(v)) == Some(v),
    decreases v,
{
    if v.len() == 0 {
        assert(spec_variants_to_json(v) =~= Seq::<SpecJson>::empty());
    } else {
        lemma_variant_json_round(v[0]);
        lemma_variants_json_round(v.drop_first());
        let e = spec_variants_to_json(v);
        assert(e[0] == spec_variant_to_json(v[0]));
        assert(e.drop_first() =~= spec_variants_to_json(v.drop_first()));
        assert(seq![v[0]] + v.drop_first() =~= v);
    }
}

/// The JSON encoding of a container kind.
pub open spec fn spec_container_to_json(c: crate::wire::SpecContainerFormat) -> SpecJson {
    match c {
        crate::wire::SpecContainerFormat::UnitStruct => SpecJson::Text("UnitStruct"@),
        crate::wire::SpecContainerFormat::NewTypeStruct(f) => SpecJson::Obj(
            seq![("NewTypeStruct"@, spec_format_to_json(*f))],
        ),
        crate::wire::SpecContainerFormat::TupleStruct(fs) => SpecJson::Obj(
            seq![("TupleStruct"@, SpecJson::Arr(spec_formats_to_json(fs)))],
        ),
        crate::wire::SpecContainerFormat::Struct { fields } => SpecJson::Obj(
            seq![
                (
                    "Struct"@,
                    SpecJson::Obj(
                        seq![("fields"@, SpecJson::Arr(spec_fields_to_json(fields)))],
                    ),
                ),
            ],
        ),
        crate::wire::SpecContainerFormat::Enum { repr, variants } => SpecJson::Obj(
            seq![
                (
                    "Enum"@,
                    SpecJson::Obj(
                        seq![
                            ("repr"@, spec_repr_to_json(repr)),
                            ("variants"@, SpecJson::Arr(spec_variants_to_json(variants))),
                        ],
                    ),
                ),
            ],
        ),
    }
}

/// Decodes a container kind.
pub open spec fn spec_json_to_container(j: SpecJson) -> Option<
    crate::wire::SpecContainerFormat,
> {
    match j {
        SpecJson::Text(name) => {
            if name == "UnitStruct"@ {
                Some(crate::wire::SpecContainerFormat::UnitStruct)
            } else {
                None
            }
        },
        SpecJson::Obj(pairs) => {
            if pairs.len() != 1 {
                None
            } else if pairs[0].0 == "NewTypeStruct"@ {
                match spec_json_to_format(pairs[0].1) {
                    Some(f) => Some(crate::wire::SpecContainerFormat::NewTypeStruct(Box::new(f))),
                    None => None,
                }
            } else if pairs[0].0 == "TupleStruct"@ {
                match pairs[0].1 {
                    SpecJson::Arr(elems) => match spec_json_to_formats(elems) {
                        Some(fs) => Some(crate::wire::SpecContainerFormat::TupleStruct(fs)),
                        None => None,
                    },
                    _ => None,
                }
            } else if pairs[0].0 == "Struct"@ {
                match pairs[0].1 {
                    SpecJson::Obj(inner) => {
                        if inner.len() == 1 && inner[0].0 == "fields"@ && inner[0].1 is Arr {
                            match spec_json_to_fields(inner[0].1->Arr_0) {
                                Some(fields) => Some(
                                    crate::wire::SpecContainerFormat::Struct { fields },
                                ),
                                None => None,
                            }
                        } else {
                            None
                        }
                    },
                    _ => None,
                }
            } else if pairs[0].0 == "Enum"@ {
                match pairs[0].1 {
                    SpecJson::Obj(inner) => {
                        if inner.len() == 2 && inner[0].0 == "repr"@ && inner[1].0 == "variants"@
                            && inner[1].1 is Arr {
                            match (spec_json_to_repr(inner[0].1), spec_json_to_variants(
                                inner[1].1->Arr_0,
                            )) {
                                (Some(repr), Some(variants)) => Some(
                                    crate::wire::SpecContainerFormat::Enum { repr, variants },
                                ),
                                _ => None,
                            }
                        } else {
                            None
                        }
                    },
                    _ => None,
                }
            } else {
                None
            }
        },
        _ => None,
    }
}

/// Decoding an encoded container kind yields it back.
pub proof fn lemma_container_json_round(c: crate::wire::SpecContainerFormat)
    ensures
        spec_json_to_container(spec_container_to_json(c)) == Some(c),
{
    reveal_strlit("UnitStruct");
    reveal_strlit("NewTypeStruct");
    reveal_strlit("TupleStruct");
    reveal_strlit("Struct");
    reveal_strlit("Enum");
    reveal_strlit("fields");
    reveal_strlit("repr");
    reveal_strlit("variants");
    assert("UnitStruct"@.len() == 10);
    assert("NewTypeStruct"@.len() == 13);
    assert("TupleStruct"@.len() == 11);
    assert("Struct"@.len() == 6);
    assert("Enum"@.len() == 4);
    match c {
        crate::wire::SpecContainerFormat::NewTypeStruct(f) => {
            lemma_format_json_round(*f);
        },
        crate::wire::SpecContainerFormat::TupleStruct(fs) => {
            lemma_formats_json_round(fs);
        },
        crate::wire::SpecContainerFormat::Struct { fields } => {
            lemma_fields_json_round(fields);
        },
        crate::wire::SpecContainerFormat::Enum { repr, variants } => {
            lemma_repr_json_round(repr);
            lemma_variants_json_round(variants);
        },
        _ => {},
    }
    assert(spec_json_to_container(spec_container_to_json(c)) =~~= Some(c));
}

/// The JSON object of a function parameter.
pub open spec fn spec_param_to_json(p: crate::wire::SpecFunctionParameter) -> SpecJson {
    SpecJson::Obj(
        seq![("id"@, SpecJson::Text(p.id)), ("id_location"@, SpecJson::Text(p.id_location))]
            + spec_attrs_pairs(p.attrs) + seq![("format"@, spec_format_to_json(p.format))],
    )
}

/// Decodes a function parameter.
pub open spec fn spec_json_to_param(j: SpecJson) -> Option<
    crate::wire::SpecFunctionParameter,
> {
    match j {
        SpecJson::Obj(pairs) => {
            if pairs.len() == 9 && pairs[0].0 == "id"@ && pairs[0].1 is Text && pairs[1].0
                == "id_location"@ && pairs[1].1 is Text && pairs[8].0 == "format"@ {
                match (spec_json_to_attrs(pairs.subrange(2, 8)), spec_json_to_format(
                    pairs[8].1,
                )) {
                    (Some(attrs), Some(format)) => Some(
                        crate::wire::SpecFunctionParameter {
                            id: pairs[0].1->Text_0,
                            id_location: pairs[1].1->Text_0,
                            attrs,
                            format,
                        },
                    ),
                    _ => None,
                }
            } else {
                None
            }
        },
        _ => None,
    }
}

/// Decoding an encoded function parameter yields it back.
pub proof fn lemma_param_json_round(p: crate::wire::SpecFunctionParameter)
    ensures
        spec_json_to_param(spec_param_to_json(p)) == Some(p),
{
    lemma_attrs_json_round(p.attrs);
    lemma_format_json_round(p.format);
    let pairs = seq![("id"@, SpecJson::Text(p.id)), ("id_location"@, SpecJson::Text(
        p.id_location,
    ))] + spec_attrs_pairs(p.attrs) + seq![("format"@, spec_format_to_json(p.format))];
    assert(pairs.len() == 9);
    assert(pairs.subrange(2, 8) =~= spec_attrs_pairs(p.attrs));
    assert(pairs[8] == ("format"@, spec_format_to_json(p.format)));
    assert(spec_json_to_param(spec_param_to_json(p)) =~~= Some(p));
}

/// The JSON encodings of a parameter list.
pub open spec fn spec_params_to_json(v: Seq<crate::wire::SpecFunctionParameter>) -> Seq<
    SpecJson,
>
    decreases v,
{
    if v.len() == 0 {
        Seq::empty()
    } else {
        seq![spec_param_to_json(v[0])] + spec_params_to_json(v.drop_first())
    }
}

/// Decodes a parameter list.
pub open spec fn spec_json_to_params(elems: Seq<SpecJson>) -> Option<
    Seq<crate::wire::SpecFunctionParameter>,
>
    decreases elems,
{
    if elems.len() == 0 {
        Some(Seq::empty())
    } else {
        match spec_json_to_param(elems[0]) {
            Some(p) => match spec_json_to_params(elems.drop_first()) {
                Some(ps) => Some(seq![p] + ps),
                None => None,
            },
            None => None,
        }
    }
}

/// `spec_params_to_json` encodes element by element.
pub proof fn lemma_params_to_json(v: Seq<crate::wire::SpecFunctionParameter>)
    ensures
        spec_params_to_json(v).len() == v.len(),
        forall|i: int|
            0 <= i < v.len() ==> #[trigger] spec_params_to_json(v)[i] == spec_param_to_json(
                v[i],
            ),
    decreases v.len(),
{
    if v.len() > 0 {
        lemma_params_to_json(v.drop_first());
    }
}

/// Decoding an encoded parameter list yields it back.
pub proof fn lemma_params_json_round(v: Seq<crate::wire::SpecFunctionParameter>)
    ensures
        spec_json_to_params(spec_params_to_json(v)) == Some(v),
    decreases v,
{
    if v.len() == 0 {
        assert(spec_params_to_json(v) =~= Seq::<SpecJson>::empty());
    } else {
        lemma_param_json_round(v[0]);
        lemma_params_json_round(v.drop_first());
        let e = spec_params_to_json(v);
        assert(e[0] == spec_param_to_json(v[0]));
        assert(e.drop_first() =~= spec_params_to_json(v.drop_first()));
        assert(seq![v[0]] + v.drop_first() =~= v);
    }
}

/// The JSON object of a function shape.
pub open spec fn spec_funformat_to_json(ff: crate::wire::SpecFunctionFormat) -> SpecJson {
    SpecJson::Obj(
        seq![
            ("is_async"@, SpecJson::Bool(ff.is_async)),
            (
                "self_opt"@,
                (match ff.self_opt {
                    Some(p) => spec_param_to_json(p),
                    None => SpecJson::Null,
                }),
            ),
            ("params"@, SpecJson::Arr(spec_params_to_json(ff.params))),
            ("return_type"@, spec_format_to_json(*ff.return_type)),
        ],
    )
}

/// Decodes a function shape.
pub open spec fn spec_json_to_funformat(j: SpecJson) -> Option<
    crate::wire::SpecFunctionFormat,
> {
    match j {
        SpecJson::Obj(pairs) => {
            if pairs.len() == 4 && pairs[0].0 == "is_async"@ && pairs[0].1 is Bool && pairs[1].0
                == "self_opt"@ && pairs[2].0 == "params"@ && pairs[2].1 is Arr && pairs[3].0
                == "return_type"@ {
                let self_opt_dec: Option<Option<crate::wire::SpecFunctionParameter>> = (match
                    pairs[1].1 {
                    SpecJson::Null => Some(None),
                    _ => (match spec_json_to_param(pairs[1].1) {
                        Some(p) => Some(Some(p)),
                        None => None,
                    }),
                });
                match (self_opt_dec, spec_json_to_params(pairs[2].1->Arr_0), spec_json_to_format(
                    pairs[3].1,
                )) {
                    (Some(self_opt), Some(params), Some(ret)) => Some(
                        crate::wire::SpecFunctionFormat {
                            is_async: pairs[0].1->Bool_0,
                            self_opt,
                            params,
                            return_type: Box::new(ret),
                        },
                    ),
                    _ => None,
                }
            } else {
                None
            }
        },
        _ => None,
    }
}

/// Decoding an encoded function shape yields it back.
pub proof fn lemma_funformat_json_round(ff: crate::wire::SpecFunctionFormat)
    ensures
        spec_json_to_funformat(spec_funformat_to_json(ff)) == Some(ff),
{
    lemma_params_json_round(ff.params);
    lemma_format_json_round(*ff.return_type);
    match ff.self_opt {
        Some(p) => {
            lemma_param_json_round(p);
            assert(!(spec_param_to_json(p) is Null));
        },
        None => {},
    }
    assert(spec_json_to_funformat(spec_funformat_to_json(ff)) =~~= Some(ff));
}

/// The JSON object of one container declaration.
pub open spec fn spec_decl_to_json(d: crate::wire::SpecInputDeclaration) -> SpecJson {
    SpecJson::Obj(
        seq![("id"@, SpecJson::Text(d.id)), ("id_location"@, SpecJson::Text(d.id_location))]
            + spec_attrs_pairs(d.attrs) + seq![("container_kind"@, spec_container_to_json(
            d.container_kind,
        ))],
    )
}

/// Decodes one container declaration.
pub open spec fn spec_json_to_decl(j: SpecJson) -> Option<
    crate::wire::SpecInputDeclaration,
> {
    match j {
        SpecJson::Obj(pairs) => {
            if pairs.len() == 9 && pairs[0].0 == "id"@ && pairs[0].1 is Text && pairs[1].0
                == "id_location"@ && pairs[1].1 is Text && pairs[8].0 == "container_kind"@ {
                match (spec_json_to_attrs(pairs.subrange(2, 8)), spec_json_to_container(
                    pairs[8].1,
                )) {
                    (Some(attrs), Some(container_kind)) => Some(
                        crate::wire::SpecInputDeclaration {
                            id: pairs[0].1->Text_0,
                            id_location: pairs[1].1->Text_0,
                            attrs,
                            container_kind,
                        },
                    ),
                    _ => None,
                }
            } else {
                None
            }
        },
        _ => None,
    }
}

/// Decoding an encoded container declaration yields it back.
pub proof fn lemma_decl_json_round(d: crate::wire::SpecInputDeclaration)
    ensures
        spec_json_to_decl(spec_decl_to_json(d)) == Some(d),
{
    lemma_attrs_json_round(d.attrs);
    lemma_container_json_round(d.container_kind);
    let pairs = seq![("id"@, SpecJson::Text(d.id)), ("id_location"@, SpecJson::Text(
        d.id_location,
    ))] + spec_attrs_pairs(d.attrs) + seq![("container_kind"@, spec_container_to_json(
        d.container_kind,
    ))];
    assert(pairs.len() == 9);
    assert(pairs.subrange(2, 8) =~= spec_attrs_pairs(d.attrs));
    assert(pairs[8] == ("container_kind"@, spec_container_to_json(d.container_kind)));
    assert(spec_json_to_decl(spec_decl_to_json(d)) =~~= Some(d));
}

/// The JSON encodings of a declaration list.
pub open spec fn spec_decls_to_json(v: Seq<crate::wire::SpecInputDeclaration>) -> Seq<SpecJson>
    decreases v,
{
    if v.len() == 0 {
        Seq::empty()
    } else {
        seq![spec_decl_to_json(v[0])] + spec_decls_to_json(v.drop_first())
    }
}

/// Decodes a declaration list.
pub open spec fn spec_json_to_decls(elems: Seq<SpecJson>) -> Option<
    Seq<crate::wire::SpecInputDeclaration>,
>
    decreases elems,
{
    if elems.len() == 0 {
        Some(Seq::empty())
    } else {
        match spec_json_to_decl(elems[0]) {
            Some(d) => match spec_json_to_decls(elems.drop_first()) {
                Some(ds) => Some(seq![d] + ds),
                None => None,
            },
            None => None,
        }
    }
}

/// `spec_decls_to_json` encodes element by element.
pub proof fn lemma_decls_to_json(v: Seq<crate::wire::SpecInputDeclaration>)
    ensures
        spec_decls_to_json(v).len() == v.len(),
        forall|i: int|
            0 <= i < v.len() ==> #[trigger] spec_decls_to_json(v)[i] == spec_decl_to_json(v[i]),
    decreases v.len(),
{
    if v.len() > 0 {
        lemma_decls_to_json(v.drop_first());
    }
}

/// Decoding an encoded declaration list yields it back.
pub proof fn lemma_decls_json_round(v: Seq<crate::wire::SpecInputDeclaration>)
    ensures
        spec_json_to_decls(spec_decls_to_json(v)) == Some(v),
    decreases v,
{
    if v.len() == 0 {
        assert(spec_decls_to_json(v) =~= Seq::<SpecJson>::empty());
    } else {
        lemma_decl_json_round(v[0]);
        lemma_decls_json_round(v.drop_first());
        let e = spec_decls_to_json(v);
        assert(e[0] == spec_decl_to_json(v[0]));
        assert(e.drop_first() =~= spec_decls_to_json(v.drop_first()));
        assert(seq![v[0]] + v.drop_first() =~= v);
    }
}

/// The JSON object of one function declaration.
pub open spec fn spec_fundecl_to_json(d: crate::wire::SpecFunctionDeclaration) -> SpecJson {
    SpecJson::Obj(
        seq![("id"@, SpecJson::Text(d.id)), ("id_location"@, SpecJson::Text(d.id_location))]
            + spec_attrs_pairs(d.attrs) + seq![("function"@, spec_funformat_to_json(
            d.function,
        ))],
    )
}

/// Decodes one function declaration.
pub open spec fn spec_json_to_fundecl(j: SpecJson) -> Option<
    crate::wire::SpecFunctionDeclaration,
> {
    match j {
        SpecJson::Obj(pairs) => {
            if pairs.len() == 9 && pairs[0].0 == "id"@ && pairs[0].1 is Text && pairs[1].0
                == "id_location"@ && pairs[1].1 is Text && pairs[8].0 == "function"@ {
                match (spec_json_to_attrs(pairs.subrange(2, 8)), spec_json_to_funformat(
                    pairs[8].1,
                )) {
                    (Some(attrs), Some(function)) => Some(
                        crate::wire::SpecFunctionDeclaration {
                            id: pairs[0].1->Text_0,
                            id_location: pairs[1].1->Text_0,
                            attrs,
                            function,
                        },
                    ),
                    _ => None,
                }
            } else {
                None
            }
        },
        _ => None,
    }
}

/// Decoding an encoded function declaration yields it back.
pub proof fn lemma_fundecl_json_round(d: crate::wire::SpecFunctionDeclaration)
    ensures
        spec_json_to_fundecl(spec_fundecl_to_json(d)) == Some(d),
{
    lemma_attrs_json_round(d.attrs);
    lemma_funformat_json_round(d.function);
    let pairs = seq![("id"@, SpecJson::Text(d.id)), ("id_location"@, SpecJson::Text(
        d.id_location,
    ))] + spec_attrs_pairs(d.attrs) + seq![("function"@, spec_funformat_to_json(d.function))];
    assert(pairs.len() == 9);
    assert(pairs.subrange(2, 8) =~= spec_attrs_pairs(d.attrs));
    assert(pairs[8] == ("function"@, spec_funformat_to_json(d.function)));
    assert(spec_json_to_fundecl(spec_fundecl_to_json(d)) =~~= Some(d));
}

/// The JSON encodings of a function-declaration list.
pub open spec fn spec_fundecls_to_json(v: Seq<crate::wire::SpecFunctionDeclaration>) -> Seq<
    SpecJson,
>
    decreases v,
{
    if v.len() == 0 {
        Seq::empty()
    } else {
        seq![spec_fundecl_to_json(v[0])] + spec_fundecls_to_json(v.drop_first())
    }
}

/// Decodes a function-declaration list.
pub open spec fn spec_json_to_fundecls(elems: Seq<SpecJson>) -> Option<
    Seq<crate::wire::SpecFunctionDeclaration>,
>
    decreases elems,
{
    if elems.len() == 0 {
        Some(Seq::empty())
    } else {
        match spec_json_to_fundecl(elems[0]) {
            Some(d) => match spec_json_to_fundecls(elems.drop_first()) {
                Some(ds) => Some(seq![d] + ds),
                None => None,
            },
            None => None,
        }
    }
}

/// `spec_fundecls_to_json` encodes element by element.
pub proof fn lemma_fundecls_to_json(v: Seq<crate::wire::SpecFunctionDeclaration>)
    ensures
        spec_fundecls_to_json(v).len() == v.len(),
        forall|i: int|
            0 <= i < v.len() ==> #[trigger] spec_fundecls_to_json(v)[i] == spec_fundecl_to_json(
                v[i],
            ),
    decreases v.len(),
{
    if v.len() > 0 {
        lemma_fundecls_to_json(v.drop_first());
    }
}

/// Decoding an encoded function-declaration list yields it back.
pub proof fn lemma_fundecls_json_round(v: Seq<crate::wire::SpecFunctionDeclaration>)
    ensures
        spec_json_to_fundecls(spec_fundecls_to_json(v)) == Some(v),
    decreases v,
{
    if v.len() == 0 {
        assert(spec_fundecls_to_json(v) =~= Seq::<SpecJson>::empty());
    } else {
        lemma_fundecl_json_round(v[0]);
        lemma_fundecls_json_round(v.drop_first());
        let e = spec_fundecls_to_json(v);
        assert(e[0] == spec_fundecl_to_json(v[0]));
        assert(e.drop_first() =~= spec_fundecls_to_json(v.drop_first()));
        assert(seq![v[0]] + v.drop_first() =~= v);
    }
}

/// The JSON object of a whole `Input` document.
pub open spec fn spec_input_to_json(d: crate::wire::SpecInput) -> SpecJson {
    SpecJson::Obj(
        seq![
            ("declarations"@, SpecJson::Arr(spec_decls_to_json(d.declarations))),
            ("functions"@, SpecJson::Arr(spec_fundecls_to_json(d.functions))),
        ],
    )
}

/// Decodes a whole `Input` document.
pub open spec fn spec_json_to_input(j: SpecJson) -> Option<crate::wire::SpecInput> {
    match j {
        SpecJson::Obj(pairs) => {
            if pairs.len() == 2 && pairs[0].0 == "declarations"@ && pairs[0].1 is Arr
                && pairs[1].0 == "functions"@ && pairs[1].1 is Arr {
                match (spec_json_to_decls(pairs[0].1->Arr_0), spec_json_to_fundecls(
                    pairs[1].1->Arr_0,
                )) {
                    (Some(declarations), Some(functions)) => Some(
                        crate::wire::SpecInput { declarations, functions },
                    ),
                    _ => None,
                }
            } else {
                None
            }
        },
        _ => None,
    }
}

/// Decoding an encoded `Input` document yields it back: the structural
/// round trip of the wire documents.
pub proof fn lemma_input_json_round(d: crate::wire::SpecInput)
    ensures
        spec_json_to_input(spec_input_to_json(d)) == Some(d),
{
    lemma_decls_json_round(d.declarations);
    lemma_fundecls_json_round(d.functions);
    assert(spec_json_to_input(spec_input_to_json(d)) =~~= Some(d));
}

/// The full wire text of an `Input` document.
pub open spec fn spec_encode_input(d: crate::wire::SpecInput) -> Seq<char> {
    crate::json::spec_print(spec_input_to_json(d))
}

/// Decodes an `Input` document from wire text.
pub open spec fn spec_decode_input(s: Seq<char>) -> Option<crate::wire::SpecInput> {
    match crate::json::spec_parse_json(s) {
        Some(j) => spec_json_to_input(j),
        None => None,
    }
}

/// Round trip of the wire format: encoding an `Input` document to its wire
/// text and decoding that text yields a structurally equal document.
pub proof fn lemma_input_round_trip(d: crate::wire::SpecInput)
    ensures
        spec_decode_input(spec_encode_input(d)) == Some(d),
{
    crate::json::lemma_json_round_trip(spec_input_to_json(d));
    lemma_input_json_round(d);
}

/// Encodes a named field as its JSON object.
#[verifier::loop_isolation(false)]
pub fn field_to_json(f: &crate::wire::NamedField) -> (r: Json)
    ensures
        r@ == spec_field_to_json(f@),
{
    let mut pairs: Vec<(String, Json)> = Vec::new();
    pairs.push(("id".to_owned(), Json::Text(f.id.clone())));
    pairs.push(("id_location".to_owned(), Json::Text(f.id_location.0.clone())));
    proof {
        lemma_jpairs_view(pairs@);
        assert(jpairs_view(pairs@) =~= seq![
            ("id"@, SpecJson::Text(f.id@)),
            ("id_location"@, SpecJson::Text(f.id_location@)),
        ]);
    }
    push_attrs_pairs(&mut pairs, &f.attrs);
    let ghost gmid = jpairs_view(pairs@);
    let ghost pseq0 = pairs@;
    let fmt = format_to_json(&f.format);
    let ghost fmtv = fmt@;
    pairs.push(("format".to_owned(), fmt));
    let r = Json::Obj(pairs);
    proof {
        lemma_jpairs_view(r->Obj_0@);
        lemma_jpairs_view(pseq0);
        assert(jpairs_view(r->Obj_0@) =~= gmid.push(("format"@, fmtv)));
        assert(jpairs_view(r->Obj_0@) =~= seq![
            ("id"@, SpecJson::Text(f.id@)),
            ("id_location"@, SpecJson::Text(f.id_location@)),
        ] + spec_attrs_pairs(f.attrs@) + seq![("format"@, spec_format_to_json(f.format@))]);
        assert(r@ =~~= spec_field_to_json(f@));
    }
    r
}

/// Encodes a field list.
#[verifier::loop_isolation(false)]
pub fn fields_to_json(v: &Vec<crate::wire::NamedField>) -> (r: Vec<Json>)
    ensures
        jsons_view(r@) == spec_fields_to_json(v.deep_view()),
{
    proof {
        lemma_fields_to_json(v.deep_view());
    }
    let n: usize = v.len();
    let mut out: Vec<Json> = Vec::new();
    let mut i: usize = 0;
    while i < n
        invariant
            0 <= i <= n,
            out@.len() == i,
            forall|k: int|
                0 <= k < i ==> #[trigger] crate::json::json_view(out@[k]) == spec_field_to_json(
                    v.deep_view()[k],
                ),
        decreases n - i,
    {
        let e = field_to_json(&v[i]);
        out.push(e);
        i = i + 1;
    }
    proof {
        lemma_jsons_view(out@);
        assert(jsons_view(out@) =~= spec_fields_to_json(v.deep_view()));
    }
    out
}

/// Encodes a variant payload.
pub fn vf_to_json(v: &crate::wire::VariantFormat) -> (r: Json)
    ensures
        r@ == spec_vf_to_json(v@),
{
    match v {
        crate::wire::VariantFormat::Unit => Json::Text("Unit".to_owned()),
        crate::wire::VariantFormat::NewType(f) => {
            let payload = format_to_json(f);
            let mut outer: Vec<(String, Json)> = Vec::new();
            outer.push(("NewType".to_owned(), payload));
            let r = Json::Obj(outer);
            proof {
                lemma_jpairs_view(r->Obj_0@);
                assert(r@ =~~= spec_vf_to_json(v@));
            }
            r
        },
        crate::wire::VariantFormat::Tuple(fs) => {
            proof {
                crate::schema::lemma_fmts_view_eq_deep(*fs);
            }
            let elems = crate::codec::formats_to_json(fs);
            let ghost elemsv = elems@;
            let mut outer: Vec<(String, Json)> = Vec::new();
            outer.push(("Tuple".to_owned(), Json::Arr(elems)));
            let r = Json::Obj(outer);
            proof {
                lemma_jpairs_view(r->Obj_0@);
                assert(jpairs_view(r->Obj_0@) =~~= seq![
                    ("Tuple"@, SpecJson::Arr(jsons_view(elemsv))),
                ]);
                assert(r@ =~~= spec_vf_to_json(v@));
            }
            r
        },
        crate::wire::VariantFormat::Struct { fields } => {
            let fj = fields_to_json(fields);
            let ghost fjv = fj@;
            let mut inner: Vec<(String, Json)> = Vec::new();
            inner.push(("fields".to_owned(), Json::Arr(fj)));
            let ghost innerv = inner@;
            let mut outer: Vec<(String, Json)> = Vec::new();
            outer.push(("Struct".to_owned(), Json::Obj(inner)));
            let r = Json::Obj(outer);
            proof {
                lemma_jpairs_view(r->Obj_0@);
                lemma_jpairs_view(innerv);
                assert(jpairs_view(innerv) =~~= seq![
                    ("fields"@, SpecJson::Arr(jsons_view(fjv))),
                ]);
                assert(jpairs_view(r->Obj_0@) =~~= seq![
                    ("Struct"@, SpecJson::Obj(jpairs_view(innerv))),
                ]);
                assert(r@ =~~= spec_vf_to_json(v@));
            }
            r
        },
    }
}

/// Encodes a list of formats as JSON values.
#[verifier::loop_isolation(false)]
pub fn formats_to_json(v: &Vec<Format>) -> (r: Vec<Json>)
    ensures
        jsons_view(r@) == spec_formats_to_json(crate::schema::fmts_view(v@)),
{
    proof {
        lemma_fmts_view(v@);
        lemma_formats_to_json(fmts_view(v@));
    }
    let n: usize = v.len();
    let mut out: Vec<Json> = Vec::new();
    let mut i: usize = 0;
    while i < n
        invariant
            0 <= i <= n,
            out@.len() == i,
            forall|k: int|
                0 <= k < i ==> #[trigger] crate::json::json_view(out@[k])
                    == spec_format_to_json(fmts_view(v@)[k]),
        decreases n - i,
    {
        let e = format_to_json(&v[i]);
        out.push(e);
        i = i + 1;
    }
    proof {
        lemma_jsons_view(out@);
        assert(jsons_view(out@) =~= spec_formats_to_json(fmts_view(v@)));
    }
    out
}

/// Encodes an enum representation.
pub fn repr_to_json(rep: &crate::wire::EnumRepresentation) -> (r: Json)
    ensures
        r@ == spec_repr_to_json(rep@),
{
    match rep {
        crate::wire::EnumRepresentation::External => Json::Text("External".to_owned()),
        crate::wire::EnumRepresentation::Untagged => Json::Text("Untagged".to_owned()),
        crate::wire::EnumRepresentation::Tagged { tag, tag_location, content, content_location } => {
            let content_json = match content {
                Some(c) => Json::Text(c.clone()),
                None => Json::Null,
            };
            let content_loc_json = match content_location {
                Some(c) => Json::Text(c.0.clone()),
                None => Json::Null,
            };
            let mut inner: Vec<(String, Json)> = Vec::new();
            inner.push(("tag".to_owned(), Json::Text(tag.clone())));
            inner.push(("tag_location".to_owned(), Json::Text(tag_location.0.clone())));
            inner.push(("content".to_owned(), content_json));
            inner.push(("content_location".to_owned(), content_loc_json));
            let ghost innerv = inner@;
            let mut outer: Vec<(String, Json)> = Vec::new();
            outer.push(("Tagged".to_owned(), Json::Obj(inner)));
            let r = Json::Obj(outer);
            proof {
                lemma_jpairs_view(r->Obj_0@);
                lemma_jpairs_view(innerv);
                assert(jpairs_view(innerv) =~~= seq![
                    ("tag"@, SpecJson::Text(tag@)),
                    ("tag_location"@, SpecJson::Text(tag_location@)),
                    ("content"@, spec_docs_to_json(rep@->Tagged_content)),
                    ("content_location"@, spec_docs_to_json(rep@->Tagged_content_location)),
                ]);
                assert(jpairs_view(r->Obj_0@) =~~= seq![
                    ("Tagged"@, SpecJson::Obj(jpairs_view(innerv))),
                ]);
                assert(r@ =~~= spec_repr_to_json(rep@));
            }
            r
        },
    }
}

/// Encodes a named variant as its JSON object.
pub fn variant_to_json(v: &crate::wire::NamedVariant) -> (r: Json)
    ensures
        r@ == spec_variant_to_json(v@),
{
    let mut pairs: Vec<(String, Json)> = Vec::new();
    pairs.push(("id".to_owned(), Json::Text(v.id.clone())));
    pairs.push(("id_location".to_owned(), Json::Text(v.id_location.0.clone())));
    proof {
        lemma_jpairs_view(pairs@);
        assert(jpairs_view(pairs@) =~= seq![
            ("id"@, SpecJson::Text(v.id@)),
            ("id_location"@, SpecJson::Text(v.id_location@)),
        ]);
    }
    push_attrs_pairs(&mut pairs, &v.attrs);
    let ghost gmid = jpairs_view(pairs@);
    let ghost pseq0 = pairs@;
    let vf = vf_to_json(&v.variant_format);
    let ghost vfv = vf@;
    pairs.push(("variant_format".to_owned(), vf));
    let r = Json::Obj(pairs);
    proof {
        lemma_jpairs_view(r->Obj_0@);
        lemma_jpairs_view(pseq0);
        assert(jpairs_view(r->Obj_0@) =~= gmid.push(("variant_format"@, vfv)));
        assert(jpairs_view(r->Obj_0@) =~= seq![
            ("id"@, SpecJson::Text(v.id@)),
            ("id_location"@, SpecJson::Text(v.id_location@)),
        ] + spec_attrs_pairs(v.attrs@) + seq![("variant_format"@, spec_vf_to_json(
            v.variant_format@,
        ))]);
        assert(r@ =~~= spec_variant_to_json(v@));
    }
    r
}

/// Encodes a variant list.
#[verifier::loop_isolation(false)]
pub fn variants_to_json(v: &Vec<crate::wire::NamedVariant>) -> (r: Vec<Json>)
    ensures
        jsons_view(r@) == spec_variants_to_json(v.deep_view()),
{
    proof {
        lemma_variants_to_json(v.deep_view());
    }
    let n: usize = v.len();
    let mut out: Vec<Json> = Vec::new();
    let mut i: usize = 0;
    while i < n
        invariant
            0 <= i <= n,
            out@.len() == i,
            forall|k: int|
                0 <= k < i ==> #[trigger] crate::json::json_view(out@[k])
                    == spec_variant_to_json(v.deep_view()[k]),
        decreases n - i,
    {
        let e = variant_to_json(&v[i]);
        out.push(e);
        i = i + 1;
    }
    proof {
        lemma_jsons_view(out@);
        assert(jsons_view(out@) =~= spec_variants_to_json(v.deep_view()));
    }
    out
}

/// Encodes a container kind.
pub fn container_to_json(c: &crate::wire::ContainerFormat) -> (r: Json)
    ensures
        r@ == spec_container_to_json(c@),
{
    match c {
        crate::wire::ContainerFormat::UnitStruct => Json::Text("UnitStruct".to_owned()),
        crate::wire::ContainerFormat::NewTypeStruct(f) => {
            let payload = format_to_json(f);
            let mut outer: Vec<(String, Json)> = Vec::new();
            outer.push(("NewTypeStruct".to_owned(), payload));
            let r = Json::Obj(outer);
            proof {
                lemma_jpairs_view(r->Obj_0@);
                assert(r@ =~~= spec_container_to_json(c@));
            }
            r
        },
        crate::wire::ContainerFormat::TupleStruct(fs) => {
            proof {
                crate::schema::lemma_fmts_view_eq_deep(*fs);
            }
            let elems = formats_to_json(fs);
            let ghost elemsv = elems@;
            let mut outer: Vec<(String, Json)> = Vec::new();
            outer.push(("TupleStruct".to_owned(), Json::Arr(elems)));
            let r = Json::Obj(outer);
            proof {
                lemma_jpairs_view(r->Obj_0@);
                assert(jpairs_view(r->Obj_0@) =~~= seq![
                    ("TupleStruct"@, SpecJson::Arr(jsons_view(elemsv))),
                ]);
                assert(r@ =~~= spec_container_to_json(c@));
            }
            r
        },
        crate::wire::ContainerFormat::Struct { fields } => {
            let fj = fields_to_json(fields);
            let ghost fjv = fj@;
            let mut inner: Vec<(String, Json)> = Vec::new();
            inner.push(("fields".to_owned(), Json::Arr(fj)));
            let ghost innerv = inner@;
            let mut outer: Vec<(String, Json)> = Vec::new();
            outer.push(("Struct".to_owned(), Json::Obj(inner)));
            let r = Json::Obj(outer);
            proof {
                lemma_jpairs_view(r->Obj_0@);
                lemma_jpairs_view(innerv);
                assert(jpairs_view(innerv) =~~= seq![
                    ("fields"@, SpecJson::Arr(jsons_view(fjv))),
                ]);
                assert(jpairs_view(r->Obj_0@) =~~= seq![
                    ("Struct"@, SpecJson::Obj(jpairs_view(innerv))),
                ]);
                assert(r@ =~~= spec_container_to_json(c@));
            }
            r
        },
        crate::wire::ContainerFormat::Enum { repr, variants } => {
            let rj = repr_to_json(repr);
            let ghost rjv = rj@;
            let vj = variants_to_json(variants);
            let ghost vjv = vj@;
            let mut inner: Vec<(String, Json)> = Vec::new();
            inner.push(("repr".to_owned(), rj));
            inner.push(("variants".to_owned(), Json::Arr(vj)));
            let ghost innerv = inner@;
            let mut outer: Vec<(String, Json)> = Vec::new();
            outer.push(("Enum".to_owned(), Json::Obj(inner)));
            let r = Json::Obj(outer);
            proof {
                lemma_jpairs_view(r->Obj_0@);
                lemma_jpairs_view(innerv);
                assert(jpairs_view(innerv) =~~= seq![
                    ("repr"@, rjv),
                    ("variants"@, SpecJson::Arr(jsons_view(vjv))),
                ]);
                assert(jpairs_view(r->Obj_0@) =~~= seq![
                    ("Enum"@, SpecJson::Obj(jpairs_view(innerv))),
                ]);
                assert(r@ =~~= spec_container_to_json(c@));
            }
            r
        },
    }
}

/// Encodes one container declaration as its JSON object.
pub fn decl_to_json(d: &crate::wire::InputDeclaration) -> (r: Json)
    ensures
        r@ == spec_decl_to_json(d@),
{
    let mut pairs: Vec<(String, Json)> = Vec::new();
    pairs.push(("id".to_owned(), Json::Text(d.id.clone())));
    pairs.push(("id_location".to_owned(), Json::Text(d.id_location.0.clone())));
    proof {
        lemma_jpairs_view(pairs@);
        assert(jpairs_view(pairs@) =~= seq![
            ("id"@, SpecJson::Text(d.id@)),
            ("id_location"@, SpecJson::Text(d.id_location@)),
        ]);
    }
    push_attrs_pairs(&mut pairs, &d.attrs);
    let ghost gmid = jpairs_view(pairs@);
    let ghost pseq0 = pairs@;
    let ck = container_to_json(&d.container_kind);
    let ghost ckv = ck@;
    pairs.push(("container_kind".to_owned(), ck));
    let r = Json::Obj(pairs);
    proof {
        lemma_jpairs_view(r->Obj_0@);
        lemma_jpairs_view(pseq0);
        assert(jpairs_view(r->Obj_0@) =~= gmid.push(("container_kind"@, ckv)));
        assert(jpairs_view(r->Obj_0@) =~= seq![
            ("id"@, SpecJson::Text(d.id@)),
            ("id_location"@, SpecJson::Text(d.id_location@)),
        ] + spec_attrs_pairs(d.attrs@) + seq![("container_kind"@, spec_container_to_json(
            d.container_kind@,
        ))]);
        assert(r@ =~~= spec_decl_to_json(d@));
    }
    r
}

/// Encodes a function parameter as its JSON object.
pub fn param_to_json(p: &crate::wire::FunctionParameter) -> (r: Json)
    ensures
        r@ == spec_param_to_json(p@),
{
    let mut pairs: Vec<(String, Json)> = Vec::new();
    pairs.push(("id".to_owned(), Json::Text(p.id.clone())));
    pairs.push(("id_location".to_owned(), Json::Text(p.id_location.0.clone())));
    proof {
        lemma_jpairs_view(pairs@);
        assert(jpairs_view(pairs@) =~= seq![
            ("id"@, SpecJson::Text(p.id@)),
            ("id_location"@, SpecJson::Text(p.id_location@)),
        ]);
    }
    push_attrs_pairs(&mut pairs, &p.attrs);
    let ghost gmid = jpairs_view(pairs@);
    let ghost pseq0 = pairs@;
    let fmt = format_to_json(&p.format);
    let ghost fmtv = fmt@;
    pairs.push(("format".to_owned(), fmt));
    let r = Json::Obj(pairs);
    proof {
        lemma_jpairs_view(r->Obj_0@);
        lemma_jpairs_view(pseq0);
        assert(jpairs_view(r->Obj_0@) =~= gmid.push(("format"@, fmtv)));
        assert(jpairs_view(r->Obj_0@) =~= seq![
            ("id"@, SpecJson::Text(p.id@)),
            ("id_location"@, SpecJson::Text(p.id_location@)),
        ] + spec_attrs_pairs(p.attrs@) + seq![("format"@, spec_format_to_json(p.format@))]);
        assert(r@ =~~= spec_param_to_json(p@));
    }
    r
}

/// Encodes a parameter list.
#[verifier::loop_isolation(false)]
pub fn params_to_json(v: &Vec<crate::wire::FunctionParameter>) -> (r: Vec<Json>)
    ensures
        jsons_view(r@) == spec_params_to_json(v.deep_view()),
{
    proof {
        lemma_params_to_json(v.deep_view());
    }
    let n: usize = v.len();
    let mut out: Vec<Json> = Vec::new();
    let mut i: usize = 0;
    while i < n
        invariant
            0 <= i <= n,
            out@.len() == i,
            forall|k: int|
                0 <= k < i ==> #[trigger] crate::json::json_view(out@[k]) == spec_param_to_json(
                    v.deep_view()[k],
                ),
        decreases n - i,
    {
        let e = param_to_json(&v[i]);
        out.push(e);
        i = i + 1;
    }
    proof {
        lemma_jsons_view(out@);
        assert(jsons_view(out@) =~= spec_params_to_json(v.deep_view()));
    }
    out
}

/// Encodes a function shape as its JSON object.
#[verifier::rlimit(100)]
pub fn funformat_to_json(ff: &crate::wire::FunctionFormat) -> (r: Json)
    ensures
        r@ == spec_funformat_to_json(ff@),
{
    let self_json = match &ff.self_opt {
        Some(p) => param_to_json(p),
        None => Json::Null,
    };
    let ps = params_to_json(&ff.params);
    let ghost psv = ps@;
    let ret = format_to_json(&ff.return_type);
    let mut pairs: Vec<(String, Json)> = Vec::new();
    pairs.push(("is_async".to_owned(), Json::Bool(ff.is_async)));
    pairs.push(("self_opt".to_owned(), self_json));
    pairs.push(("params".to_owned(), Json::Arr(ps)));
    pairs.push(("return_type".to_owned(), ret));
    let r = Json::Obj(pairs);
    proof {
        lemma_jpairs_view(r->Obj_0@);
        let target = seq![
            ("is_async"@, SpecJson::Bool(ff@.is_async)),
            (
                "self_opt"@,
                (match ff@.self_opt {
                    Some(p) => spec_param_to_json(p),
                    None => SpecJson::Null,
                }),
            ),
            ("params"@, SpecJson::Arr(spec_params_to_json(ff@.params))),
            ("return_type"@, spec_format_to_json(*ff@.return_type)),
        ];
        assert(jpairs_view(r->Obj_0@) =~~= target);
        assert(r@ == SpecJson::Obj(jpairs_view(r->Obj_0@)));
        assert(spec_funformat_to_json(ff@) is Obj);
        assert(spec_funformat_to_json(ff@)->Obj_0.len() == 4);
        assert(spec_funformat_to_json(ff@)->Obj_0[0] == target[0]);
        assert(spec_funformat_to_json(ff@)->Obj_0[1] == target[1]);
        assert(spec_funformat_to_json(ff@)->Obj_0[2] == target[2]);
        assert(spec_funformat_to_json(ff@)->Obj_0[3] == target[3]);
        assert(spec_funformat_to_json(ff@)->Obj_0 =~= target);
        assert(spec_funformat_to_json(ff@) == SpecJson::Obj(target));
        assert(r@ == spec_funformat_to_json(ff@));
    }
    r
}

/// Encodes one function declaration as its JSON object.
pub fn fundecl_to_json(d: &crate::wire::FunctionDeclaration) -> (r: Json)
    ensures
        r@ == spec_fundecl_to_json(d@),
{
    let mut pairs: Vec<(String, Json)> = Vec::new();
    pairs.push(("id".to_owned(), Json::Text(d.id.clone())));
    pairs.push(("id_location".to_owned(), Json::Text(d.id_location.0.clone())));
    proof {
        lemma_jpairs_view(pairs@);
        assert(jpairs_view(pairs@) =~= seq![
            ("id"@, SpecJson::Text(d.id@)),
            ("id_location"@, SpecJson::Text(d.id_location@)),
        ]);
    }
    push_attrs_pairs(&mut pairs, &d.attrs);
    let ghost gmid = jpairs_view(pairs@);
    let ghost pseq0 = pairs@;
    let ffj = funformat_to_json(&d.function);
    let ghost ffv = ffj@;
    pairs.push(("function".to_owned(), ffj));
    let r = Json::Obj(pairs);
    proof {
        lemma_jpairs_view(r->Obj_0@);
        lemma_jpairs_view(pseq0);
        assert(jpairs_view(r->Obj_0@) =~= gmid.push(("function"@, ffv)));
        assert(jpairs_view(r->Obj_0@) =~= seq![
            ("id"@, SpecJson::Text(d.id@)),
            ("id_location"@, SpecJson::Text(d.id_location@)),
        ] + spec_attrs_pairs(d.attrs@) + seq![("function"@, spec_funformat_to_json(
            d.function@,
        ))]);
        assert(r@ =~~= spec_fundecl_to_json(d@));
    }
    r
}

/// Encodes a declaration list.
#[verifier::loop_isolation(false)]
pub fn decls_to_json(v: &Vec<crate::wire::InputDeclaration>) -> (r: Vec<Json>)
    ensures
        jsons_view(r@) == spec_decls_to_json(v.deep_view()),
{
    proof {
        lemma_decls_to_json(v.deep_view());
    }
    let n: usize = v.len();
    let mut out: Vec<Json> = Vec::new();
    let mut i: usize = 0;
    while i < n
        invariant
            0 <= i <= n,
            out@.len() == i,
            forall|k: int|
                0 <= k < i ==> #[trigger] crate::json::json_view(out@[k]) == spec_decl_to_json(
                    v.deep_view()[k],
                ),
        decreases n - i,
    {
        let e = decl_to_json(&v[i]);
        out.push(e);
        i = i + 1;
    }
    proof {
        lemma_jsons_view(out@);
        assert(jsons_view(out@) =~= spec_decls_to_json(v.deep_view()));
    }
    out
}

/// Encodes a function-declaration list.
#[verifier::loop_isolation(false)]
pub fn fundecls_to_json(v: &Vec<crate::wire::FunctionDeclaration>) -> (r: Vec<Json>)
    ensures
        jsons_view(r@) == spec_fundecls_to_json(v.deep_view()),
{
    proof {
        lemma_fundecls_to_json(v.deep_view());
    }
    let n: usize = v.len();
    let mut out: Vec<Json> = Vec::new();
    let mut i: usize = 0;
    while i < n
        invariant
            0 <= i <= n,
            out@.len() == i,
            forall|k: int|
                0 <= k < i ==> #[trigger] crate::json::json_view(out@[k])
                    == spec_fundecl_to_json(v.deep_view()[k]),
        decreases n - i,
    {
        let e = fundecl_to_json(&v[i]);
        out.push(e);
        i = i + 1;
    }
    proof {
        lemma_jsons_view(out@);
        assert(jsons_view(out@) =~= spec_fundecls_to_json(v.deep_view()));
    }
    out
}

/// Encodes a whole `Input` document as its JSON object.
pub fn input_to_json(d: &crate::wire::Input) -> (r: Json)
    ensures
        r@ == spec_input_to_json(d@),
{
    let decls = decls_to_json(&d.declarations);
    let ghost declsv = decls@;
    let funs = fundecls_to_json(&d.functions);
    let ghost funsv = funs@;
    let mut pairs: Vec<(String, Json)> = Vec::new();
    pairs.push(("declarations".to_owned(), Json::Arr(decls)));
    pairs.push(("functions".to_owned(), Json::Arr(funs)));
    let r = Json::Obj(pairs);
    proof {
        lemma_jpairs_view(r->Obj_0@);
        assert(jpairs_view(r->Obj_0@) =~~= seq![
            ("declarations"@, SpecJson::Arr(jsons_view(declsv))),
            ("functions"@, SpecJson::Arr(jsons_view(funsv))),
        ]);
        assert(r@ =~~= spec_input_to_json(d@));
    }
    r
}

/// Encodes a whole `Input` document as wire text.
pub fn encode_input(d: &crate::wire::Input) -> (r: String)
    ensures
        r@ == spec_encode_input(d@),
{
    let j = input_to_json(d);
    crate::json::print_json(&j)
}

/// Decodes a named field from its JSON object.
#[verifier::loop_isolation(false)]
pub fn json_to_field(j: &Json) -> (r: Result<crate::wire::NamedField, ()>)
    ensures
        (r matches Ok(f) ==> spec_json_to_field(j@) == Some(f@)),
        r is Err ==> spec_json_to_field(j@) is None,
{
    let pairs = match j {
        Json::Obj(pairs) => pairs,
        _ => {
            return Err(());
        },
    };
    proof {
        lemma_jpairs_view(pairs@);
    }
    if pairs.len() != 9 {
        return Err(());
    }
    if !(str_eq(pairs[0].0.as_str(), "id") && str_eq(pairs[1].0.as_str(), "id_location")
        && str_eq(pairs[8].0.as_str(), "format")) {
        return Err(());
    }
    let id = match &pairs[0].1 {
        Json::Text(t) => t.clone(),
        _ => {
            return Err(());
        },
    };
    let id_location = match &pairs[1].1 {
        Json::Text(t) => crate::wire::LocationID(t.clone()),
        _ => {
            return Err(());
        },
    };
    let attrs = match json_to_attrs_at(pairs, 2) {
        Ok(a) => a,
        Err(()) => {
            return Err(());
        },
    };
    let format = match json_to_format(&pairs[8].1) {
        Ok(f) => f,
        Err(()) => {
            return Err(());
        },
    };
    let f = crate::wire::NamedField { id, id_location, attrs, format };
    proof {
        assert(spec_json_to_field(j@) =~~= Some(f@));
    }
    Ok(f)
}

/// Decodes a list via `json_to_field`, element by element.
#[verifier::loop_isolation(false)]
pub fn json_to_fields(elems: &Vec<Json>) -> (r: Result<Vec<crate::wire::NamedField>, ()>)
    ensures
        (r matches Ok(v) ==> spec_json_to_fields(jsons_view(elems@)) == Some(v.deep_view())),
        r is Err ==> spec_json_to_fields(jsons_view(elems@)) is None,
{
    proof {
        lemma_jsons_view(elems@);
    }
    let n: usize = elems.len();
    let mut out: Vec<crate::wire::NamedField> = Vec::new();
    let mut i: usize = 0;
    proof {
        assert(jsons_view(elems@).skip(0) =~= jsons_view(elems@));
        if let Some(ps) = spec_json_to_fields(jsons_view(elems@)) {
            assert(out.deep_view() + ps =~= ps);
        }
    }
    while i < n
        invariant
            0 <= i <= n,
            out@.len() == i,
            (match spec_json_to_fields(jsons_view(elems@).skip(i as int)) {
                Some(ps) => spec_json_to_fields(jsons_view(elems@)) == Some(out.deep_view() + ps),
                None => spec_json_to_fields(jsons_view(elems@)) is None,
            }),
        decreases n - i,
    {
        proof {
            assert(jsons_view(elems@).skip(i as int)[0] == jsons_view(elems@)[i as int]);
            assert(jsons_view(elems@).skip(i as int).drop_first() =~= jsons_view(elems@).skip(
                i + 1,
            ));
        }
        let item = match json_to_field(&elems[i]) {
            Ok(x) => x,
            Err(()) => {
                return Err(());
            },
        };
        let ghost out0 = out.deep_view();
        let ghost xv = item.deep_view();
        out.push(item);
        proof {
            assert(out.deep_view() =~= out0.push(xv));
            if let Some(ps) = spec_json_to_fields(jsons_view(elems@).skip(i + 1)) {
                assert(spec_json_to_fields(jsons_view(elems@).skip(i as int)) == Some(seq![xv] + ps));
                assert(out.deep_view() + ps =~= out0 + (seq![xv] + ps));
            }
        }
        i = i + 1;
    }
    proof {
        assert(jsons_view(elems@).skip(n as int) =~= Seq::<SpecJson>::empty());
        assert(out.deep_view() + spec_json_to_fields(jsons_view(elems@).skip(n as int))->0
            =~= out.deep_view());
    }
    Ok(out)
}

/// Decodes a variant payload.
#[verifier::loop_isolation(false)]
pub fn json_to_vf(j: &Json) -> (r: Result<crate::wire::VariantFormat, ()>)
    ensures
        (r matches Ok(v) ==> spec_json_to_vf(j@) == Some(v@)),
        r is Err ==> spec_json_to_vf(j@) is None,
{
    match j {
        Json::Text(name) => {
            if str_eq(name.as_str(), "Unit") {
                Ok(crate::wire::VariantFormat::Unit)
            } else {
                Err(())
            }
        },
        Json::Obj(pairs) => {
            proof {
                lemma_jpairs_view(pairs@);
            }
            if pairs.len() != 1 {
                return Err(());
            }
            let tag = pairs[0].0.as_str();
            if str_eq(tag, "NewType") {
                match json_to_format(&pairs[0].1) {
                    Ok(f) => Ok(crate::wire::VariantFormat::NewType(Box::new(f))),
                    Err(()) => Err(()),
                }
            } else if str_eq(tag, "Tuple") {
                match &pairs[0].1 {
                    Json::Arr(elems) => {
                        match json_to_formats(elems) {
                            Ok(fs) => {
                                proof {
                                    crate::schema::lemma_fmts_view_eq_deep(fs);
                                }
                                Ok(crate::wire::VariantFormat::Tuple(fs))
                            },
                            Err(()) => Err(()),
                        }
                    },
                    _ => Err(()),
                }
            } else if str_eq(tag, "Struct") {
                match &pairs[0].1 {
                    Json::Obj(inner) => {
                        proof {
                            lemma_jpairs_view(inner@);
                        }
                        if inner.len() == 1 && str_eq(inner[0].0.as_str(), "fields") {
                            match &inner[0].1 {
                                Json::Arr(elems) => {
                                    match json_to_fields(elems) {
                                        Ok(fields) => Ok(
                                            crate::wire::VariantFormat::Struct { fields },
                                        ),
                                        Err(()) => Err(()),
                                    }
                                },
                                _ => Err(()),
                            }
                        } else {
                            Err(())
                        }
                    },
                    _ => Err(()),
                }
            } else {
                Err(())
            }
        },
        _ => Err(()),
    }
}

/// Decodes a named variant from its JSON object.
#[verifier::loop_isolation(false)]
pub fn json_to_variant(j: &Json) -> (r: Result<crate::wire::NamedVariant, ()>)
    ensures
        (r matches Ok(v) ==> spec_json_to_variant(j@) == Some(v@)),
        r is Err ==> spec_json_to_variant(j@) is None,
{
    let pairs = match j {
        Json::Obj(pairs) => pairs,
        _ => {
            return Err(());
        },
    };
    proof {
        lemma_jpairs_view(pairs@);
    }
    if pairs.len() != 9 {
        return Err(());
    }
    if !(str_eq(pairs[0].0.as_str(), "id") && str_eq(pairs[1].0.as_str(), "id_location")
        && str_eq(pairs[8].0.as_str(), "variant_format")) {
        return Err(());
    }
    let id = match &pairs[0].1 {
        Json::Text(t) => t.clone(),
        _ => {
            return Err(());
        },
    };
    let id_location = match &pairs[1].1 {
        Json::Text(t) => crate::wire::LocationID(t.clone()),
        _ => {
            return Err(());
        },
    };
    let attrs = match json_to_attrs_at(pairs, 2) {
        Ok(a) => a,
        Err(()) => {
            return Err(());
        },
    };
    let variant_format = match json_to_vf(&pairs[8].1) {
        Ok(f) => f,
        Err(()) => {
            return Err(());
        },
    };
    let v = crate::wire::NamedVariant { id, id_location, attrs, variant_format };
    proof {
        assert(spec_json_to_variant(j@) =~~= Some(v@));
    }
    Ok(v)
}

/// Decodes a list via `json_to_variant`, element by element.
#[verifier::loop_isolation(false)]
pub fn json_to_variants(elems: &Vec<Json>) -> (r: Result<Vec<crate::wire::NamedVariant>, ()>)
    ensures
        (r matches Ok(v) ==> spec_json_to_variants(jsons_view(elems@)) == Some(v.deep_view())),
        r is Err ==> spec_json_to_variants(jsons_view(elems@)) is None,
{
    proof {
        lemma_jsons_view(elems@);
    }
    let n: usize = elems.len();
    let mut out: Vec<crate::wire::NamedVariant> = Vec::new();
    let mut i: usize = 0;
    proof {
        assert(jsons_view(elems@).skip(0) =~= jsons_view(elems@));
        if let Some(ps) = spec_json_to_variants(jsons_view(elems@)) {
            assert(out.deep_view() + ps =~= ps);
        }
    }
    while i < n
        invariant
            0 <= i <= n,
            out@.len() == i,
            (match spec_json_to_variants(jsons_view(elems@).skip(i as int)) {
                Some(ps) => spec_json_to_variants(jsons_view(elems@)) == Some(out.deep_view() + ps),
                None => spec_json_to_variants(jsons_view(elems@)) is None,
            }),
        decreases n - i,
    {
        proof {
            assert(jsons_view(elems@).skip(i as int)[0] == jsons_view(elems@)[i as int]);
            assert(jsons_view(elems@).skip(i as int).drop_first() =~= jsons_view(elems@).skip(
                i + 1,
            ));
        }
        let item = match json_to_variant(&elems[i]) {
            Ok(x) => x,
            Err(()) => {
                return Err(());
            },
        };
        let ghost out0 = out.deep_view();
        let ghost xv = item.deep_view();
        out.push(item);
        proof {
            assert(out.deep_view() =~= out0.push(xv));
            if let Some(ps) = spec_json_to_variants(jsons_view(elems@).skip(i + 1)) {
                assert(spec_json_to_variants(jsons_view(elems@).skip(i as int)) == Some(seq![xv] + ps));
                assert(out.deep_view() + ps =~= out0 + (seq![xv] + ps));
            }
        }
        i = i + 1;
    }
    proof {
        assert(jsons_view(elems@).skip(n as int) =~= Seq::<SpecJson>::empty());
        assert(out.deep_view() + spec_json_to_variants(jsons_view(elems@).skip(n as int))->0
            =~= out.deep_view());
    }
    Ok(out)
}

/// Decodes an enum representation.
#[verifier::loop_isolation(false)]
pub fn json_to_repr(j: &Json) -> (r: Result<crate::wire::EnumRepresentation, ()>)
    ensures
        (r matches Ok(v) ==> spec_json_to_repr(j@) == Some(v@)),
        r is Err ==> spec_json_to_repr(j@) is None,
{
    match j {
        Json::Text(name) => {
            if str_eq(name.as_str(), "External") {
                Ok(crate::wire::EnumRepresentation::External)
            } else if str_eq(name.as_str(), "Untagged") {
                Ok(crate::wire::EnumRepresentation::Untagged)
            } else {
                Err(())
            }
        },
        Json::Obj(pairs) => {
            proof {
                lemma_jpairs_view(pairs@);
            }
            if pairs.len() != 1 || !str_eq(pairs[0].0.as_str(), "Tagged") {
                return Err(());
            }
            let inner = match &pairs[0].1 {
                Json::Obj(inner) => inner,
                _ => {
                    return Err(());
                },
            };
            proof {
                lemma_jpairs_view(inner@);
            }
            if inner.len() != 4 {
                return Err(());
            }
            if !(str_eq(inner[0].0.as_str(), "tag") && str_eq(inner[1].0.as_str(), "tag_location")
                && str_eq(inner[2].0.as_str(), "content") && str_eq(
                inner[3].0.as_str(),
                "content_location",
            )) {
                return Err(());
            }
            let tag = match &inner[0].1 {
                Json::Text(t) => t.clone(),
                _ => {
                    return Err(());
                },
            };
            let tag_location = match &inner[1].1 {
                Json::Text(t) => crate::wire::LocationID(t.clone()),
                _ => {
                    return Err(());
                },
            };
            let content = match &inner[2].1 {
                Json::Null => None,
                Json::Text(t) => Some(t.clone()),
                _ => {
                    return Err(());
                },
            };
            let content_location = match &inner[3].1 {
                Json::Null => None,
                Json::Text(t) => Some(crate::wire::LocationID(t.clone())),
                _ => {
                    return Err(());
                },
            };
            let v = crate::wire::EnumRepresentation::Tagged {
                tag,
                tag_location,
                content,
                content_location,
            };
            proof {
                assert(spec_json_to_repr(j@) =~~= Some(v@));
            }
            Ok(v)
        },
        _ => Err(()),
    }
}

/// Decodes a container kind.
#[verifier::loop_isolation(false)]
pub fn json_to_container(j: &Json) -> (r: Result<crate::wire::ContainerFormat, ()>)
    ensures
        (r matches Ok(c) ==> spec_json_to_container(j@) == Some(c@)),
        r is Err ==> spec_json_to_container(j@) is None,
{
    match j {
        Json::Text(name) => {
            if str_eq(name.as_str(), "UnitStruct") {
                Ok(crate::wire::ContainerFormat::UnitStruct)
            } else {
                Err(())
            }
        },
        Json::Obj(pairs) => {
            proof {
                lemma_jpairs_view(pairs@);
            }
            if pairs.len() != 1 {
                return Err(());
            }
            let tag = pairs[0].0.as_str();
            if str_eq(tag, "NewTypeStruct") {
                match json_to_format(&pairs[0].1) {
                    Ok(f) => Ok(crate::wire::ContainerFormat::NewTypeStruct(Box::new(f))),
                    Err(()) => Err(()),
                }
            } else if str_eq(tag, "TupleStruct") {
                match &pairs[0].1 {
                    Json::Arr(elems) => {
                        match json_to_formats(elems) {
                            Ok(fs) => {
                                proof {
                                    crate::schema::lemma_fmts_view_eq_deep(fs);
                                }
                                Ok(crate::wire::ContainerFormat::TupleStruct(fs))
                            },
                            Err(()) => Err(()),
                        }
                    },
                    _ => Err(()),
                }
            } else if str_eq(tag, "Struct") {
                match &pairs[0].1 {
                    Json::Obj(inner) => {
                        proof {
                            lemma_jpairs_view(inner@);
                        }
                        if inner.len() == 1 && str_eq(inner[0].0.as_str(), "fields") {
                            match &inner[0].1 {
                                Json::Arr(elems) => {
                                    match json_to_fields(elems) {
                                        Ok(fields) => Ok(
                                            crate::wire::ContainerFormat::Struct { fields },
                                        ),
                                        Err(()) => Err(()),
                                    }
                                },
                                _ => Err(()),
                            }
                        } else {
                            Err(())
                        }
                    },
                    _ => Err(()),
                }
            } else if str_eq(tag, "Enum") {
                match &pairs[0].1 {
                    Json::Obj(inner) => {
                        proof {
                            lemma_jpairs_view(inner@);
                        }
                        if inner.len() == 2 && str_eq(inner[0].0.as_str(), "repr") && str_eq(
                            inner[1].0.as_str(),
                            "variants",
                        ) {
                            let repr = match json_to_repr(&inner[0].1) {
                                Ok(rp) => rp,
                                Err(()) => {
                                    return Err(());
                                },
                            };
                            match &inner[1].1 {
                                Json::Arr(elems) => {
                                    match json_to_variants(elems) {
                                        Ok(variants) => Ok(
                                            crate::wire::ContainerFormat::Enum { repr, variants },
                                        ),
                                        Err(()) => Err(()),
                                    }
                                },
                                _ => Err(()),
                            }
                        } else {
                            Err(())
                        }
                    },
                    _ => Err(()),
                }
            } else {
                Err(())
            }
        },
        _ => Err(()),
    }
}

/// Decodes one container declaration from its JSON object.
#[verifier::loop_isolation(false)]
pub fn json_to_decl(j: &Json) -> (r: Result<crate::wire::InputDeclaration, ()>)
    ensures
        (r matches Ok(d) ==> spec_json_to_decl(j@) == Some(d@)),
        r is Err ==> spec_json_to_decl(j@) is None,
{
    let pairs = match j {
        Json::Obj(pairs) => pairs,
        _ => {
            return Err(());
        },
    };
    proof {
        lemma_jpairs_view(pairs@);
    }
    if pairs.len() != 9 {
        return Err(());
    }
    if !(str_eq(pairs[0].0.as_str(), "id") && str_eq(pairs[1].0.as_str(), "id_location")
        && str_eq(pairs[8].0.as_str(), "container_kind")) {
        return Err(());
    }
    let id = match &pairs[0].1 {
        Json::Text(t) => t.clone(),
        _ => {
            return Err(());
        },
    };
    let id_location = match &pairs[1].1 {
        Json::Text(t) => crate::wire::LocationID(t.clone()),
        _ => {
            return Err(());
        },
    };
    let attrs = match json_to_attrs_at(pairs, 2) {
        Ok(a) => a,
        Err(()) => {
            return Err(());
        },
    };
    let container_kind = match json_to_container(&pairs[8].1) {
        Ok(c) => c,
        Err(()) => {
            return Err(());
        },
    };
    let d = crate::wire::InputDeclaration { id, id_location, attrs, container_kind };
    proof {
        assert(spec_json_to_decl(j@) =~~= Some(d@));
    }
    Ok(d)
}

/// Decodes a list via `json_to_decl`, element by element.
#[verifier::loop_isolation(false)]
pub fn json_to_decls(elems: &Vec<Json>) -> (r: Result<Vec<crate::wire::InputDeclaration>, ()>)
    ensures
        (r matches Ok(v) ==> spec_json_to_decls(jsons_view(elems@)) == Some(v.deep_view())),
        r is Err ==> spec_json_to_decls(jsons_view(elems@)) is None,
{
    proof {
        lemma_jsons_view(elems@);
    }
    let n: usize = elems.len();
    let mut out: Vec<crate::wire::InputDeclaration> = Vec::new();
    let mut i: usize = 0;
    proof {
        assert(jsons_view(elems@).skip(0) =~= jsons_view(elems@));
        if let Some(ps) = spec_json_to_decls(jsons_view(elems@)) {
            assert(out.deep_view() + ps =~= ps);
        }
    }
    while i < n
        invariant
            0 <= i <= n,
            out@.len() == i,
            (match spec_json_to_decls(jsons_view(elems@).skip(i as int)) {
                Some(ps) => spec_json_to_decls(jsons_view(elems@)) == Some(out.deep_view() + ps),
                None => spec_json_to_decls(jsons_view(elems@)) is None,
            }),
        decreases n - i,
    {
        proof {
            assert(jsons_view(elems@).skip(i as int)[0] == jsons_view(elems@)[i as int]);
            assert(jsons_view(elems@).skip(i as int).drop_first() =~= jsons_view(elems@).skip(
                i + 1,
            ));
        }
        let item = match json_to_decl(&elems[i]) {
            Ok(x) => x,
            Err(()) => {
                return Err(());
            },
        };
        let ghost out0 = out.deep_view();
        let ghost xv = item.deep_view();
        out.push(item);
        proof {
            assert(out.deep_view() =~= out0.push(xv));
            if let Some(ps) = spec_json_to_decls(jsons_view(elems@).skip(i + 1)) {
                assert(spec_json_to_decls(jsons_view(elems@).skip(i as int)) == Some(seq![xv] + ps));
                assert(out.deep_view() + ps =~= out0 + (seq![xv] + ps));
            }
        }
        i = i + 1;
    }
    proof {
        assert(jsons_view(elems@).skip(n as int) =~= Seq::<SpecJson>::empty());
        assert(out.deep_view() + spec_json_to_decls(jsons_view(elems@).skip(n as int))->0
            =~= out.deep_view());
    }
    Ok(out)
}

/// Decodes a function parameter from its JSON object.
#[verifier::loop_isolation(false)]
pub fn json_to_param(j: &Json) -> (r: Result<crate::wire::FunctionParameter, ()>)
    ensures
        (r matches Ok(p) ==> spec_json_to_param(j@) == Some(p@)),
        r is Err ==> spec_json_to_param(j@) is None,
{
    let pairs = match j {
        Json::Obj(pairs) => pairs,
        _ => {
            return Err(());
        },
    };
    proof {
        lemma_jpairs_view(pairs@);
    }
    if pairs.len() != 9 {
        return Err(());
    }
    if !(str_eq(pairs[0].0.as_str(), "id") && str_eq(pairs[1].0.as_str(), "id_location")
        && str_eq(pairs[8].0.as_str(), "format")) {
        return Err(());
    }
    let id = match &pairs[0].1 {
        Json::Text(t) => t.clone(),
        _ => {
            return Err(());
        },
    };
    let id_location = match &pairs[1].1 {
        Json::Text(t) => crate::wire::LocationID(t.clone()),
        _ => {
            return Err(());
        },
    };
    let attrs = match json_to_attrs_at(pairs, 2) {
        Ok(a) => a,
        Err(()) => {
            return Err(());
        },
    };
    let format = match json_to_format(&pairs[8].1) {
        Ok(f) => f,
        Err(()) => {
            return Err(());
        },
    };
    let p = crate::wire::FunctionParameter { id, id_location, attrs, format };
    proof {
        assert(spec_json_to_param(j@) =~~= Some(p@));
    }
    Ok(p)
}

/// Decodes a list via `json_to_param`, element by element.
#[verifier::loop_isolation(false)]
pub fn json_to_params(elems: &Vec<Json>) -> (r: Result<Vec<crate::wire::FunctionParameter>, ()>)
    ensures
        (r matches Ok(v) ==> spec_json_to_params(jsons_view(elems@)) == Some(v.deep_view())),
        r is Err ==> spec_json_to_params(jsons_view(elems@)) is None,
{
    proof {
        lemma_jsons_view(elems@);
    }
    let n: usize = elems.len();
    let mut out: Vec<crate::wire::FunctionParameter> = Vec::new();
    let mut i: usize = 0;
    proof {
        assert(jsons_view(elems@).skip(0) =~= jsons_view(elems@));
        if let Some(ps) = spec_json_to_params(jsons_view(elems@)) {
            assert(out.deep_view() + ps =~= ps);
        }
    }
    while i < n
        invariant
            0 <= i <= n,
            out@.len() == i,
            (match spec_json_to_params(jsons_view(elems@).skip(i as int)) {
                Some(ps) => spec_json_to_params(jsons_view(elems@)) == Some(out.deep_view() + ps),
                None => spec_json_to_params(jsons_view(elems@)) is None,
            }),
        decreases n - i,
    {
        proof {
            assert(jsons_view(elems@).skip(i as int)[0] == jsons_view(elems@)[i as int]);
            assert(jsons_view(elems@).skip(i as int).drop_first() =~= jsons_view(elems@).skip(
                i + 1,
            ));
        }
        let item = match json_to_param(&elems[i]) {
            Ok(x) => x,
            Err(()) => {
                return Err(());
            },
        };
        let ghost out0 = out.deep_view();
        let ghost xv = item.deep_view();
        out.push(item);
        proof {
            assert(out.deep_view() =~= out0.push(xv));
            if let Some(ps) = spec_json_to_params(jsons_view(elems@).skip(i + 1)) {
                assert(spec_json_to_params(jsons_view(elems@).skip(i as int)) == Some(seq![xv] + ps));
                assert(out.deep_view() + ps =~= out0 + (seq![xv] + ps));
            }
        }
        i = i + 1;
    }
    proof {
        assert(jsons_view(elems@).skip(n as int) =~= Seq::<SpecJson>::empty());
        assert(out.deep_view() + spec_json_to_params(jsons_view(elems@).skip(n as int))->0
            =~= out.deep_view());
    }
    Ok(out)
}

/// Decodes a function shape from its JSON object.
#[verifier::loop_isolation(false)]
pub fn json_to_funformat(j: &Json) -> (r: Result<crate::wire::FunctionFormat, ()>)
    ensures
        (r matches Ok(ff) ==> spec_json_to_funformat(j@) == Some(ff@)),
        r is Err ==> spec_json_to_funformat(j@) is None,
{
    let pairs = match j {
        Json::Obj(pairs) => pairs,
        _ => {
            return Err(());
        },
    };
    proof {
        lemma_jpairs_view(pairs@);
    }
    if pairs.len() != 4 {
        return Err(());
    }
    if !(str_eq(pairs[0].0.as_str(), "is_async") && str_eq(pairs[1].0.as_str(), "self_opt")
        && str_eq(pairs[2].0.as_str(), "params") && str_eq(pairs[3].0.as_str(), "return_type")) {
        return Err(());
    }
    let is_async = match &pairs[0].1 {
        Json::Bool(b) => *b,
        _ => {
            return Err(());
        },
    };
    let self_opt = match &pairs[1].1 {
        Json::Null => None,
        other => {
            match json_to_param(other) {
                Ok(p) => Some(Box::new(p)),
                Err(()) => {
                    return Err(());
                },
            }
        },
    };
    let params = match &pairs[2].1 {
        Json::Arr(elems) => {
            match json_to_params(elems) {
                Ok(ps) => ps,
                Err(()) => {
                    return Err(());
                },
            }
        },
        _ => {
            return Err(());
        },
    };
    let return_type = match json_to_format(&pairs[3].1) {
        Ok(f) => Box::new(f),
        Err(()) => {
            return Err(());
        },
    };
    let ff = crate::wire::FunctionFormat { is_async, self_opt, params, return_type };
    proof {
        assert(spec_json_to_funformat(j@) =~~= Some(ff@));
    }
    Ok(ff)
}

/// Decodes one function declaration from its JSON object.
#[verifier::loop_isolation(false)]
pub fn json_to_fundecl(j: &Json) -> (r: Result<crate::wire::FunctionDeclaration, ()>)
    ensures
        (r matches Ok(d) ==> spec_json_to_fundecl(j@) == Some(d@)),
        r is Err ==> spec_json_to_fundecl(j@) is None,
{
    let pairs = match j {
        Json::Obj(pairs) => pairs,
        _ => {
            return Err(());
        },
    };
    proof {
        lemma_jpairs_view(pairs@);
    }
    if pairs.len() != 9 {
        return Err(());
    }
    if !(str_eq(pairs[0].0.as_str(), "id") && str_eq(pairs[1].0.as_str(), "id_location")
        && str_eq(pairs[8].0.as_str(), "function")) {
        return Err(());
    }
    let id = match &pairs[0].1 {
        Json::Text(t) => t.clone(),
        _ => {
            return Err(());
        },
    };
    let id_location = match &pairs[1].1 {
        Json::Text(t) => crate::wire::LocationID(t.clone()),
        _ => {
            return Err(());
        },
    };
    let attrs = match json_to_attrs_at(pairs, 2) {
        Ok(a) => a,
        Err(()) => {
            return Err(());
        },
    };
    let function = match json_to_funformat(&pairs[8].1) {
        Ok(f) => f,
        Err(()) => {
            return Err(());
        },
    };
    let d = crate::wire::FunctionDeclaration { id, id_location, attrs, function };
    proof {
        assert(spec_json_to_fundecl(j@) =~~= Some(d@));
    }
    Ok(d)
}

/// Decodes a list via `json_to_fundecl`, element by element.
#[verifier::loop_isolation(false)]
pub fn json_to_fundecls(elems: &Vec<Json>) -> (r: Result<Vec<crate::wire::FunctionDeclaration>, ()>)
    ensures
        (r matches Ok(v) ==> spec_json_to_fundecls(jsons_view(elems@)) == Some(v.deep_view())),
        r is Err ==> spec_json_to_fundecls(jsons_view(elems@)) is None,
{
    proof {
        lemma_jsons_view(elems@);
    }
    let n: usize = elems.len();
    let mut out: Vec<crate::wire::FunctionDeclaration> = Vec::new();
    let mut i: usize = 0;
    proof {
        assert(jsons_view(elems@).skip(0) =~= jsons_view(elems@));
        if let Some(ps) = spec_json_to_fundecls(jsons_view(elems@)) {
            assert(out.deep_view() + ps =~= ps);
        }
    }
    while i < n
        invariant
            0 <= i <= n,
            out@.len() == i,
            (match spec_json_to_fundecls(jsons_view(elems@).skip(i as int)) {
                Some(ps) => spec_json_to_fundecls(jsons_view(elems@)) == Some(out.deep_view() + ps),
                None => spec_json_to_fundecls(jsons_view(elems@)) is None,
            }),
        decreases n - i,
    {
        proof {
            assert(jsons_view(elems@).skip(i as int)[0] == jsons_view(elems@)[i as int]);
            assert(jsons_view(elems@).skip(i as int).drop_first() =~= jsons_view(elems@).skip(
                i + 1,
            ));
        }
        let item = match json_to_fundecl(&elems[i]) {
            Ok(x) => x,
            Err(()) => {
                return Err(());
            },
        };
        let ghost out0 = out.deep_view();
        let ghost xv = item.deep_view();
        out.push(item);
        proof {
            assert(out.deep_view() =~= out0.push(xv));
            if let Some(ps) = spec_json_to_fundecls(jsons_view(elems@).skip(i + 1)) {
                assert(spec_json_to_fundecls(jsons_view(elems@).skip(i as int)) == Some(seq![xv] + ps));
                assert(out.deep_view() + ps =~= out0 + (seq![xv] + ps));
            }
        }
        i = i + 1;
    }
    proof {
        assert(jsons_view(elems@).skip(n as int) =~= Seq::<SpecJson>::empty());
        assert(out.deep_view() + spec_json_to_fundecls(jsons_view(elems@).skip(n as int))->0
            =~= out.deep_view());
    }
    Ok(out)
}

/// Decodes a whole `Input` document from its JSON object.
#[verifier::loop_isolation(false)]
pub fn json_to_input(j: &Json) -> (r: Result<crate::wire::Input, ()>)
    ensures
        (r matches Ok(d) ==> spec_json_to_input(j@) == Some(d@)),
        r is Err ==> spec_json_to_input(j@) is None,
{
    let pairs = match j {
        Json::Obj(pairs) => pairs,
        _ => {
            return Err(());
        },
    };
    proof {
        lemma_jpairs_view(pairs@);
    }
    if pairs.len() != 2 {
        return Err(());
    }
    if !(str_eq(pairs[0].0.as_str(), "declarations") && str_eq(
        pairs[1].0.as_str(),
        "functions",
    )) {
        return Err(());
    }
    let declarations = match &pairs[0].1 {
        Json::Arr(elems) => {
            match json_to_decls(elems) {
                Ok(ds) => ds,
                Err(()) => {
                    return Err(());
                },
            }
        },
        _ => {
            return Err(());
        },
    };
    let functions = match &pairs[1].1 {
        Json::Arr(elems) => {
            match json_to_fundecls(elems) {
                Ok(ds) => ds,
                Err(()) => {
                    return Err(());
                },
            }
        },
        _ => {
            return Err(());
        },
    };
    let d = crate::wire::Input { declarations, functions };
    proof {
        assert(spec_json_to_input(j@) =~~= Some(d@));
    }
    Ok(d)
}

/// Decodes a whole `Input` document from wire text.
pub fn decode_input(s: &str) -> (r: Result<crate::wire::Input, ()>)
    ensures
        (r matches Ok(d) ==> spec_decode_input(s@) == Some(d@)),
        r is Err ==> spec_decode_input(s@) is None,
{
    let j = match crate::json::parse_json_text(s) {
        Ok(j) => j,
        Err(()) => {
            return Err(());
        },
    };
    json_to_input(&j)
}

/// The value under the first occurrence of a key in a JSON object, the way
/// a tolerant reader looks fields up: order-insensitive, unknown keys
/// ignored.
pub open spec fn spec_obj_get(pairs: Seq<(Seq<char>, SpecJson)>, key: Seq<char>) -> Option<
    SpecJson,
>
    decreases pairs.len(),
{
    if pairs.len() == 0 {
        None
    } else if pairs[0].0 == key {
        Some(pairs[0].1)
    } else {
        spec_obj_get(pairs.drop_first(), key)
    }
}

/// Looks a key up in a JSON object.
#[verifier::loop_isolation(false)]
pub fn obj_get<'a>(pairs: &'a Vec<(String, Json)>, key: &str) -> (r: Option<&'a Json>)
    ensures
        (match r {
            Some(v) => spec_obj_get(jpairs_view(pairs@), key@) == Some(v@),
            None => spec_obj_get(jpairs_view(pairs@), key@) is None,
        }),
{
    proof {
        lemma_jpairs_view(pairs@);
    }
    let ghost pv = jpairs_view(pairs@);
    let n: usize = pairs.len();
    let mut i: usize = 0;
    proof {
        assert(pv.skip(0) =~= pv);
    }
    while i < n
        invariant
            0 <= i <= n,
            spec_obj_get(pv, key@) == spec_obj_get(pv.skip(i as int), key@),
        decreases n - i,
    {
        proof {
            assert(pv.skip(i as int)[0] == pv[i as int]);
            assert(pv.skip(i as int).drop_first() =~= pv.skip(i + 1));
        }
        if str_eq(pairs[i].0.as_str(), key) {
            return Some(&pairs[i].1);
        }
        i = i + 1;
    }
    proof {
        assert(pv.skip(n as int) =~= Seq::<(Seq<char>, SpecJson)>::empty());
    }
    None
}

/// Decodes one labelled location pair of a diagnostic.
pub open spec fn spec_json_to_label(j: SpecJson) -> Option<(Seq<char>, Seq<char>)> {
    match j {
        SpecJson::Arr(elems) => {
            if elems.len() == 2 && elems[0] is Text && elems[1] is Text {
                Some((elems[0]->Text_0, elems[1]->Text_0))
            } else {
                None
            }
        },
        _ => None,
    }
}

/// Decodes the labelled locations of a diagnostic.
pub open spec fn spec_json_to_labels(elems: Seq<SpecJson>) -> Option<
    Seq<(Seq<char>, Seq<char>)>,
>
    decreases elems,
{
    if elems.len() == 0 {
        Some(Seq::empty())
    } else {
        match spec_json_to_label(elems[0]) {
            Some(l) => match spec_json_to_labels(elems.drop_first()) {
                Some(ls) => Some(seq![l] + ls),
                None => None,
            },
            None => None,
        }
    }
}

/// Decodes one generator diagnostic: its message and labelled locations.
pub open spec fn spec_json_to_message(j: SpecJson) -> Option<
    crate::wire::SpecOutputMessage,
> {
    match j {
        SpecJson::Obj(pairs) => {
            match (spec_obj_get(pairs, "message"@), spec_obj_get(pairs, "labels"@)) {
                (Some(SpecJson::Text(message)), Some(SpecJson::Arr(lab))) => {
                    match spec_json_to_labels(lab) {
                        Some(labels) => Some(
                            crate::wire::SpecOutputMessage { message, labels },
                        ),
                        None => None,
                    }
                },
                _ => None,
            }
        },
        _ => None,
    }
}

/// Decodes a list of generator diagnostics.
pub open spec fn spec_json_to_messages(elems: Seq<SpecJson>) -> Option<
    Seq<crate::wire::SpecOutputMessage>,
>
    decreases elems,
{
    if elems.len() == 0 {
        Some(Seq::empty())
    } else {
        match spec_json_to_message(elems[0]) {
            Some(m) => match spec_json_to_messages(elems.drop_first()) {
                Some(ms) => Some(seq![m] + ms),
                None => None,
            },
            None => None,
        }
    }
}

/// Decodes one file a generator asks to have written.
pub open spec fn spec_json_to_file(j: SpecJson) -> Option<crate::wire::SpecOutputFile> {
    match j {
        SpecJson::Obj(pairs) => {
            match (spec_obj_get(pairs, "path"@), spec_obj_get(pairs, "source"@)) {
                (Some(SpecJson::Text(path)), Some(SpecJson::Text(source))) => Some(
                    crate::wire::SpecOutputFile { path, source },
                ),
                _ => None,
            }
        },
        _ => None,
    }
}

/// Decodes a list of files.
pub open spec fn spec_json_to_files(elems: Seq<SpecJson>) -> Option<
    Seq<crate::wire::SpecOutputFile>,
>
    decreases elems,
{
    if elems.len() == 0 {
        Some(Seq::empty())
    } else {
        match spec_json_to_file(elems[0]) {
            Some(f) => match spec_json_to_files(elems.drop_first()) {
                Some(fs) => Some(seq![f] + fs),
                None => None,
            },
            None => None,
        }
    }
}

/// Decodes a whole `Output` document: errors, warnings and files, looked up
/// by key the way a tolerant reader does.
pub open spec fn spec_json_to_output(j: SpecJson) -> Option<crate::wire::SpecOutput> {
    match j {
        SpecJson::Obj(pairs) => {
            match (
                spec_obj_get(pairs, "errors"@),
                spec_obj_get(pairs, "warnings"@),
                spec_obj_get(pairs, "files"@),
            ) {
                (
                    Some(SpecJson::Arr(ej)),
                    Some(SpecJson::Arr(wj)),
                    Some(SpecJson::Arr(fj)),
                ) => {
                    match (
                        spec_json_to_messages(ej),
                        spec_json_to_messages(wj),
                        spec_json_to_files(fj),
                    ) {
                        (Some(errors), Some(warnings), Some(files)) => Some(
                            crate::wire::SpecOutput { errors, warnings, files },
                        ),
                        _ => None,
                    }
                },
                _ => None,
            }
        },
        _ => None,
    }
}

/// Decodes a whole `Output` document from wire text.
pub open spec fn spec_decode_output(s: Seq<char>) -> Option<crate::wire::SpecOutput> {
    match crate::json::spec_parse_json(s) {
        Some(j) => spec_json_to_output(j),
        None => None,
    }
}

/// Decodes one labelled location pair.
pub fn json_to_label(j: &Json) -> (r: Result<(String, crate::wire::LocationID), ()>)
    ensures
        (r matches Ok(l) ==> spec_json_to_label(j@) == Some(l.deep_view())),
        r is Err ==> spec_json_to_label(j@) is None,
{
    match j {
        Json::Arr(parts) => {
            proof {
                lemma_jsons_view(parts@);
            }
            if parts.len() != 2 {
                return Err(());
            }
            match (&parts[0], &parts[1]) {
                (Json::Text(lbl), Json::Text(loc)) => Ok(
                    (lbl.clone(), crate::wire::LocationID(loc.clone())),
                ),
                _ => Err(()),
            }
        },
        _ => Err(()),
    }
}

/// Decodes the labelled locations of a diagnostic.
#[verifier::loop_isolation(false)]
pub fn json_to_labels(elems: &Vec<Json>) -> (r: Result<
    Vec<(String, crate::wire::LocationID)>,
    (),
>)
    ensures
        (r matches Ok(v) ==> spec_json_to_labels(jsons_view(elems@)) == Some(v.deep_view())),
        r is Err ==> spec_json_to_labels(jsons_view(elems@)) is None,
{
    proof {
        lemma_jsons_view(elems@);
    }
    let n: usize = elems.len();
    let mut out: Vec<(String, crate::wire::LocationID)> = Vec::new();
    let mut i: usize = 0;
    proof {
        assert(jsons_view(elems@).skip(0) =~= jsons_view(elems@));
        if let Some(ps) = spec_json_to_labels(jsons_view(elems@)) {
            assert(out.deep_view() + ps =~= ps);
        }
    }
    while i < n
        invariant
            0 <= i <= n,
            out@.len() == i,
            (match spec_json_to_labels(jsons_view(elems@).skip(i as int)) {
                Some(ps) => spec_json_to_labels(jsons_view(elems@)) == Some(
                    out.deep_view() + ps,
                ),
                None => spec_json_to_labels(jsons_view(elems@)) is None,
            }),
        decreases n - i,
    {
        proof {
            assert(jsons_view(elems@).skip(i as int)[0] == jsons_view(elems@)[i as int]);
            assert(jsons_view(elems@).skip(i as int).drop_first() =~= jsons_view(elems@).skip(
                i + 1,
            ));
        }
        let l = match json_to_label(&elems[i]) {
            Ok(l) => l,
            Err(()) => {
                return Err(());
            },
        };
        let ghost out0 = out.deep_view();
        let ghost lv = l.deep_view();
        out.push(l);
        proof {
            assert(out.deep_view() =~= out0.push(lv));
            if let Some(ps) = spec_json_to_labels(jsons_view(elems@).skip(i + 1)) {
                assert(spec_json_to_labels(jsons_view(elems@).skip(i as int)) == Some(
                    seq![lv] + ps,
                ));
                assert(out.deep_view() + ps =~= out0 + (seq![lv] + ps));
            }
        }
        i = i + 1;
    }
    proof {
        assert(jsons_view(elems@).skip(n as int) =~= Seq::<SpecJson>::empty());
        assert(out.deep_view() + spec_json_to_labels(jsons_view(elems@).skip(n as int))->0
            =~= out.deep_view());
    }
    Ok(out)
}

/// Decodes one generator diagnostic.
pub fn json_to_message(j: &Json) -> (r: Result<crate::wire::OutputMessage, ()>)
    ensures
        (r matches Ok(m) ==> spec_json_to_message(j@) == Some(m@)),
        r is Err ==> spec_json_to_message(j@) is None,
{
    let pairs = match j {
        Json::Obj(pairs) => pairs,
        _ => {
            return Err(());
        },
    };
    let message = match obj_get(pairs, "message") {
        Some(Json::Text(m)) => m.clone(),
        _ => {
            return Err(());
        },
    };
    let labels = match obj_get(pairs, "labels") {
        Some(Json::Arr(elems)) => {
            match json_to_labels(elems) {
                Ok(ls) => ls,
                Err(()) => {
                    return Err(());
                },
            }
        },
        _ => {
            return Err(());
        },
    };
    let m = crate::wire::OutputMessage { message, labels };
    proof {
        assert(spec_json_to_message(j@) =~~= Some(m@));
    }
    Ok(m)
}

/// Decodes a list of generator diagnostics.
#[verifier::loop_isolation(false)]
pub fn json_to_messages(elems: &Vec<Json>) -> (r: Result<Vec<crate::wire::OutputMessage>, ()>)
    ensures
        (r matches Ok(v) ==> spec_json_to_messages(jsons_view(elems@)) == Some(v.deep_view())),
        r is Err ==> spec_json_to_messages(jsons_view(elems@)) is None,
{
    proof {
        lemma_jsons_view(elems@);
    }
    let n: usize = elems.len();
    let mut out: Vec<crate::wire::OutputMessage> = Vec::new();
    let mut i: usize = 0;
    proof {
        assert(jsons_view(elems@).skip(0) =~= jsons_view(elems@));
        if let Some(ps) = spec_json_to_messages(jsons_view(elems@)) {
            assert(out.deep_view() + ps =~= ps);
        }
    }
    while i < n
        invariant
            0 <= i <= n,
            out@.len() == i,
            (match spec_json_to_messages(jsons_view(elems@).skip(i as int)) {
                Some(ps) => spec_json_to_messages(jsons_view(elems@)) == Some(
                    out.deep_view() + ps,
                ),
                None => spec_json_to_messages(jsons_view(elems@)) is None,
            }),
        decreases n - i,
    {
        proof {
            assert(jsons_view(elems@).skip(i as int)[0] == jsons_view(elems@)[i as int]);
            assert(jsons_view(elems@).skip(i as int).drop_first() =~= jsons_view(elems@).skip(
                i + 1,
            ));
        }
        let m = match json_to_message(&elems[i]) {
            Ok(m) => m,
            Err(()) => {
                return Err(());
            },
        };
        let ghost out0 = out.deep_view();
        let ghost mv = m.deep_view();
        out.push(m);
        proof {
            assert(out.deep_view() =~= out0.push(mv));
            if let Some(ps) = spec_json_to_messages(jsons_view(elems@).skip(i + 1)) {
                assert(spec_json_to_messages(jsons_view(elems@).skip(i as int)) == Some(
                    seq![mv] + ps,
                ));
                assert(out.deep_view() + ps =~= out0 + (seq![mv] + ps));
            }
        }
        i = i + 1;
    }
    proof {
        assert(jsons_view(elems@).skip(n as int) =~= Seq::<SpecJson>::empty());
        assert(out.deep_view() + spec_json_to_messages(jsons_view(elems@).skip(n as int))->0
            =~= out.deep_view());
    }
    Ok(out)
}

/// Decodes one output file.
pub fn json_to_file(j: &Json) -> (r: Result<crate::wire::OutputFile, ()>)
    ensures
        (r matches Ok(f) ==> spec_json_to_file(j@) == Some(f@)),
        r is Err ==> spec_json_to_file(j@) is None,
{
    let pairs = match j {
        Json::Obj(pairs) => pairs,
        _ => {
            return Err(());
        },
    };
    let path = match obj_get(pairs, "path") {
        Some(Json::Text(p)) => p.clone(),
        _ => {
            return Err(());
        },
    };
    let source = match obj_get(pairs, "source") {
        Some(Json::Text(src)) => src.clone(),
        _ => {
            return Err(());
        },
    };
    let f = crate::wire::OutputFile { path, source };
    proof {
        assert(spec_json_to_file(j@) =~~= Some(f@));
    }
    Ok(f)
}

/// Decodes a list of output files.
#[verifier::loop_isolation(false)]
pub fn json_to_files(elems: &Vec<Json>) -> (r: Result<Vec<crate::wire::OutputFile>, ()>)
    ensures
        (r matches Ok(v) ==> spec_json_to_files(jsons_view(elems@)) == Some(v.deep_view())),
        r is Err ==> spec_json_to_files(jsons_view(elems@)) is None,
{
    proof {
        lemma_jsons_view(elems@);
    }
    let n: usize = elems.len();
    let mut out: Vec<crate::wire::OutputFile> = Vec::new();
    let mut i: usize = 0;
    proof {
        assert(jsons_view(elems@).skip(0) =~= jsons_view(elems@));
        if let Some(ps) = spec_json_to_files(jsons_view(elems@)) {
            assert(out.deep_view() + ps =~= ps);
        }
    }
    while i < n
        invariant
            0 <= i <= n,
            out@.len() == i,
            (match spec_json_to_files(jsons_view(elems@).skip(i as int)) {
                Some(ps) => spec_json_to_files(jsons_view(elems@)) == Some(
                    out.deep_view() + ps,
                ),
                None => spec_json_to_files(jsons_view(elems@)) is None,
            }),
        decreases n - i,
    {
        proof {
            assert(jsons_view(elems@).skip(i as int)[0] == jsons_view(elems@)[i as int]);
            assert(jsons_view(elems@).skip(i as int).drop_first() =~= jsons_view(elems@).skip(
                i + 1,
            ));
        }
        let f = match json_to_file(&elems[i]) {
            Ok(f) => f,
            Err(()) => {
                return Err(());
            },
        };
        let ghost out0 = out.deep_view();
        let ghost fv = f.deep_view();
        out.push(f);
        proof {
            assert(out.deep_view() =~= out0.push(fv));
            if let Some(ps) = spec_json_to_files(jsons_view(elems@).skip(i + 1)) {
                assert(spec_json_to_files(jsons_view(elems@).skip(i as int)) == Some(
                    seq![fv] + ps,
                ));
                assert(out.deep_view() + ps =~= out0 + (seq![fv] + ps));
            }
        }
        i = i + 1;
    }
    proof {
        assert(jsons_view(elems@).skip(n as int) =~= Seq::<SpecJson>::empty());
        assert(out.deep_view() + spec_json_to_files(jsons_view(elems@).skip(n as int))->0
            =~= out.deep_view());
    }
    Ok(out)
}

/// Decodes a whole `Output` document from its JSON value.
pub fn json_to_output(j: &Json) -> (r: Result<crate::wire::Output, ()>)
    ensures
        (r matches Ok(o) ==> spec_json_to_output(j@) == Some(o@)),
        r is Err ==> spec_json_to_output(j@) is None,
{
    let pairs = match j {
        Json::Obj(pairs) => pairs,
        _ => {
            return Err(());
        },
    };
    let errors = match obj_get(pairs, "errors") {
        Some(Json::Arr(elems)) => {
            match json_to_messages(elems) {
                Ok(ms) => ms,
                Err(()) => {
                    return Err(());
                },
            }
        },
        _ => {
            return Err(());
        },
    };
    let warnings = match obj_get(pairs, "warnings") {
        Some(Json::Arr(elems)) => {
            match json_to_messages(elems) {
                Ok(ms) => ms,
                Err(()) => {
                    return Err(());
                },
            }
        },
        _ => {
            return Err(());
        },
    };
    let files = match obj_get(pairs, "files") {
        Some(Json::Arr(elems)) => {
            match json_to_files(elems) {
                Ok(fs) => fs,
                Err(()) => {
                    return Err(());
                },
            }
        },
        _ => {
            return Err(());
        },
    };
    let o = crate::wire::Output { errors, warnings, files };
    proof {
        assert(spec_json_to_output(j@) =~~= Some(o@));
    }
    Ok(o)
}

/// Decodes a whole `Output` document from wire text.
pub fn decode_output(s: &str) -> (r: Result<crate::wire::Output, ()>)
    ensures
        (r matches Ok(o) ==> spec_decode_output(s@) == Some(o@)),
        r is Err ==> spec_decode_output(s@) is None,
{
    let j = match crate::json::parse_json_text(s) {
        Ok(j) => j,
        Err(()) => {
            return Err(());
        },
    };
    json_to_output(&j)
}

} // verus!
