//! The schema intermediate representation: byte-range-tagged values, the
//! recursive value-shape descriptor `Format`, container and variant shapes,
//! and the `Named` wrapper carrying identifiers, docs and attributes.

use vstd::prelude::*;

use crate::strutil::{spec_trim, trim_spaces, str_eq, spec_dec, dec_string};

verus! {

/// A value together with the byte range in the source text where it appeared.
/// A `(0, 0)` range means "no location known" and is suppressed on the wire.
#[derive(Debug, PartialEq)]
pub struct Spanned<T> {
    pub value: T,
    /// Location in file, byte offset range `(start, end)`.
    pub bytes: (usize, usize),
}

/// Mathematical model of a `Spanned` value.
#[verifier::ext_equal]
pub struct SpecSpanned<V> {
    pub value: V,
    pub bytes: (usize, usize),
}

impl<T: DeepView> DeepView for Spanned<T> {
    type V = SpecSpanned<T::V>;

    open spec fn deep_view(&self) -> SpecSpanned<T::V> {
        SpecSpanned { value: self.value.deep_view(), bytes: self.bytes }
    }
}

impl<T: DeepView> View for Spanned<T> {
    type V = SpecSpanned<T::V>;

    open spec fn view(&self) -> SpecSpanned<T::V> {
        self.deep_view()
    }
}

/// Whether a byte range is the reserved "no location known" range, which the
/// wire encoding omits.
pub fn is_null_bytes(value: &(usize, usize)) -> (r: bool)
    ensures
        r == (value.0 == 0 && value.1 == 0),
{
    value.0 == 0 && value.1 == 0
}

/// Serialization format for anonymous "value" types: the shape of a field,
/// parameter or generic argument, independent of any container name.
#[derive(Debug, PartialEq)]
pub enum Format {
    /// A shape that could not be statically resolved; carries diagnostic text.
    Incomplete { debug: String },
    /// A reference, by name, to a container declared elsewhere.
    TypeName { ident: String, generics: Vec<Format> },
    Unit,
    Bool,
    I8,
    I16,
    I32,
    I64,
    I128,
    ISIZE,
    U8,
    U16,
    U32,
    U64,
    U128,
    USIZE,
    F32,
    F64,
    Char,
    Str,
    Bytes,
    /// The format of an optional value.
    Option(Box<Format>),
    /// Never actually instantiated.
    Never,
    /// A homogeneous sequence.
    SeqOf(Box<Format>),
    /// A key-value mapping.
    MapOf { key: Box<Format>, value: Box<Format> },
    /// A heterogeneous tuple.
    Tuple(Vec<Format>),
    /// A fixed-size homogeneous tuple.
    TupleArray { content: Box<Format>, size: usize },
}

/// Mathematical model of a `Format` tree.
#[verifier::ext_equal]
pub enum SpecFormat {
    Incomplete { debug: Seq<char> },
    TypeName { ident: Seq<char>, generics: Seq<SpecFormat> },
    Unit,
    Bool,
    I8,
    I16,
    I32,
    I64,
    I128,
    ISIZE,
    U8,
    U16,
    U32,
    U64,
    U128,
    USIZE,
    F32,
    F64,
    Char,
    Str,
    Bytes,
    Option(Box<SpecFormat>),
    Never,
    SeqOf(Box<SpecFormat>),
    MapOf { key: Box<SpecFormat>, value: Box<SpecFormat> },
    Tuple(Seq<SpecFormat>),
    TupleArray { content: Box<SpecFormat>, size: usize },
}

/// The model of a `Format` tree: strings become character sequences and
/// vectors become sequences.
pub open spec fn fmt_view(f: Format) -> SpecFormat
    decreases f,
{
    match f {
        Format::Incomplete { debug } => SpecFormat::Incomplete { debug: debug@ },
        Format::TypeName { ident, generics } => SpecFormat::TypeName {
            ident: ident@,
            generics: fmts_view(generics@),
        },
        Format::Unit => SpecFormat::Unit,
        Format::Bool => SpecFormat::Bool,
        Format::I8 => SpecFormat::I8,
        Format::I16 => SpecFormat::I16,
        Format::I32 => SpecFormat::I32,
        Format::I64 => SpecFormat::I64,
        Format::I128 => SpecFormat::I128,
        Format::ISIZE => SpecFormat::ISIZE,
        Format::U8 => SpecFormat::U8,
        Format::U16 => SpecFormat::U16,
        Format::U32 => SpecFormat::U32,
        Format::U64 => SpecFormat::U64,
        Format::U128 => SpecFormat::U128,
        Format::USIZE => SpecFormat::USIZE,
        Format::F32 => SpecFormat::F32,
        Format::F64 => SpecFormat::F64,
        Format::Char => SpecFormat::Char,
        Format::Str => SpecFormat::Str,
        Format::Bytes => SpecFormat::Bytes,
        Format::Option(inner) => SpecFormat::Option(Box::new(fmt_view(*inner))),
        Format::Never => SpecFormat::Never,
        Format::SeqOf(inner) => SpecFormat::SeqOf(Box::new(fmt_view(*inner))),
        Format::MapOf { key, value } => SpecFormat::MapOf {
            key: Box::new(fmt_view(*key)),
            value: Box::new(fmt_view(*value)),
        },
        Format::Tuple(elems) => SpecFormat::Tuple(fmts_view(elems@)),
        Format::TupleArray { content, size } => SpecFormat::TupleArray {
            content: Box::new(fmt_view(*content)),
            size,
        },
    }
}

/// The models of a sequence of `Format` trees, element by element.
pub open spec fn fmts_view(v: Seq<Format>) -> Seq<SpecFormat>
    decreases v,
{
    if v.len() == 0 {
        Seq::empty()
    } else {
        seq![fmt_view(v[0])] + fmts_view(v.drop_first())
    }
}

/// `fmts_view` maps `fmt_view` over the sequence, element by element.
pub proof fn lemma_fmts_view(v: Seq<Format>)
    ensures
        fmts_view(v).len() == v.len(),
        forall|i: int| 0 <= i < v.len() ==> #[trigger] fmts_view(v)[i] == fmt_view(v[i]),
    decreases v.len(),
{
    if v.len() > 0 {
        lemma_fmts_view(v.drop_first());
    }
}

/// The element-wise model `fmts_view` agrees with the deep view of the
/// vector.
pub proof fn lemma_fmts_view_eq_deep(v: Vec<Format>)
    ensures
        v.deep_view() == fmts_view(v@),
{
    lemma_fmts_view(v@);
    assert(v.deep_view() =~= fmts_view(v@));
}

impl DeepView for Format {
    type V = SpecFormat;

    open spec fn deep_view(&self) -> SpecFormat {
        fmt_view(*self)
    }
}

impl View for Format {
    type V = SpecFormat;

    open spec fn view(&self) -> SpecFormat {
        fmt_view(*self)
    }
}

/// Whether a format model is one of the primitive kinds.
pub open spec fn spec_is_primitive(f: SpecFormat) -> bool {
    match f {
        SpecFormat::Unit => true,
        SpecFormat::Bool => true,
        SpecFormat::I8 => true,
        SpecFormat::I16 => true,
        SpecFormat::I32 => true,
        SpecFormat::I64 => true,
        SpecFormat::I128 => true,
        SpecFormat::ISIZE => true,
        SpecFormat::U8 => true,
        SpecFormat::U16 => true,
        SpecFormat::U32 => true,
        SpecFormat::U64 => true,
        SpecFormat::U128 => true,
        SpecFormat::USIZE => true,
        SpecFormat::F32 => true,
        SpecFormat::F64 => true,
        SpecFormat::Char => true,
        SpecFormat::Str => true,
        SpecFormat::Bytes => true,
        _ => false,
    }
}

impl Format {
    /// Whether this format is one of the primitive kinds.
    pub fn is_primitive(&self) -> (r: bool)
        ensures
            r == spec_is_primitive(self@),
    {
        match self {
            Format::Unit
            | Format::Bool
            | Format::I8
            | Format::I16
            | Format::I32
            | Format::I64
            | Format::I128
            | Format::ISIZE
            | Format::U8
            | Format::U16
            | Format::U32
            | Format::U64
            | Format::U128
            | Format::USIZE
            | Format::F32
            | Format::F64
            | Format::Char
            | Format::Str
            | Format::Bytes => true,
            _ => false,
        }
    }

    /// The name and generic arguments, when this format is a reference to a
    /// declared container.
    pub fn is_typename(&self) -> (r: Option<(&String, &Vec<Format>)>)
        ensures
            match r {
                Some(p) => self@ matches SpecFormat::TypeName { ident, generics }
                    && p.0@ == ident
                    && fmts_view(p.1@) == generics,
                None => !(self@ is TypeName),
            },
    {
        match self {
            Format::TypeName { ident, generics } => Some((ident, generics)),
            _ => None,
        }
    }
}

/// Whether a format model holds no `Incomplete` node anywhere.
pub open spec fn spec_no_incomplete(f: SpecFormat) -> bool
    decreases f,
{
    match f {
        SpecFormat::Incomplete { .. } => false,
        SpecFormat::TypeName { generics, .. } => spec_all_no_incomplete(generics),
        SpecFormat::Option(inner) => spec_no_incomplete(*inner),
        SpecFormat::SeqOf(inner) => spec_no_incomplete(*inner),
        SpecFormat::MapOf { key, value } => spec_no_incomplete(*key) && spec_no_incomplete(
            *value,
        ),
        SpecFormat::Tuple(elems) => spec_all_no_incomplete(elems),
        SpecFormat::TupleArray { content, .. } => spec_no_incomplete(*content),
        _ => true,
    }
}

/// Whether every format model in the sequence holds no `Incomplete` node.
pub open spec fn spec_all_no_incomplete(s: Seq<SpecFormat>) -> bool
    decreases s,
{
    s.len() == 0 || (spec_no_incomplete(s.last()) && spec_all_no_incomplete(s.drop_last()))
}

/// `spec_all_no_incomplete` holds exactly when it holds of every element.
pub proof fn lemma_all_no_incomplete(s: Seq<SpecFormat>)
    ensures
        spec_all_no_incomplete(s) <==> (forall|i: int|
            0 <= i < s.len() ==> spec_no_incomplete(#[trigger] s[i])),
    decreases s.len(),
{
    if s.len() > 0 {
        lemma_all_no_incomplete(s.drop_last());
        assert(forall|i: int| 0 <= i < s.len() - 1 ==> s.drop_last()[i] == #[trigger] s[i]);
        assert(s.last() == s[s.len() - 1]);
        if spec_no_incomplete(s.last()) && spec_all_no_incomplete(s.drop_last()) {
            assert(forall|i: int| 0 <= i < s.len() ==> spec_no_incomplete(#[trigger] s[i]));
        }
    }
}

/// The identifier projection of a format: the deterministic name fragment a
/// synthesized built-in container uses for one generic argument.
pub open spec fn spec_as_ident(f: SpecFormat) -> Seq<char>
    decreases f,
{
    match f {
        SpecFormat::Incomplete { .. } => Seq::empty(),
        SpecFormat::TypeName { ident, generics } => ident + spec_ident_args(generics),
        SpecFormat::Unit => "Nil"@,
        SpecFormat::Bool => "Bool"@,
        SpecFormat::I8 => "I8"@,
        SpecFormat::I16 => "I16"@,
        SpecFormat::I32 => "I32"@,
        SpecFormat::I64 => "I64"@,
        SpecFormat::I128 => "I128"@,
        SpecFormat::ISIZE => "ISIZE"@,
        SpecFormat::U8 => "U8"@,
        SpecFormat::U16 => "U16"@,
        SpecFormat::U32 => "U32"@,
        SpecFormat::U64 => "U64"@,
        SpecFormat::U128 => "U128"@,
        SpecFormat::USIZE => "USIZE"@,
        SpecFormat::F32 => "F32"@,
        SpecFormat::F64 => "F64"@,
        SpecFormat::Char => "Char"@,
        SpecFormat::Str => "Str"@,
        SpecFormat::Bytes => "Bytes"@,
        SpecFormat::Option(of) => spec_as_ident(*of) + "_Option"@,
        SpecFormat::Never => "Never"@,
        SpecFormat::SeqOf(of) => spec_as_ident(*of) + "_List"@,
        SpecFormat::MapOf { key, value } => spec_as_ident(*key) + "_"@ + spec_as_ident(*value)
            + "_Map"@,
        SpecFormat::Tuple(of) => spec_ident_tuple(of) + "Tuple"@,
        SpecFormat::TupleArray { content, size } => spec_as_ident(*content) + "_"@ + spec_dec(
            size as nat,
        ) + "_TupleOf"@,
    }
}

/// The name fragments of a generic-argument list: an underscore before the
/// projection of each argument.
pub open spec fn spec_ident_args(s: Seq<SpecFormat>) -> Seq<char>
    decreases s,
{
    if s.len() == 0 {
        Seq::empty()
    } else {
        spec_ident_args(s.drop_last()) + "_"@ + spec_as_ident(s.last())
    }
}

/// The name fragments of a tuple: the projection of each member followed by
/// an underscore.
pub open spec fn spec_ident_tuple(s: Seq<SpecFormat>) -> Seq<char>
    decreases s,
{
    if s.len() == 0 {
        Seq::empty()
    } else {
        spec_ident_tuple(s.drop_last()) + spec_as_ident(s.last()) + "_"@
    }
}

impl Format {
    /// Whether this format tree holds no `Incomplete` node.
    pub fn has_no_incomplete(&self) -> (r: bool)
        ensures
            r == spec_no_incomplete(self@),
        decreases self,
    {
        match self {
            Format::Incomplete { .. } => false,
            Format::TypeName { generics, .. } => Self::all_no_incomplete(generics),
            Format::Option(inner) => inner.has_no_incomplete(),
            Format::SeqOf(inner) => inner.has_no_incomplete(),
            Format::MapOf { key, value } => key.has_no_incomplete() && value.has_no_incomplete(),
            Format::Tuple(elems) => Self::all_no_incomplete(elems),
            Format::TupleArray { content, .. } => content.has_no_incomplete(),
            _ => true,
        }
    }

    /// Whether no format tree in the vector holds an `Incomplete` node.
    pub fn all_no_incomplete(v: &Vec<Format>) -> (r: bool)
        ensures
            r == spec_all_no_incomplete(fmts_view(v@)),
        decreases v,
    {
        proof {
            lemma_fmts_view(v@);
            lemma_all_no_incomplete(fmts_view(v@));
        }
        let n: usize = v.len();
        let mut i: usize = 0;
        while i < n
            invariant
                0 <= i <= n,
                n == v@.len(),
                forall|j: int| 0 <= j < i ==> spec_no_incomplete(#[trigger] fmts_view(v@)[j]),
                fmts_view(v@).len() == v@.len(),
                forall|j: int|
                    0 <= j < v@.len() ==> #[trigger] fmts_view(v@)[j] == fmt_view(v@[j]),
                spec_all_no_incomplete(fmts_view(v@)) <==> (forall|j: int|
                    0 <= j < fmts_view(v@).len() ==> spec_no_incomplete(
                        #[trigger] fmts_view(v@)[j],
                    )),
            decreases n - i,
        {
            if !v[i].has_no_incomplete() {
                proof {
                    assert(!spec_no_incomplete(fmts_view(v@)[i as int]));
                }
                return false;
            }
            i = i + 1;
        }
        true
    }

    /// A deep copy of this format tree.
    pub fn dup(&self) -> (r: Format)
        ensures
            r@ == self@,
        decreases self,
    {
        match self {
            Format::Incomplete { debug } => Format::Incomplete { debug: debug.clone() },
            Format::TypeName { ident, generics } => {
                let r = Format::TypeName { ident: ident.clone(), generics: Self::dup_vec(generics) };
                proof {
                    assert(r@ =~= self@);
                }
                r
            },
            Format::Unit => Format::Unit,
            Format::Bool => Format::Bool,
            Format::I8 => Format::I8,
            Format::I16 => Format::I16,
            Format::I32 => Format::I32,
            Format::I64 => Format::I64,
            Format::I128 => Format::I128,
            Format::ISIZE => Format::ISIZE,
            Format::U8 => Format::U8,
            Format::U16 => Format::U16,
            Format::U32 => Format::U32,
            Format::U64 => Format::U64,
            Format::U128 => Format::U128,
            Format::USIZE => Format::USIZE,
            Format::F32 => Format::F32,
            Format::F64 => Format::F64,
            Format::Char => Format::Char,
            Format::Str => Format::Str,
            Format::Bytes => Format::Bytes,
            Format::Option(inner) => Format::Option(Box::new(inner.dup())),
            Format::Never => Format::Never,
            Format::SeqOf(inner) => Format::SeqOf(Box::new(inner.dup())),
            Format::MapOf { key, value } => Format::MapOf {
                key: Box::new(key.dup()),
                value: Box::new(value.dup()),
            },
            Format::Tuple(elems) => {
                let r = Format::Tuple(Self::dup_vec(elems));
                proof {
                    assert(r@ =~= self@);
                }
                r
            },
            Format::TupleArray { content, size } => Format::TupleArray {
                content: Box::new(content.dup()),
                size: *size,
            },
        }
    }

    /// A deep copy of a vector of format trees.
    pub fn dup_vec(v: &Vec<Format>) -> (r: Vec<Format>)
        ensures
            fmts_view(r@) == fmts_view(v@),
            r@.len() == v@.len(),
        decreases v,
    {
        proof {
            lemma_fmts_view(v@);
        }
        let n: usize = v.len();
        let mut r: Vec<Format> = Vec::new();
        let mut i: usize = 0;
        while i < n
            invariant
                0 <= i <= n,
                n == v@.len(),
                r@.len() == i,
                forall|j: int| 0 <= j < i ==> #[trigger] fmt_view(r@[j]) == fmt_view(v@[j]),
            decreases n - i,
        {
            r.push(v[i].dup());
            i = i + 1;
        }
        proof {
            lemma_fmts_view(r@);
            assert(fmts_view(r@) =~= fmts_view(v@));
        }
        r
    }

    /// The deterministic identifier this shape projects to when it stands as
    /// a generic argument of a synthesized built-in container.
    #[verifier::loop_isolation(false)]
    pub fn as_ident(&self) -> (r: String)
        requires
            spec_no_incomplete(self@),
        ensures
            r@ == spec_as_ident(self@),
        decreases self,
    {
        match self {
            Format::Incomplete { .. } => {
                // excluded by the precondition
                proof {
                    assert(false);
                }
                String::new()
            },
            Format::TypeName { ident, generics } => {
                let mut buf = ident.clone();
                proof {
                    lemma_fmts_view(generics@);
                    lemma_all_no_incomplete(fmts_view(generics@));
                    assert(fmts_view(generics@).take(0) =~= Seq::<SpecFormat>::empty());
                }
                let n: usize = generics.len();
                let mut i: usize = 0;
                while i < n
                    invariant
                        0 <= i <= n,
                        n == generics@.len(),
                        fmts_view(generics@).len() == n,
                        forall|j: int|
                            0 <= j < n ==> #[trigger] fmts_view(generics@)[j] == fmt_view(
                                generics@[j],
                            ),
                        forall|j: int|
                            0 <= j < n ==> spec_no_incomplete(#[trigger] fmts_view(generics@)[j]),
                        buf@ == ident@ + spec_ident_args(fmts_view(generics@).take(i as int)),
                    decreases n - i,
                {
                    buf.append("_");
                    proof {
                        assert(fmts_view(generics@)[i as int] == fmt_view(generics@[i as int]));
                        assert(decreases_to!(*self => generics@[i as int]));
                    }
                    let part = generics[i].as_ident();
                    buf.append(part.as_str());
                    proof {
                        assert(fmts_view(generics@).take(i + 1).drop_last() =~= fmts_view(
                            generics@,
                        ).take(i as int));
                        assert(fmts_view(generics@).take(i + 1).last() == fmts_view(generics@)[
                            i as int]);
                    }
                    i = i + 1;
                }
                proof {
                    assert(fmts_view(generics@).take(n as int) =~= fmts_view(generics@));
                }
                buf
            },
            Format::Unit => "Nil".to_owned(),
            Format::Bool => "Bool".to_owned(),
            Format::I8 => "I8".to_owned(),
            Format::I16 => "I16".to_owned(),
            Format::I32 => "I32".to_owned(),
            Format::I64 => "I64".to_owned(),
            Format::I128 => "I128".to_owned(),
            Format::ISIZE => "ISIZE".to_owned(),
            Format::U8 => "U8".to_owned(),
            Format::U16 => "U16".to_owned(),
            Format::U32 => "U32".to_owned(),
            Format::U64 => "U64".to_owned(),
            Format::U128 => "U128".to_owned(),
            Format::USIZE => "USIZE".to_owned(),
            Format::F32 => "F32".to_owned(),
            Format::F64 => "F64".to_owned(),
            Format::Char => "Char".to_owned(),
            Format::Str => "Str".to_owned(),
            Format::Bytes => "Bytes".to_owned(),
            Format::Option(of) => {
                let mut buf = of.as_ident();
                buf.append("_Option");
                buf
            },
            Format::Never => "Never".to_owned(),
            Format::SeqOf(of) => {
                let mut buf = of.as_ident();
                buf.append("_List");
                buf
            },
            Format::MapOf { key, value } => {
                let mut buf = key.as_ident();
                buf.append("_");
                let v = value.as_ident();
                buf.append(v.as_str());
                buf.append("_Map");
                buf
            },
            Format::Tuple(of) => {
                let mut buf = String::new();
                proof {
                    lemma_fmts_view(of@);
                    lemma_all_no_incomplete(fmts_view(of@));
                    assert(fmts_view(of@).take(0) =~= Seq::<SpecFormat>::empty());
                    assert(buf@ =~= spec_ident_tuple(fmts_view(of@).take(0)));
                }
                let n: usize = of.len();
                let mut i: usize = 0;
                while i < n
                    invariant
                        0 <= i <= n,
                        n == of@.len(),
                        fmts_view(of@).len() == n,
                        forall|j: int|
                            0 <= j < n ==> #[trigger] fmts_view(of@)[j] == fmt_view(of@[j]),
                        forall|j: int|
                            0 <= j < n ==> spec_no_incomplete(#[trigger] fmts_view(of@)[j]),
                        buf@ == spec_ident_tuple(fmts_view(of@).take(i as int)),
                    decreases n - i,
                {
                    proof {
                        assert(fmts_view(of@)[i as int] == fmt_view(of@[i as int]));
                        assert(decreases_to!(*self => of@[i as int]));
                    }
                    let part = of[i].as_ident();
                    buf.append(part.as_str());
                    buf.append("_");
                    proof {
                        assert(fmts_view(of@).take(i + 1).drop_last() =~= fmts_view(of@).take(
                            i as int,
                        ));
                        assert(fmts_view(of@).take(i + 1).last() == fmts_view(of@)[i as int]);
                    }
                    i = i + 1;
                }
                buf.append("Tuple");
                proof {
                    assert(fmts_view(of@).take(n as int) =~= fmts_view(of@));
                }
                buf
            },
            Format::TupleArray { content, size } => {
                let mut buf = content.as_ident();
                buf.append("_");
                let num = dec_string(*size as u64);
                buf.append(num.as_str());
                buf.append("_TupleOf");
                proof {
                    assert((*size as u64) as nat == *size as nat);
                }
                buf
            },
        }
    }
}

/// Shape of a declared record or union: exactly one variant per declared
/// container, fixed for the container's lifetime.
#[derive(Debug, PartialEq)]
pub enum ContainerFormat {
    /// An empty record.
    UnitStruct,
    /// A record with a single unnamed field.
    NewTypeStruct(Box<Format>),
    /// A record with several unnamed fields.
    TupleStruct(Vec<Format>),
    /// A record with named fields.
    Struct(Vec<Named<Format>>),
    /// A union of variants, each carried with its declaration index.
    /// The indices are those the declaration order gave, strictly ascending.
    Enum(Vec<(u32, Named<VariantFormat>)>),
}

/// Shape of one union case; the same vocabulary as containers minus the
/// array and top-level distinctions.
#[derive(Debug, PartialEq)]
pub enum VariantFormat {
    Unit,
    NewType(Box<Format>),
    Tuple(Vec<Format>),
    Struct(Vec<Named<Format>>),
}

/// A free-standing operation: parameters, an optional receiver, and a
/// return type.
#[derive(Debug, PartialEq)]
pub struct FunctionFormat {
    pub is_async: bool,
    pub self_opt: Option<Named<Format>>,
    pub params: Vec<Named<Format>>,
    pub ret: Box<Format>,
}

/// The payload of a raw declaration: a container or a function.
#[derive(Debug, PartialEq)]
pub enum RootItem {
    Container(ContainerFormat),
    Function(FunctionFormat),
}

/// One raw declaration as the extractor hands it over: a file, an explicit
/// line, the named payload, and auxiliary built-in containers emitted
/// alongside it.
#[derive(Debug, PartialEq)]
pub struct TypeRoot {
    pub file: String,
    pub line: u32,
    pub inner: Named<RootItem>,
    /// Built-in containers pulled in while resolving field types.
    pub extras: Vec<Named<ContainerFormat>>,
}

/// A named value: an identifier with its span, generic parameter names,
/// optional documentation, the ordered raw attribute pairs and flags of the
/// serialization and generator namespaces, and the payload.
#[derive(Debug, PartialEq)]
pub struct Named<T> {
    pub rust_ident: Spanned<String>,
    pub rust_generics: Vec<Spanned<String>>,
    pub rust_docs: Option<String>,
    pub serde_attrs: Vec<Spanned<(Spanned<String>, Spanned<String>)>>,
    pub serde_flags: Vec<Spanned<String>>,
    pub codegen_attrs: Vec<Spanned<(Spanned<String>, Spanned<String>)>>,
    pub codegen_flags: Vec<Spanned<String>>,
    pub value: T,
}

/// Mathematical model of a raw attribute pair: a spanned key and value.
pub type SpecAttrPair = SpecSpanned<(SpecSpanned<Seq<char>>, SpecSpanned<Seq<char>>)>;

/// Mathematical model of a `Named` value.
#[verifier::ext_equal]
pub struct SpecNamed<V> {
    pub rust_ident: SpecSpanned<Seq<char>>,
    pub rust_generics: Seq<SpecSpanned<Seq<char>>>,
    pub rust_docs: Option<Seq<char>>,
    pub serde_attrs: Seq<SpecAttrPair>,
    pub serde_flags: Seq<SpecSpanned<Seq<char>>>,
    pub codegen_attrs: Seq<SpecAttrPair>,
    pub codegen_flags: Seq<SpecSpanned<Seq<char>>>,
    pub value: V,
}

impl<T: DeepView> DeepView for Named<T> {
    type V = SpecNamed<T::V>;

    open spec fn deep_view(&self) -> SpecNamed<T::V> {
        SpecNamed {
            rust_ident: self.rust_ident.deep_view(),
            rust_generics: self.rust_generics.deep_view(),
            rust_docs: self.rust_docs.deep_view(),
            serde_attrs: self.serde_attrs.deep_view(),
            serde_flags: self.serde_flags.deep_view(),
            codegen_attrs: self.codegen_attrs.deep_view(),
            codegen_flags: self.codegen_flags.deep_view(),
            value: self.value.deep_view(),
        }
    }
}

impl<T: DeepView> View for Named<T> {
    type V = SpecNamed<T::V>;

    open spec fn view(&self) -> SpecNamed<T::V> {
        self.deep_view()
    }
}

/// Mathematical model of a `VariantFormat`.
#[verifier::ext_equal]
pub enum SpecVariantFormat {
    Unit,
    NewType(Box<SpecFormat>),
    Tuple(Seq<SpecFormat>),
    Struct(Seq<SpecNamed<SpecFormat>>),
}

impl DeepView for VariantFormat {
    type V = SpecVariantFormat;

    open spec fn deep_view(&self) -> SpecVariantFormat {
        match self {
            VariantFormat::Unit => SpecVariantFormat::Unit,
            VariantFormat::NewType(f) => SpecVariantFormat::NewType(Box::new(f.deep_view())),
            VariantFormat::Tuple(v) => SpecVariantFormat::Tuple(v.deep_view()),
            VariantFormat::Struct(v) => SpecVariantFormat::Struct(v.deep_view()),
        }
    }
}

impl View for VariantFormat {
    type V = SpecVariantFormat;

    open spec fn view(&self) -> SpecVariantFormat {
        self.deep_view()
    }
}

/// Mathematical model of a `ContainerFormat`.
#[verifier::ext_equal]
pub enum SpecContainerFormat {
    UnitStruct,
    NewTypeStruct(Box<SpecFormat>),
    TupleStruct(Seq<SpecFormat>),
    Struct(Seq<SpecNamed<SpecFormat>>),
    Enum(Seq<(u32, SpecNamed<SpecVariantFormat>)>),
}

impl DeepView for ContainerFormat {
    type V = SpecContainerFormat;

    open spec fn deep_view(&self) -> SpecContainerFormat {
        match self {
            ContainerFormat::UnitStruct => SpecContainerFormat::UnitStruct,
            ContainerFormat::NewTypeStruct(f) => SpecContainerFormat::NewTypeStruct(
                Box::new(f.deep_view()),
            ),
            ContainerFormat::TupleStruct(v) => SpecContainerFormat::TupleStruct(v.deep_view()),
            ContainerFormat::Struct(v) => SpecContainerFormat::Struct(v.deep_view()),
            ContainerFormat::Enum(v) => SpecContainerFormat::Enum(v.deep_view()),
        }
    }
}

impl View for ContainerFormat {
    type V = SpecContainerFormat;

    open spec fn view(&self) -> SpecContainerFormat {
        self.deep_view()
    }
}

/// Mathematical model of a `FunctionFormat`.
#[verifier::ext_equal]
pub struct SpecFunctionFormat {
    pub is_async: bool,
    pub self_opt: Option<SpecNamed<SpecFormat>>,
    pub params: Seq<SpecNamed<SpecFormat>>,
    pub ret: Box<SpecFormat>,
}

impl DeepView for FunctionFormat {
    type V = SpecFunctionFormat;

    open spec fn deep_view(&self) -> SpecFunctionFormat {
        SpecFunctionFormat {
            is_async: self.is_async,
            self_opt: self.self_opt.deep_view(),
            params: self.params.deep_view(),
            ret: Box::new(self.ret.deep_view()),
        }
    }
}

impl View for FunctionFormat {
    type V = SpecFunctionFormat;

    open spec fn view(&self) -> SpecFunctionFormat {
        self.deep_view()
    }
}

/// Mathematical model of a `RootItem`.
#[verifier::ext_equal]
pub enum SpecRootItem {
    Container(SpecContainerFormat),
    Function(SpecFunctionFormat),
}

impl DeepView for RootItem {
    type V = SpecRootItem;

    open spec fn deep_view(&self) -> SpecRootItem {
        match self {
            RootItem::Container(c) => SpecRootItem::Container(c.deep_view()),
            RootItem::Function(f) => SpecRootItem::Function(f.deep_view()),
        }
    }
}

impl View for RootItem {
    type V = SpecRootItem;

    open spec fn view(&self) -> SpecRootItem {
        self.deep_view()
    }
}

/// Mathematical model of a `TypeRoot`.
#[verifier::ext_equal]
pub struct SpecTypeRoot {
    pub file: Seq<char>,
    pub line: u32,
    pub inner: SpecNamed<SpecRootItem>,
    pub extras: Seq<SpecNamed<SpecContainerFormat>>,
}

impl DeepView for TypeRoot {
    type V = SpecTypeRoot;

    open spec fn deep_view(&self) -> SpecTypeRoot {
        SpecTypeRoot {
            file: self.file.deep_view(),
            line: self.line,
            inner: self.inner.deep_view(),
            extras: self.extras.deep_view(),
        }
    }
}

impl View for TypeRoot {
    type V = SpecTypeRoot;

    open spec fn view(&self) -> SpecTypeRoot {
        self.deep_view()
    }
}

/// The value of the last attribute pair with the given key, scanning the
/// ordered pairs from the most recent end.
pub open spec fn spec_last_attr(attrs: Seq<SpecAttrPair>, key: Seq<char>) -> Option<Seq<char>>
    decreases attrs.len(),
{
    if attrs.len() == 0 {
        None
    } else if attrs.last().value.0.value == key {
        Some(attrs.last().value.1.value)
    } else {
        spec_last_attr(attrs.drop_last(), key)
    }
}

/// The name a named item serializes under: the value of the most recent
/// "rename" attribute if present, else the item's own identifier.
pub open spec fn spec_serialize_name<V>(n: SpecNamed<V>) -> Seq<char> {
    match spec_last_attr(n.serde_attrs, "rename"@) {
        Some(v) => v,
        None => n.rust_ident.value,
    }
}

impl<T: DeepView> Named<T> {
    /// The wire name of this item: the most recent "rename" serialization
    /// attribute wins over the declared identifier.
    pub fn serialize_name(&self) -> (r: &str)
        ensures
            r@ == spec_serialize_name(self@),
    {
        let n: usize = self.serde_attrs.len();
        let mut i: usize = n;
        proof {
            assert(self@.serde_attrs.take(n as int) =~= self@.serde_attrs);
        }
        while i > 0
            invariant
                0 <= i <= n,
                n == self.serde_attrs@.len(),
                spec_last_attr(self@.serde_attrs, "rename"@) == spec_last_attr(
                    self@.serde_attrs.take(i as int),
                    "rename"@,
                ),
            decreases i,
        {
            i = i - 1;
            let attr = &self.serde_attrs[i];
            proof {
                assert(self@.serde_attrs.take(i + 1).last() == self@.serde_attrs[i as int]);
                assert(self@.serde_attrs.take(i + 1).drop_last() =~= self@.serde_attrs.take(
                    i as int,
                ));
            }
            if str_eq(attr.value.0.value.as_str(), "rename") {
                return attr.value.1.value.as_str();
            }
        }
        proof {
            assert(self@.serde_attrs.take(0) =~= Seq::<SpecAttrPair>::empty());
        }
        self.rust_ident.value.as_str()
    }

    /// A named container synthesized by the library itself: no generics, no
    /// attributes, documentation kept only when non-blank, and the given
    /// byte range (absent meaning "no location known").
    pub fn builtin(ident: &str, docs: &str, bytes: Option<(usize, usize)>, value: T) -> (r: Named<
        T,
    >)
        ensures
            r@.rust_ident.value == ident@,
            r@.rust_ident.bytes == (match bytes {
                Some(b) => b,
                None => (0usize, 0usize),
            }),
            r@.rust_generics =~= Seq::<SpecSpanned<Seq<char>>>::empty(),
            r@.rust_docs == (if spec_trim(docs@).len() == 0 {
                Option::<Seq<char>>::None
            } else {
                Option::<Seq<char>>::Some(spec_trim(docs@))
            }),
            r@.serde_attrs =~= Seq::<SpecAttrPair>::empty(),
            r@.serde_flags =~= Seq::<SpecSpanned<Seq<char>>>::empty(),
            r@.codegen_attrs =~= Seq::<SpecAttrPair>::empty(),
            r@.codegen_flags =~= Seq::<SpecSpanned<Seq<char>>>::empty(),
            r@.value == value.deep_view(),
    {
        let trimmed = trim_spaces(docs);
        let rust_docs = if trimmed.as_str().is_empty() {
            None
        } else {
            Some(trimmed)
        };
        Named {
            rust_ident: Spanned {
                value: ident.to_owned(),
                bytes: match bytes {
                    Some(b) => b,
                    None => (0, 0),
                },
            },
            rust_generics: Vec::new(),
            rust_docs,
            serde_attrs: Vec::new(),
            serde_flags: Vec::new(),
            codegen_attrs: Vec::new(),
            codegen_flags: Vec::new(),
            value,
        }
    }
}

} // verus!
