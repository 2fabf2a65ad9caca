//! Reflective merge: filling the `Incomplete` nodes of an extracted schema
//! with the shapes of an independently traced schema of the same declaration.
//!
//! A resolved leaf (a primitive or a `TypeName` reference) is authoritative
//! and never overridden; an `Incomplete` node is replaced wholesale; any
//! other pair must agree on its outer constructor, with matching arity, and
//! is merged position by position.  Any other combination is a structural
//! mismatch: extractor and tracer disagree, and the schema cannot be
//! trusted.

use vstd::prelude::*;

use crate::schema::{
    fmt_view, fmts_view, lemma_fmts_view, lemma_fmts_view_eq_deep, spec_is_primitive,
    spec_no_incomplete,
    spec_all_no_incomplete, lemma_all_no_incomplete, spec_serialize_name, Format, SpecFormat,
    ContainerFormat, SpecContainerFormat, VariantFormat, SpecVariantFormat, Named, SpecNamed,
};
use crate::strutil::str_eq;

verus! {

/// Whether a traced shape can fill the incomplete parts of a target shape:
/// the target is incomplete or already resolved at its root, or both sides
/// share an outer constructor of equal arity and every sub-position is
/// itself mergeable.
pub open spec fn spec_mergeable(t: SpecFormat, r: SpecFormat) -> bool
    decreases t,
{
    if t is Incomplete {
        true
    } else if spec_is_primitive(t) || t is TypeName {
        true
    } else {
        match (t, r) {
            (SpecFormat::Option(a), SpecFormat::Option(b)) => spec_mergeable(*a, *b),
            (SpecFormat::SeqOf(a), SpecFormat::SeqOf(b)) => spec_mergeable(*a, *b),
            (
                SpecFormat::MapOf { key: k1, value: v1 },
                SpecFormat::MapOf { key: k2, value: v2 },
            ) => spec_mergeable(*k1, *k2) && spec_mergeable(*v1, *v2),
            (SpecFormat::Tuple(a), SpecFormat::Tuple(b)) => a.len() == b.len()
                && spec_all_mergeable(a, b),
            (
                SpecFormat::TupleArray { content: c1, .. },
                SpecFormat::TupleArray { content: c2, .. },
            ) => spec_mergeable(*c1, *c2),
            _ => false,
        }
    }
}

/// Whether the shapes of two equally long sequences are mergeable pair by
/// pair.
pub open spec fn spec_all_mergeable(a: Seq<SpecFormat>, b: Seq<SpecFormat>) -> bool
    decreases a,
{
    if a.len() == 0 || b.len() == 0 {
        true
    } else {
        spec_mergeable(a.last(), b.last()) && spec_all_mergeable(a.drop_last(), b.drop_last())
    }
}

/// For equally long sequences, pairwise mergeability is mergeability of
/// every indexed pair.
pub proof fn lemma_all_mergeable(a: Seq<SpecFormat>, b: Seq<SpecFormat>)
    requires
        a.len() == b.len(),
    ensures
        spec_all_mergeable(a, b) <==> (forall|i: int|
            0 <= i < a.len() ==> spec_mergeable(#[trigger] a[i], b[i])),
    decreases a.len(),
{
    if a.len() > 0 {
        lemma_all_mergeable(a.drop_last(), b.drop_last());
        assert(forall|i: int| 0 <= i < a.len() - 1 ==> a.drop_last()[i] == #[trigger] a[i]);
        assert(forall|i: int| 0 <= i < b.len() - 1 ==> b.drop_last()[i] == #[trigger] b[i]);
        assert(a.last() == a[a.len() - 1]);
        assert(b.last() == b[b.len() - 1]);
        if spec_mergeable(a.last(), b.last()) && spec_all_mergeable(
            a.drop_last(),
            b.drop_last(),
        ) {
            assert(forall|i: int| 0 <= i < a.len() ==> spec_mergeable(#[trigger] a[i], b[i]));
        }
    }
}

/// The result of merging a traced shape into a target shape: incomplete
/// targets are replaced wholesale, resolved leaves stand, and matching
/// constructors merge sub-position by sub-position.
pub open spec fn spec_merge(t: SpecFormat, r: SpecFormat) -> SpecFormat
    decreases t,
{
    if t is Incomplete {
        r
    } else if spec_is_primitive(t) || t is TypeName {
        t
    } else {
        match (t, r) {
            (SpecFormat::Option(a), SpecFormat::Option(b)) => SpecFormat::Option(
                Box::new(spec_merge(*a, *b)),
            ),
            (SpecFormat::SeqOf(a), SpecFormat::SeqOf(b)) => SpecFormat::SeqOf(
                Box::new(spec_merge(*a, *b)),
            ),
            (
                SpecFormat::MapOf { key: k1, value: v1 },
                SpecFormat::MapOf { key: k2, value: v2 },
            ) => SpecFormat::MapOf {
                key: Box::new(spec_merge(*k1, *k2)),
                value: Box::new(spec_merge(*v1, *v2)),
            },
            (SpecFormat::Tuple(a), SpecFormat::Tuple(b)) => SpecFormat::Tuple(
                spec_merge_all(a, b),
            ),
            (
                SpecFormat::TupleArray { content: c1, size },
                SpecFormat::TupleArray { content: c2, .. },
            ) => SpecFormat::TupleArray { content: Box::new(spec_merge(*c1, *c2)), size },
            _ => t,
        }
    }
}

/// The pairwise merge of two equally long sequences of shapes.
pub open spec fn spec_merge_all(a: Seq<SpecFormat>, b: Seq<SpecFormat>) -> Seq<SpecFormat>
    decreases a,
{
    if a.len() == 0 || b.len() == 0 {
        a
    } else {
        spec_merge_all(a.drop_last(), b.drop_last()).push(spec_merge(a.last(), b.last()))
    }
}

/// For equally long sequences, the pairwise merge merges every indexed pair.
pub proof fn lemma_merge_all(a: Seq<SpecFormat>, b: Seq<SpecFormat>)
    requires
        a.len() == b.len(),
    ensures
        spec_merge_all(a, b).len() == a.len(),
        forall|i: int|
            0 <= i < a.len() ==> #[trigger] spec_merge_all(a, b)[i] == spec_merge(a[i], b[i]),
    decreases a.len(),
{
    if a.len() > 0 {
        lemma_merge_all(a.drop_last(), b.drop_last());
        assert(forall|i: int| 0 <= i < a.len() - 1 ==> a.drop_last()[i] == #[trigger] a[i]);
        assert(forall|i: int| 0 <= i < b.len() - 1 ==> b.drop_last()[i] == #[trigger] b[i]);
        assert(a.last() == a[a.len() - 1]);
        assert(b.last() == b[b.len() - 1]);
    }
}

/// Merging into a fully resolved shape changes nothing: every leaf of the
/// target is already authoritative, so the traced side is ignored wherever
/// the two are mergeable at all.
pub proof fn lemma_merge_resolved_noop(t: SpecFormat, r: SpecFormat)
    requires
        spec_no_incomplete(t),
        spec_mergeable(t, r),
    ensures
        spec_merge(t, r) == t,
    decreases t,
{
    if t is Incomplete {
        // excluded: a resolved shape has no incomplete root
    } else if spec_is_primitive(t) || t is TypeName {
        // resolved leaves stand as they are
    } else {
        match (t, r) {
            (SpecFormat::Option(a), SpecFormat::Option(b)) => {
                lemma_merge_resolved_noop(*a, *b);
            },
            (SpecFormat::SeqOf(a), SpecFormat::SeqOf(b)) => {
                lemma_merge_resolved_noop(*a, *b);
            },
            (
                SpecFormat::MapOf { key: k1, value: v1 },
                SpecFormat::MapOf { key: k2, value: v2 },
            ) => {
                lemma_merge_resolved_noop(*k1, *k2);
                lemma_merge_resolved_noop(*v1, *v2);
            },
            (SpecFormat::Tuple(a), SpecFormat::Tuple(b)) => {
                lemma_all_mergeable(a, b);
                lemma_merge_all(a, b);
                lemma_all_no_incomplete(a);
                assert forall|i: int| 0 <= i < a.len() implies #[trigger] spec_merge_all(a, b)[i]
                    == a[i] by {
                    lemma_merge_resolved_noop(a[i], b[i]);
                }
                assert(spec_merge_all(a, b) =~= a);
                assert(SpecFormat::Tuple(spec_merge_all(a, b)) == SpecFormat::Tuple(a));
            },
            (
                SpecFormat::TupleArray { content: c1, .. },
                SpecFormat::TupleArray { content: c2, .. },
            ) => {
                lemma_merge_resolved_noop(*c1, *c2);
            },
            _ => {
                // excluded by mergeability
            },
        }
    }
}

impl Format {
    /// Whether the traced shape can fill this shape's incomplete parts.
    #[verifier::loop_isolation(false)]
    pub fn is_mergeable_with(&self, traced: &Format) -> (res: bool)
        ensures
            res == spec_mergeable(self@, traced@),
        decreases self,
    {
        if let Format::Incomplete { .. } = self {
            return true;
        }
        if self.is_primitive() || matches!(self, Format::TypeName { .. }) {
            return true;
        }
        match (self, traced) {
            (Format::Option(a), Format::Option(b)) => a.is_mergeable_with(b),
            (Format::SeqOf(a), Format::SeqOf(b)) => a.is_mergeable_with(b),
            (Format::MapOf { key: k1, value: v1 }, Format::MapOf { key: k2, value: v2 }) => k1
                .is_mergeable_with(k2) && v1.is_mergeable_with(v2),
            (Format::Tuple(a), Format::Tuple(b)) => {
                if a.len() != b.len() {
                    proof {
                        lemma_fmts_view(a@);
                        lemma_fmts_view(b@);
                    }
                    return false;
                }
                proof {
                    lemma_fmts_view(a@);
                    lemma_fmts_view(b@);
                    lemma_all_mergeable(fmts_view(a@), fmts_view(b@));
                }
                let n: usize = a.len();
                let mut i: usize = 0;
                while i < n
                    invariant
                        0 <= i <= n,
                        forall|j: int|
                            0 <= j < i ==> spec_mergeable(
                                #[trigger] fmts_view(a@)[j],
                                fmts_view(b@)[j],
                            ),
                    decreases n - i,
                {
                    if !a[i].is_mergeable_with(&b[i]) {
                        proof {
                            assert(!spec_mergeable(fmts_view(a@)[i as int], fmts_view(b@)[
                                i as int]));
                        }
                        return false;
                    }
                    i = i + 1;
                }
                true
            },
            (Format::TupleArray { content: c1, .. }, Format::TupleArray { content: c2, .. }) => c1
                .is_mergeable_with(c2),
            _ => false,
        }
    }

    /// The merge of the traced shape into this one, as a fresh tree.
    #[verifier::loop_isolation(false)]
    pub fn merged_with(&self, traced: &Format) -> (res: Format)
        requires
            spec_mergeable(self@, traced@),
        ensures
            res@ == spec_merge(self@, traced@),
        decreases self,
    {
        if let Format::Incomplete { .. } = self {
            return traced.dup();
        }
        if self.is_primitive() || matches!(self, Format::TypeName { .. }) {
            return self.dup();
        }
        match (self, traced) {
            (Format::Option(a), Format::Option(b)) => Format::Option(Box::new(a.merged_with(b))),
            (Format::SeqOf(a), Format::SeqOf(b)) => Format::SeqOf(Box::new(a.merged_with(b))),
            (Format::MapOf { key: k1, value: v1 }, Format::MapOf { key: k2, value: v2 }) => {
                Format::MapOf {
                    key: Box::new(k1.merged_with(k2)),
                    value: Box::new(v1.merged_with(v2)),
                }
            },
            (Format::Tuple(a), Format::Tuple(b)) => {
                proof {
                    lemma_fmts_view(a@);
                    lemma_fmts_view(b@);
                    lemma_all_mergeable(fmts_view(a@), fmts_view(b@));
                    lemma_merge_all(fmts_view(a@), fmts_view(b@));
                }
                let n: usize = a.len();
                let mut out: Vec<Format> = Vec::new();
                let mut i: usize = 0;
                while i < n
                    invariant
                        0 <= i <= n,
                        out@.len() == i,
                        forall|j: int|
                            0 <= j < i ==> #[trigger] fmt_view(out@[j]) == spec_merge(
                                fmts_view(a@)[j],
                                fmts_view(b@)[j],
                            ),
                    decreases n - i,
                {
                    proof {
                        assert(spec_mergeable(fmts_view(a@)[i as int], fmts_view(b@)[i as int]));
                    }
                    let m = a[i].merged_with(&b[i]);
                    out.push(m);
                    i = i + 1;
                }
                proof {
                    lemma_fmts_view(out@);
                    assert(fmts_view(out@) =~= spec_merge_all(fmts_view(a@), fmts_view(b@)));
                }
                Format::Tuple(out)
            },
            (
                Format::TupleArray { content: c1, size },
                Format::TupleArray { content: c2, .. },
            ) => Format::TupleArray { content: Box::new(c1.merged_with(c2)), size: *size },
            _ => {
                // excluded by the precondition
                proof {
                    assert(false);
                }
                Format::Unit
            },
        }
    }

    /// Replaces the incomplete parts of this shape with the traced shape's
    /// counterparts.  The two sides must be structurally mergeable; an
    /// unchecked caller uses `try_replace_incomplete`.
    pub fn replace_incomplete(&mut self, replacement: Format)
        requires
            spec_mergeable(old(self)@, replacement@),
        ensures
            final(self)@ == spec_merge(old(self)@, replacement@),
    {
        let m = self.merged_with(&replacement);
        *self = m;
    }

    /// Replaces the incomplete parts of this shape with the traced shape's
    /// counterparts, or reports the structural mismatch, identifying both
    /// sides, and leaves this shape unchanged.
    pub fn try_replace_incomplete(&mut self, replacement: Format) -> (res: Result<
        (),
        MergeError,
    >)
        ensures
            res is Ok <==> spec_mergeable(old(self)@, replacement@),
            res is Ok ==> final(self)@ == spec_merge(old(self)@, replacement@),
            res is Err ==> final(self)@ == old(self)@,
            res matches Err(e) ==> e@ matches SpecMergeError::Format { target, traced }
                && target == old(self)@ && traced == replacement@,
    {
        if self.is_mergeable_with(&replacement) {
            self.replace_incomplete(replacement);
            Ok(())
        } else {
            Err(MergeError::Format { target: self.dup(), traced: replacement })
        }
    }
}

/// A structural mismatch found while merging: the extractor and the tracer
/// disagree about a declaration's shape, which is fatal for the merge.
#[derive(Debug, PartialEq)]
pub enum MergeError {
    /// Two anonymous value shapes disagree in outer constructor or arity.
    Format { target: Format, traced: Format },
    /// Two containers disagree in kind.
    Container { target_kind: String, traced_kind: String },
    /// Two sequences of unnamed fields disagree in length.
    Arity { target_len: usize, traced_len: usize },
    /// Two variant payloads disagree in kind.
    Variant { index: u32 },
    /// A struct field's serialize name has no traced counterpart.
    MissingField { name: String },
    /// An enum variant index has no traced counterpart.
    MissingVariant { index: u32 },
}

/// Mathematical model of a `MergeError`.
#[verifier::ext_equal]
pub enum SpecMergeError {
    Format { target: SpecFormat, traced: SpecFormat },
    Container { target_kind: Seq<char>, traced_kind: Seq<char> },
    Arity { target_len: usize, traced_len: usize },
    Variant { index: u32 },
    MissingField { name: Seq<char> },
    MissingVariant { index: u32 },
}

impl DeepView for MergeError {
    type V = SpecMergeError;

    open spec fn deep_view(&self) -> SpecMergeError {
        match self {
            MergeError::Format { target, traced } => SpecMergeError::Format {
                target: target.deep_view(),
                traced: traced.deep_view(),
            },
            MergeError::Container { target_kind, traced_kind } => SpecMergeError::Container {
                target_kind: target_kind.deep_view(),
                traced_kind: traced_kind.deep_view(),
            },
            MergeError::Arity { target_len, traced_len } => SpecMergeError::Arity {
                target_len: *target_len,
                traced_len: *traced_len,
            },
            MergeError::Variant { index } => SpecMergeError::Variant { index: *index },
            MergeError::MissingField { name } => SpecMergeError::MissingField {
                name: name.deep_view(),
            },
            MergeError::MissingVariant { index } => SpecMergeError::MissingVariant {
                index: *index,
            },
        }
    }
}

impl View for MergeError {
    type V = SpecMergeError;

    open spec fn view(&self) -> SpecMergeError {
        self.deep_view()
    }
}

/// The first field, in declaration order, whose serialize name is the given
/// name.
pub open spec fn spec_find_field(fields: Seq<SpecNamed<SpecFormat>>, name: Seq<char>) -> Option<
    SpecNamed<SpecFormat>,
>
    decreases fields.len(),
{
    if fields.len() == 0 {
        None
    } else if spec_serialize_name(fields[0]) == name {
        Some(fields[0])
    } else {
        spec_find_field(fields.drop_first(), name)
    }
}

/// The first enum entry with the given declaration index.
pub open spec fn spec_find_variant(
    entries: Seq<(u32, SpecNamed<SpecVariantFormat>)>,
    index: u32,
) -> Option<SpecNamed<SpecVariantFormat>>
    decreases entries.len(),
{
    if entries.len() == 0 {
        None
    } else if entries[0].0 == index {
        Some(entries[0].1)
    } else {
        spec_find_variant(entries.drop_first(), index)
    }
}

/// Whether a traced field list can fill a target field list: every target
/// field finds a traced counterpart under its serialize name, and the two
/// shapes are mergeable.
pub open spec fn spec_struct_mergeable(
    fa: Seq<SpecNamed<SpecFormat>>,
    fb: Seq<SpecNamed<SpecFormat>>,
) -> bool {
    forall|i: int|
        0 <= i < fa.len() ==> match spec_find_field(fb, spec_serialize_name(#[trigger] fa[i])) {
            Some(tf) => spec_mergeable(fa[i].value, tf.value),
            None => false,
        }
}

/// One target field with its shape merged against its traced counterpart;
/// everything else about the field stands.
pub open spec fn spec_merged_field(
    f: SpecNamed<SpecFormat>,
    fb: Seq<SpecNamed<SpecFormat>>,
) -> SpecNamed<SpecFormat> {
    match spec_find_field(fb, spec_serialize_name(f)) {
        Some(tf) => SpecNamed { value: spec_merge(f.value, tf.value), ..f },
        None => f,
    }
}

/// The target field list with every field's shape merged against its traced
/// counterpart.
pub open spec fn spec_merge_struct(
    fa: Seq<SpecNamed<SpecFormat>>,
    fb: Seq<SpecNamed<SpecFormat>>,
) -> Seq<SpecNamed<SpecFormat>> {
    Seq::new(fa.len(), |i: int| spec_merged_field(fa[i], fb))
}

/// Whether a traced variant payload can fill a target variant payload: the
/// kinds agree and the shapes inside are mergeable.
pub open spec fn spec_variant_mergeable(t: SpecVariantFormat, r: SpecVariantFormat) -> bool {
    match (t, r) {
        (SpecVariantFormat::Unit, SpecVariantFormat::Unit) => true,
        (SpecVariantFormat::NewType(a), SpecVariantFormat::NewType(b)) => spec_mergeable(*a, *b),
        (SpecVariantFormat::Tuple(a), SpecVariantFormat::Tuple(b)) => a.len() == b.len()
            && spec_all_mergeable(a, b),
        (SpecVariantFormat::Struct(fa), SpecVariantFormat::Struct(fb)) => spec_struct_mergeable(
            fa,
            fb,
        ),
        _ => false,
    }
}

/// The merge of a traced variant payload into a target variant payload.
pub open spec fn spec_merge_variant(t: SpecVariantFormat, r: SpecVariantFormat)
    -> SpecVariantFormat {
    match (t, r) {
        (SpecVariantFormat::NewType(a), SpecVariantFormat::NewType(b)) => SpecVariantFormat::NewType(
            Box::new(spec_merge(*a, *b)),
        ),
        (SpecVariantFormat::Tuple(a), SpecVariantFormat::Tuple(b)) => SpecVariantFormat::Tuple(
            spec_merge_all(a, b),
        ),
        (SpecVariantFormat::Struct(fa), SpecVariantFormat::Struct(fb)) => SpecVariantFormat::Struct(
            spec_merge_struct(fa, fb),
        ),
        _ => t,
    }
}

/// Whether a traced enum entry list can fill a target entry list: every
/// target index finds a traced counterpart, and the payloads are mergeable.
pub open spec fn spec_enum_mergeable(
    va: Seq<(u32, SpecNamed<SpecVariantFormat>)>,
    vb: Seq<(u32, SpecNamed<SpecVariantFormat>)>,
) -> bool {
    forall|i: int|
        0 <= i < va.len() ==> match spec_find_variant(vb, (#[trigger] va[i]).0) {
            Some(tv) => spec_variant_mergeable(va[i].1.value, tv.value),
            None => false,
        }
}

/// One target enum entry with its payload merged against its traced
/// counterpart; the index and everything named stand.
pub open spec fn spec_merged_entry(
    e: (u32, SpecNamed<SpecVariantFormat>),
    vb: Seq<(u32, SpecNamed<SpecVariantFormat>)>,
) -> (u32, SpecNamed<SpecVariantFormat>) {
    match spec_find_variant(vb, e.0) {
        Some(tv) => (e.0, SpecNamed { value: spec_merge_variant(e.1.value, tv.value), ..e.1 }),
        None => e,
    }
}

/// The target entry list with every payload merged against its traced
/// counterpart.
pub open spec fn spec_merge_enum(
    va: Seq<(u32, SpecNamed<SpecVariantFormat>)>,
    vb: Seq<(u32, SpecNamed<SpecVariantFormat>)>,
) -> Seq<(u32, SpecNamed<SpecVariantFormat>)> {
    Seq::new(va.len(), |i: int| spec_merged_entry(va[i], vb))
}

/// Whether a traced container can fill a target container: the kinds agree
/// and the contents are mergeable position by position, field by serialize
/// name, and variant by declaration index.
pub open spec fn spec_container_mergeable(
    t: SpecContainerFormat,
    r: SpecContainerFormat,
) -> bool {
    match (t, r) {
        (SpecContainerFormat::UnitStruct, SpecContainerFormat::UnitStruct) => true,
        (SpecContainerFormat::NewTypeStruct(a), SpecContainerFormat::NewTypeStruct(b)) =>
            spec_mergeable(*a, *b),
        (SpecContainerFormat::TupleStruct(a), SpecContainerFormat::TupleStruct(b)) => a.len()
            == b.len() && spec_all_mergeable(a, b),
        (SpecContainerFormat::Struct(fa), SpecContainerFormat::Struct(fb)) =>
            spec_struct_mergeable(fa, fb),
        (SpecContainerFormat::Enum(va), SpecContainerFormat::Enum(vb)) => spec_enum_mergeable(
            va,
            vb,
        ),
        _ => false,
    }
}

/// The merge of a traced container into a target container of the same
/// kind.
pub open spec fn spec_merge_container(
    t: SpecContainerFormat,
    r: SpecContainerFormat,
) -> SpecContainerFormat {
    match (t, r) {
        (SpecContainerFormat::NewTypeStruct(a), SpecContainerFormat::NewTypeStruct(b)) =>
            SpecContainerFormat::NewTypeStruct(Box::new(spec_merge(*a, *b))),
        (SpecContainerFormat::TupleStruct(a), SpecContainerFormat::TupleStruct(b)) =>
            SpecContainerFormat::TupleStruct(spec_merge_all(a, b)),
        (SpecContainerFormat::Struct(fa), SpecContainerFormat::Struct(fb)) =>
            SpecContainerFormat::Struct(spec_merge_struct(fa, fb)),
        (SpecContainerFormat::Enum(va), SpecContainerFormat::Enum(vb)) =>
            SpecContainerFormat::Enum(spec_merge_enum(va, vb)),
        _ => t,
    }
}

/// The first field with the given serialize name, scanning in declaration
/// order.
#[verifier::loop_isolation(false)]
pub fn find_field<'a>(fields: &'a Vec<Named<Format>>, name: &str) -> (res: Option<&'a Named<
    Format,
>>)
    ensures
        (match res {
            Some(f) => spec_find_field(fields.deep_view(), name@) == Some(f.deep_view()),
            None => spec_find_field(fields.deep_view(), name@) is None,
        }),
{
    let ghost fv = fields.deep_view();
    let n: usize = fields.len();
    let mut i: usize = 0;
    proof {
        assert(fv.skip(0) =~= fv);
    }
    while i < n
        invariant
            0 <= i <= n,
            spec_find_field(fv, name@) == spec_find_field(fv.skip(i as int), name@),
        decreases n - i,
    {
        proof {
            assert(fv.skip(i as int)[0] == fv[i as int]);
            assert(fv.skip(i as int).drop_first() =~= fv.skip(i + 1));
        }
        if str_eq(fields[i].serialize_name(), name) {
            return Some(&fields[i]);
        }
        i = i + 1;
    }
    proof {
        assert(fv.skip(n as int) =~= Seq::<SpecNamed<SpecFormat>>::empty());
    }
    None
}

/// The first enum entry with the given declaration index.
#[verifier::loop_isolation(false)]
pub fn find_variant<'a>(entries: &'a Vec<(u32, Named<VariantFormat>)>, index: u32) -> (res:
    Option<&'a Named<VariantFormat>>)
    ensures
        (match res {
            Some(v) => spec_find_variant(entries.deep_view(), index) == Some(v.deep_view()),
            None => spec_find_variant(entries.deep_view(), index) is None,
        }),
{
    let ghost ev = entries.deep_view();
    let n: usize = entries.len();
    let mut i: usize = 0;
    proof {
        assert(ev.skip(0) =~= ev);
    }
    while i < n
        invariant
            0 <= i <= n,
            spec_find_variant(ev, index) == spec_find_variant(ev.skip(i as int), index),
        decreases n - i,
    {
        proof {
            assert(ev.skip(i as int)[0] == ev[i as int]);
            assert(ev.skip(i as int).drop_first() =~= ev.skip(i + 1));
        }
        if entries[i].0 == index {
            return Some(&entries[i].1);
        }
        i = i + 1;
    }
    proof {
        assert(ev.skip(n as int) =~= Seq::<(u32, SpecNamed<SpecVariantFormat>)>::empty());
    }
    None
}

/// Merges a traced field list into a target field list, field by serialize
/// name, or reports the first structural mismatch.
pub fn merge_fields(fa: Vec<Named<Format>>, fb: &Vec<Named<Format>>) -> (res: Result<
    Vec<Named<Format>>,
    MergeError,
>)
    ensures
        res is Ok <==> spec_struct_mergeable(fa.deep_view(), fb.deep_view()),
        res matches Ok(out) ==> out.deep_view() == spec_merge_struct(
            fa.deep_view(),
            fb.deep_view(),
        ),
    decreases fa@.len(),
{
    let ghost fav = fa.deep_view();
    let mut fa = fa;
    if fa.len() == 0 {
        proof {
            assert(spec_merge_struct(fav, fb.deep_view()) =~= Seq::<SpecNamed<SpecFormat>>::empty());
        }
        return Ok(Vec::new());
    }
    let f = match fa.pop() {
        Some(f) => f,
        None => {
            proof {
                assert(false);
            }
            return Ok(Vec::new());
        },
    };
    proof {
        assert(fa.deep_view() =~= fav.drop_last());
        assert(f.deep_view() == fav.last());
    }
    let prefix = merge_fields(fa, fb);
    match prefix {
        Ok(mut out) => {
            let name = f.serialize_name();
            match find_field(fb, name) {
                Some(cf) => {
                    if f.value.is_mergeable_with(&cf.value) {
                        let m = f.value.merged_with(&cf.value);
                        let merged = Named {
                            rust_ident: f.rust_ident,
                            rust_generics: f.rust_generics,
                            rust_docs: f.rust_docs,
                            serde_attrs: f.serde_attrs,
                            serde_flags: f.serde_flags,
                            codegen_attrs: f.codegen_attrs,
                            codegen_flags: f.codegen_flags,
                            value: m,
                        };
                        let ghost outv0 = out.deep_view();
                        out.push(merged);
                        proof {
                            assert(merged.deep_view() == spec_merged_field(fav.last(),
                                fb.deep_view()));
                            assert(forall|i: int|
                                0 <= i < fav.len() - 1 ==> fav.drop_last()[i] == #[trigger] fav[i]);
                            assert(out.deep_view() =~= outv0.push(merged.deep_view()));
                            assert forall|i: int| 0 <= i < fav.len() implies out.deep_view()[i]
                                == spec_merge_struct(fav, fb.deep_view())[i] by {
                                if i < fav.len() - 1 {
                                    assert(out.deep_view()[i] == outv0[i]);
                                    assert(outv0[i] == spec_merged_field(fav.drop_last()[i],
                                        fb.deep_view()));
                                } else {
                                    assert(fav[i] == fav.last());
                                }
                            }
                            assert(out.deep_view() =~= spec_merge_struct(fav, fb.deep_view()));
                            assert(forall|i: int|
                                0 <= i < fav.len() ==> match spec_find_field(
                                    fb.deep_view(),
                                    spec_serialize_name(#[trigger] fav[i]),
                                ) {
                                    Some(tf) => spec_mergeable(fav[i].value, tf.value),
                                    None => false,
                                });
                        }
                        Ok(out)
                    } else {
                        proof {
                            assert(!spec_struct_mergeable(fav, fb.deep_view())) by {
                                assert(fav[fav.len() - 1] == fav.last());
                            }
                        }
                        Err(MergeError::Format { target: f.value, traced: cf.value.dup() })
                    }
                },
                None => {
                    proof {
                        assert(!spec_struct_mergeable(fav, fb.deep_view())) by {
                            assert(fav[fav.len() - 1] == fav.last());
                        }
                    }
                    Err(MergeError::MissingField { name: name.to_owned() })
                },
            }
        },
        Err(e) => {
            proof {
                assert(!spec_struct_mergeable(fav, fb.deep_view())) by {
                    assert(!spec_struct_mergeable(fav.drop_last(), fb.deep_view()));
                    assert(forall|i: int|
                        0 <= i < fav.len() - 1 ==> fav.drop_last()[i] == #[trigger] fav[i]);
                }
            }
            Err(e)
        },
    }
}

/// Merges a traced variant payload into a target variant payload of the
/// same kind, or reports the mismatch under the variant's declaration
/// index.
#[verifier::loop_isolation(false)]
pub fn merge_variant_payload(index: u32, t: VariantFormat, r: &VariantFormat) -> (res: Result<
    VariantFormat,
    MergeError,
>)
    ensures
        res is Ok <==> spec_variant_mergeable(t@, r@),
        res matches Ok(v) ==> v@ == spec_merge_variant(t@, r@),
{
    match (t, r) {
        (VariantFormat::Unit, VariantFormat::Unit) => Ok(VariantFormat::Unit),
        (VariantFormat::NewType(a), VariantFormat::NewType(b)) => {
            if a.is_mergeable_with(b) {
                Ok(VariantFormat::NewType(Box::new(a.merged_with(b))))
            } else {
                Err(MergeError::Format { target: *a, traced: b.dup() })
            }
        },
        (VariantFormat::Tuple(a), VariantFormat::Tuple(b)) => {
            proof {
                lemma_fmts_view_eq_deep(a);
                lemma_fmts_view_eq_deep(*b);
            }
            match merge_formats_pairwise(&a, b) {
                Ok(out) => {
                    proof {
                        lemma_fmts_view_eq_deep(out);
                    }
                    Ok(VariantFormat::Tuple(out))
                },
                Err(e) => Err(e),
            }
        },
        (VariantFormat::Struct(fa), VariantFormat::Struct(fb)) => {
            match merge_fields(fa, fb) {
                Ok(out) => Ok(VariantFormat::Struct(out)),
                Err(e) => Err(e),
            }
        },
        (_, _) => Err(MergeError::Variant { index }),
    }
}

/// Merges two equally long format lists pair by pair, or reports the first
/// mismatch (a length disagreement counts as one).
#[verifier::loop_isolation(false)]
pub fn merge_formats_pairwise(a: &Vec<Format>, b: &Vec<Format>) -> (res: Result<
    Vec<Format>,
    MergeError,
>)
    ensures
        res is Ok <==> (a@.len() == b@.len() && spec_all_mergeable(fmts_view(a@), fmts_view(b@))),
        res matches Ok(out) ==> fmts_view(out@) == spec_merge_all(fmts_view(a@), fmts_view(b@)),
{
    proof {
        lemma_fmts_view(a@);
        lemma_fmts_view(b@);
    }
    if a.len() != b.len() {
        return Err(MergeError::Arity { target_len: a.len(), traced_len: b.len() });
    }
    proof {
        lemma_all_mergeable(fmts_view(a@), fmts_view(b@));
        lemma_merge_all(fmts_view(a@), fmts_view(b@));
    }
    let n: usize = a.len();
    let mut out: Vec<Format> = Vec::new();
    let mut i: usize = 0;
    while i < n
        invariant
            0 <= i <= n,
            out@.len() == i,
            forall|j: int| 0 <= j < i ==> spec_mergeable(#[trigger] fmts_view(a@)[j],
                fmts_view(b@)[j]),
            forall|j: int|
                0 <= j < i ==> #[trigger] fmt_view(out@[j]) == spec_merge(
                    fmts_view(a@)[j],
                    fmts_view(b@)[j],
                ),
        decreases n - i,
    {
        if !a[i].is_mergeable_with(&b[i]) {
            proof {
                assert(!spec_mergeable(fmts_view(a@)[i as int], fmts_view(b@)[i as int]));
            }
            return Err(MergeError::Format { target: a[i].dup(), traced: b[i].dup() });
        }
        proof {
            assert(spec_mergeable(fmts_view(a@)[i as int], fmts_view(b@)[i as int]));
        }
        let m = a[i].merged_with(&b[i]);
        out.push(m);
        i = i + 1;
    }
    proof {
        lemma_fmts_view(out@);
        assert(fmts_view(out@) =~= spec_merge_all(fmts_view(a@), fmts_view(b@)));
    }
    Ok(out)
}

/// Merges a traced enum entry list into a target entry list, matching
/// entries by declaration index, or reports the first mismatch.
pub fn merge_enum_entries(
    va: Vec<(u32, Named<VariantFormat>)>,
    vb: &Vec<(u32, Named<VariantFormat>)>,
) -> (res: Result<Vec<(u32, Named<VariantFormat>)>, MergeError>)
    ensures
        res is Ok <==> spec_enum_mergeable(va.deep_view(), vb.deep_view()),
        res matches Ok(out) ==> out.deep_view() == spec_merge_enum(
            va.deep_view(),
            vb.deep_view(),
        ),
    decreases va@.len(),
{
    let ghost vav = va.deep_view();
    let mut va = va;
    if va.len() == 0 {
        proof {
            assert(spec_merge_enum(vav, vb.deep_view()) =~= Seq::<(
                u32,
                SpecNamed<SpecVariantFormat>,
            )>::empty());
        }
        return Ok(Vec::new());
    }
    let e = match va.pop() {
        Some(e) => e,
        None => {
            proof {
                assert(false);
            }
            return Ok(Vec::new());
        },
    };
    proof {
        assert(va.deep_view() =~= vav.drop_last());
        assert(e.deep_view() == vav.last());
    }
    let prefix = merge_enum_entries(va, vb);
    match prefix {
        Ok(mut out) => {
            let (index, named) = e;
            match find_variant(vb, index) {
                Some(tv) => {
                    match merge_variant_payload(index, named.value, &tv.value) {
                        Ok(m) => {
                            let merged = (
                                index,
                                Named {
                                    rust_ident: named.rust_ident,
                                    rust_generics: named.rust_generics,
                                    rust_docs: named.rust_docs,
                                    serde_attrs: named.serde_attrs,
                                    serde_flags: named.serde_flags,
                                    codegen_attrs: named.codegen_attrs,
                                    codegen_flags: named.codegen_flags,
                                    value: m,
                                },
                            );
                            let ghost outv0 = out.deep_view();
                            out.push(merged);
                            proof {
                                assert(merged.deep_view() == spec_merged_entry(vav.last(),
                                    vb.deep_view()));
                                assert(forall|i: int|
                                    0 <= i < vav.len() - 1 ==> vav.drop_last()[i]
                                        == #[trigger] vav[i]);
                                assert(out.deep_view() =~= outv0.push(merged.deep_view()));
                                assert forall|i: int| 0 <= i < vav.len() implies out.deep_view()[i]
                                    == spec_merge_enum(vav, vb.deep_view())[i] by {
                                    if i < vav.len() - 1 {
                                        assert(out.deep_view()[i] == outv0[i]);
                                        assert(outv0[i] == spec_merged_entry(vav.drop_last()[i],
                                            vb.deep_view()));
                                    } else {
                                        assert(vav[i] == vav.last());
                                    }
                                }
                                assert(out.deep_view() =~= spec_merge_enum(vav, vb.deep_view()));
                                assert(forall|i: int|
                                    0 <= i < vav.len() ==> match spec_find_variant(
                                        vb.deep_view(),
                                        (#[trigger] vav[i]).0,
                                    ) {
                                        Some(tv2) => spec_variant_mergeable(
                                            vav[i].1.value,
                                            tv2.value,
                                        ),
                                        None => false,
                                    });
                            }
                            Ok(out)
                        },
                        Err(err) => {
                            proof {
                                assert(!spec_enum_mergeable(vav, vb.deep_view())) by {
                                    assert(vav[vav.len() - 1] == vav.last());
                                }
                            }
                            Err(err)
                        },
                    }
                },
                None => {
                    proof {
                        assert(!spec_enum_mergeable(vav, vb.deep_view())) by {
                            assert(vav[vav.len() - 1] == vav.last());
                        }
                    }
                    Err(MergeError::MissingVariant { index })
                },
            }
        },
        Err(err) => {
            proof {
                assert(!spec_enum_mergeable(vav, vb.deep_view())) by {
                    assert(!spec_enum_mergeable(vav.drop_last(), vb.deep_view()));
                    assert(forall|i: int|
                        0 <= i < vav.len() - 1 ==> vav.drop_last()[i] == #[trigger] vav[i]);
                }
            }
            Err(err)
        },
    }
}

/// The name of a container's kind, for mismatch reports.
pub open spec fn spec_container_kind_name(c: SpecContainerFormat) -> Seq<char> {
    match c {
        SpecContainerFormat::UnitStruct => "UnitStruct"@,
        SpecContainerFormat::NewTypeStruct(_) => "NewTypeStruct"@,
        SpecContainerFormat::TupleStruct(_) => "TupleStruct"@,
        SpecContainerFormat::Struct(_) => "Struct"@,
        SpecContainerFormat::Enum(_) => "Enum"@,
    }
}

/// The name of this container's kind.
pub fn container_kind_name(c: &ContainerFormat) -> (r: String)
    ensures
        r@ == spec_container_kind_name(c@),
{
    match c {
        ContainerFormat::UnitStruct => "UnitStruct".to_owned(),
        ContainerFormat::NewTypeStruct(_) => "NewTypeStruct".to_owned(),
        ContainerFormat::TupleStruct(_) => "TupleStruct".to_owned(),
        ContainerFormat::Struct(_) => "Struct".to_owned(),
        ContainerFormat::Enum(_) => "Enum".to_owned(),
    }
}

/// Merges an independently traced container into an extracted one.  The two
/// must agree on container kind; struct fields match by resolved serialize
/// name, enum variants by declaration index; a resolved leaf is never
/// overridden.  Any disagreement is a fatal structural mismatch, returned
/// as the error.
pub fn merge_container(target: ContainerFormat, traced: &ContainerFormat) -> (res: Result<
    ContainerFormat,
    MergeError,
>)
    ensures
        res is Ok <==> spec_container_mergeable(target@, traced@),
        res matches Ok(c) ==> c@ == spec_merge_container(target@, traced@),
{
    match (target, traced) {
        (ContainerFormat::UnitStruct, ContainerFormat::UnitStruct) => Ok(
            ContainerFormat::UnitStruct,
        ),
        (ContainerFormat::NewTypeStruct(a), ContainerFormat::NewTypeStruct(b)) => {
            if a.is_mergeable_with(b) {
                Ok(ContainerFormat::NewTypeStruct(Box::new(a.merged_with(b))))
            } else {
                Err(MergeError::Format { target: *a, traced: b.dup() })
            }
        },
        (ContainerFormat::TupleStruct(a), ContainerFormat::TupleStruct(b)) => {
            proof {
                lemma_fmts_view_eq_deep(a);
                lemma_fmts_view_eq_deep(*b);
            }
            match merge_formats_pairwise(&a, b) {
                Ok(out) => {
                    proof {
                        lemma_fmts_view_eq_deep(out);
                    }
                    Ok(ContainerFormat::TupleStruct(out))
                },
                Err(e) => Err(e),
            }
        },
        (ContainerFormat::Struct(fa), ContainerFormat::Struct(fb)) => {
            match merge_fields(fa, fb) {
                Ok(out) => Ok(ContainerFormat::Struct(out)),
                Err(e) => Err(e),
            }
        },
        (ContainerFormat::Enum(va), ContainerFormat::Enum(vb)) => {
            match merge_enum_entries(va, vb) {
                Ok(out) => Ok(ContainerFormat::Enum(out)),
                Err(e) => Err(e),
            }
        },
        (t, _) => {
            let target_kind = container_kind_name(&t);
            let traced_kind = container_kind_name(traced);
            Err(MergeError::Container { target_kind, traced_kind })
        },
    }
}

/// Whether no field shape in the list holds an `Incomplete` node.
pub open spec fn spec_fields_no_incomplete(fs: Seq<SpecNamed<SpecFormat>>) -> bool {
    forall|i: int| 0 <= i < fs.len() ==> spec_no_incomplete((#[trigger] fs[i]).value)
}

/// Whether a variant payload holds no `Incomplete` node.
pub open spec fn spec_variant_no_incomplete(v: SpecVariantFormat) -> bool {
    match v {
        SpecVariantFormat::Unit => true,
        SpecVariantFormat::NewType(a) => spec_no_incomplete(*a),
        SpecVariantFormat::Tuple(s) => spec_all_no_incomplete(s),
        SpecVariantFormat::Struct(fs) => spec_fields_no_incomplete(fs),
    }
}

/// Whether a container holds no `Incomplete` node anywhere.
pub open spec fn spec_container_no_incomplete(c: SpecContainerFormat) -> bool {
    match c {
        SpecContainerFormat::UnitStruct => true,
        SpecContainerFormat::NewTypeStruct(a) => spec_no_incomplete(*a),
        SpecContainerFormat::TupleStruct(s) => spec_all_no_incomplete(s),
        SpecContainerFormat::Struct(fs) => spec_fields_no_incomplete(fs),
        SpecContainerFormat::Enum(es) => forall|i: int|
            0 <= i < es.len() ==> spec_variant_no_incomplete((#[trigger] es[i]).1.value),
    }
}

/// Merging into a fully resolved field list changes no field.
pub proof fn lemma_merge_struct_resolved_noop(
    fa: Seq<SpecNamed<SpecFormat>>,
    fb: Seq<SpecNamed<SpecFormat>>,
)
    requires
        spec_fields_no_incomplete(fa),
        spec_struct_mergeable(fa, fb),
    ensures
        spec_merge_struct(fa, fb) == fa,
{
    assert forall|i: int| 0 <= i < fa.len() implies spec_merge_struct(fa, fb)[i] == fa[i] by {
        match spec_find_field(fb, spec_serialize_name(fa[i])) {
            Some(tf) => {
                lemma_merge_resolved_noop(fa[i].value, tf.value);
                assert(spec_merged_field(fa[i], fb) =~= fa[i]);
            },
            None => {},
        }
    }
    assert(spec_merge_struct(fa, fb) =~= fa);
}

/// Merging into a fully resolved variant payload changes nothing.
pub proof fn lemma_merge_variant_resolved_noop(t: SpecVariantFormat, r: SpecVariantFormat)
    requires
        spec_variant_no_incomplete(t),
        spec_variant_mergeable(t, r),
    ensures
        spec_merge_variant(t, r) == t,
{
    match (t, r) {
        (SpecVariantFormat::NewType(a), SpecVariantFormat::NewType(b)) => {
            lemma_merge_resolved_noop(*a, *b);
        },
        (SpecVariantFormat::Tuple(a), SpecVariantFormat::Tuple(b)) => {
            lemma_all_mergeable(a, b);
            lemma_merge_all(a, b);
            lemma_all_no_incomplete(a);
            assert forall|i: int| 0 <= i < a.len() implies #[trigger] spec_merge_all(a, b)[i]
                == a[i] by {
                lemma_merge_resolved_noop(a[i], b[i]);
            }
            assert(spec_merge_all(a, b) =~= a);
        },
        (SpecVariantFormat::Struct(fa), SpecVariantFormat::Struct(fb)) => {
            lemma_merge_struct_resolved_noop(fa, fb);
        },
        _ => {},
    }
}

/// Merging a traced container into a fully resolved one is a no-op: when no
/// `Incomplete` node remains anywhere in a declaration's schema, the merge
/// returns the declaration unchanged, whatever the traced side holds, as
/// long as the two are mergeable at all.
pub proof fn lemma_merge_container_resolved_noop(t: SpecContainerFormat, r: SpecContainerFormat)
    requires
        spec_container_no_incomplete(t),
        spec_container_mergeable(t, r),
    ensures
        spec_merge_container(t, r) == t,
{
    match (t, r) {
        (SpecContainerFormat::NewTypeStruct(a), SpecContainerFormat::NewTypeStruct(b)) => {
            lemma_merge_resolved_noop(*a, *b);
        },
        (SpecContainerFormat::TupleStruct(a), SpecContainerFormat::TupleStruct(b)) => {
            lemma_all_mergeable(a, b);
            lemma_merge_all(a, b);
            lemma_all_no_incomplete(a);
            assert forall|i: int| 0 <= i < a.len() implies #[trigger] spec_merge_all(a, b)[i]
                == a[i] by {
                lemma_merge_resolved_noop(a[i], b[i]);
            }
            assert(spec_merge_all(a, b) =~= a);
        },
        (SpecContainerFormat::Struct(fa), SpecContainerFormat::Struct(fb)) => {
            lemma_merge_struct_resolved_noop(fa, fb);
        },
        (SpecContainerFormat::Enum(va), SpecContainerFormat::Enum(vb)) => {
            assert forall|i: int| 0 <= i < va.len() implies spec_merge_enum(va, vb)[i]
                == va[i] by {
                match spec_find_variant(vb, va[i].0) {
                    Some(tv) => {
                        lemma_merge_variant_resolved_noop(va[i].1.value, tv.value);
                        assert(spec_merged_entry(va[i], vb).1 =~= va[i].1);
                        assert(spec_merged_entry(va[i], vb) == va[i]);
                    },
                    None => {},
                }
            }
            assert(spec_merge_enum(va, vb) =~= va);
        },
        _ => {},
    }
}

} // verus!
