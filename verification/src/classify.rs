//! The attribute classifier: turning a raw declaration's ordered attribute
//! pairs and flags into a normalized `Attrs` bag with derived location
//! strings, and deciding a union's on-wire representation.

use vstd::prelude::*;

use crate::line_index::{SourceLineNumberIndex, spec_line_col};
use crate::schema::{Named, Spanned, SpecNamed, SpecSpanned, SpecAttrPair};
use crate::stdx::push_char;
use crate::strutil::{spec_dec, str_eq};
use crate::wire::{Attrs, SpecAttrs, EnumRepresentation, SpecEnumRepresentation, LocationID};

verus! {

/// The spec-level state of a converter: the file it describes, the
/// optional explicit line of the declaration, and the line-start table of
/// the file's text.
#[verifier::ext_equal]
pub struct SpecConverter {
    pub file: Seq<char>,
    pub line_number_override: Option<u32>,
    pub newlines: Seq<usize>,
}

/// Drives the classification of one declaration: knows the file name, the
/// declaration's explicit line if the extractor provided one, and the
/// file's line-start table.
pub struct TypeRootConverter {
    pub file_name: String,
    pub line_number_override: Option<u32>,
    pub lines: SourceLineNumberIndex,
}

impl View for TypeRootConverter {
    type V = SpecConverter;

    open spec fn view(&self) -> SpecConverter {
        SpecConverter {
            file: self.file_name@,
            line_number_override: self.line_number_override,
            newlines: self.lines.newlines@,
        }
    }
}

/// The location string of a byte range resolved through the line-start
/// table: file, line, column and the byte range.
#[verifier::opaque]
pub open spec fn spec_indexed_location(c: SpecConverter, bytes: (usize, usize)) -> Seq<char> {
    let lc = spec_line_col(c.newlines, bytes.0);
    "L("@ + c.file + ":"@ + spec_dec(lc.0 as nat) + ":"@ + spec_dec(lc.1 as nat) + " #B"@
        + spec_dec(bytes.0 as nat) + "-B"@ + spec_dec(bytes.1 as nat) + ")"@
}

/// The location string of the top-level declaration name: the explicit
/// line override bypasses the indexer when the extractor supplied one.
#[verifier::opaque]
pub open spec fn spec_root_location(c: SpecConverter, bytes: (usize, usize)) -> Seq<char> {
    match c.line_number_override {
        Some(line) => "L("@ + c.file + ":"@ + spec_dec(line as nat) + " #B"@ + spec_dec(
            bytes.0 as nat,
        ) + "-B"@ + spec_dec(bytes.1 as nat) + ")"@,
        None => spec_indexed_location(c, bytes),
    }
}

impl TypeRootConverter {
    /// The line-start table is sound.
    pub open spec fn wf(&self) -> bool {
        self.lines.wf()
    }

    /// The line and column of a byte offset of this file.
    pub fn get_ln_col(&self, byte: usize) -> (r: (usize, usize))
        requires
            self.wf(),
        ensures
            (r.0 as int, r.1 as int) == spec_line_col(self@.newlines, byte),
    {
        self.lines.get_ln_col(byte)
    }

    /// The location string of a nested identifier's byte range, always
    /// resolved through the indexer.
    pub fn location_id(&self, bytes: (usize, usize)) -> (r: LocationID)
        requires
            self.wf(),
        ensures
            r@ == spec_indexed_location(self@, bytes),
    {
        let (ln, col) = self.get_ln_col(bytes.0);
        let mut out = String::new();
        push_char(&mut out, 'L');
        push_char(&mut out, '(');
        out.append(self.file_name.as_str());
        push_char(&mut out, ':');
        crate::strutil::push_dec(&mut out, ln as u64);
        push_char(&mut out, ':');
        crate::strutil::push_dec(&mut out, col as u64);
        push_char(&mut out, ' ');
        push_char(&mut out, '#');
        push_char(&mut out, 'B');
        crate::strutil::push_dec(&mut out, bytes.0 as u64);
        push_char(&mut out, '-');
        push_char(&mut out, 'B');
        crate::strutil::push_dec(&mut out, bytes.1 as u64);
        push_char(&mut out, ')');
        proof {
            reveal(spec_indexed_location);
            reveal_strlit("L(");
            reveal_strlit(":");
            reveal_strlit(" #B");
            reveal_strlit("-B");
            reveal_strlit(")");
            assert(out@ =~= spec_indexed_location(self@, bytes));
        }
        LocationID(out)
    }

    /// The location string of the top-level declaration name, using the
    /// explicit line override when one is set.
    pub fn root_location_id(&self, bytes: (usize, usize)) -> (r: LocationID)
        requires
            self.wf(),
        ensures
            r@ == spec_root_location(self@, bytes),
    {
        match self.line_number_override {
            Some(line) => {
                let mut out = String::new();
                push_char(&mut out, 'L');
                push_char(&mut out, '(');
                out.append(self.file_name.as_str());
                push_char(&mut out, ':');
                crate::strutil::push_dec(&mut out, line as u64);
                push_char(&mut out, ' ');
                push_char(&mut out, '#');
                push_char(&mut out, 'B');
                crate::strutil::push_dec(&mut out, bytes.0 as u64);
                push_char(&mut out, '-');
                push_char(&mut out, 'B');
                crate::strutil::push_dec(&mut out, bytes.1 as u64);
                push_char(&mut out, ')');
                proof {
                    reveal(spec_root_location);
                    reveal_strlit("L(");
                    reveal_strlit(":");
                    reveal_strlit(" #B");
                    reveal_strlit("-B");
                    reveal_strlit(")");
                    assert(out@ =~= spec_root_location(self@, bytes));
                }
                LocationID(out)
            },
            None => {
                proof {
                    reveal(spec_root_location);
                }
                self.location_id(bytes)
            },
        }
    }
}

/// Sets a key in an association list, keeping the key's first position but
/// the new value: the fold rule that makes a later occurrence win.
pub open spec fn spec_assoc_set<V>(m: Seq<(Seq<char>, V)>, k: Seq<char>, v: V) -> Seq<(
    Seq<char>,
    V,
)>
    decreases m.len(),
{
    if m.len() == 0 {
        seq![(k, v)]
    } else if m[0].0 == k {
        seq![(k, v)] + m.drop_first()
    } else {
        seq![m[0]] + spec_assoc_set(m.drop_first(), k, v)
    }
}

/// The value under a key in an association list, if any.
pub open spec fn spec_assoc_get<V>(m: Seq<(Seq<char>, V)>, k: Seq<char>) -> Option<V>
    decreases m.len(),
{
    if m.len() == 0 {
        None
    } else if m[0].0 == k {
        Some(m[0].1)
    } else {
        spec_assoc_get(m.drop_first(), k)
    }
}

/// Sets a key in a valued-attribute list, keeping its first position but
/// the new value.
#[verifier::loop_isolation(false)]
pub fn assoc_set_attr(
    m: &mut Vec<(String, (String, LocationID))>,
    k: String,
    v: (String, LocationID),
)
    ensures
        final(m).deep_view() == spec_assoc_set(old(m).deep_view(), k@, v.deep_view()),
{
    let ghost mv = m.deep_view();
    let ghost vv = v.deep_view();
    let n: usize = m.len();
    let mut i: usize = 0;
    proof {
        assert(mv.skip(0) =~= mv);
    }
    while i < n
        invariant
            0 <= i <= n,
            m.deep_view() == mv,
            m@.len() == n,
            spec_assoc_set(mv, k@, vv) =~= mv.take(i as int) + spec_assoc_set(
                mv.skip(i as int),
                k@,
                vv,
            ),
        decreases n - i,
    {
        proof {
            assert(mv.skip(i as int)[0] == mv[i as int]);
            assert(mv.skip(i as int).drop_first() =~= mv.skip(i + 1));
        }
        if str_eq(m[i].0.as_str(), k.as_str()) {
            let ghost before = m.deep_view();
            m.set(i, (k, v));
            proof {
                assert(spec_assoc_set(mv.skip(i as int), k@, vv) =~= seq![(k@, vv)] + mv.skip(
                    i + 1,
                ));
                assert(m.deep_view() =~= mv.take(i as int) + (seq![(k@, vv)] + mv.skip(i + 1)));
            }
            return ;
        }
        proof {
            assert(spec_assoc_set(mv.skip(i as int), k@, vv) =~= seq![mv[i as int]]
                + spec_assoc_set(mv.skip(i + 1), k@, vv));
            assert(mv.take(i + 1) =~= mv.take(i as int) + seq![mv[i as int]]);
            assert(mv.take(i as int) + spec_assoc_set(mv.skip(i as int), k@, vv) =~= mv.take(
                i + 1,
            ) + spec_assoc_set(mv.skip(i + 1), k@, vv));
        }
        i = i + 1;
    }
    m.push((k, v));
    proof {
        assert(mv.skip(n as int) =~= Seq::<(Seq<char>, (Seq<char>, Seq<char>))>::empty());
        assert(spec_assoc_set(mv.skip(n as int), k@, vv) =~= seq![(k@, vv)]);
        assert(m.deep_view() =~= mv.take(n as int) + seq![(k@, vv)]);
        assert(mv.take(n as int) =~= mv);
    }
}

/// Sets a key in a flag list, keeping its first position but the new value.
#[verifier::loop_isolation(false)]
pub fn assoc_set_flag(m: &mut Vec<(String, LocationID)>, k: String, v: LocationID)
    ensures
        final(m).deep_view() == spec_assoc_set(old(m).deep_view(), k@, v@),
{
    let ghost mv = m.deep_view();
    let ghost vv = v@;
    let n: usize = m.len();
    let mut i: usize = 0;
    proof {
        assert(mv.skip(0) =~= mv);
    }
    while i < n
        invariant
            0 <= i <= n,
            m.deep_view() == mv,
            m@.len() == n,
            spec_assoc_set(mv, k@, vv) =~= mv.take(i as int) + spec_assoc_set(
                mv.skip(i as int),
                k@,
                vv,
            ),
        decreases n - i,
    {
        proof {
            assert(mv.skip(i as int)[0] == mv[i as int]);
            assert(mv.skip(i as int).drop_first() =~= mv.skip(i + 1));
        }
        if str_eq(m[i].0.as_str(), k.as_str()) {
            m.set(i, (k, v));
            proof {
                assert(spec_assoc_set(mv.skip(i as int), k@, vv) =~= seq![(k@, vv)] + mv.skip(
                    i + 1,
                ));
                assert(m.deep_view() =~= mv.take(i as int) + (seq![(k@, vv)] + mv.skip(i + 1)));
            }
            return ;
        }
        proof {
            assert(spec_assoc_set(mv.skip(i as int), k@, vv) =~= seq![mv[i as int]]
                + spec_assoc_set(mv.skip(i + 1), k@, vv));
            assert(mv.take(i + 1) =~= mv.take(i as int) + seq![mv[i as int]]);
            assert(mv.take(i as int) + spec_assoc_set(mv.skip(i as int), k@, vv) =~= mv.take(
                i + 1,
            ) + spec_assoc_set(mv.skip(i + 1), k@, vv));
        }
        i = i + 1;
    }
    m.push((k, v));
    proof {
        assert(mv.skip(n as int) =~= Seq::<(Seq<char>, Seq<char>)>::empty());
        assert(spec_assoc_set(mv.skip(n as int), k@, vv) =~= seq![(k@, vv)]);
        assert(m.deep_view() =~= mv.take(n as int) + seq![(k@, vv)]);
        assert(mv.take(n as int) =~= mv);
    }
}

/// The fold of raw ordered attribute pairs into a map: processed in order,
/// a later occurrence of a key wins, and each value carries the location
/// string of its span.
pub open spec fn spec_fold_attrs(c: SpecConverter, pairs: Seq<SpecAttrPair>) -> Seq<(
    Seq<char>,
    (Seq<char>, Seq<char>),
)>
    decreases pairs.len(),
{
    if pairs.len() == 0 {
        Seq::empty()
    } else {
        spec_assoc_set(
            spec_fold_attrs(c, pairs.drop_last()),
            pairs.last().value.0.value,
            (pairs.last().value.1.value, spec_indexed_location(c, pairs.last().value.1.bytes)),
        )
    }
}

/// The fold of raw ordered flags into a map: processed in order, a later
/// occurrence wins, and each flag carries the location string of its span.
pub open spec fn spec_fold_flags(c: SpecConverter, flags: Seq<SpecSpanned<Seq<char>>>) -> Seq<(
    Seq<char>,
    Seq<char>,
)>
    decreases flags.len(),
{
    if flags.len() == 0 {
        Seq::empty()
    } else {
        spec_assoc_set(
            spec_fold_flags(c, flags.drop_last()),
            flags.last().value,
            spec_indexed_location(c, flags.last().bytes),
        )
    }
}

/// The generic-parameter names with their location strings, in order.
pub open spec fn spec_map_generics(c: SpecConverter, gens: Seq<SpecSpanned<Seq<char>>>) -> Seq<(
    Seq<char>,
    Seq<char>,
)> {
    Seq::new(gens.len(), |i: int| (gens[i].value, spec_indexed_location(c, gens[i].bytes)))
}

/// The classified attribute bag of a named item: docs kept as they are,
/// generic names located, attribute pairs and flags folded with the
/// later-wins rule.
pub open spec fn spec_classify<V>(c: SpecConverter, n: SpecNamed<V>) -> SpecAttrs {
    SpecAttrs {
        rust_docs: n.rust_docs,
        rust_generics: spec_map_generics(c, n.rust_generics),
        serde_attrs: spec_fold_attrs(c, n.serde_attrs),
        serde_flags: spec_fold_flags(c, n.serde_flags),
        codegen_attrs: spec_fold_attrs(c, n.codegen_attrs),
        codegen_flags: spec_fold_flags(c, n.codegen_flags),
    }
}

impl TypeRootConverter {
    /// Folds raw attribute pairs into a located map, a later occurrence of
    /// a key winning.
    #[verifier::loop_isolation(false)]
    pub fn fold_attrs(&self, pairs: &Vec<Spanned<(Spanned<String>, Spanned<String>)>>) -> (r:
        Vec<(String, (String, LocationID))>)
        requires
            self.wf(),
        ensures
            r.deep_view() == spec_fold_attrs(self@, pairs.deep_view()),
    {
        let n: usize = pairs.len();
        let mut out: Vec<(String, (String, LocationID))> = Vec::new();
        let mut i: usize = 0;
        proof {
            assert(pairs.deep_view().take(0) =~= Seq::<SpecAttrPair>::empty());
        }
        while i < n
            invariant
                0 <= i <= n,
                out.deep_view() == spec_fold_attrs(self@, pairs.deep_view().take(i as int)),
            decreases n - i,
        {
            let key = pairs[i].value.0.value.clone();
            let value = pairs[i].value.1.value.clone();
            let loc = self.location_id(pairs[i].value.1.bytes);
            assoc_set_attr(&mut out, key, (value, loc));
            proof {
                assert(pairs.deep_view().take(i + 1).drop_last() =~= pairs.deep_view().take(
                    i as int,
                ));
                assert(pairs.deep_view().take(i + 1).last() == pairs.deep_view()[i as int]);
            }
            i = i + 1;
        }
        proof {
            assert(pairs.deep_view().take(n as int) =~= pairs.deep_view());
        }
        out
    }

    /// Folds raw flags into a located map, a later occurrence winning.
    #[verifier::loop_isolation(false)]
    pub fn fold_flags(&self, flags: &Vec<Spanned<String>>) -> (r: Vec<(String, LocationID)>)
        requires
            self.wf(),
        ensures
            r.deep_view() == spec_fold_flags(self@, flags.deep_view()),
    {
        let n: usize = flags.len();
        let mut out: Vec<(String, LocationID)> = Vec::new();
        let mut i: usize = 0;
        proof {
            assert(flags.deep_view().take(0) =~= Seq::<SpecSpanned<Seq<char>>>::empty());
        }
        while i < n
            invariant
                0 <= i <= n,
                out.deep_view() == spec_fold_flags(self@, flags.deep_view().take(i as int)),
            decreases n - i,
        {
            let key = flags[i].value.clone();
            let loc = self.location_id(flags[i].bytes);
            assoc_set_flag(&mut out, key, loc);
            proof {
                assert(flags.deep_view().take(i + 1).drop_last() =~= flags.deep_view().take(
                    i as int,
                ));
                assert(flags.deep_view().take(i + 1).last() == flags.deep_view()[i as int]);
            }
            i = i + 1;
        }
        proof {
            assert(flags.deep_view().take(n as int) =~= flags.deep_view());
        }
        out
    }

    /// Maps generic-parameter names to located pairs, in order.
    #[verifier::loop_isolation(false)]
    pub fn map_generics(&self, gens: &Vec<Spanned<String>>) -> (r: Vec<(String, LocationID)>)
        requires
            self.wf(),
        ensures
            r.deep_view() == spec_map_generics(self@, gens.deep_view()),
    {
        let n: usize = gens.len();
        let mut out: Vec<(String, LocationID)> = Vec::new();
        let mut i: usize = 0;
        while i < n
            invariant
                0 <= i <= n,
                out@.len() == i,
                forall|k: int|
                    0 <= k < i ==> #[trigger] out.deep_view()[k] == (
                        gens.deep_view()[k].value,
                        spec_indexed_location(self@, gens.deep_view()[k].bytes),
                    ),
            decreases n - i,
        {
            let name = gens[i].value.clone();
            let loc = self.location_id(gens[i].bytes);
            let ghost namev = name@;
            let ghost locv = loc@;
            let ghost out0d = out.deep_view();
            out.push((name, loc));
            proof {
                assert(forall|k: int|
                    0 <= k < i ==> #[trigger] out.deep_view()[k] == out0d[k]);
                assert(out.deep_view()[i as int] == (namev, locv));
                assert(namev == gens.deep_view()[i as int].value);
                assert(locv == spec_indexed_location(self@, gens.deep_view()[i as int].bytes));
            }
            i = i + 1;
        }
        proof {
            assert(out.deep_view() =~= spec_map_generics(self@, gens.deep_view()));
        }
        out
    }

    /// Splits a named item into its identifier, its payload and its
    /// classified attribute bag.
    pub fn unname<T: DeepView>(&self, n: Named<T>) -> (r: (Spanned<String>, T, Attrs))
        requires
            self.wf(),
        ensures
            r.0.deep_view() == n.deep_view().rust_ident,
            r.1.deep_view() == n.deep_view().value,
            r.2@ == spec_classify(self@, n.deep_view()),
    {
        let rust_generics = self.map_generics(&n.rust_generics);
        let serde_attrs = self.fold_attrs(&n.serde_attrs);
        let serde_flags = self.fold_flags(&n.serde_flags);
        let codegen_attrs = self.fold_attrs(&n.codegen_attrs);
        let codegen_flags = self.fold_flags(&n.codegen_flags);
        let attrs = Attrs {
            rust_docs: n.rust_docs,
            rust_generics,
            serde_attrs,
            serde_flags,
            codegen_attrs,
            codegen_flags,
        };
        proof {
            assert(attrs@ =~= spec_classify(self@, n.deep_view()));
        }
        (n.rust_ident, n.value, attrs)
    }
}

/// Whether a flag map holds the given flag.
pub open spec fn spec_has_flag(m: Seq<(Seq<char>, Seq<char>)>, k: Seq<char>) -> bool {
    spec_assoc_get(m, k) is Some
}

/// Looks a key up in a valued-attribute list.
#[verifier::loop_isolation(false)]
pub fn assoc_get_attr<'a>(m: &'a Vec<(String, (String, LocationID))>, k: &str) -> (r: Option<
    &'a (String, LocationID),
>)
    ensures
        (match r {
            Some(v) => spec_assoc_get(m.deep_view(), k@) == Some(v.deep_view()),
            None => spec_assoc_get(m.deep_view(), k@) is None,
        }),
{
    let ghost mv = m.deep_view();
    let n: usize = m.len();
    let mut i: usize = 0;
    proof {
        assert(mv.skip(0) =~= mv);
    }
    while i < n
        invariant
            0 <= i <= n,
            spec_assoc_get(mv, k@) == spec_assoc_get(mv.skip(i as int), k@),
        decreases n - i,
    {
        proof {
            assert(mv.skip(i as int)[0] == mv[i as int]);
            assert(mv.skip(i as int).drop_first() =~= mv.skip(i + 1));
        }
        if str_eq(m[i].0.as_str(), k) {
            return Some(&m[i].1);
        }
        i = i + 1;
    }
    proof {
        assert(mv.skip(n as int) =~= Seq::<(Seq<char>, (Seq<char>, Seq<char>))>::empty());
    }
    None
}

/// Whether a flag map holds the given flag.
#[verifier::loop_isolation(false)]
pub fn has_flag(m: &Vec<(String, LocationID)>, k: &str) -> (r: bool)
    ensures
        r == spec_has_flag(m.deep_view(), k@),
{
    let ghost mv = m.deep_view();
    let n: usize = m.len();
    let mut i: usize = 0;
    proof {
        assert(mv.skip(0) =~= mv);
    }
    while i < n
        invariant
            0 <= i <= n,
            spec_assoc_get(mv, k@) == spec_assoc_get(mv.skip(i as int), k@),
        decreases n - i,
    {
        proof {
            assert(mv.skip(i as int)[0] == mv[i as int]);
            assert(mv.skip(i as int).drop_first() =~= mv.skip(i + 1));
        }
        if str_eq(m[i].0.as_str(), k) {
            return true;
        }
        i = i + 1;
    }
    proof {
        assert(mv.skip(n as int) =~= Seq::<(Seq<char>, Seq<char>)>::empty());
    }
    false
}

/// The representation a union's attribute bag decides: an "untagged" flag
/// wins; else both "tag" and "content" keys give a tagged form with a
/// content key; a "tag" key alone gives a tagged form without one; and
/// anything else, a "content" key alone included, defaults to the external
/// form.
pub open spec fn spec_resolve_repr(a: SpecAttrs) -> SpecEnumRepresentation {
    if spec_has_flag(a.serde_flags, "untagged"@) {
        SpecEnumRepresentation::Untagged
    } else {
        match (
            spec_assoc_get(a.serde_attrs, "tag"@),
            spec_assoc_get(a.serde_attrs, "content"@),
        ) {
            (Some(t), Some(c)) => SpecEnumRepresentation::Tagged {
                tag: t.0,
                tag_location: t.1,
                content: Some(c.0),
                content_location: Some(c.1),
            },
            (Some(t), None) => SpecEnumRepresentation::Tagged {
                tag: t.0,
                tag_location: t.1,
                content: None,
                content_location: None,
            },
            _ => SpecEnumRepresentation::External,
        }
    }
}

/// Decides a union's on-wire representation from its classified attribute
/// bag.  This runs on the full folded bag, never incrementally.
pub fn resolve_representation(a: &Attrs) -> (r: EnumRepresentation)
    ensures
        r@ == spec_resolve_repr(a@),
{
    if has_flag(&a.serde_flags, "untagged") {
        return EnumRepresentation::Untagged;
    }
    let tag = assoc_get_attr(&a.serde_attrs, "tag");
    let content = assoc_get_attr(&a.serde_attrs, "content");
    match (tag, content) {
        (Some(t), Some(c)) => EnumRepresentation::Tagged {
            tag: t.0.clone(),
            tag_location: LocationID(t.1.0.clone()),
            content: Some(c.0.clone()),
            content_location: Some(LocationID(c.1.0.clone())),
        },
        (Some(t), None) => EnumRepresentation::Tagged {
            tag: t.0.clone(),
            tag_location: LocationID(t.1.0.clone()),
            content: None,
            content_location: None,
        },
        _ => EnumRepresentation::External,
    }
}

/// An attribute bag holding both a "tag" and a "content" key, and no
/// "untagged" flag, always resolves to the tagged representation with the
/// tag's value and a present content key: never to the external or the
/// untagged form.
pub proof fn lemma_both_keys_resolve_tagged(a: SpecAttrs)
    requires
        !spec_has_flag(a.serde_flags, "untagged"@),
        spec_assoc_get(a.serde_attrs, "tag"@) is Some,
        spec_assoc_get(a.serde_attrs, "content"@) is Some,
    ensures
        spec_resolve_repr(a) matches SpecEnumRepresentation::Tagged {
            tag,
            content,
            ..
        } && tag == (spec_assoc_get(a.serde_attrs, "tag"@)->0).0 && content == Some(
            (spec_assoc_get(a.serde_attrs, "content"@)->0).0,
        ),
{
}

} // verus!
