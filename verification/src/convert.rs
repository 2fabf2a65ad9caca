//! The declaration converter: resolving every field and parameter type
//! through the built-in resolver, classifying attributes, attaching
//! location strings, applying the visibility and degrade rules, and
//! emitting wire-ready declarations.

use vstd::prelude::*;

use crate::builtins::{BuiltinRegistry, spec_resolve};
use crate::classify::{
    SpecConverter, TypeRootConverter, spec_classify, spec_has_flag, spec_fold_flags,
    spec_indexed_location, spec_root_location, spec_resolve_repr,
};
use crate::line_index::SourceLineNumberIndex;
use crate::schema::{
    Format, Named, SpecFormat, SpecNamed, TypeRoot, SpecTypeRoot, RootItem, SpecRootItem,
    fmts_view, lemma_fmts_view, lemma_fmts_view_eq_deep,
};
use crate::strutil::str_eq;
use crate::wire;

verus! {

/// The shape a format resolves to, and the registry contents afterwards:
/// every name reference runs through the built-in resolver, bottom up.
pub open spec fn spec_resolve_format(
    reg: Seq<SpecNamed<crate::schema::SpecContainerFormat>>,
    f: SpecFormat,
) -> (SpecFormat, Seq<SpecNamed<crate::schema::SpecContainerFormat>>)
    decreases f, 0int,
{
    match f {
        SpecFormat::TypeName { ident, generics } => {
            let (args, reg1) = spec_resolve_formats(reg, generics);
            spec_resolve(reg1, ident, args, None)
        },
        SpecFormat::Option(inner) => {
            let (g, reg1) = spec_resolve_format(reg, *inner);
            (SpecFormat::Option(Box::new(g)), reg1)
        },
        SpecFormat::SeqOf(inner) => {
            let (g, reg1) = spec_resolve_format(reg, *inner);
            (SpecFormat::SeqOf(Box::new(g)), reg1)
        },
        SpecFormat::MapOf { key, value } => {
            let (k, reg1) = spec_resolve_format(reg, *key);
            let (v, reg2) = spec_resolve_format(reg1, *value);
            (SpecFormat::MapOf { key: Box::new(k), value: Box::new(v) }, reg2)
        },
        SpecFormat::Tuple(elems) => {
            let (es, reg1) = spec_resolve_formats(reg, elems);
            (SpecFormat::Tuple(es), reg1)
        },
        SpecFormat::TupleArray { content, size } => {
            let (g, reg1) = spec_resolve_format(reg, *content);
            (SpecFormat::TupleArray { content: Box::new(g), size }, reg1)
        },
        _ => (f, reg),
    }
}

/// Resolves a list of shapes left to right, threading the registry.
pub open spec fn spec_resolve_formats(
    reg: Seq<SpecNamed<crate::schema::SpecContainerFormat>>,
    fs: Seq<SpecFormat>,
) -> (Seq<SpecFormat>, Seq<SpecNamed<crate::schema::SpecContainerFormat>>)
    decreases fs, 1int,
{
    if fs.len() == 0 {
        (Seq::empty(), reg)
    } else {
        let (g, reg1) = spec_resolve_format(reg, fs[0]);
        let (gs, reg2) = spec_resolve_formats(reg1, fs.drop_first());
        (seq![g] + gs, reg2)
    }
}

impl BuiltinRegistry {
    /// Resolves one shape, synthesizing and registering built-in
    /// containers as needed.
    pub fn resolve_format(&mut self, f: &Format) -> (r: Format)
        ensures
            r@ == spec_resolve_format(old(self)@, f@).0,
            final(self)@ == spec_resolve_format(old(self)@, f@).1,
        decreases f, 0int,
    {
        match f {
            Format::TypeName { ident, generics } => {
                let args = self.resolve_formats(generics);
                self.resolve(ident.as_str(), args, None)
            },
            Format::Option(inner) => Format::Option(Box::new(self.resolve_format(inner))),
            Format::SeqOf(inner) => Format::SeqOf(Box::new(self.resolve_format(inner))),
            Format::MapOf { key, value } => {
                let k = self.resolve_format(key);
                let v = self.resolve_format(value);
                Format::MapOf { key: Box::new(k), value: Box::new(v) }
            },
            Format::Tuple(elems) => Format::Tuple(self.resolve_formats(elems)),
            Format::TupleArray { content, size } => Format::TupleArray {
                content: Box::new(self.resolve_format(content)),
                size: *size,
            },
            other => other.dup(),
        }
    }

    /// Resolves a list of shapes left to right.
    #[verifier::loop_isolation(false)]
    pub fn resolve_formats(&mut self, fs: &Vec<Format>) -> (r: Vec<Format>)
        ensures
            fmts_view(r@) == spec_resolve_formats(old(self)@, fmts_view(fs@)).0,
            final(self)@ == spec_resolve_formats(old(self)@, fmts_view(fs@)).1,
        decreases fs@, 1int,
    {
        proof {
            lemma_fmts_view(fs@);
        }
        let ghost reg0 = self@;
        let ghost fsv = fmts_view(fs@);
        let n: usize = fs.len();
        let mut out: Vec<Format> = Vec::new();
        let mut i: usize = 0;
        proof {
            assert(fsv.skip(0) =~= fsv);
            assert(fmts_view(out@) + spec_resolve_formats(reg0, fsv).0 =~= spec_resolve_formats(
                reg0,
                fsv,
            ).0);
        }
        while i < n
            invariant
                0 <= i <= n,
                out@.len() == i,
                spec_resolve_formats(reg0, fsv).0 == fmts_view(out@) + spec_resolve_formats(
                    self@,
                    fsv.skip(i as int),
                ).0,
                spec_resolve_formats(reg0, fsv).1 == spec_resolve_formats(
                    self@,
                    fsv.skip(i as int),
                ).1,
            decreases n - i,
        {
            proof {
                assert(fsv.skip(i as int)[0] == fsv[i as int]);
                assert(fsv.skip(i as int).drop_first() =~= fsv.skip(i + 1));
                assert(decreases_to!(fs@ => fs@[i as int]));
            }
            let g = self.resolve_format(&fs[i]);
            let ghost out0 = fmts_view(out@);
            let ghost gv = g@;
            let ghost outseq0 = out@;
            out.push(g);
            proof {
                lemma_fmts_view(out@);
                lemma_fmts_view(outseq0);
                assert(fmts_view(out@) =~= out0.push(gv));
                assert(fmts_view(out@) + spec_resolve_formats(self@, fsv.skip(i + 1)).0
                    =~= out0 + (seq![gv] + spec_resolve_formats(self@, fsv.skip(i + 1)).0));
            }
            i = i + 1;
        }
        proof {
            assert(fsv.skip(n as int) =~= Seq::<SpecFormat>::empty());
            assert(fmts_view(out@) + spec_resolve_formats(self@, fsv.skip(n as int)).0
                =~= fmts_view(out@));
        }
        out
    }
}

/// Whether a field's folded serialization flags mark it skipped: such a
/// field is dropped before conversion.
pub open spec fn spec_field_skipped(c: SpecConverter, n: SpecNamed<SpecFormat>) -> bool {
    spec_has_flag(spec_fold_flags(c, n.serde_flags), "skip"@) || spec_has_flag(
        spec_fold_flags(c, n.serde_flags),
        "skip_serializing"@,
    )
}

/// The finished field of a raw named field: name, indexed location,
/// classified attributes and resolved shape.
pub open spec fn spec_convert_field(
    c: SpecConverter,
    reg: Seq<SpecNamed<crate::schema::SpecContainerFormat>>,
    n: SpecNamed<SpecFormat>,
) -> (wire::SpecNamedField, Seq<SpecNamed<crate::schema::SpecContainerFormat>>) {
    let (g, reg1) = spec_resolve_format(reg, n.value);
    (
        wire::SpecNamedField {
            id: n.rust_ident.value,
            id_location: spec_indexed_location(c, n.rust_ident.bytes),
            attrs: spec_classify(c, n),
            format: g,
        },
        reg1,
    )
}

/// The finished visible fields of a raw field list: skipped fields are
/// dropped before conversion, the rest keep their order.
pub open spec fn spec_convert_fields(
    c: SpecConverter,
    reg: Seq<SpecNamed<crate::schema::SpecContainerFormat>>,
    fields: Seq<SpecNamed<SpecFormat>>,
) -> (Seq<wire::SpecNamedField>, Seq<SpecNamed<crate::schema::SpecContainerFormat>>)
    decreases fields.len(),
{
    if fields.len() == 0 {
        (Seq::empty(), reg)
    } else if spec_field_skipped(c, fields[0]) {
        spec_convert_fields(c, reg, fields.drop_first())
    } else {
        let (f, reg1) = spec_convert_field(c, reg, fields[0]);
        let (fs, reg2) = spec_convert_fields(c, reg1, fields.drop_first());
        (seq![f] + fs, reg2)
    }
}

/// The finished function parameter of a raw named format.
pub open spec fn spec_convert_param(
    c: SpecConverter,
    reg: Seq<SpecNamed<crate::schema::SpecContainerFormat>>,
    n: SpecNamed<SpecFormat>,
) -> (wire::SpecFunctionParameter, Seq<SpecNamed<crate::schema::SpecContainerFormat>>) {
    let (g, reg1) = spec_resolve_format(reg, n.value);
    (
        wire::SpecFunctionParameter {
            id: n.rust_ident.value,
            id_location: spec_indexed_location(c, n.rust_ident.bytes),
            attrs: spec_classify(c, n),
            format: g,
        },
        reg1,
    )
}

/// The finished parameters of a raw parameter list, in order.
pub open spec fn spec_convert_params(
    c: SpecConverter,
    reg: Seq<SpecNamed<crate::schema::SpecContainerFormat>>,
    params: Seq<SpecNamed<SpecFormat>>,
) -> (Seq<wire::SpecFunctionParameter>, Seq<SpecNamed<crate::schema::SpecContainerFormat>>)
    decreases params.len(),
{
    if params.len() == 0 {
        (Seq::empty(), reg)
    } else {
        let (p, reg1) = spec_convert_param(c, reg, params[0]);
        let (ps, reg2) = spec_convert_params(c, reg1, params.drop_first());
        (seq![p] + ps, reg2)
    }
}

/// The finished payload of a raw union case.
pub open spec fn spec_convert_vf(
    c: SpecConverter,
    reg: Seq<SpecNamed<crate::schema::SpecContainerFormat>>,
    v: crate::schema::SpecVariantFormat,
) -> (wire::SpecVariantFormat, Seq<SpecNamed<crate::schema::SpecContainerFormat>>) {
    match v {
        crate::schema::SpecVariantFormat::Unit => (wire::SpecVariantFormat::Unit, reg),
        crate::schema::SpecVariantFormat::NewType(f) => {
            let (g, reg1) = spec_resolve_format(reg, *f);
            (wire::SpecVariantFormat::NewType(Box::new(g)), reg1)
        },
        crate::schema::SpecVariantFormat::Tuple(fs) => {
            let (gs, reg1) = spec_resolve_formats(reg, fs);
            (wire::SpecVariantFormat::Tuple(gs), reg1)
        },
        crate::schema::SpecVariantFormat::Struct(fields) => {
            let (gs, reg1) = spec_convert_fields(c, reg, fields);
            (wire::SpecVariantFormat::Struct { fields: gs }, reg1)
        },
    }
}

/// The finished union case of a raw entry: name, indexed location,
/// classified attributes and converted payload; the declaration index
/// orders the entries and is consumed here.
pub open spec fn spec_convert_variant(
    c: SpecConverter,
    reg: Seq<SpecNamed<crate::schema::SpecContainerFormat>>,
    n: SpecNamed<crate::schema::SpecVariantFormat>,
) -> (wire::SpecNamedVariant, Seq<SpecNamed<crate::schema::SpecContainerFormat>>) {
    let (vf, reg1) = spec_convert_vf(c, reg, n.value);
    (
        wire::SpecNamedVariant {
            id: n.rust_ident.value,
            id_location: spec_indexed_location(c, n.rust_ident.bytes),
            attrs: spec_classify(c, n),
            variant_format: vf,
        },
        reg1,
    )
}

/// The finished union cases of a raw entry list, in declaration order.
pub open spec fn spec_convert_variants(
    c: SpecConverter,
    reg: Seq<SpecNamed<crate::schema::SpecContainerFormat>>,
    entries: Seq<(u32, SpecNamed<crate::schema::SpecVariantFormat>)>,
) -> (Seq<wire::SpecNamedVariant>, Seq<SpecNamed<crate::schema::SpecContainerFormat>>)
    decreases entries.len(),
{
    if entries.len() == 0 {
        (Seq::empty(), reg)
    } else {
        let (v, reg1) = spec_convert_variant(c, reg, entries[0].1);
        let (vs, reg2) = spec_convert_variants(c, reg1, entries.drop_first());
        (seq![v] + vs, reg2)
    }
}

/// The finished container of a raw container: fields and cases converted,
/// a tuple shape with no fields degrading to the unit shape, a tuple shape
/// with exactly one field under a "transparent" flag degrading to the
/// newtype shape, and a union's representation derived once from the
/// container's attribute bag.
pub open spec fn spec_convert_container(
    c: SpecConverter,
    reg: Seq<SpecNamed<crate::schema::SpecContainerFormat>>,
    attrs: wire::SpecAttrs,
    cf: crate::schema::SpecContainerFormat,
) -> (wire::SpecContainerFormat, Seq<SpecNamed<crate::schema::SpecContainerFormat>>) {
    match cf {
        crate::schema::SpecContainerFormat::UnitStruct => (
            wire::SpecContainerFormat::UnitStruct,
            reg,
        ),
        crate::schema::SpecContainerFormat::NewTypeStruct(f) => {
            let (g, reg1) = spec_resolve_format(reg, *f);
            (wire::SpecContainerFormat::NewTypeStruct(Box::new(g)), reg1)
        },
        crate::schema::SpecContainerFormat::TupleStruct(fs) => {
            if fs.len() == 0 {
                (wire::SpecContainerFormat::UnitStruct, reg)
            } else if fs.len() == 1 && spec_has_flag(attrs.serde_flags, "transparent"@) {
                let (g, reg1) = spec_resolve_format(reg, fs[0]);
                (wire::SpecContainerFormat::NewTypeStruct(Box::new(g)), reg1)
            } else {
                let (gs, reg1) = spec_resolve_formats(reg, fs);
                (wire::SpecContainerFormat::TupleStruct(gs), reg1)
            }
        },
        crate::schema::SpecContainerFormat::Struct(fields) => {
            let (gs, reg1) = spec_convert_fields(c, reg, fields);
            (wire::SpecContainerFormat::Struct { fields: gs }, reg1)
        },
        crate::schema::SpecContainerFormat::Enum(entries) => {
            let (vs, reg1) = spec_convert_variants(c, reg, entries);
            (
                wire::SpecContainerFormat::Enum {
                    repr: spec_resolve_repr(attrs),
                    variants: vs,
                },
                reg1,
            )
        },
    }
}

/// The finished function shape of a raw one: parameters, optional
/// receiver and return type converted.
pub open spec fn spec_convert_function(
    c: SpecConverter,
    reg: Seq<SpecNamed<crate::schema::SpecContainerFormat>>,
    ff: crate::schema::SpecFunctionFormat,
) -> (wire::SpecFunctionFormat, Seq<SpecNamed<crate::schema::SpecContainerFormat>>) {
    let (self_opt, reg1) = (match ff.self_opt {
        Some(p) => {
            let (cp, r1) = spec_convert_param(c, reg, p);
            (Some(cp), r1)
        },
        None => (None, reg),
    });
    let (params, reg2) = spec_convert_params(c, reg1, ff.params);
    let (ret, reg3) = spec_resolve_format(reg2, *ff.ret);
    (
        wire::SpecFunctionFormat {
            is_async: ff.is_async,
            self_opt,
            params,
            return_type: Box::new(ret),
        },
        reg3,
    )
}

/// The elements of a vector in reverse order.
#[verifier::loop_isolation(false)]
pub fn reversed<T>(v: Vec<T>) -> (r: Vec<T>)
    ensures
        r@.len() == v@.len(),
        forall|k: int| 0 <= k < v@.len() ==> r@[k] == v@[v@.len() - 1 - k],
{
    let ghost v0 = v@;
    let mut v = v;
    let mut out: Vec<T> = Vec::new();
    let n: usize = v.len();
    let mut i: usize = 0;
    while i < n
        invariant
            0 <= i <= n,
            n == v0.len(),
            v@ =~= v0.take(n - i),
            out@.len() == i,
            forall|k: int| 0 <= k < i ==> out@[k] == v0[n - 1 - k],
        decreases n - i,
    {
        let x = match v.pop() {
            Some(x) => x,
            None => {
                proof {
                    assert(false);
                }
                break ;
            },
        };
        out.push(x);
        proof {
            assert(v@ =~= v0.take(n - i - 1));
        }
        i = i + 1;
    }
    out
}

impl BuiltinRegistry {
    /// Converts one raw named field into its finished form.
    pub fn convert_field(&mut self, c: &TypeRootConverter, n: Named<Format>) -> (r:
        wire::NamedField)
        requires
            c.wf(),
        ensures
            r@ == spec_convert_field(c@, old(self)@, n.deep_view()).0,
            final(self)@ == spec_convert_field(c@, old(self)@, n.deep_view()).1,
    {
        let (ident, value, attrs) = c.unname(n);
        let id_location = c.location_id(ident.bytes);
        let format = self.resolve_format(&value);
        wire::NamedField { id: ident.value, id_location, attrs, format }
    }

    /// Converts the visible fields of a raw field list, dropping the
    /// skipped ones.
    #[verifier::loop_isolation(false)]
    #[verifier::rlimit(100)]
    pub fn convert_fields(&mut self, c: &TypeRootConverter, fields: Vec<Named<Format>>) -> (r:
        Vec<wire::NamedField>)
        requires
            c.wf(),
        ensures
            r.deep_view() == spec_convert_fields(c@, old(self)@, fields.deep_view()).0,
            final(self)@ == spec_convert_fields(c@, old(self)@, fields.deep_view()).1,
    {
        let ghost reg0 = self@;
        let ghost fsv = fields.deep_view();
        let mut out: Vec<wire::NamedField> = Vec::new();
        let n: usize = fields.len();
        let mut fields = reversed(fields);
        proof {
            assert(fsv.skip(0) =~= fsv);
            assert(out.deep_view() + spec_convert_fields(c@, reg0, fsv).0
                =~= spec_convert_fields(c@, reg0, fsv).0);
        }
        let mut i: usize = 0;
        while i < n
            invariant
                0 <= i <= n,
                fields@.len() == n - i,
                forall|k: int|
                    0 <= k < n - i ==> #[trigger] fields.deep_view()[k] == fsv[n - 1 - k],
                spec_convert_fields(c@, reg0, fsv).0 == out.deep_view() + spec_convert_fields(
                    c@,
                    self@,
                    fsv.skip(i as int),
                ).0,
                spec_convert_fields(c@, reg0, fsv).1 == spec_convert_fields(
                    c@,
                    self@,
                    fsv.skip(i as int),
                ).1,
            decreases n - i,
        {
            let ghost fdv = fields.deep_view();
            let f = match fields.pop() {
                Some(f) => f,
                None => {
                    proof {
                        assert(false);
                    }
                    break ;
                },
            };
            proof {
                assert(f.deep_view() == fdv[n - i - 1]);
                assert(forall|k: int|
                    0 <= k < n - i - 1 ==> #[trigger] fields.deep_view()[k] == fdv[k]);
                assert(f.deep_view() == fsv[i as int]);
                assert(fsv.skip(i as int)[0] == fsv[i as int]);
                assert(fsv.skip(i as int).drop_first() =~= fsv.skip(i + 1));
            }
            let skipped = {
                let flags = c.fold_flags(&f.serde_flags);
                crate::classify::has_flag(&flags, "skip") || crate::classify::has_flag(
                    &flags,
                    "skip_serializing",
                )
            };
            if !skipped {
                let ghost out0 = out.deep_view();
                let cf = self.convert_field(c, f);
                let ghost cfv = cf@;
                out.push(cf);
                proof {
                    assert(out.deep_view() =~= out0.push(cfv));
                    assert(out.deep_view() + spec_convert_fields(c@, self@, fsv.skip(i + 1)).0
                        =~= out0 + (seq![cfv] + spec_convert_fields(c@, self@, fsv.skip(
                        i + 1,
                    )).0));
                }
            }
            i = i + 1;
        }
        proof {
            assert(fsv.skip(n as int) =~= Seq::<SpecNamed<SpecFormat>>::empty());
            assert(out.deep_view() + spec_convert_fields(c@, self@, fsv.skip(n as int)).0
                =~= out.deep_view());
        }
        out
    }

    /// Converts one raw parameter into its finished form.
    pub fn convert_param(&mut self, c: &TypeRootConverter, n: Named<Format>) -> (r:
        wire::FunctionParameter)
        requires
            c.wf(),
        ensures
            r@ == spec_convert_param(c@, old(self)@, n.deep_view()).0,
            final(self)@ == spec_convert_param(c@, old(self)@, n.deep_view()).1,
    {
        let (ident, value, attrs) = c.unname(n);
        let id_location = c.location_id(ident.bytes);
        let format = self.resolve_format(&value);
        wire::FunctionParameter { id: ident.value, id_location, attrs, format }
    }

    /// Converts a raw parameter list, in order.
    #[verifier::loop_isolation(false)]
    #[verifier::rlimit(100)]
    pub fn convert_params(&mut self, c: &TypeRootConverter, params: Vec<Named<Format>>) -> (r:
        Vec<wire::FunctionParameter>)
        requires
            c.wf(),
        ensures
            r.deep_view() == spec_convert_params(c@, old(self)@, params.deep_view()).0,
            final(self)@ == spec_convert_params(c@, old(self)@, params.deep_view()).1,
    {
        let ghost reg0 = self@;
        let ghost psv = params.deep_view();
        let mut out: Vec<wire::FunctionParameter> = Vec::new();
        let n: usize = params.len();
        let mut params = reversed(params);
        proof {
            assert(psv.skip(0) =~= psv);
            assert(out.deep_view() + spec_convert_params(c@, reg0, psv).0
                =~= spec_convert_params(c@, reg0, psv).0);
        }
        let mut i: usize = 0;
        while i < n
            invariant
                0 <= i <= n,
                params@.len() == n - i,
                forall|k: int|
                    0 <= k < n - i ==> #[trigger] params.deep_view()[k] == psv[n - 1 - k],
                spec_convert_params(c@, reg0, psv).0 == out.deep_view() + spec_convert_params(
                    c@,
                    self@,
                    psv.skip(i as int),
                ).0,
                spec_convert_params(c@, reg0, psv).1 == spec_convert_params(
                    c@,
                    self@,
                    psv.skip(i as int),
                ).1,
            decreases n - i,
        {
            let ghost pdv = params.deep_view();
            let p = match params.pop() {
                Some(p) => p,
                None => {
                    proof {
                        assert(false);
                    }
                    break ;
                },
            };
            proof {
                assert(p.deep_view() == pdv[n - i - 1]);
                assert(forall|k: int|
                    0 <= k < n - i - 1 ==> #[trigger] params.deep_view()[k] == pdv[k]);
                assert(p.deep_view() == psv[i as int]);
                assert(psv.skip(i as int)[0] == psv[i as int]);
                assert(psv.skip(i as int).drop_first() =~= psv.skip(i + 1));
            }
            let ghost out0 = out.deep_view();
            let cp = self.convert_param(c, p);
            let ghost cpv = cp@;
            out.push(cp);
            proof {
                assert(out.deep_view() =~= out0.push(cpv));
                assert(out.deep_view() + spec_convert_params(c@, self@, psv.skip(i + 1)).0
                    =~= out0 + (seq![cpv] + spec_convert_params(c@, self@, psv.skip(i + 1)).0));
            }
            i = i + 1;
        }
        proof {
            assert(psv.skip(n as int) =~= Seq::<SpecNamed<SpecFormat>>::empty());
            assert(out.deep_view() + spec_convert_params(c@, self@, psv.skip(n as int)).0
                =~= out.deep_view());
        }
        out
    }

    /// Converts one raw union-case payload into its finished form.
    pub fn convert_vf(&mut self, c: &TypeRootConverter, v: crate::schema::VariantFormat) -> (r:
        wire::VariantFormat)
        requires
            c.wf(),
        ensures
            r@ == spec_convert_vf(c@, old(self)@, v.deep_view()).0,
            final(self)@ == spec_convert_vf(c@, old(self)@, v.deep_view()).1,
    {
        match v {
            crate::schema::VariantFormat::Unit => wire::VariantFormat::Unit,
            crate::schema::VariantFormat::NewType(f) => wire::VariantFormat::NewType(
                Box::new(self.resolve_format(&f)),
            ),
            crate::schema::VariantFormat::Tuple(fs) => {
                proof {
                    lemma_fmts_view_eq_deep(fs);
                }
                let gs = self.resolve_formats(&fs);
                proof {
                    lemma_fmts_view_eq_deep(gs);
                }
                wire::VariantFormat::Tuple(gs)
            },
            crate::schema::VariantFormat::Struct(fields) => {
                let gs = self.convert_fields(c, fields);
                wire::VariantFormat::Struct { fields: gs }
            },
        }
    }

    /// Converts one raw union case into its finished form.
    pub fn convert_variant(
        &mut self,
        c: &TypeRootConverter,
        n: Named<crate::schema::VariantFormat>,
    ) -> (r: wire::NamedVariant)
        requires
            c.wf(),
        ensures
            r@ == spec_convert_variant(c@, old(self)@, n.deep_view()).0,
            final(self)@ == spec_convert_variant(c@, old(self)@, n.deep_view()).1,
    {
        let (ident, value, attrs) = c.unname(n);
        let id_location = c.location_id(ident.bytes);
        let variant_format = self.convert_vf(c, value);
        wire::NamedVariant { id: ident.value, id_location, attrs, variant_format }
    }

    /// Converts the raw union cases of an entry list, in declaration
    /// order.
    #[verifier::loop_isolation(false)]
    #[verifier::rlimit(100)]
    pub fn convert_variants(
        &mut self,
        c: &TypeRootConverter,
        entries: Vec<(u32, Named<crate::schema::VariantFormat>)>,
    ) -> (r: Vec<wire::NamedVariant>)
        requires
            c.wf(),
        ensures
            r.deep_view() == spec_convert_variants(c@, old(self)@, entries.deep_view()).0,
            final(self)@ == spec_convert_variants(c@, old(self)@, entries.deep_view()).1,
    {
        let ghost reg0 = self@;
        let ghost esv = entries.deep_view();
        let mut out: Vec<wire::NamedVariant> = Vec::new();
        let n: usize = entries.len();
        let mut entries = reversed(entries);
        proof {
            assert(esv.skip(0) =~= esv);
            assert(out.deep_view() + spec_convert_variants(c@, reg0, esv).0
                =~= spec_convert_variants(c@, reg0, esv).0);
        }
        let mut i: usize = 0;
        while i < n
            invariant
                0 <= i <= n,
                entries@.len() == n - i,
                forall|k: int|
                    0 <= k < n - i ==> #[trigger] entries.deep_view()[k] == esv[n - 1 - k],
                spec_convert_variants(c@, reg0, esv).0 == out.deep_view()
                    + spec_convert_variants(c@, self@, esv.skip(i as int)).0,
                spec_convert_variants(c@, reg0, esv).1 == spec_convert_variants(
                    c@,
                    self@,
                    esv.skip(i as int),
                ).1,
            decreases n - i,
        {
            let ghost edv = entries.deep_view();
            let e = match entries.pop() {
                Some(e) => e,
                None => {
                    proof {
                        assert(false);
                    }
                    break ;
                },
            };
            proof {
                assert(e.deep_view() == edv[n - i - 1]);
                assert(forall|k: int|
                    0 <= k < n - i - 1 ==> #[trigger] entries.deep_view()[k] == edv[k]);
                assert(e.deep_view() == esv[i as int]);
                assert(esv.skip(i as int)[0] == esv[i as int]);
                assert(esv.skip(i as int).drop_first() =~= esv.skip(i + 1));
            }
            let ghost out0 = out.deep_view();
            let cv = self.convert_variant(c, e.1);
            let ghost cvv = cv@;
            out.push(cv);
            proof {
                assert(out.deep_view() =~= out0.push(cvv));
                assert(out.deep_view() + spec_convert_variants(c@, self@, esv.skip(i + 1)).0
                    =~= out0 + (seq![cvv] + spec_convert_variants(c@, self@, esv.skip(
                    i + 1,
                )).0));
            }
            i = i + 1;
        }
        proof {
            assert(esv.skip(n as int) =~= Seq::<(
                u32,
                SpecNamed<crate::schema::SpecVariantFormat>,
            )>::empty());
            assert(out.deep_view() + spec_convert_variants(c@, self@, esv.skip(n as int)).0
                =~= out.deep_view());
        }
        out
    }

    /// Converts a raw container into its finished form, applying the
    /// degrade rules and deriving a union's representation once.
    pub fn convert_container(
        &mut self,
        c: &TypeRootConverter,
        attrs: &wire::Attrs,
        cf: crate::schema::ContainerFormat,
    ) -> (r: wire::ContainerFormat)
        requires
            c.wf(),
        ensures
            r@ == spec_convert_container(c@, old(self)@, attrs@, cf.deep_view()).0,
            final(self)@ == spec_convert_container(c@, old(self)@, attrs@, cf.deep_view()).1,
    {
        match cf {
            crate::schema::ContainerFormat::UnitStruct => wire::ContainerFormat::UnitStruct,
            crate::schema::ContainerFormat::NewTypeStruct(f) => wire::ContainerFormat::NewTypeStruct(
                Box::new(self.resolve_format(&f)),
            ),
            crate::schema::ContainerFormat::TupleStruct(fs) => {
                proof {
                    lemma_fmts_view_eq_deep(fs);
                }
                if fs.len() == 0 {
                    wire::ContainerFormat::UnitStruct
                } else if fs.len() == 1 && crate::classify::has_flag(
                    &attrs.serde_flags,
                    "transparent",
                ) {
                    proof {
                        lemma_fmts_view(fs@);
                    }
                    wire::ContainerFormat::NewTypeStruct(Box::new(self.resolve_format(&fs[0])))
                } else {
                    let gs = self.resolve_formats(&fs);
                    proof {
                        lemma_fmts_view_eq_deep(gs);
                    }
                    wire::ContainerFormat::TupleStruct(gs)
                }
            },
            crate::schema::ContainerFormat::Struct(fields) => {
                let gs = self.convert_fields(c, fields);
                wire::ContainerFormat::Struct { fields: gs }
            },
            crate::schema::ContainerFormat::Enum(entries) => {
                let repr = crate::classify::resolve_representation(attrs);
                let vs = self.convert_variants(c, entries);
                wire::ContainerFormat::Enum { repr, variants: vs }
            },
        }
    }

    /// Converts a raw function shape into its finished form.
    pub fn convert_function(
        &mut self,
        c: &TypeRootConverter,
        ff: crate::schema::FunctionFormat,
    ) -> (r: wire::FunctionFormat)
        requires
            c.wf(),
        ensures
            r@ == spec_convert_function(c@, old(self)@, ff.deep_view()).0,
            final(self)@ == spec_convert_function(c@, old(self)@, ff.deep_view()).1,
    {
        let self_opt = match ff.self_opt {
            Some(p) => Some(Box::new(self.convert_param(c, p))),
            None => None,
        };
        let params = self.convert_params(c, ff.params);
        let ret = self.resolve_format(&ff.ret);
        wire::FunctionFormat {
            is_async: ff.is_async,
            self_opt,
            params,
            return_type: Box::new(ret),
        }
    }
}

/// The finished field of an already-resolved built-in field: structural,
/// with no further resolution.
pub open spec fn spec_convert_builtin_field(
    c: SpecConverter,
    n: SpecNamed<SpecFormat>,
) -> wire::SpecNamedField {
    wire::SpecNamedField {
        id: n.rust_ident.value,
        id_location: spec_indexed_location(c, n.rust_ident.bytes),
        attrs: spec_classify(c, n),
        format: n.value,
    }
}

/// The finished fields of an already-resolved built-in field list.
pub open spec fn spec_convert_builtin_fields(
    c: SpecConverter,
    fields: Seq<SpecNamed<SpecFormat>>,
) -> Seq<wire::SpecNamedField> {
    Seq::new(fields.len(), |i: int| spec_convert_builtin_field(c, fields[i]))
}

/// The finished payload of an already-resolved built-in union case.
pub open spec fn spec_convert_builtin_vf(
    c: SpecConverter,
    v: crate::schema::SpecVariantFormat,
) -> wire::SpecVariantFormat {
    match v {
        crate::schema::SpecVariantFormat::Unit => wire::SpecVariantFormat::Unit,
        crate::schema::SpecVariantFormat::NewType(f) => wire::SpecVariantFormat::NewType(f),
        crate::schema::SpecVariantFormat::Tuple(fs) => wire::SpecVariantFormat::Tuple(fs),
        crate::schema::SpecVariantFormat::Struct(fields) => wire::SpecVariantFormat::Struct {
            fields: spec_convert_builtin_fields(c, fields),
        },
    }
}

/// The finished union cases of an already-resolved built-in entry list.
pub open spec fn spec_convert_builtin_variants(
    c: SpecConverter,
    entries: Seq<(u32, SpecNamed<crate::schema::SpecVariantFormat>)>,
) -> Seq<wire::SpecNamedVariant> {
    Seq::new(
        entries.len(),
        |i: int|
            wire::SpecNamedVariant {
                id: entries[i].1.rust_ident.value,
                id_location: spec_indexed_location(c, entries[i].1.rust_ident.bytes),
                attrs: spec_classify(c, entries[i].1),
                variant_format: spec_convert_builtin_vf(c, entries[i].1.value),
            },
    )
}

/// The finished container of an already-resolved built-in container.  A
/// synthesized container carries no attributes, so a union of it uses the
/// default external representation.
pub open spec fn spec_convert_builtin_container(
    c: SpecConverter,
    attrs: wire::SpecAttrs,
    cf: crate::schema::SpecContainerFormat,
) -> wire::SpecContainerFormat {
    match cf {
        crate::schema::SpecContainerFormat::UnitStruct => wire::SpecContainerFormat::UnitStruct,
        crate::schema::SpecContainerFormat::NewTypeStruct(f) => wire::SpecContainerFormat::NewTypeStruct(
            f,
        ),
        crate::schema::SpecContainerFormat::TupleStruct(fs) => wire::SpecContainerFormat::TupleStruct(
            fs,
        ),
        crate::schema::SpecContainerFormat::Struct(fields) => wire::SpecContainerFormat::Struct {
            fields: spec_convert_builtin_fields(c, fields),
        },
        crate::schema::SpecContainerFormat::Enum(entries) => wire::SpecContainerFormat::Enum {
            repr: spec_resolve_repr(attrs),
            variants: spec_convert_builtin_variants(c, entries),
        },
    }
}

/// The finished declaration of a registered built-in container: located at
/// the declaring root, its attributes classified like any other.
pub open spec fn spec_convert_registry_entry(
    c: SpecConverter,
    e: SpecNamed<crate::schema::SpecContainerFormat>,
) -> wire::SpecInputDeclaration {
    wire::SpecInputDeclaration {
        id: e.rust_ident.value,
        id_location: spec_root_location(c, e.rust_ident.bytes),
        attrs: spec_classify(c, e),
        container_kind: spec_convert_builtin_container(c, spec_classify(c, e), e.value),
    }
}

/// The finished declarations of a slice of registered built-ins.
pub open spec fn spec_convert_registry_entries(
    c: SpecConverter,
    entries: Seq<SpecNamed<crate::schema::SpecContainerFormat>>,
) -> Seq<wire::SpecInputDeclaration> {
    Seq::new(entries.len(), |i: int| spec_convert_registry_entry(c, entries[i]))
}

/// Converts one already-resolved built-in field structurally.
pub fn convert_builtin_field(c: &TypeRootConverter, n: &Named<Format>) -> (r: wire::NamedField)
    requires
        c.wf(),
    ensures
        r@ == spec_convert_builtin_field(c@, n.deep_view()),
{
    let ghost nv = n.deep_view();
    let id = n.rust_ident.value.clone();
    let id_location = c.location_id(n.rust_ident.bytes);
    let attrs = {
        let rust_generics = c.map_generics(&n.rust_generics);
        let serde_attrs = c.fold_attrs(&n.serde_attrs);
        let serde_flags = c.fold_flags(&n.serde_flags);
        let codegen_attrs = c.fold_attrs(&n.codegen_attrs);
        let codegen_flags = c.fold_flags(&n.codegen_flags);
        wire::Attrs {
            rust_docs: (match &n.rust_docs {
                Some(d) => Some(d.clone()),
                None => None,
            }),
            rust_generics,
            serde_attrs,
            serde_flags,
            codegen_attrs,
            codegen_flags,
        }
    };
    let format = n.value.dup();
    let r = wire::NamedField { id, id_location, attrs, format };
    proof {
        assert(r@ =~= spec_convert_builtin_field(c@, nv));
    }
    r
}

/// Converts the fields of an already-resolved built-in structurally.
#[verifier::loop_isolation(false)]
pub fn convert_builtin_fields(c: &TypeRootConverter, fields: &Vec<Named<Format>>) -> (r: Vec<
    wire::NamedField,
>)
    requires
        c.wf(),
    ensures
        r.deep_view() == spec_convert_builtin_fields(c@, fields.deep_view()),
{
    let n: usize = fields.len();
    let mut out: Vec<wire::NamedField> = Vec::new();
    let mut i: usize = 0;
    while i < n
        invariant
            0 <= i <= n,
            out@.len() == i,
            forall|k: int|
                0 <= k < i ==> #[trigger] out.deep_view()[k] == spec_convert_builtin_field(
                    c@,
                    fields.deep_view()[k],
                ),
        decreases n - i,
    {
        let ghost out0d = out.deep_view();
        let f = convert_builtin_field(c, &fields[i]);
        let ghost fv = f@;
        out.push(f);
        proof {
            assert(forall|k: int| 0 <= k < i ==> #[trigger] out.deep_view()[k] == out0d[k]);
            assert(out.deep_view()[i as int] == fv);
        }
        i = i + 1;
    }
    proof {
        assert(out.deep_view() =~= spec_convert_builtin_fields(c@, fields.deep_view()));
    }
    out
}

/// Converts one registered built-in container into its finished
/// declaration.
#[verifier::loop_isolation(false)]
#[verifier::rlimit(100)]
pub fn convert_registry_entry(c: &TypeRootConverter, e: &Named<crate::schema::ContainerFormat>)
    -> (r: wire::InputDeclaration)
    requires
        c.wf(),
    ensures
        r@ == spec_convert_registry_entry(c@, e.deep_view()),
{
    let ghost ev = e.deep_view();
    let id = e.rust_ident.value.clone();
    let id_location = c.root_location_id(e.rust_ident.bytes);
    let rust_generics = c.map_generics(&e.rust_generics);
    let serde_attrs = c.fold_attrs(&e.serde_attrs);
    let serde_flags = c.fold_flags(&e.serde_flags);
    let codegen_attrs = c.fold_attrs(&e.codegen_attrs);
    let codegen_flags = c.fold_flags(&e.codegen_flags);
    let attrs = wire::Attrs {
        rust_docs: (match &e.rust_docs {
            Some(d) => Some(d.clone()),
            None => None,
        }),
        rust_generics,
        serde_attrs,
        serde_flags,
        codegen_attrs,
        codegen_flags,
    };
    proof {
        assert(attrs@ =~= spec_classify(c@, ev));
    }
    let container_kind = match &e.value {
        crate::schema::ContainerFormat::UnitStruct => wire::ContainerFormat::UnitStruct,
        crate::schema::ContainerFormat::NewTypeStruct(f) => wire::ContainerFormat::NewTypeStruct(
            Box::new(f.dup()),
        ),
        crate::schema::ContainerFormat::TupleStruct(fs) => {
            let gs = Format::dup_vec(fs);
            proof {
                lemma_fmts_view_eq_deep(*fs);
                lemma_fmts_view_eq_deep(gs);
            }
            wire::ContainerFormat::TupleStruct(gs)
        },
        crate::schema::ContainerFormat::Struct(fields) => wire::ContainerFormat::Struct {
            fields: convert_builtin_fields(c, fields),
        },
        crate::schema::ContainerFormat::Enum(entries) => {
            let repr = crate::classify::resolve_representation(&attrs);
            let n: usize = entries.len();
            let mut vs: Vec<wire::NamedVariant> = Vec::new();
            let mut i: usize = 0;
            while i < n
                invariant
                    0 <= i <= n,
                    vs@.len() == i,
                    forall|k: int|
                        0 <= k < i ==> #[trigger] vs.deep_view()[k]
                            == spec_convert_builtin_variants(c@, entries.deep_view())[k],
                decreases n - i,
            {
                let nv = &entries[i].1;
                let vid = nv.rust_ident.value.clone();
                let vloc = c.location_id(nv.rust_ident.bytes);
                let vattrs = {
                    let rust_generics = c.map_generics(&nv.rust_generics);
                    let serde_attrs = c.fold_attrs(&nv.serde_attrs);
                    let serde_flags = c.fold_flags(&nv.serde_flags);
                    let codegen_attrs = c.fold_attrs(&nv.codegen_attrs);
                    let codegen_flags = c.fold_flags(&nv.codegen_flags);
                    wire::Attrs {
                        rust_docs: (match &nv.rust_docs {
                            Some(d) => Some(d.clone()),
                            None => None,
                        }),
                        rust_generics,
                        serde_attrs,
                        serde_flags,
                        codegen_attrs,
                        codegen_flags,
                    }
                };
                let vf = match &nv.value {
                    crate::schema::VariantFormat::Unit => wire::VariantFormat::Unit,
                    crate::schema::VariantFormat::NewType(f) => wire::VariantFormat::NewType(
                        Box::new(f.dup()),
                    ),
                    crate::schema::VariantFormat::Tuple(fs) => {
                        let gs = Format::dup_vec(fs);
                        proof {
                            lemma_fmts_view_eq_deep(*fs);
                            lemma_fmts_view_eq_deep(gs);
                        }
                        wire::VariantFormat::Tuple(gs)
                    },
                    crate::schema::VariantFormat::Struct(fields) => wire::VariantFormat::Struct {
                        fields: convert_builtin_fields(c, fields),
                    },
                };
                let ghost vs0d = vs.deep_view();
                let w = wire::NamedVariant {
                    id: vid,
                    id_location: vloc,
                    attrs: vattrs,
                    variant_format: vf,
                };
                let ghost wv = w@;
                vs.push(w);
                proof {
                    assert(forall|k: int|
                        0 <= k < i ==> #[trigger] vs.deep_view()[k] == vs0d[k]);
                    assert(vs.deep_view()[i as int] == wv);
                    assert(wv =~= spec_convert_builtin_variants(c@, entries.deep_view())[
                        i as int]);
                }
                i = i + 1;
            }
            proof {
                assert(vs.deep_view() =~= spec_convert_builtin_variants(c@,
                    entries.deep_view()));
            }
            wire::ContainerFormat::Enum { repr, variants: vs }
        },
    };
    let r = wire::InputDeclaration { id, id_location, attrs, container_kind };
    proof {
        assert(r@ =~= spec_convert_registry_entry(c@, ev));
    }
    r
}

/// The finished declarations of a root's auxiliary raw containers, each
/// located like a top-level name.
pub open spec fn spec_convert_extras(
    c: SpecConverter,
    reg: Seq<SpecNamed<crate::schema::SpecContainerFormat>>,
    extras: Seq<SpecNamed<crate::schema::SpecContainerFormat>>,
) -> (Seq<wire::SpecInputDeclaration>, Seq<SpecNamed<crate::schema::SpecContainerFormat>>)
    decreases extras.len(),
{
    if extras.len() == 0 {
        (Seq::empty(), reg)
    } else {
        let attrs = spec_classify(c, extras[0]);
        let (ck, reg1) = spec_convert_container(c, reg, attrs, extras[0].value);
        let d = wire::SpecInputDeclaration {
            id: extras[0].rust_ident.value,
            id_location: spec_root_location(c, extras[0].rust_ident.bytes),
            attrs,
            container_kind: ck,
        };
        let (ds, reg2) = spec_convert_extras(c, reg1, extras.drop_first());
        (seq![d] + ds, reg2)
    }
}

/// The finished declarations and functions of one raw declaration: the
/// root itself, its auxiliary containers, and the built-ins newly pulled
/// into the registry while resolving its types.
#[verifier::opaque]
pub open spec fn spec_convert_root(
    c: SpecConverter,
    reg: Seq<SpecNamed<crate::schema::SpecContainerFormat>>,
    root: SpecTypeRoot,
) -> (
    (Seq<wire::SpecInputDeclaration>, Seq<wire::SpecFunctionDeclaration>),
    Seq<SpecNamed<crate::schema::SpecContainerFormat>>,
) {
    let attrs = spec_classify(c, root.inner);
    let id = root.inner.rust_ident.value;
    let id_location = spec_root_location(c, root.inner.rust_ident.bytes);
    match root.inner.value {
        SpecRootItem::Container(cf) => {
            let (ck, reg1) = spec_convert_container(c, reg, attrs, cf);
            let d = wire::SpecInputDeclaration { id, id_location, attrs, container_kind: ck };
            let (ds, reg2) = spec_convert_extras(c, reg1, root.extras);
            let fresh = spec_convert_registry_entries(c, reg2.skip(reg.len() as int));
            ((seq![d] + ds + fresh, Seq::empty()), reg2)
        },
        SpecRootItem::Function(ff) => {
            let (wf, reg1) = spec_convert_function(c, reg, ff);
            let fd = wire::SpecFunctionDeclaration { id, id_location, attrs, function: wf };
            let (ds, reg2) = spec_convert_extras(c, reg1, root.extras);
            let fresh = spec_convert_registry_entries(c, reg2.skip(reg.len() as int));
            ((ds + fresh, seq![fd]), reg2)
        },
    }
}

/// One declaration followed by two converted groups, as one vector.
pub fn assemble_decls(
    d: wire::InputDeclaration,
    rest: Vec<wire::InputDeclaration>,
    more: Vec<wire::InputDeclaration>,
) -> (r: Vec<wire::InputDeclaration>)
    ensures
        r.deep_view() == seq![d.deep_view()] + rest.deep_view() + more.deep_view(),
{
    let ghost dv = d.deep_view();
    let ghost rv = rest.deep_view();
    let ghost mv = more.deep_view();
    let mut out: Vec<wire::InputDeclaration> = Vec::new();
    out.push(d);
    let mut rest = rest;
    let mut more = more;
    out.append(&mut rest);
    out.append(&mut more);
    proof {
        assert(out.deep_view() =~= seq![dv] + rv + mv);
    }
    out
}

/// Two converted groups of declarations, as one vector.
pub fn concat_decls(a: Vec<wire::InputDeclaration>, b: Vec<wire::InputDeclaration>) -> (r: Vec<
    wire::InputDeclaration,
>)
    ensures
        r.deep_view() == a.deep_view() + b.deep_view(),
{
    let ghost av = a.deep_view();
    let ghost bv = b.deep_view();
    let mut out = a;
    let mut b = b;
    out.append(&mut b);
    proof {
        assert(out.deep_view() =~= av + bv);
    }
    out
}

impl BuiltinRegistry {
    /// Converts a root's auxiliary raw containers, in order.
    #[verifier::loop_isolation(false)]
    #[verifier::rlimit(100)]
    pub fn convert_extras(
        &mut self,
        c: &TypeRootConverter,
        extras: Vec<Named<crate::schema::ContainerFormat>>,
    ) -> (r: Vec<wire::InputDeclaration>)
        requires
            c.wf(),
        ensures
            r.deep_view() == spec_convert_extras(c@, old(self)@, extras.deep_view()).0,
            final(self)@ == spec_convert_extras(c@, old(self)@, extras.deep_view()).1,
    {
        let ghost reg0 = self@;
        let ghost esv = extras.deep_view();
        let mut out: Vec<wire::InputDeclaration> = Vec::new();
        let n: usize = extras.len();
        let mut extras = reversed(extras);
        proof {
            assert(esv.skip(0) =~= esv);
            assert(out.deep_view() + spec_convert_extras(c@, reg0, esv).0
                =~= spec_convert_extras(c@, reg0, esv).0);
        }
        let mut i: usize = 0;
        while i < n
            invariant
                0 <= i <= n,
                extras@.len() == n - i,
                forall|k: int|
                    0 <= k < n - i ==> #[trigger] extras.deep_view()[k] == esv[n - 1 - k],
                spec_convert_extras(c@, reg0, esv).0 == out.deep_view() + spec_convert_extras(
                    c@,
                    self@,
                    esv.skip(i as int),
                ).0,
                spec_convert_extras(c@, reg0, esv).1 == spec_convert_extras(
                    c@,
                    self@,
                    esv.skip(i as int),
                ).1,
            decreases n - i,
        {
            let ghost edv = extras.deep_view();
            let e = match extras.pop() {
                Some(e) => e,
                None => {
                    proof {
                        assert(false);
                    }
                    break ;
                },
            };
            proof {
                assert(e.deep_view() == edv[n - i - 1]);
                assert(forall|k: int|
                    0 <= k < n - i - 1 ==> #[trigger] extras.deep_view()[k] == edv[k]);
                assert(e.deep_view() == esv[i as int]);
                assert(esv.skip(i as int)[0] == esv[i as int]);
                assert(esv.skip(i as int).drop_first() =~= esv.skip(i + 1));
            }
            let (ident, value, attrs) = c.unname(e);
            let id_location = c.root_location_id(ident.bytes);
            let ck = self.convert_container(c, &attrs, value);
            let ghost out0 = out.deep_view();
            let d = wire::InputDeclaration {
                id: ident.value,
                id_location,
                attrs,
                container_kind: ck,
            };
            let ghost dv = d@;
            out.push(d);
            proof {
                assert(out.deep_view() =~= out0.push(dv));
                assert(out.deep_view() + spec_convert_extras(c@, self@, esv.skip(i + 1)).0
                    =~= out0 + (seq![dv] + spec_convert_extras(c@, self@, esv.skip(i + 1)).0));
            }
            i = i + 1;
        }
        proof {
            assert(esv.skip(n as int) =~= Seq::<SpecNamed<
                crate::schema::SpecContainerFormat,
            >>::empty());
            assert(out.deep_view() + spec_convert_extras(c@, self@, esv.skip(n as int)).0
                =~= out.deep_view());
        }
        out
    }

    /// Converts the registry entries from the given position on into
    /// finished declarations.
    #[verifier::loop_isolation(false)]
    pub fn convert_fresh_entries(&self, c: &TypeRootConverter, from: usize) -> (r: Vec<
        wire::InputDeclaration,
    >)
        requires
            c.wf(),
            from <= self.entries@.len(),
        ensures
            r.deep_view() == spec_convert_registry_entries(c@, self@.skip(from as int)),
    {
        let n: usize = self.entries.len();
        let mut out: Vec<wire::InputDeclaration> = Vec::new();
        let mut i: usize = from;
        while i < n
            invariant
                from <= i <= n,
                out@.len() == i - from,
                forall|k: int|
                    0 <= k < i - from ==> #[trigger] out.deep_view()[k]
                        == spec_convert_registry_entry(c@, self@[from + k]),
            decreases n - i,
        {
            let ghost out0d = out.deep_view();
            let d = convert_registry_entry(c, &self.entries[i]);
            let ghost dv = d@;
            out.push(d);
            proof {
                assert(forall|k: int|
                    0 <= k < i - from ==> #[trigger] out.deep_view()[k] == out0d[k]);
                assert(out.deep_view()[i - from] == dv);
            }
            i = i + 1;
        }
        proof {
            assert(out.deep_view() =~= spec_convert_registry_entries(c@, self@.skip(
                from as int,
            )));
        }
        out
    }

    /// Converts one raw declaration: the root itself, its auxiliary
    /// containers, and the built-ins newly registered while resolving its
    /// types.
    #[verifier::rlimit(100)]
    pub fn convert_root(&mut self, c: &TypeRootConverter, root: TypeRoot) -> (r: (
        Vec<wire::InputDeclaration>,
        Vec<wire::FunctionDeclaration>,
    ))
        requires
            c.wf(),
        ensures
            r.0.deep_view() == spec_convert_root(c@, old(self)@, root.deep_view()).0.0,
            r.1.deep_view() == spec_convert_root(c@, old(self)@, root.deep_view()).0.1,
            final(self)@ == spec_convert_root(c@, old(self)@, root.deep_view()).1,
    {
        proof {
            reveal(spec_convert_root);
        }
        let ghost reg0 = self@;
        let len0: usize = self.entries.len();
        let (ident, item, attrs) = c.unname(root.inner);
        let id_location = c.root_location_id(ident.bytes);
        match item {
            RootItem::Container(cf) => {
                let ck = self.convert_container(c, &attrs, cf);
                let d = wire::InputDeclaration {
                    id: ident.value,
                    id_location,
                    attrs,
                    container_kind: ck,
                };
                let extra_decls = self.convert_extras(c, root.extras);
                proof {
                    lemma_convert_container_reg_len(c@, reg0, attrs@,
                        spec_convert_root_container_arg(root.deep_view()));
                    lemma_convert_extras_reg_len(c@, spec_convert_container(c@, reg0, attrs@,
                        spec_convert_root_container_arg(root.deep_view())).1,
                        root.deep_view().extras);
                }
                let fresh = self.convert_fresh_entries(c, len0);
                let decls = assemble_decls(d, extra_decls, fresh);
                (decls, Vec::new())
            },
            RootItem::Function(ff) => {
                let wf = self.convert_function(c, ff);
                let fd = wire::FunctionDeclaration {
                    id: ident.value,
                    id_location,
                    attrs,
                    function: wf,
                };
                let ghost fdv = fd@;
                let extra_decls = self.convert_extras(c, root.extras);
                proof {
                    lemma_convert_function_reg_len(c@, reg0,
                        spec_convert_root_function_arg(root.deep_view()));
                    lemma_convert_extras_reg_len(c@, spec_convert_function(c@, reg0,
                        spec_convert_root_function_arg(root.deep_view())).1,
                        root.deep_view().extras);
                }
                let fresh = self.convert_fresh_entries(c, len0);
                let decls = concat_decls(extra_decls, fresh);
                let mut funs: Vec<wire::FunctionDeclaration> = Vec::new();
                funs.push(fd);
                proof {
                    assert(funs.deep_view() =~= seq![fdv]);
                }
                (decls, funs)
            },
        }
    }
}

/// The container payload of a raw declaration, when it is one.
pub open spec fn spec_convert_root_container_arg(root: SpecTypeRoot)
    -> crate::schema::SpecContainerFormat {
    match root.inner.value {
        SpecRootItem::Container(cf) => cf,
        SpecRootItem::Function(_) => crate::schema::SpecContainerFormat::UnitStruct,
    }
}

/// The function payload of a raw declaration, when it is one.
pub open spec fn spec_convert_root_function_arg(root: SpecTypeRoot)
    -> crate::schema::SpecFunctionFormat {
    match root.inner.value {
        SpecRootItem::Function(ff) => ff,
        SpecRootItem::Container(_) => crate::schema::SpecFunctionFormat {
            is_async: false,
            self_opt: None,
            params: Seq::empty(),
            ret: Box::new(SpecFormat::Unit),
        },
    }
}

/// Resolution never shrinks the registry.
pub proof fn lemma_resolve_reg_len(
    reg: Seq<SpecNamed<crate::schema::SpecContainerFormat>>,
    name: Seq<char>,
    args: Seq<SpecFormat>,
    origin: Option<(usize, usize)>,
)
    ensures
        reg.len() <= spec_resolve(reg, name, args, origin).1.len(),
{
}

/// Resolving a shape never shrinks the registry.
pub proof fn lemma_resolve_format_reg_len(
    reg: Seq<SpecNamed<crate::schema::SpecContainerFormat>>,
    f: SpecFormat,
)
    ensures
        reg.len() <= spec_resolve_format(reg, f).1.len(),
    decreases f, 0int,
{
    match f {
        SpecFormat::TypeName { ident, generics } => {
            lemma_resolve_formats_reg_len(reg, generics);
            let (args, reg1) = spec_resolve_formats(reg, generics);
            lemma_resolve_reg_len(reg1, ident, args, None);
        },
        SpecFormat::Option(inner) => {
            lemma_resolve_format_reg_len(reg, *inner);
        },
        SpecFormat::SeqOf(inner) => {
            lemma_resolve_format_reg_len(reg, *inner);
        },
        SpecFormat::MapOf { key, value } => {
            lemma_resolve_format_reg_len(reg, *key);
            let (_, reg1) = spec_resolve_format(reg, *key);
            lemma_resolve_format_reg_len(reg1, *value);
        },
        SpecFormat::Tuple(elems) => {
            lemma_resolve_formats_reg_len(reg, elems);
        },
        SpecFormat::TupleArray { content, .. } => {
            lemma_resolve_format_reg_len(reg, *content);
        },
        _ => {},
    }
}

/// Resolving a list of shapes never shrinks the registry.
pub proof fn lemma_resolve_formats_reg_len(
    reg: Seq<SpecNamed<crate::schema::SpecContainerFormat>>,
    fs: Seq<SpecFormat>,
)
    ensures
        reg.len() <= spec_resolve_formats(reg, fs).1.len(),
    decreases fs, 1int,
{
    if fs.len() > 0 {
        lemma_resolve_format_reg_len(reg, fs[0]);
        let (_, reg1) = spec_resolve_format(reg, fs[0]);
        lemma_resolve_formats_reg_len(reg1, fs.drop_first());
    }
}

/// Converting fields never shrinks the registry.
pub proof fn lemma_convert_fields_reg_len(
    c: SpecConverter,
    reg: Seq<SpecNamed<crate::schema::SpecContainerFormat>>,
    fields: Seq<SpecNamed<SpecFormat>>,
)
    ensures
        reg.len() <= spec_convert_fields(c, reg, fields).1.len(),
    decreases fields.len(),
{
    if fields.len() > 0 {
        if spec_field_skipped(c, fields[0]) {
            lemma_convert_fields_reg_len(c, reg, fields.drop_first());
        } else {
            lemma_resolve_format_reg_len(reg, fields[0].value);
            let (_, reg1) = spec_convert_field(c, reg, fields[0]);
            lemma_convert_fields_reg_len(c, reg1, fields.drop_first());
        }
    }
}

/// Converting parameters never shrinks the registry.
pub proof fn lemma_convert_params_reg_len(
    c: SpecConverter,
    reg: Seq<SpecNamed<crate::schema::SpecContainerFormat>>,
    params: Seq<SpecNamed<SpecFormat>>,
)
    ensures
        reg.len() <= spec_convert_params(c, reg, params).1.len(),
    decreases params.len(),
{
    if params.len() > 0 {
        lemma_resolve_format_reg_len(reg, params[0].value);
        let (_, reg1) = spec_convert_param(c, reg, params[0]);
        lemma_convert_params_reg_len(c, reg1, params.drop_first());
    }
}

/// Converting a union-case payload never shrinks the registry.
pub proof fn lemma_convert_vf_reg_len(
    c: SpecConverter,
    reg: Seq<SpecNamed<crate::schema::SpecContainerFormat>>,
    v: crate::schema::SpecVariantFormat,
)
    ensures
        reg.len() <= spec_convert_vf(c, reg, v).1.len(),
{
    match v {
        crate::schema::SpecVariantFormat::NewType(f) => {
            lemma_resolve_format_reg_len(reg, *f);
        },
        crate::schema::SpecVariantFormat::Tuple(fs) => {
            lemma_resolve_formats_reg_len(reg, fs);
        },
        crate::schema::SpecVariantFormat::Struct(fields) => {
            lemma_convert_fields_reg_len(c, reg, fields);
        },
        _ => {},
    }
}

/// Converting union cases never shrinks the registry.
pub proof fn lemma_convert_variants_reg_len(
    c: SpecConverter,
    reg: Seq<SpecNamed<crate::schema::SpecContainerFormat>>,
    entries: Seq<(u32, SpecNamed<crate::schema::SpecVariantFormat>)>,
)
    ensures
        reg.len() <= spec_convert_variants(c, reg, entries).1.len(),
    decreases entries.len(),
{
    if entries.len() > 0 {
        lemma_convert_vf_reg_len(c, reg, entries[0].1.value);
        let (_, reg1) = spec_convert_variant(c, reg, entries[0].1);
        lemma_convert_variants_reg_len(c, reg1, entries.drop_first());
    }
}

/// Converting a container never shrinks the registry.
pub proof fn lemma_convert_container_reg_len(
    c: SpecConverter,
    reg: Seq<SpecNamed<crate::schema::SpecContainerFormat>>,
    attrs: wire::SpecAttrs,
    cf: crate::schema::SpecContainerFormat,
)
    ensures
        reg.len() <= spec_convert_container(c, reg, attrs, cf).1.len(),
{
    match cf {
        crate::schema::SpecContainerFormat::NewTypeStruct(f) => {
            lemma_resolve_format_reg_len(reg, *f);
        },
        crate::schema::SpecContainerFormat::TupleStruct(fs) => {
            if fs.len() == 1 && spec_has_flag(attrs.serde_flags, "transparent"@) {
                lemma_resolve_format_reg_len(reg, fs[0]);
            } else {
                lemma_resolve_formats_reg_len(reg, fs);
            }
        },
        crate::schema::SpecContainerFormat::Struct(fields) => {
            lemma_convert_fields_reg_len(c, reg, fields);
        },
        crate::schema::SpecContainerFormat::Enum(entries) => {
            lemma_convert_variants_reg_len(c, reg, entries);
        },
        _ => {},
    }
}

/// Converting a function shape never shrinks the registry.
pub proof fn lemma_convert_function_reg_len(
    c: SpecConverter,
    reg: Seq<SpecNamed<crate::schema::SpecContainerFormat>>,
    ff: crate::schema::SpecFunctionFormat,
)
    ensures
        reg.len() <= spec_convert_function(c, reg, ff).1.len(),
{
    let (self_opt, reg1) = (match ff.self_opt {
        Some(p) => {
            let (cp, r1) = spec_convert_param(c, reg, p);
            (Some(cp), r1)
        },
        None => (None, reg),
    });
    match ff.self_opt {
        Some(p) => {
            lemma_resolve_format_reg_len(reg, p.value);
        },
        None => {},
    }
    lemma_convert_params_reg_len(c, reg1, ff.params);
    let (_, reg2) = spec_convert_params(c, reg1, ff.params);
    lemma_resolve_format_reg_len(reg2, *ff.ret);
}

/// Converting auxiliary containers never shrinks the registry.
pub proof fn lemma_convert_extras_reg_len(
    c: SpecConverter,
    reg: Seq<SpecNamed<crate::schema::SpecContainerFormat>>,
    extras: Seq<SpecNamed<crate::schema::SpecContainerFormat>>,
)
    ensures
        reg.len() <= spec_convert_extras(c, reg, extras).1.len(),
    decreases extras.len(),
{
    if extras.len() > 0 {
        let attrs = spec_classify(c, extras[0]);
        lemma_convert_container_reg_len(c, reg, attrs, extras[0].value);
        let (_, reg1) = spec_convert_container(c, reg, attrs, extras[0].value);
        lemma_convert_extras_reg_len(c, reg1, extras.drop_first());
    }
}

/// The line-start table recorded for a file, or an empty table when the
/// file's text was not available.
pub open spec fn spec_find_table(sources: Seq<(Seq<char>, Seq<usize>)>, file: Seq<char>) -> Seq<
    usize,
>
    decreases sources.len(),
{
    if sources.len() == 0 {
        Seq::empty()
    } else if sources[0].0 == file {
        sources[0].1
    } else {
        spec_find_table(sources.drop_first(), file)
    }
}

/// The converter of one root: its file, its explicit line, and the file's
/// line-start table.
pub open spec fn spec_converter_for(
    sources: Seq<(Seq<char>, Seq<usize>)>,
    root: SpecTypeRoot,
) -> SpecConverter {
    SpecConverter {
        file: root.file,
        line_number_override: Some(root.line),
        newlines: spec_find_table(sources, root.file),
    }
}

/// The whole conversion of a sequence of raw declarations: declarations
/// and functions concatenated in order, one shared registry throughout the
/// session.
pub open spec fn spec_convert_roots(
    sources: Seq<(Seq<char>, Seq<usize>)>,
    reg: Seq<SpecNamed<crate::schema::SpecContainerFormat>>,
    roots: Seq<SpecTypeRoot>,
) -> (
    (Seq<wire::SpecInputDeclaration>, Seq<wire::SpecFunctionDeclaration>),
    Seq<SpecNamed<crate::schema::SpecContainerFormat>>,
)
    decreases roots.len(),
{
    if roots.len() == 0 {
        ((Seq::empty(), Seq::empty()), reg)
    } else {
        let c = spec_converter_for(sources, roots[0]);
        let (p, reg1) = spec_convert_root(c, reg, roots[0]);
        let (rest, reg2) = spec_convert_roots(sources, reg1, roots.drop_first());
        ((p.0 + rest.0, p.1 + rest.1), reg2)
    }
}

/// The wire document of a whole extraction session, starting from an empty
/// registry.
pub open spec fn spec_convert_session(
    sources: Seq<(Seq<char>, Seq<usize>)>,
    roots: Seq<SpecTypeRoot>,
) -> wire::SpecInput {
    let (p, _) = spec_convert_roots(sources, Seq::empty(), roots);
    wire::SpecInput { declarations: p.0, functions: p.1 }
}

/// The model of an indexed source file list: names with their line-start
/// tables.
pub open spec fn spec_sources_view(sources: Seq<(String, SourceLineNumberIndex)>) -> Seq<(
    Seq<char>,
    Seq<usize>,
)> {
    Seq::new(sources.len(), |i: int| (sources[i].0@, sources[i].1.newlines@))
}

/// Builds the converter of one root: looks its file's table up, falling
/// back to an empty table for a file whose text was not available.
#[verifier::loop_isolation(false)]
pub fn converter_for(sources: &Vec<(String, SourceLineNumberIndex)>, file: &String, line: u32)
    -> (r: TypeRootConverter)
    requires
        forall|k: int|
            0 <= k < sources@.len() ==> (#[trigger] sources@[k].1).wf(),
    ensures
        r.wf(),
        r@ == (SpecConverter {
            file: file@,
            line_number_override: Some(line),
            newlines: spec_find_table(spec_sources_view(sources@), file@),
        }),
{
    let ghost sv = spec_sources_view(sources@);
    let n: usize = sources.len();
    let mut i: usize = 0;
    proof {
        assert(sv.skip(0) =~= sv);
    }
    while i < n
        invariant
            0 <= i <= n,
            spec_find_table(sv, file@) == spec_find_table(sv.skip(i as int), file@),
        decreases n - i,
    {
        proof {
            assert(sv.skip(i as int)[0] == sv[i as int]);
            assert(sv.skip(i as int).drop_first() =~= sv.skip(i + 1));
        }
        if str_eq(sources[i].0.as_str(), file.as_str()) {
            let lines = sources[i].1.duplicate();
            return TypeRootConverter {
                file_name: file.clone(),
                line_number_override: Some(line),
                lines,
            };
        }
        i = i + 1;
    }
    proof {
        assert(sv.skip(n as int) =~= Seq::<(Seq<char>, Seq<usize>)>::empty());
    }
    let lines = SourceLineNumberIndex { newlines: Vec::new(), is_crlf: false };
    TypeRootConverter { file_name: file.clone(), line_number_override: Some(line), lines }
}

/// Converts a whole extraction session: every raw declaration in order,
/// against the indexed source files, with one shared built-in registry.
#[verifier::loop_isolation(false)]
#[verifier::rlimit(100)]
pub fn convert_type_roots(
    sources: &Vec<(String, SourceLineNumberIndex)>,
    roots: Vec<TypeRoot>,
) -> (r: wire::Input)
    requires
        forall|k: int|
            0 <= k < sources@.len() ==> (#[trigger] sources@[k].1).wf(),
    ensures
        r@ == spec_convert_session(spec_sources_view(sources@), roots.deep_view()),
{
    proof {
        reveal(spec_convert_root);
    }
    let ghost sv = spec_sources_view(sources@);
    let ghost rsv = roots.deep_view();
    let mut reg = BuiltinRegistry::new();
    let mut declarations: Vec<wire::InputDeclaration> = Vec::new();
    let mut functions: Vec<wire::FunctionDeclaration> = Vec::new();
    let n: usize = roots.len();
    let mut roots = reversed(roots);
    proof {
        assert(rsv.skip(0) =~= rsv);
        assert(declarations.deep_view() + spec_convert_roots(sv, reg@, rsv).0.0
            =~= spec_convert_roots(sv, reg@, rsv).0.0);
        assert(functions.deep_view() + spec_convert_roots(sv, reg@, rsv).0.1
            =~= spec_convert_roots(sv, reg@, rsv).0.1);
        assert(spec_convert_roots(sv, Seq::empty(), rsv) == spec_convert_roots(sv, reg@, rsv));
    }
    let ghost reg_init = reg@;
    let mut i: usize = 0;
    while i < n
        invariant
            0 <= i <= n,
            roots@.len() == n - i,
            forall|k: int|
                0 <= k < n - i ==> #[trigger] roots.deep_view()[k] == rsv[n - 1 - k],
            spec_convert_roots(sv, reg_init, rsv).0.0 == declarations.deep_view()
                + spec_convert_roots(sv, reg@, rsv.skip(i as int)).0.0,
            spec_convert_roots(sv, reg_init, rsv).0.1 == functions.deep_view()
                + spec_convert_roots(sv, reg@, rsv.skip(i as int)).0.1,
            spec_convert_roots(sv, reg_init, rsv).1 == spec_convert_roots(
                sv,
                reg@,
                rsv.skip(i as int),
            ).1,
        decreases n - i,
    {
        let ghost rdv = roots.deep_view();
        let root = match roots.pop() {
            Some(x) => x,
            None => {
                proof {
                    assert(false);
                }
                break ;
            },
        };
        proof {
            assert(root.deep_view() == rdv[n - i - 1]);
            assert(forall|k: int|
                0 <= k < n - i - 1 ==> #[trigger] roots.deep_view()[k] == rdv[k]);
            assert(root.deep_view() == rsv[i as int]);
            assert(rsv.skip(i as int)[0] == rsv[i as int]);
            assert(rsv.skip(i as int).drop_first() =~= rsv.skip(i + 1));
        }
        let c = converter_for(sources, &root.file, root.line);
        proof {
            assert(c@ == spec_converter_for(sv, rsv[i as int]));
        }
        let (mut ds, mut fs) = reg.convert_root(&c, root);
        let ghost dsv = ds.deep_view();
        let ghost fsv2 = fs.deep_view();
        let ghost d0 = declarations.deep_view();
        let ghost f0 = functions.deep_view();
        declarations.append(&mut ds);
        functions.append(&mut fs);
        proof {
            assert(declarations.deep_view() =~= d0 + dsv);
            assert(functions.deep_view() =~= f0 + fsv2);
            assert(declarations.deep_view() + spec_convert_roots(sv, reg@, rsv.skip(i + 1)).0.0
                =~= d0 + (dsv + spec_convert_roots(sv, reg@, rsv.skip(i + 1)).0.0));
            assert(functions.deep_view() + spec_convert_roots(sv, reg@, rsv.skip(i + 1)).0.1
                =~= f0 + (fsv2 + spec_convert_roots(sv, reg@, rsv.skip(i + 1)).0.1));
        }
        i = i + 1;
    }
    proof {
        assert(rsv.skip(n as int) =~= Seq::<SpecTypeRoot>::empty());
        assert(declarations.deep_view() + spec_convert_roots(sv, reg@, rsv.skip(n as int)).0.0
            =~= declarations.deep_view());
        assert(functions.deep_view() + spec_convert_roots(sv, reg@, rsv.skip(n as int)).0.1
            =~= functions.deep_view());
    }
    let r = wire::Input { declarations, functions };
    proof {
        assert(r@ =~= spec_convert_session(sv, rsv));
    }
    r
}

/// Whether a declaration carrying the given tags is included under a tag
/// selection: a declaration with no tags only when nothing was selected,
/// any other when one of its tags was selected.
pub open spec fn spec_should_include(selected: Seq<Seq<char>>, declared: Seq<Seq<char>>)
    -> bool {
    if declared.len() == 0 {
        selected.len() == 0
    } else {
        exists|i: int| 0 <= i < declared.len() && selected.contains(declared[i])
    }
}

/// Decides whether a declaration carrying the given tags belongs to a tag
/// selection.
#[verifier::loop_isolation(false)]
pub fn should_include(selected: &Vec<String>, declared: &Vec<String>) -> (r: bool)
    ensures
        r == spec_should_include(selected.deep_view(), declared.deep_view()),
{
    if declared.len() == 0 {
        return selected.len() == 0;
    }
    let n: usize = declared.len();
    let mut i: usize = 0;
    while i < n
        invariant
            0 <= i <= n,
            forall|k: int|
                0 <= k < i ==> !selected.deep_view().contains(#[trigger] declared.deep_view()[k]),
        decreases n - i,
    {
        let m: usize = selected.len();
        let mut j: usize = 0;
        while j < m
            invariant
                0 <= j <= m,
                0 <= i < n,
                forall|q: int| 0 <= q < j ==> selected.deep_view()[q] != declared.deep_view()[
                    i as int],
            decreases m - j,
        {
            if str_eq(selected[j].as_str(), declared[i].as_str()) {
                proof {
                    assert(selected.deep_view()[j as int] == declared.deep_view()[i as int]);
                    assert(selected.deep_view().contains(declared.deep_view()[i as int]));
                }
                return true;
            }
            j = j + 1;
        }
        proof {
            assert(!selected.deep_view().contains(declared.deep_view()[i as int])) by {
                if selected.deep_view().contains(declared.deep_view()[i as int]) {
                    let q = choose|q: int|
                        0 <= q < selected.deep_view().len() && selected.deep_view()[q]
                            == declared.deep_view()[i as int];
                }
            }
        }
        i = i + 1;
    }
    false
}

} // verus!