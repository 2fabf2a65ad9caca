//! The built-in resolver: recognizing well-known generic wrapper and
//! collection shapes by type name and argument count, unwrapping the
//! transparent ones, and synthesizing canonical named containers for the
//! rest, deduplicated per extraction session in a registry.

use vstd::prelude::*;

use crate::schema::{
    ContainerFormat, Format, Named, SpecContainerFormat, SpecFormat, SpecNamed, SpecSpanned,
    SpecVariantFormat, VariantFormat, fmts_view, lemma_fmts_view, spec_as_ident,
    spec_no_incomplete,
};
use crate::strutil::{spec_trim, str_eq};

verus! {

/// The model of a container the library itself synthesizes: a bare name
/// with the given byte range (absent meaning none), trimmed documentation
/// kept only when non-blank, no generics and no attributes.
pub open spec fn spec_builtin_named<V>(
    ident: Seq<char>,
    docs: Seq<char>,
    origin: Option<(usize, usize)>,
    value: V,
) -> SpecNamed<V> {
    SpecNamed {
        rust_ident: SpecSpanned {
            value: ident,
            bytes: (match origin {
                Some(b) => b,
                None => (0usize, 0usize),
            }),
        },
        rust_generics: Seq::empty(),
        rust_docs: (if spec_trim(docs).len() == 0 {
            None
        } else {
            Some(spec_trim(docs))
        }),
        serde_attrs: Seq::empty(),
        serde_flags: Seq::empty(),
        codegen_attrs: Seq::empty(),
        codegen_flags: Seq::empty(),
        value,
    }
}

/// The first registry entry under the given name.
pub open spec fn spec_reg_find(
    entries: Seq<SpecNamed<SpecContainerFormat>>,
    name: Seq<char>,
) -> Option<SpecNamed<SpecContainerFormat>>
    decreases entries.len(),
{
    if entries.len() == 0 {
        None
    } else if entries[0].rust_ident.value == name {
        Some(entries[0])
    } else {
        spec_reg_find(entries.drop_first(), name)
    }
}

/// Inserting under a name that is already present changes nothing; a new
/// name is appended.
pub open spec fn spec_reg_insert(
    entries: Seq<SpecNamed<SpecContainerFormat>>,
    entry: SpecNamed<SpecContainerFormat>,
) -> Seq<SpecNamed<SpecContainerFormat>> {
    if spec_reg_find(entries, entry.rust_ident.value) is Some {
        entries
    } else {
        entries.push(entry)
    }
}

/// After an insert, looking the name up returns the entry that was already
/// stored, or the inserted one when the name was new.
pub proof fn lemma_find_after_insert(
    entries: Seq<SpecNamed<SpecContainerFormat>>,
    entry: SpecNamed<SpecContainerFormat>,
)
    ensures
        spec_reg_find(spec_reg_insert(entries, entry), entry.rust_ident.value) == (match
            spec_reg_find(entries, entry.rust_ident.value) {
            Some(old) => Some(old),
            None => Some(entry),
        }),
    decreases entries.len(),
{
    if spec_reg_find(entries, entry.rust_ident.value) is None {
        lemma_find_push_absent(entries, entry);
    }
}

/// Looking up a freshly pushed entry under its own name finds it, when the
/// name was absent before.
pub proof fn lemma_find_push_absent(
    entries: Seq<SpecNamed<SpecContainerFormat>>,
    entry: SpecNamed<SpecContainerFormat>,
)
    requires
        spec_reg_find(entries, entry.rust_ident.value) is None,
    ensures
        spec_reg_find(entries.push(entry), entry.rust_ident.value) == Some(entry),
    decreases entries.len(),
{
    if entries.len() == 0 {
        assert(entries.push(entry)[0] == entry);
    } else {
        lemma_find_push_absent(entries.drop_first(), entry);
        assert(entries.push(entry)[0] == entries[0]);
        assert(entries.push(entry).drop_first() =~= entries.drop_first().push(entry));
    }
}

/// Requests under one synthesized name are idempotent: once an entry sits
/// under a name, a second and any later insert under that name leaves the
/// registry exactly as it was, and a lookup keeps returning the stored
/// entry, never a duplicate.
pub proof fn lemma_registry_dedup(
    entries: Seq<SpecNamed<SpecContainerFormat>>,
    first: SpecNamed<SpecContainerFormat>,
    again: SpecNamed<SpecContainerFormat>,
)
    requires
        again.rust_ident.value == first.rust_ident.value,
    ensures
        spec_reg_insert(spec_reg_insert(entries, first), again) == spec_reg_insert(
            entries,
            first,
        ),
        spec_reg_find(spec_reg_insert(spec_reg_insert(entries, first), again),
            first.rust_ident.value) == spec_reg_find(spec_reg_insert(entries, first),
            first.rust_ident.value),
{
    lemma_find_after_insert(entries, first);
}

/// The registry of synthesized built-in containers of one extraction
/// session: consulted and populated lazily, insert-once per name.
pub struct BuiltinRegistry {
    pub entries: Vec<Named<ContainerFormat>>,
}

impl View for BuiltinRegistry {
    type V = Seq<SpecNamed<SpecContainerFormat>>;

    open spec fn view(&self) -> Seq<SpecNamed<SpecContainerFormat>> {
        self.entries.deep_view()
    }
}

impl BuiltinRegistry {
    /// An empty per-session registry.
    pub fn new() -> (r: BuiltinRegistry)
        ensures
            r@ =~= Seq::<SpecNamed<SpecContainerFormat>>::empty(),
    {
        BuiltinRegistry { entries: Vec::new() }
    }

    /// The entry under the given name, if one was synthesized already.
    #[verifier::loop_isolation(false)]
    pub fn find(&self, name: &str) -> (r: Option<&Named<ContainerFormat>>)
        ensures
            (match r {
                Some(e) => spec_reg_find(self@, name@) == Some(e.deep_view()),
                None => spec_reg_find(self@, name@) is None,
            }),
    {
        let ghost ev = self@;
        let n: usize = self.entries.len();
        let mut i: usize = 0;
        proof {
            assert(ev.skip(0) =~= ev);
        }
        while i < n
            invariant
                0 <= i <= n,
                spec_reg_find(ev, name@) == spec_reg_find(ev.skip(i as int), name@),
            decreases n - i,
        {
            proof {
                assert(ev.skip(i as int)[0] == ev[i as int]);
                assert(ev.skip(i as int).drop_first() =~= ev.skip(i + 1));
            }
            if str_eq(self.entries[i].rust_ident.value.as_str(), name) {
                return Some(&self.entries[i]);
            }
            i = i + 1;
        }
        proof {
            assert(ev.skip(n as int) =~= Seq::<SpecNamed<SpecContainerFormat>>::empty());
        }
        None
    }

    /// Registers a synthesized container under a fixed name, unless one
    /// already sits there, and returns the reference format for it.  A
    /// repeated request under the same name leaves the registry unchanged.
    pub fn add_builtin(
        &mut self,
        name: &str,
        docs: &str,
        origin: Option<(usize, usize)>,
        value: ContainerFormat,
    ) -> (r: Format)
        ensures
            final(self)@ == spec_reg_insert(old(self)@, spec_builtin_named(name@, docs@, origin,
                value.deep_view())),
            r@ == (SpecFormat::TypeName { ident: name@, generics: Seq::empty() }),
    {
        let present = match self.find(name) {
            Some(_) => true,
            None => false,
        };
        if !present {
            let ghost valv = value.deep_view();
            let entry = Named::builtin(name, docs, origin, value);
            proof {
                assert(entry.deep_view() =~= spec_builtin_named(name@, docs@, origin, valv));
            }
            let ghost e0 = self.entries.deep_view();
            self.entries.push(entry);
            proof {
                assert(self.entries.deep_view() =~= e0.push(spec_builtin_named(name@, docs@,
                    origin, valv)));
            }
        }
        let r = Format::TypeName { ident: name.to_owned(), generics: Vec::new() };
        proof {
            assert(fmts_view(Seq::<Format>::empty()) == Seq::<SpecFormat>::empty());
            assert(r@ =~= (SpecFormat::TypeName { ident: name@, generics: Seq::empty() }));
        }
        r
    }
}

/// The format of a primitive type name, if the name is one.
pub open spec fn spec_prim_name_format(name: Seq<char>) -> Option<SpecFormat> {
    if name == "i8"@ {
        Some(SpecFormat::I8)
    } else if name == "i16"@ {
        Some(SpecFormat::I16)
    } else if name == "i32"@ {
        Some(SpecFormat::I32)
    } else if name == "i64"@ {
        Some(SpecFormat::I64)
    } else if name == "i128"@ {
        Some(SpecFormat::I128)
    } else if name == "isize"@ {
        Some(SpecFormat::ISIZE)
    } else if name == "u8"@ {
        Some(SpecFormat::U8)
    } else if name == "u16"@ {
        Some(SpecFormat::U16)
    } else if name == "u32"@ {
        Some(SpecFormat::U32)
    } else if name == "u64"@ {
        Some(SpecFormat::U64)
    } else if name == "u128"@ {
        Some(SpecFormat::U128)
    } else if name == "usize"@ {
        Some(SpecFormat::USIZE)
    } else if name == "f32"@ {
        Some(SpecFormat::F32)
    } else if name == "f64"@ {
        Some(SpecFormat::F64)
    } else if name == "char"@ {
        Some(SpecFormat::Char)
    } else if name == "String"@ || name == "str"@ || name == "Path"@ || name == "PathBuf"@ {
        Some(SpecFormat::Str)
    } else if name == "bool"@ {
        Some(SpecFormat::Bool)
    } else {
        None
    }
}

/// Whether the name is a transparent single-argument wrapper that unwraps
/// to its argument.
pub open spec fn spec_is_transparent_name(name: Seq<char>) -> bool {
    name == "Box"@ || name == "Cow"@ || name == "Rc"@ || name == "Arc"@ || name == "Cell"@
        || name == "RefCell"@
}

/// Whether the name is a sequence-like generic with one argument.
pub open spec fn spec_is_seq_name(name: Seq<char>) -> bool {
    name == "Vec"@ || name == "VecDeque"@ || name == "LinkedList"@
}

/// Whether the name is a map-like generic with two arguments.
pub open spec fn spec_is_map_name(name: Seq<char>) -> bool {
    name == "HashMap"@ || name == "BTreeMap"@
}

/// Whether the name is a set-like generic with one argument; sets are
/// represented as sequences on the wire.
pub open spec fn spec_is_set_name(name: Seq<char>) -> bool {
    name == "HashSet"@ || name == "BTreeSet"@
}

/// The synthesized two-field container for a span of time.
pub open spec fn spec_duration_container() -> SpecContainerFormat {
    SpecContainerFormat::Struct(
        seq![
            spec_builtin_named("secs"@, ""@, None, SpecFormat::U64),
            spec_builtin_named("nanos"@, "Always 0 <= nanos < NANOS_PER_SEC"@, None,
                SpecFormat::U32),
        ],
    )
}

/// The synthesized two-field container for a timestamp.
pub open spec fn spec_system_time_container() -> SpecContainerFormat {
    SpecContainerFormat::Struct(
        seq![
            spec_builtin_named("secs_since_epoch"@, ""@, None, SpecFormat::U64),
            spec_builtin_named("nanos_since_epoch"@, "Always 0 <= nanos < NANOS_PER_SEC"@, None,
                SpecFormat::U32),
        ],
    )
}

/// The synthesized two-variant container for a binary outcome.
pub open spec fn spec_result_container(
    ok: SpecFormat,
    err: SpecFormat,
    origin: Option<(usize, usize)>,
) -> SpecContainerFormat {
    SpecContainerFormat::Enum(
        seq![
            (
                0u32,
                spec_builtin_named("Ok"@, "Contains the success value"@, origin,
                    SpecVariantFormat::NewType(Box::new(ok))),
            ),
            (
                1u32,
                spec_builtin_named("Err"@, "Contains the error value"@, origin,
                    SpecVariantFormat::NewType(Box::new(err))),
            ),
        ],
    )
}

/// The synthesized name of a binary-outcome instantiation: the outcome
/// name with the identifier projection of each argument.  Deterministic,
/// with no global collision guarantee.
pub open spec fn spec_result_name(ok: SpecFormat, err: SpecFormat) -> Seq<char> {
    "Result_Ok"@ + spec_as_ident(ok) + "_Err"@ + spec_as_ident(err)
}

/// The resolution of a type name with already-resolved generic arguments:
/// the returned format, and the registry contents afterwards.  A name that
/// must be synthesized from an argument that is still incomplete resolves
/// to an `Incomplete` node carrying the name, left for a later merge.
pub open spec fn spec_resolve(
    reg: Seq<SpecNamed<SpecContainerFormat>>,
    name: Seq<char>,
    args: Seq<SpecFormat>,
    origin: Option<(usize, usize)>,
) -> (SpecFormat, Seq<SpecNamed<SpecContainerFormat>>) {
    if spec_prim_name_format(name) is Some {
        (spec_prim_name_format(name)->0, reg)
    } else if spec_is_transparent_name(name) && args.len() == 1 {
        (args[0], reg)
    } else if name == "Duration"@ {
        (
            SpecFormat::TypeName { ident: "Duration"@, generics: Seq::empty() },
            spec_reg_insert(
                reg,
                spec_builtin_named(
                    "Duration"@,
                    "A span of time: whole seconds and a nanosecond fraction"@,
                    None,
                    spec_duration_container(),
                ),
            ),
        )
    } else if name == "SystemTime"@ {
        (
            SpecFormat::TypeName { ident: "SystemTime"@, generics: Seq::empty() },
            spec_reg_insert(
                reg,
                spec_builtin_named(
                    "SystemTime"@,
                    "A measurement of the system clock: seconds and nanoseconds since the epoch"@,
                    None,
                    spec_system_time_container(),
                ),
            ),
        )
    } else if spec_is_seq_name(name) && args.len() == 1 {
        (SpecFormat::SeqOf(Box::new(args[0])), reg)
    } else if spec_is_map_name(name) && args.len() == 2 {
        (SpecFormat::MapOf { key: Box::new(args[0]), value: Box::new(args[1]) }, reg)
    } else if spec_is_set_name(name) && args.len() == 1 {
        (SpecFormat::SeqOf(Box::new(args[0])), reg)
    } else if name == "Option"@ && args.len() == 1 {
        (SpecFormat::Option(Box::new(args[0])), reg)
    } else if name == "Result"@ && args.len() == 2 {
        if spec_no_incomplete(args[0]) && spec_no_incomplete(args[1]) {
            let nm = spec_result_name(args[0], args[1]);
            (
                SpecFormat::TypeName { ident: nm, generics: Seq::empty() },
                spec_reg_insert(
                    reg,
                    spec_builtin_named(
                        nm,
                        "`Result` is a type that represents either success ([`Ok`]) or failure ([`Err`])."@,
                        origin,
                        spec_result_container(args[0], args[1], origin),
                    ),
                ),
            )
        } else {
            (SpecFormat::Incomplete { debug: name }, reg)
        }
    } else {
        (SpecFormat::TypeName { ident: name, generics: args }, reg)
    }
}

impl BuiltinRegistry {
    /// Resolves a type name with already-resolved generic arguments,
    /// following the well-known rules in order: primitives, transparent
    /// wrappers, the duration and timestamp shapes, sequence-, map-,
    /// set- and option-like generics, the binary outcome, and a plain
    /// reference to a declared container for everything else.
    #[verifier::loop_isolation(false)]
    pub fn resolve(
        &mut self,
        name: &str,
        args: Vec<Format>,
        origin: Option<(usize, usize)>,
    ) -> (r: Format)
        ensures
            r@ == spec_resolve(old(self)@, name@, fmts_view(args@), origin).0,
            final(self)@ == spec_resolve(old(self)@, name@, fmts_view(args@), origin).1,
    {
        proof {
            lemma_fmts_view(args@);
        }
        let ghost argsv = fmts_view(args@);
        if str_eq(name, "i8") {
            return Format::I8;
        }
        if str_eq(name, "i16") {
            return Format::I16;
        }
        if str_eq(name, "i32") {
            return Format::I32;
        }
        if str_eq(name, "i64") {
            return Format::I64;
        }
        if str_eq(name, "i128") {
            return Format::I128;
        }
        if str_eq(name, "isize") {
            return Format::ISIZE;
        }
        if str_eq(name, "u8") {
            return Format::U8;
        }
        if str_eq(name, "u16") {
            return Format::U16;
        }
        if str_eq(name, "u32") {
            return Format::U32;
        }
        if str_eq(name, "u64") {
            return Format::U64;
        }
        if str_eq(name, "u128") {
            return Format::U128;
        }
        if str_eq(name, "usize") {
            return Format::USIZE;
        }
        if str_eq(name, "f32") {
            return Format::F32;
        }
        if str_eq(name, "f64") {
            return Format::F64;
        }
        if str_eq(name, "char") {
            return Format::Char;
        }
        if str_eq(name, "String") || str_eq(name, "str") || str_eq(name, "Path") || str_eq(
            name,
            "PathBuf",
        ) {
            return Format::Str;
        }
        if str_eq(name, "bool") {
            return Format::Bool;
        }
        let mut args = args;
        if (str_eq(name, "Box") || str_eq(name, "Cow") || str_eq(name, "Rc") || str_eq(
            name,
            "Arc",
        ) || str_eq(name, "Cell") || str_eq(name, "RefCell")) && args.len() == 1 {
            let arg = match args.pop() {
                Some(a) => a,
                None => {
                    proof {
                        assert(false);
                    }
                    return Format::Unit;
                },
            };
            return arg;
        }
        if str_eq(name, "Duration") {
            let mut fields: Vec<Named<Format>> = Vec::new();
            fields.push(Named::builtin("secs", "", None, Format::U64));
            fields.push(
                Named::builtin("nanos", "Always 0 <= nanos < NANOS_PER_SEC", None, Format::U32),
            );
            proof {
                assert(fields.deep_view() =~= (match spec_duration_container() {
                    SpecContainerFormat::Struct(fs) => fs,
                    _ => Seq::empty(),
                }));
            }
            let r = self.add_builtin(
                "Duration",
                "A span of time: whole seconds and a nanosecond fraction",
                None,
                ContainerFormat::Struct(fields),
            );
            return r;
        }
        if str_eq(name, "SystemTime") {
            let mut fields: Vec<Named<Format>> = Vec::new();
            fields.push(Named::builtin("secs_since_epoch", "", None, Format::U64));
            fields.push(
                Named::builtin(
                    "nanos_since_epoch",
                    "Always 0 <= nanos < NANOS_PER_SEC",
                    None,
                    Format::U32,
                ),
            );
            proof {
                assert(fields.deep_view() =~= (match spec_system_time_container() {
                    SpecContainerFormat::Struct(fs) => fs,
                    _ => Seq::empty(),
                }));
            }
            let r = self.add_builtin(
                "SystemTime",
                "A measurement of the system clock: seconds and nanoseconds since the epoch",
                None,
                ContainerFormat::Struct(fields),
            );
            return r;
        }
        if (str_eq(name, "Vec") || str_eq(name, "VecDeque") || str_eq(name, "LinkedList"))
            && args.len() == 1 {
            let arg = match args.pop() {
                Some(a) => a,
                None => {
                    proof {
                        assert(false);
                    }
                    return Format::Unit;
                },
            };
            return Format::SeqOf(Box::new(arg));
        }
        if (str_eq(name, "HashMap") || str_eq(name, "BTreeMap")) && args.len() == 2 {
            let value = match args.pop() {
                Some(a) => a,
                None => {
                    proof {
                        assert(false);
                    }
                    return Format::Unit;
                },
            };
            let key = match args.pop() {
                Some(a) => a,
                None => {
                    proof {
                        assert(false);
                    }
                    return Format::Unit;
                },
            };
            return Format::MapOf { key: Box::new(key), value: Box::new(value) };
        }
        if (str_eq(name, "HashSet") || str_eq(name, "BTreeSet")) && args.len() == 1 {
            let arg = match args.pop() {
                Some(a) => a,
                None => {
                    proof {
                        assert(false);
                    }
                    return Format::Unit;
                },
            };
            return Format::SeqOf(Box::new(arg));
        }
        if str_eq(name, "Option") && args.len() == 1 {
            let arg = match args.pop() {
                Some(a) => a,
                None => {
                    proof {
                        assert(false);
                    }
                    return Format::Unit;
                },
            };
            return Format::Option(Box::new(arg));
        }
        if str_eq(name, "Result") && args.len() == 2 {
            if !(args[0].has_no_incomplete() && args[1].has_no_incomplete()) {
                return Format::Incomplete { debug: name.to_owned() };
            }
            let mut nm = String::new();
            nm.append("Result_Ok");
            let ok_ident = args[0].as_ident();
            nm.append(ok_ident.as_str());
            nm.append("_Err");
            let err_ident = args[1].as_ident();
            nm.append(err_ident.as_str());
            proof {
                assert(nm@ =~= spec_result_name(argsv[0], argsv[1]));
            }
            let err = match args.pop() {
                Some(a) => a,
                None => {
                    proof {
                        assert(false);
                    }
                    return Format::Unit;
                },
            };
            let ok = match args.pop() {
                Some(a) => a,
                None => {
                    proof {
                        assert(false);
                    }
                    return Format::Unit;
                },
            };
            proof {
                assert(err@ == argsv[1]);
                assert(ok@ == argsv[0]);
            }
            let mut variants: Vec<(u32, Named<VariantFormat>)> = Vec::new();
            variants.push(
                (
                    0,
                    Named::builtin(
                        "Ok",
                        "Contains the success value",
                        origin,
                        VariantFormat::NewType(Box::new(ok)),
                    ),
                ),
            );
            variants.push(
                (
                    1,
                    Named::builtin(
                        "Err",
                        "Contains the error value",
                        origin,
                        VariantFormat::NewType(Box::new(err)),
                    ),
                ),
            );
            proof {
                assert(variants.deep_view() =~= (match spec_result_container(
                    argsv[0],
                    argsv[1],
                    origin,
                ) {
                    SpecContainerFormat::Enum(vs) => vs,
                    _ => Seq::empty(),
                }));
            }
            let r = self.add_builtin(
                nm.as_str(),
                "`Result` is a type that represents either success ([`Ok`]) or failure ([`Err`]).",
                origin,
                ContainerFormat::Enum(variants),
            );
            return r;
        }
        let r = Format::TypeName { ident: name.to_owned(), generics: args };
        proof {
            assert(r@ =~= (SpecFormat::TypeName { ident: name@, generics: fmts_view(args@) }));
        }
        r
    }
}

} // verus!
