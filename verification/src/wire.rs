//! The wire documents: the finished, location-resolved form of declarations
//! sent to an external generator (`Input`), and the files and diagnostics
//! read back from it (`Output`).

use vstd::prelude::*;

use crate::schema::Format;

verus! {

/// A derived, opaque, human-readable location string built from file path,
/// line and column (or an explicit line override) and byte range; used for
/// diagnostics and cross-referencing by generators.
#[derive(Debug, PartialEq)]
pub struct LocationID(pub String);

impl DeepView for LocationID {
    type V = Seq<char>;

    open spec fn deep_view(&self) -> Seq<char> {
        self.0@
    }
}

impl View for LocationID {
    type V = Seq<char>;

    open spec fn view(&self) -> Seq<char> {
        self.0@
    }
}

/// The classified attributes of a declaration, field or variant: docs,
/// generic parameter names, and the folded serialization and generator
/// attribute maps, each key keeping its most recent value and the location
/// it came from.
#[derive(Debug, PartialEq)]
pub struct Attrs {
    pub rust_docs: Option<String>,
    pub rust_generics: Vec<(String, LocationID)>,
    pub serde_attrs: Vec<(String, (String, LocationID))>,
    pub serde_flags: Vec<(String, LocationID)>,
    pub codegen_attrs: Vec<(String, (String, LocationID))>,
    pub codegen_flags: Vec<(String, LocationID)>,
}

/// Mathematical model of an `Attrs` bag.
#[verifier::ext_equal]
pub struct SpecAttrs {
    pub rust_docs: Option<Seq<char>>,
    pub rust_generics: Seq<(Seq<char>, Seq<char>)>,
    pub serde_attrs: Seq<(Seq<char>, (Seq<char>, Seq<char>))>,
    pub serde_flags: Seq<(Seq<char>, Seq<char>)>,
    pub codegen_attrs: Seq<(Seq<char>, (Seq<char>, Seq<char>))>,
    pub codegen_flags: Seq<(Seq<char>, Seq<char>)>,
}

impl DeepView for Attrs {
    type V = SpecAttrs;

    open spec fn deep_view(&self) -> SpecAttrs {
        SpecAttrs {
            rust_docs: self.rust_docs.deep_view(),
            rust_generics: self.rust_generics.deep_view(),
            serde_attrs: self.serde_attrs.deep_view(),
            serde_flags: self.serde_flags.deep_view(),
            codegen_attrs: self.codegen_attrs.deep_view(),
            codegen_flags: self.codegen_flags.deep_view(),
        }
    }
}

impl View for Attrs {
    type V = SpecAttrs;

    open spec fn view(&self) -> SpecAttrs {
        self.deep_view()
    }
}

/// The on-wire encoding strategy of a union type, derived once per enum
/// container from its attribute bag and frozen into the container.
#[derive(Debug, PartialEq)]
pub enum EnumRepresentation {
    /// The default: each value keyed by its variant name.
    External,
    /// No variant key at all.
    Untagged,
    /// A tag field, and optionally a content field, inside the value.
    Tagged {
        tag: String,
        tag_location: LocationID,
        content: Option<String>,
        content_location: Option<LocationID>,
    },
}

/// Mathematical model of an `EnumRepresentation`.
#[verifier::ext_equal]
pub enum SpecEnumRepresentation {
    External,
    Untagged,
    Tagged {
        tag: Seq<char>,
        tag_location: Seq<char>,
        content: Option<Seq<char>>,
        content_location: Option<Seq<char>>,
    },
}

impl DeepView for EnumRepresentation {
    type V = SpecEnumRepresentation;

    open spec fn deep_view(&self) -> SpecEnumRepresentation {
        match self {
            EnumRepresentation::External => SpecEnumRepresentation::External,
            EnumRepresentation::Untagged => SpecEnumRepresentation::Untagged,
            EnumRepresentation::Tagged { tag, tag_location, content, content_location } =>
                SpecEnumRepresentation::Tagged {
                tag: tag.deep_view(),
                tag_location: tag_location.deep_view(),
                content: content.deep_view(),
                content_location: content_location.deep_view(),
            },
        }
    }
}

impl View for EnumRepresentation {
    type V = SpecEnumRepresentation;

    open spec fn view(&self) -> SpecEnumRepresentation {
        self.deep_view()
    }
}

/// A finished named field of a struct-shaped container or variant.
#[derive(Debug, PartialEq)]
pub struct NamedField {
    pub id: String,
    pub id_location: LocationID,
    pub attrs: Attrs,
    pub format: Format,
}

/// Mathematical model of a `NamedField`.
#[verifier::ext_equal]
pub struct SpecNamedField {
    pub id: Seq<char>,
    pub id_location: Seq<char>,
    pub attrs: SpecAttrs,
    pub format: crate::schema::SpecFormat,
}

impl DeepView for NamedField {
    type V = SpecNamedField;

    open spec fn deep_view(&self) -> SpecNamedField {
        SpecNamedField {
            id: self.id.deep_view(),
            id_location: self.id_location.deep_view(),
            attrs: self.attrs.deep_view(),
            format: self.format.deep_view(),
        }
    }
}

impl View for NamedField {
    type V = SpecNamedField;

    open spec fn view(&self) -> SpecNamedField {
        self.deep_view()
    }
}

/// The finished shape of one union case.
#[derive(Debug, PartialEq)]
pub enum VariantFormat {
    Unit,
    NewType(Box<Format>),
    Tuple(Vec<Format>),
    Struct { fields: Vec<NamedField> },
}

/// Mathematical model of a wire `VariantFormat`.
#[verifier::ext_equal]
pub enum SpecVariantFormat {
    Unit,
    NewType(Box<crate::schema::SpecFormat>),
    Tuple(Seq<crate::schema::SpecFormat>),
    Struct { fields: Seq<SpecNamedField> },
}

impl DeepView for VariantFormat {
    type V = SpecVariantFormat;

    open spec fn deep_view(&self) -> SpecVariantFormat {
        match self {
            VariantFormat::Unit => SpecVariantFormat::Unit,
            VariantFormat::NewType(f) => SpecVariantFormat::NewType(Box::new(f.deep_view())),
            VariantFormat::Tuple(v) => SpecVariantFormat::Tuple(v.deep_view()),
            VariantFormat::Struct { fields } => SpecVariantFormat::Struct {
                fields: fields.deep_view(),
            },
        }
    }
}

impl View for VariantFormat {
    type V = SpecVariantFormat;

    open spec fn view(&self) -> SpecVariantFormat {
        self.deep_view()
    }
}

/// A finished union case with its name, location and attributes.
#[derive(Debug, PartialEq)]
pub struct NamedVariant {
    pub id: String,
    pub id_location: LocationID,
    pub attrs: Attrs,
    pub variant_format: VariantFormat,
}

/// Mathematical model of a `NamedVariant`.
#[verifier::ext_equal]
pub struct SpecNamedVariant {
    pub id: Seq<char>,
    pub id_location: Seq<char>,
    pub attrs: SpecAttrs,
    pub variant_format: SpecVariantFormat,
}

impl DeepView for NamedVariant {
    type V = SpecNamedVariant;

    open spec fn deep_view(&self) -> SpecNamedVariant {
        SpecNamedVariant {
            id: self.id.deep_view(),
            id_location: self.id_location.deep_view(),
            attrs: self.attrs.deep_view(),
            variant_format: self.variant_format.deep_view(),
        }
    }
}

impl View for NamedVariant {
    type V = SpecNamedVariant;

    open spec fn view(&self) -> SpecNamedVariant {
        self.deep_view()
    }
}

/// The finished shape of a declared container.
#[derive(Debug, PartialEq)]
pub enum ContainerFormat {
    UnitStruct,
    NewTypeStruct(Box<Format>),
    TupleStruct(Vec<Format>),
    Struct { fields: Vec<NamedField> },
    Enum { repr: EnumRepresentation, variants: Vec<NamedVariant> },
}

/// Mathematical model of a wire `ContainerFormat`.
#[verifier::ext_equal]
pub enum SpecContainerFormat {
    UnitStruct,
    NewTypeStruct(Box<crate::schema::SpecFormat>),
    TupleStruct(Seq<crate::schema::SpecFormat>),
    Struct { fields: Seq<SpecNamedField> },
    Enum { repr: SpecEnumRepresentation, variants: Seq<SpecNamedVariant> },
}

impl DeepView for ContainerFormat {
    type V = SpecContainerFormat;

    open spec fn deep_view(&self) -> SpecContainerFormat {
        match self {
            ContainerFormat::UnitStruct => SpecContainerFormat::UnitStruct,
            ContainerFormat::NewTypeStruct(f) => SpecContainerFormat::NewTypeStruct(
                Box::new(f.deep_view()),
            ),
            ContainerFormat::TupleStruct(v) => SpecContainerFormat::TupleStruct(v.deep_view()),
            ContainerFormat::Struct { fields } => SpecContainerFormat::Struct {
                fields: fields.deep_view(),
            },
            ContainerFormat::Enum { repr, variants } => SpecContainerFormat::Enum {
                repr: repr.deep_view(),
                variants: variants.deep_view(),
            },
        }
    }
}

impl View for ContainerFormat {
    type V = SpecContainerFormat;

    open spec fn view(&self) -> SpecContainerFormat {
        self.deep_view()
    }
}

/// A finished function parameter (or receiver).
#[derive(Debug, PartialEq)]
pub struct FunctionParameter {
    pub id: String,
    pub id_location: LocationID,
    pub attrs: Attrs,
    pub format: Format,
}

/// Mathematical model of a `FunctionParameter`.
#[verifier::ext_equal]
pub struct SpecFunctionParameter {
    pub id: Seq<char>,
    pub id_location: Seq<char>,
    pub attrs: SpecAttrs,
    pub format: crate::schema::SpecFormat,
}

impl DeepView for FunctionParameter {
    type V = SpecFunctionParameter;

    open spec fn deep_view(&self) -> SpecFunctionParameter {
        SpecFunctionParameter {
            id: self.id.deep_view(),
            id_location: self.id_location.deep_view(),
            attrs: self.attrs.deep_view(),
            format: self.format.deep_view(),
        }
    }
}

impl View for FunctionParameter {
    type V = SpecFunctionParameter;

    open spec fn view(&self) -> SpecFunctionParameter {
        self.deep_view()
    }
}

/// The finished shape of a free-standing operation.
#[derive(Debug, PartialEq)]
pub struct FunctionFormat {
    pub is_async: bool,
    pub self_opt: Option<Box<FunctionParameter>>,
    pub params: Vec<FunctionParameter>,
    pub return_type: Box<Format>,
}

/// Mathematical model of a wire `FunctionFormat`.
#[verifier::ext_equal]
pub struct SpecFunctionFormat {
    pub is_async: bool,
    pub self_opt: Option<SpecFunctionParameter>,
    pub params: Seq<SpecFunctionParameter>,
    pub return_type: Box<crate::schema::SpecFormat>,
}

impl DeepView for FunctionFormat {
    type V = SpecFunctionFormat;

    open spec fn deep_view(&self) -> SpecFunctionFormat {
        SpecFunctionFormat {
            is_async: self.is_async,
            self_opt: (match &self.self_opt {
                Some(p) => Some(p.deep_view()),
                None => None,
            }),
            params: self.params.deep_view(),
            return_type: Box::new(self.return_type.deep_view()),
        }
    }
}

impl View for FunctionFormat {
    type V = SpecFunctionFormat;

    open spec fn view(&self) -> SpecFunctionFormat {
        self.deep_view()
    }
}

/// One wire-ready declaration of a container.
#[derive(Debug, PartialEq)]
pub struct InputDeclaration {
    pub id: String,
    pub id_location: LocationID,
    pub attrs: Attrs,
    pub container_kind: ContainerFormat,
}

/// Mathematical model of an `InputDeclaration`.
#[verifier::ext_equal]
pub struct SpecInputDeclaration {
    pub id: Seq<char>,
    pub id_location: Seq<char>,
    pub attrs: SpecAttrs,
    pub container_kind: SpecContainerFormat,
}

impl DeepView for InputDeclaration {
    type V = SpecInputDeclaration;

    open spec fn deep_view(&self) -> SpecInputDeclaration {
        SpecInputDeclaration {
            id: self.id.deep_view(),
            id_location: self.id_location.deep_view(),
            attrs: self.attrs.deep_view(),
            container_kind: self.container_kind.deep_view(),
        }
    }
}

impl View for InputDeclaration {
    type V = SpecInputDeclaration;

    open spec fn view(&self) -> SpecInputDeclaration {
        self.deep_view()
    }
}

/// One wire-ready declaration of a free-standing operation.
#[derive(Debug, PartialEq)]
pub struct FunctionDeclaration {
    pub id: String,
    pub id_location: LocationID,
    pub attrs: Attrs,
    pub function: FunctionFormat,
}

/// Mathematical model of a `FunctionDeclaration`.
#[verifier::ext_equal]
pub struct SpecFunctionDeclaration {
    pub id: Seq<char>,
    pub id_location: Seq<char>,
    pub attrs: SpecAttrs,
    pub function: SpecFunctionFormat,
}

impl DeepView for FunctionDeclaration {
    type V = SpecFunctionDeclaration;

    open spec fn deep_view(&self) -> SpecFunctionDeclaration {
        SpecFunctionDeclaration {
            id: self.id.deep_view(),
            id_location: self.id_location.deep_view(),
            attrs: self.attrs.deep_view(),
            function: self.function.deep_view(),
        }
    }
}

impl View for FunctionDeclaration {
    type V = SpecFunctionDeclaration;

    open spec fn view(&self) -> SpecFunctionDeclaration {
        self.deep_view()
    }
}

/// The single document sent to an external generator.
#[derive(Debug, PartialEq)]
pub struct Input {
    pub declarations: Vec<InputDeclaration>,
    pub functions: Vec<FunctionDeclaration>,
}

/// Mathematical model of an `Input` document.
#[verifier::ext_equal]
pub struct SpecInput {
    pub declarations: Seq<SpecInputDeclaration>,
    pub functions: Seq<SpecFunctionDeclaration>,
}

impl DeepView for Input {
    type V = SpecInput;

    open spec fn deep_view(&self) -> SpecInput {
        SpecInput {
            declarations: self.declarations.deep_view(),
            functions: self.functions.deep_view(),
        }
    }
}

impl View for Input {
    type V = SpecInput;

    open spec fn view(&self) -> SpecInput {
        self.deep_view()
    }
}

/// One file an external generator asks to have written, relative to the
/// caller-supplied output root.
#[derive(Debug, PartialEq)]
pub struct OutputFile {
    pub path: String,
    pub source: String,
}

/// Mathematical model of an `OutputFile`.
#[verifier::ext_equal]
pub struct SpecOutputFile {
    pub path: Seq<char>,
    pub source: Seq<char>,
}

impl DeepView for OutputFile {
    type V = SpecOutputFile;

    open spec fn deep_view(&self) -> SpecOutputFile {
        SpecOutputFile { path: self.path.deep_view(), source: self.source.deep_view() }
    }
}

impl View for OutputFile {
    type V = SpecOutputFile;

    open spec fn view(&self) -> SpecOutputFile {
        self.deep_view()
    }
}

/// One diagnostic from an external generator, with labelled locations.
#[derive(Debug, PartialEq)]
pub struct OutputMessage {
    pub message: String,
    pub labels: Vec<(String, LocationID)>,
}

/// Mathematical model of an `OutputMessage`.
#[verifier::ext_equal]
pub struct SpecOutputMessage {
    pub message: Seq<char>,
    pub labels: Seq<(Seq<char>, Seq<char>)>,
}

impl DeepView for OutputMessage {
    type V = SpecOutputMessage;

    open spec fn deep_view(&self) -> SpecOutputMessage {
        SpecOutputMessage { message: self.message.deep_view(), labels: self.labels.deep_view() }
    }
}

impl View for OutputMessage {
    type V = SpecOutputMessage;

    open spec fn view(&self) -> SpecOutputMessage {
        self.deep_view()
    }
}

/// The single document read back from an external generator.
#[derive(Debug, PartialEq)]
pub struct Output {
    pub errors: Vec<OutputMessage>,
    pub warnings: Vec<OutputMessage>,
    pub files: Vec<OutputFile>,
}

/// Mathematical model of an `Output` document.
#[verifier::ext_equal]
pub struct SpecOutput {
    pub errors: Seq<SpecOutputMessage>,
    pub warnings: Seq<SpecOutputMessage>,
    pub files: Seq<SpecOutputFile>,
}

impl DeepView for Output {
    type V = SpecOutput;

    open spec fn deep_view(&self) -> SpecOutput {
        SpecOutput {
            errors: self.errors.deep_view(),
            warnings: self.warnings.deep_view(),
            files: self.files.deep_view(),
        }
    }
}

impl View for Output {
    type V = SpecOutput;

    open spec fn view(&self) -> SpecOutput {
        self.deep_view()
    }
}

} // verus!
