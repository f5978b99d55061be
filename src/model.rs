use vstd::prelude::*;

verus! {

/// A type expression as it occurs in a signature.
pub enum Type {
    ResolvedPath(PathRef),
    Primitive(String),
    Tuple(Vec<Type>),
    Slice(Box<Type>),
    Array { type_: Box<Type>, len: String },
    BorrowedRef { lifetime: Option<String>, is_mutable: bool, type_: Box<Type> },
    RawPointer { is_mutable: bool, type_: Box<Type> },
    Generic(String),
    ImplTrait(Vec<GenericBound>),
    DynTrait { lifetime: Option<String>, traits: Vec<PathRef> },
    /// Any other shape (function pointers, qualified paths, inferred types, patterns).
    Other,
}

/// A path to a type or trait, with its optional generic arguments.
pub struct PathRef {
    pub path: String,
    pub args: Option<Box<GenericArgs>>,
}

pub enum GenericArgs {
    AngleBracketed { args: Vec<GenericArg>, constraints: Vec<AssocItemConstraint> },
    Parenthesized { inputs: Vec<Type>, output: Option<Box<Type>> },
    ReturnTypeNotation,
}

pub enum GenericArg {
    Lifetime(String),
    Type(Type),
    /// A const argument, given by its expression text.
    Const(String),
    Infer,
}

pub struct AssocItemConstraint {
    pub name: String,
    pub binding: AssocItemConstraintKind,
}

pub enum AssocItemConstraintKind {
    Equality(Term),
    Constraint(Vec<GenericBound>),
}

pub enum Term {
    Type(Type),
    /// A constant, given by its expression text.
    Constant(String),
}

pub enum TraitBoundModifier {
    Plain,
    Maybe,
    MaybeConst,
}

pub enum GenericBound {
    TraitBound { trait_: PathRef, generic_params: Vec<GenericParamDef>, modifier: TraitBoundModifier },
    Outlives(String),
    /// A precise-capturing `use<..>` bound, with the names it captures.
    Use(Vec<String>),
}

pub struct GenericParamDef {
    pub name: String,
    pub kind: GenericParamDefKind,
}

#[allow(inconsistent_fields)]
pub enum GenericParamDefKind {
    Lifetime { outlives: Vec<String> },
    Type { bounds: Vec<GenericBound>, default: Option<Type>, is_synthetic: bool },
    Const { type_: Type, default: Option<String> },
}

/// The generic parameters of an item, in order of declaration.
pub struct Generics {
    pub params: Vec<GenericParamDef>,
}

/// The shape of a record type's body.
pub enum StructKind {
    Unit,
    /// Positional fields; a stripped field has no identifier.
    Tuple(Vec<Option<u32>>),
    Plain { fields: Vec<u32>, has_stripped_fields: bool },
}

/// The shape of a variant of a sum type.
pub enum VariantKind {
    Plain,
    Tuple(Vec<Option<u32>>),
    Struct { fields: Vec<u32>, has_stripped_fields: bool },
}

pub struct FunctionHeader {
    pub is_const: bool,
    pub is_unsafe: bool,
    pub is_async: bool,
}

/// The kind payload of an item.
pub enum ItemEnum {
    Module { items: Vec<u32> },
    ExternCrate,
    /// A re-export: the path it names and the name it is known by.
    Use { source: String, name: String },
    Union { generics: Generics },
    Struct { generics: Generics, kind: StructKind, impls: Vec<u32> },
    StructField(Type),
    Enum { generics: Generics, variants: Vec<u32>, impls: Vec<u32> },
    Variant(VariantKind),
    Function {
        generics: Generics,
        header: FunctionHeader,
        inputs: Vec<(String, Type)>,
        output: Option<Type>,
    },
    Trait { generics: Generics },
    TraitAlias,
    Impl { generics: Generics, trait_: Option<PathRef>, for_: Type, items: Vec<u32> },
    TypeAlias { generics: Generics, type_: Type },
    Constant { type_: Type },
    Static { type_: Type },
    ExternType,
    Macro,
    ProcMacro,
    Primitive,
    AssocConst,
    AssocType,
}

/// One documented entity of a documentation graph.
pub struct Item {
    pub id: u32,
    pub name: Option<String>,
    pub docs: Option<String>,
    pub inner: ItemEnum,
}

} // verus!
