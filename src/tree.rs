use vstd::prelude::*;

verus! {

/// One segment of a type path, with the type arguments written after it.
pub struct PathSegment {
    pub identifier: String,
    pub types: Vec<Ty>,
}

/// A path naming a type, such as `a::b::C<T>`.
pub struct TyPath {
    /// Whether the path starts with `::`.
    pub global: bool,
    pub segments: Vec<PathSegment>,
}

/// A type as written in the source.
pub enum Ty {
    /// `[T]`
    Vec(Box<Ty>),
    /// `[T, ..N]`, with the text of the length.
    FixedLengthVec(Box<Ty>, String),
    Path(TyPath),
    /// A type without a rule of its own, kept as its source text.
    Verbatim(String),
}

/// Lifetime and type parameters, such as `<'a, T>`.
pub struct Generics {
    pub lifetimes: Vec<String>,
    pub ty_params: Vec<String>,
}

/// A module path in an import, such as `a::b`.
pub struct ModPath {
    pub global: bool,
    pub segments: Vec<String>,
}

/// What an import brings into scope.
pub enum ViewPath {
    /// `a::b::c`, or `a::b::c as d` with the new name.
    Simple(ModPath, Option<String>),
    /// `a::b::*`
    Glob(ModPath),
    /// `a::b::{c, d}`
    List(ModPath, Vec<String>),
}

pub enum ViewItemKind {
    /// `extern crate name;`
    ExternCrate(String),
    /// `use path;`
    Use(ViewPath),
}

/// An import or crate reference, with its attributes and visibility.
pub struct ViewItem {
    /// The source text of each attribute.
    pub attrs: Vec<String>,
    pub public: bool,
    pub node: ViewItemKind,
}

pub enum ItemKind {
    /// `type Name<..> = ty;`
    Ty(Ty, Generics),
    /// An item without a rule of its own, kept as its source text.
    Verbatim(String),
}

/// A named item, with its attributes and visibility.
pub struct Item {
    pub attrs: Vec<String>,
    pub public: bool,
    pub ident: String,
    pub node: ItemKind,
}

/// A whole compilation unit: its imports, then its items.
pub struct Crate {
    pub view_items: Vec<ViewItem>,
    pub items: Vec<Item>,
}

} // verus!
