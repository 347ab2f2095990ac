//! The declarations that can carry directives, as the builders read them:
//! functions, records, method blocks and enumerations, with the types,
//! generics and expressions inside them.
//!
//! Each piece of syntax carries its span. A type also carries its spelling,
//! the text by which a parameter's type is matched against a generic
//! parameter and by which the type is written into a descriptor.

use crate::span::Span;
use crate::token::{Lit, Token};
use vstd::prelude::*;

verus! {

/// An identifier and where it stands.
#[derive(Debug, PartialEq, Eq)]
pub struct Ident {
    pub text: String,
    pub span: Span,
}

/// How far a declaration can be seen.
#[derive(Clone, Copy, Debug, PartialEq, Eq, Structural)]
pub enum Visibility {
    /// `pub`
    Public,
    /// `crate`
    Crate,
    /// `pub(crate)`, `pub(super)`, `pub(in path)`
    Restricted,
    /// Nothing written.
    Inherited,
}

/// An attribute: `#[path tokens]`.
#[derive(Debug, PartialEq, Eq)]
pub struct Attribute {
    /// The segments of the attribute's path.
    pub path: Vec<Ident>,
    /// What follows the path.
    pub tokens: Vec<Token>,
    pub span: Span,
}

/// The tokens of a directive list that is attached to a member of a
/// declaration, between its parentheses.
#[derive(Debug, PartialEq, Eq)]
pub struct DirectiveList {
    pub tokens: Vec<Token>,
    pub span: Span,
}

/// A type.
#[derive(Debug, PartialEq, Eq)]
pub struct Type {
    /// How the type is spelled.
    pub text: String,
    pub span: Span,
    pub kind: TypeKind,
}

/// The shapes of type that the builders tell apart.
#[derive(Debug, PartialEq, Eq)]
pub enum TypeKind {
    /// A type inside an invisible group.
    Group(Box<Type>),
    /// A path; `qself` when it is qualified with a self type, as
    /// `<T as Trait>::Item` is.
    Path { qself: bool, path: Path },
    /// Any other type.
    Other,
}

/// A path: segments separated by `::`.
#[derive(Debug, PartialEq, Eq)]
pub struct Path {
    pub segments: Vec<PathSegment>,
    pub span: Span,
}

/// One segment of a path.
#[derive(Debug, PartialEq, Eq)]
pub struct PathSegment {
    pub ident: Ident,
    pub arguments: PathArguments,
    pub span: Span,
}

/// What follows the name in a path segment.
#[derive(Debug, PartialEq, Eq)]
pub enum PathArguments {
    /// Nothing.
    Absent,
    /// `<A, B>`
    AngleBracketed { args: Vec<GenericArgument>, span: Span },
    /// `(A, B) -> C`
    Parenthesized { inputs: Vec<Type>, output: ReturnType, span: Span },
}

/// A return clause.
#[derive(Debug, PartialEq, Eq)]
pub enum ReturnType {
    /// Nothing written.
    Default,
    /// `-> T`
    Type(Box<Type>),
}

/// One argument between angle brackets.
#[derive(Debug, PartialEq, Eq)]
pub enum GenericArgument {
    /// A type.
    Type(Type),
    /// A lifetime, a constant, a binding or a constraint.
    Other { span: Span },
}

/// A bound on a type parameter.
#[derive(Debug, PartialEq, Eq)]
pub enum TypeParamBound {
    /// A trait, by its path.
    Trait { path: Path, span: Span },
    /// A lifetime, by its name without the quote.
    Lifetime { ident: Ident, span: Span },
}

/// A generic parameter.
#[derive(Debug, PartialEq, Eq)]
pub enum GenericParam {
    /// `T: Bounds`
    Type { ident: Ident, bounds: Vec<TypeParamBound>, span: Span },
    /// A lifetime or a constant.
    Other { span: Span },
}

/// A predicate of a `where` clause.
#[derive(Debug, PartialEq, Eq)]
pub enum WherePredicate {
    /// `Type: Bounds`
    Type { bounded_ty: Type, bounds: Vec<TypeParamBound>, span: Span },
    /// A lifetime or an equality predicate.
    Other { span: Span },
}

/// The generic parameters of a signature and its `where` clause.
#[derive(Debug, PartialEq, Eq)]
pub struct Generics {
    pub params: Vec<GenericParam>,
    pub where_clause: Option<Vec<WherePredicate>>,
}

/// A parameter of a function.
#[derive(Debug, PartialEq, Eq)]
pub enum FnArg {
    /// `self`, `&self`, `&mut self`
    Receiver { reference: bool, mutability: bool, span: Span },
    /// `pat: ty`; the pattern by its spelling.
    Typed { pat: String, ty: Type, span: Span },
}

/// The signature of a function.
#[derive(Debug, PartialEq, Eq)]
pub struct Signature {
    pub ident: Ident,
    pub asyncness: bool,
    pub inputs: Vec<FnArg>,
    pub output: ReturnType,
    pub generics: Generics,
}

/// An expression, as far as a discriminant is read.
#[derive(Debug, PartialEq, Eq)]
pub struct Expr {
    pub span: Span,
    pub kind: ExprKind,
}

/// The shapes of expression that the builders tell apart.
#[derive(Debug, PartialEq, Eq)]
pub enum ExprKind {
    /// An expression inside an invisible group.
    Group(Box<Expr>),
    /// `-expr`
    Neg(Box<Expr>),
    /// A literal, by what it is read as.
    Lit { lit: Lit, span: Span },
    /// Any other expression.
    Other,
}

/// A free function.
#[derive(Debug, PartialEq, Eq)]
pub struct ItemFn {
    pub attrs: Vec<Attribute>,
    pub vis: Visibility,
    pub sig: Signature,
    pub span: Span,
}

/// A field of a record.
#[derive(Debug, PartialEq, Eq)]
pub struct Field {
    /// The directive list on the field, if it has one.
    pub directives: Option<DirectiveList>,
    pub vis: Visibility,
    /// The field's name; `None` for a positional field.
    pub ident: Option<Ident>,
    pub ty: Type,
}

/// A record.
#[derive(Debug, PartialEq, Eq)]
pub struct ItemStruct {
    pub attrs: Vec<Attribute>,
    pub vis: Visibility,
    pub ident: Ident,
    pub fields: Vec<Field>,
    pub span: Span,
}

/// A method of a method block.
#[derive(Debug, PartialEq, Eq)]
pub struct ImplItemMethod {
    /// The directive list on the method, if it has one.
    pub directives: Option<DirectiveList>,
    pub attrs: Vec<Attribute>,
    pub vis: Visibility,
    pub sig: Signature,
    pub span: Span,
}

/// A member of a method block.
#[derive(Debug, PartialEq, Eq)]
pub enum ImplItem {
    Method(ImplItemMethod),
    /// A constant, a type or a macro call.
    Other { span: Span },
}

/// A method block.
#[derive(Debug, PartialEq, Eq)]
pub struct ItemImpl {
    pub attrs: Vec<Attribute>,
    /// The type that the methods are for.
    pub self_ty: Type,
    pub items: Vec<ImplItem>,
    pub span: Span,
}

/// The fields of an enumeration variant.
#[derive(Clone, Copy, Debug, PartialEq, Eq, Structural)]
pub enum Fields {
    /// None: `Variant`.
    Unit,
    /// `Variant(..)` or `Variant { .. }`.
    Structured { span: Span },
}

/// A variant of an enumeration.
#[derive(Debug, PartialEq, Eq)]
pub struct Variant {
    pub attrs: Vec<Attribute>,
    pub ident: Ident,
    pub fields: Fields,
    /// The expression after `=`, if one is written.
    pub discriminant: Option<Expr>,
}

/// An enumeration.
#[derive(Debug, PartialEq, Eq)]
pub struct ItemEnum {
    pub attrs: Vec<Attribute>,
    pub vis: Visibility,
    pub ident: Ident,
    pub variants: Vec<Variant>,
    pub span: Span,
}

/// A declaration.
#[derive(Debug, PartialEq, Eq)]
pub enum Item {
    Fn(ItemFn),
    Struct(ItemStruct),
    Impl(ItemImpl),
    Enum(ItemEnum),
    /// Any other declaration.
    Other { span: Span },
}

} // verus!
