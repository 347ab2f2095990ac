//! The descriptors that the builders produce: what a runtime gets to see of
//! a function, a record, a method block or an enumeration.
//!
//! Every descriptor has a view, its mathematical value, in which text is a
//! sequence of characters. The builders' contracts are stated over views.

use crate::syntax::Visibility;
use vstd::prelude::*;

verus! {

/// The views of the strings of `v`.
pub open spec fn texts(v: Seq<String>) -> Seq<Seq<char>> {
    Seq::new(v.len(), |i: int| v[i]@)
}

/// The view of an optional string.
pub open spec fn opt_text(o: Option<String>) -> Option<Seq<char>> {
    match o {
        Some(s) => Some(s@),
        None => None,
    }
}

/// The role of a callable.
#[derive(Clone, Copy, Debug, PartialEq, Eq, Structural)]
pub enum FnKind {
    Normal,
    Constructor,
    Getter,
    Setter,
}

/// How a method takes its receiver.
#[derive(Clone, Copy, Debug, PartialEq, Eq, Structural)]
pub enum FnSelf {
    /// `&self`
    Ref,
    /// `&mut self`
    MutRef,
}

/// A plain argument: a pattern and its type, both as they are spelled.
#[derive(Debug, PartialEq, Eq)]
pub struct PatType {
    pub pat: String,
    pub ty: String,
}

/// The view of a [`PatType`].
pub struct PatTypeView {
    pub pat: Seq<char>,
    pub ty: Seq<char>,
}

impl View for PatType {
    type V = PatTypeView;

    open spec fn view(&self) -> PatTypeView {
        PatTypeView { pat: self.pat@, ty: self.ty@ }
    }
}

/// A callback argument: its pattern, and the types that the callback takes
/// and returns, as they are spelled in the bound of its generic parameter.
#[derive(Debug, PartialEq, Eq)]
pub struct CallbackArg {
    pub pat: String,
    pub args: Vec<String>,
    pub ret: Option<String>,
}

/// The view of a [`CallbackArg`].
pub struct CallbackArgView {
    pub pat: Seq<char>,
    pub args: Seq<Seq<char>>,
    pub ret: Option<Seq<char>>,
}

impl View for CallbackArg {
    type V = CallbackArgView;

    open spec fn view(&self) -> CallbackArgView {
        CallbackArgView { pat: self.pat@, args: texts(self.args@), ret: opt_text(self.ret) }
    }
}

/// An argument of a callable.
#[derive(Debug, PartialEq, Eq)]
pub enum NapiFnArgKind {
    PatType(PatType),
    Callback(CallbackArg),
}

/// The view of a [`NapiFnArgKind`].
pub enum NapiFnArgKindView {
    PatType(PatTypeView),
    Callback(CallbackArgView),
}

impl View for NapiFnArgKind {
    type V = NapiFnArgKindView;

    open spec fn view(&self) -> NapiFnArgKindView {
        match *self {
            NapiFnArgKind::PatType(p) => NapiFnArgKindView::PatType(p@),
            NapiFnArgKind::Callback(c) => NapiFnArgKindView::Callback(c@),
        }
    }
}

/// The views of the arguments `v`.
pub open spec fn arg_views(v: Seq<NapiFnArgKind>) -> Seq<NapiFnArgKindView> {
    Seq::new(v.len(), |i: int| v[i]@)
}

/// A callable: an exposed function or method.
#[derive(Debug, PartialEq, Eq)]
pub struct NapiFn {
    /// The name in the source.
    pub name: String,
    /// The name that the runtime sees.
    pub js_name: String,
    pub args: Vec<NapiFnArgKind>,
    /// The return type as it is spelled, if one is written.
    pub ret: Option<String>,
    pub is_async: bool,
    pub vis: Visibility,
    pub kind: FnKind,
    /// How the receiver is taken; only a method has one.
    pub fn_self: Option<FnSelf>,
    /// The record that a method belongs to.
    pub parent: Option<String>,
    pub strict: bool,
}

/// The view of a [`NapiFn`].
pub struct NapiFnView {
    pub name: Seq<char>,
    pub js_name: Seq<char>,
    pub args: Seq<NapiFnArgKindView>,
    pub ret: Option<Seq<char>>,
    pub is_async: bool,
    pub vis: Visibility,
    pub kind: FnKind,
    pub fn_self: Option<FnSelf>,
    pub parent: Option<Seq<char>>,
    pub strict: bool,
}

impl View for NapiFn {
    type V = NapiFnView;

    open spec fn view(&self) -> NapiFnView {
        NapiFnView {
            name: self.name@,
            js_name: self.js_name@,
            args: arg_views(self.args@),
            ret: opt_text(self.ret),
            is_async: self.is_async,
            vis: self.vis,
            kind: self.kind,
            fn_self: self.fn_self,
            parent: opt_text(self.parent),
            strict: self.strict,
        }
    }
}

/// The views of the callables `v`.
pub open spec fn fn_views(v: Seq<NapiFn>) -> Seq<NapiFnView> {
    Seq::new(v.len(), |i: int| v[i]@)
}

/// How a field of a record is named.
#[derive(Debug, PartialEq, Eq)]
pub enum Member {
    Named(String),
    /// A positional field, by its index among all the fields.
    Unnamed(usize),
}

/// The view of a [`Member`].
pub enum MemberView {
    Named(Seq<char>),
    Unnamed(nat),
}

impl View for Member {
    type V = MemberView;

    open spec fn view(&self) -> MemberView {
        match *self {
            Member::Named(s) => MemberView::Named(s@),
            Member::Unnamed(i) => MemberView::Unnamed(i as nat),
        }
    }
}

/// A field of a record.
#[derive(Debug, PartialEq, Eq)]
pub struct NapiStructField {
    pub name: Member,
    pub js_name: String,
    /// The field's type as it is spelled.
    pub ty: String,
    pub getter: bool,
    pub setter: bool,
}

/// The view of a [`NapiStructField`].
pub struct NapiStructFieldView {
    pub name: MemberView,
    pub js_name: Seq<char>,
    pub ty: Seq<char>,
    pub getter: bool,
    pub setter: bool,
}

impl View for NapiStructField {
    type V = NapiStructFieldView;

    open spec fn view(&self) -> NapiStructFieldView {
        NapiStructFieldView {
            name: self.name@,
            js_name: self.js_name@,
            ty: self.ty@,
            getter: self.getter,
            setter: self.setter,
        }
    }
}

/// The views of the fields `v`.
pub open spec fn field_views(v: Seq<NapiStructField>) -> Seq<NapiStructFieldView> {
    Seq::new(v.len(), |i: int| v[i]@)
}

/// A record.
#[derive(Debug, PartialEq, Eq)]
pub struct NapiStruct {
    pub name: String,
    pub js_name: String,
    pub vis: Visibility,
    pub fields: Vec<NapiStructField>,
    pub is_tuple: bool,
    pub gen_default_ctor: bool,
}

/// The view of a [`NapiStruct`].
pub struct NapiStructView {
    pub name: Seq<char>,
    pub js_name: Seq<char>,
    pub vis: Visibility,
    pub fields: Seq<NapiStructFieldView>,
    pub is_tuple: bool,
    pub gen_default_ctor: bool,
}

impl View for NapiStruct {
    type V = NapiStructView;

    open spec fn view(&self) -> NapiStructView {
        NapiStructView {
            name: self.name@,
            js_name: self.js_name@,
            vis: self.vis,
            fields: field_views(self.fields@),
            is_tuple: self.is_tuple,
            gen_default_ctor: self.gen_default_ctor,
        }
    }
}

/// A method block.
#[derive(Debug, PartialEq, Eq)]
pub struct NapiImpl {
    /// The record that the methods belong to.
    pub name: String,
    /// The name under which the runtime sees that record.
    pub js_name: String,
    pub items: Vec<NapiFn>,
}

/// The view of a [`NapiImpl`].
pub struct NapiImplView {
    pub name: Seq<char>,
    pub js_name: Seq<char>,
    pub items: Seq<NapiFnView>,
}

impl View for NapiImpl {
    type V = NapiImplView;

    open spec fn view(&self) -> NapiImplView {
        NapiImplView { name: self.name@, js_name: self.js_name@, items: fn_views(self.items@) }
    }
}

/// A variant of an enumeration.
#[derive(Debug, PartialEq, Eq)]
pub struct NapiEnumVariant {
    pub name: String,
    pub val: i32,
    pub comments: Vec<String>,
}

/// The view of a [`NapiEnumVariant`].
pub struct NapiEnumVariantView {
    pub name: Seq<char>,
    pub val: int,
    pub comments: Seq<Seq<char>>,
}

impl View for NapiEnumVariant {
    type V = NapiEnumVariantView;

    open spec fn view(&self) -> NapiEnumVariantView {
        NapiEnumVariantView {
            name: self.name@,
            val: self.val as int,
            comments: texts(self.comments@),
        }
    }
}

/// The views of the variants `v`.
pub open spec fn variant_views(v: Seq<NapiEnumVariant>) -> Seq<NapiEnumVariantView> {
    Seq::new(v.len(), |i: int| v[i]@)
}

/// An enumeration.
#[derive(Debug, PartialEq, Eq)]
pub struct NapiEnum {
    pub name: String,
    pub js_name: String,
    pub variants: Vec<NapiEnumVariant>,
}

/// The view of a [`NapiEnum`].
pub struct NapiEnumView {
    pub name: Seq<char>,
    pub js_name: Seq<char>,
    pub variants: Seq<NapiEnumVariantView>,
}

impl View for NapiEnum {
    type V = NapiEnumView;

    open spec fn view(&self) -> NapiEnumView {
        NapiEnumView {
            name: self.name@,
            js_name: self.js_name@,
            variants: variant_views(self.variants@),
        }
    }
}

/// The four kinds of descriptor.
#[derive(Debug, PartialEq, Eq)]
pub enum NapiItem {
    Fn(NapiFn),
    Struct(NapiStruct),
    Impl(NapiImpl),
    Enum(NapiEnum),
}

/// The view of a [`NapiItem`].
pub enum NapiItemView {
    Fn(NapiFnView),
    Struct(NapiStructView),
    Impl(NapiImplView),
    Enum(NapiEnumView),
}

impl View for NapiItem {
    type V = NapiItemView;

    open spec fn view(&self) -> NapiItemView {
        match *self {
            NapiItem::Fn(f) => NapiItemView::Fn(f@),
            NapiItem::Struct(s) => NapiItemView::Struct(s@),
            NapiItem::Impl(i) => NapiItemView::Impl(i@),
            NapiItem::Enum(e) => NapiItemView::Enum(e@),
        }
    }
}

impl NapiItemView {
    /// Whether every external name in the descriptor is a name: none is
    /// empty.
    pub open spec fn well_named(self) -> bool {
        match self {
            NapiItemView::Fn(f) => f.js_name.len() > 0,
            NapiItemView::Struct(s) => s.js_name.len() > 0 && forall|i: int|
                0 <= i < s.fields.len() ==> (#[trigger] s.fields[i]).js_name.len() > 0,
            NapiItemView::Impl(b) => b.js_name.len() > 0 && forall|i: int|
                0 <= i < b.items.len() ==> (#[trigger] b.items[i]).js_name.len() > 0,
            NapiItemView::Enum(e) => e.js_name.len() > 0,
        }
    }
}

/// A descriptor with the documentation lines of its declaration.
#[derive(Debug, PartialEq, Eq)]
pub struct Napi {
    pub comments: Vec<String>,
    pub item: NapiItem,
}

/// The view of a [`Napi`].
pub struct NapiView {
    pub comments: Seq<Seq<char>>,
    pub item: NapiItemView,
}

impl View for Napi {
    type V = NapiView;

    open spec fn view(&self) -> NapiView {
        NapiView { comments: texts(self.comments@), item: self.item@ }
    }
}

} // verus!
