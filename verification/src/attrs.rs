//! Directives: the options that a declaration carries, and the set that
//! remembers which of them were looked at, so that the ones that nothing
//! looked at can be reported.

use crate::ast::texts;
use crate::diagnostic::{BindgenResult, Diagnostic, ErrorKind, SpannedError};
use crate::span::Span;
use crate::syntax::Ident;
use crate::text::str_eq;
use vstd::prelude::*;

verus! {

/// What follows the name of a directive.
#[derive(Clone, Copy, Debug, PartialEq, Eq, Structural)]
pub enum Shape {
    /// Nothing.
    Flag,
    /// `=` and a bare identifier.
    Ident,
    /// `=` and a bare identifier, or nothing.
    OptionalIdent,
    /// `=` and a path: identifiers separated by `::`, with or without `::`
    /// in front. Nothing else is part of such a path: it ends before the
    /// generic arguments of a segment, so that `a::b<T>` and `a::<T>::b` are
    /// no values of this shape.
    Path,
    /// `=` and an expression: every token up to the next comma of the list,
    /// at least one. A comma inside brackets is part of the expression; an
    /// expression with a comma outside brackets, as a closure of two
    /// parameters or a turbofish of two types has one, ends at that comma.
    /// The tokens are taken as they stand: they are not held against the
    /// grammar of expressions.
    Expr,
    /// `=` and a string literal, or a bare identifier that is taken for its
    /// text.
    Str,
    /// `=` and an array of string literals, or a bare identifier that is
    /// taken for a list of one.
    StrList,
}

/// An entry of the table of directives.
#[derive(Debug, PartialEq, Eq)]
pub struct AttrSpec {
    pub name: String,
    pub shape: Shape,
}

impl View for AttrSpec {
    type V = (Seq<char>, Shape);

    open spec fn view(&self) -> (Seq<char>, Shape) {
        (self.name@, self.shape)
    }
}

/// The views of the entries of a table.
pub open spec fn table_view(table: Seq<AttrSpec>) -> Seq<(Seq<char>, Shape)> {
    Seq::new(table.len(), |i: int| table[i]@)
}

/// What a directive holds besides its name.
#[derive(Debug, PartialEq, Eq)]
pub enum AttrValue {
    Flag,
    Ident(Ident),
    OptionalIdent(Option<Ident>),
    /// The segments of a path; `leading` when `::` stands in front.
    Path { leading: bool, segments: Vec<Ident> },
    /// An expression, as it is written.
    Expr { text: String, span: Span },
    Str { value: String, span: Span },
    StrList { values: Vec<String>, spans: Vec<Span> },
}

/// The view of an [`AttrValue`].
pub enum AttrValueView {
    Flag,
    Ident(Seq<char>, Span),
    OptionalIdent(Option<(Seq<char>, Span)>),
    Path(bool, Seq<(Seq<char>, Span)>),
    Expr(Seq<char>, Span),
    Str(Seq<char>, Span),
    StrList(Seq<Seq<char>>, Seq<Span>),
}

impl AttrValueView {
    /// The shape that the value is of.
    pub open spec fn shape(self) -> Shape {
        match self {
            AttrValueView::Flag => Shape::Flag,
            AttrValueView::Ident(..) => Shape::Ident,
            AttrValueView::OptionalIdent(..) => Shape::OptionalIdent,
            AttrValueView::Path(..) => Shape::Path,
            AttrValueView::Expr(..) => Shape::Expr,
            AttrValueView::Str(..) => Shape::Str,
            AttrValueView::StrList(..) => Shape::StrList,
        }
    }
}

impl View for Ident {
    type V = (Seq<char>, Span);

    open spec fn view(&self) -> (Seq<char>, Span) {
        (self.text@, self.span)
    }
}

/// The views of the identifiers `v`.
pub open spec fn ident_views(v: Seq<Ident>) -> Seq<(Seq<char>, Span)> {
    Seq::new(v.len(), |i: int| v[i]@)
}

impl View for AttrValue {
    type V = AttrValueView;

    open spec fn view(&self) -> AttrValueView {
        match *self {
            AttrValue::Flag => AttrValueView::Flag,
            AttrValue::Ident(i) => AttrValueView::Ident(i.text@, i.span),
            AttrValue::OptionalIdent(o) => AttrValueView::OptionalIdent(
                match o {
                    Some(i) => Some(i@),
                    None => None,
                },
            ),
            AttrValue::Path { leading, segments } => AttrValueView::Path(
                leading,
                ident_views(segments@),
            ),
            AttrValue::Expr { text, span } => AttrValueView::Expr(text@, span),
            AttrValue::Str { value, span } => AttrValueView::Str(value@, span),
            AttrValue::StrList { values, spans } => AttrValueView::StrList(
                texts(values@),
                spans@,
            ),
        }
    }
}

/// One directive: its name in the table, the span of the name as it was
/// written, and its value.
#[derive(Debug, PartialEq, Eq)]
pub struct BindgenAttr {
    pub name: String,
    pub span: Span,
    pub value: AttrValue,
}

/// The view of a [`BindgenAttr`].
pub struct BindgenAttrView {
    pub name: Seq<char>,
    pub span: Span,
    pub value: AttrValueView,
}

impl View for BindgenAttr {
    type V = BindgenAttrView;

    open spec fn view(&self) -> BindgenAttrView {
        BindgenAttrView { name: self.name@, span: self.span, value: self.value@ }
    }
}

/// The directives of one declaration, in the order in which they were
/// written, each with a marker that says whether it was looked at.
#[derive(Debug, PartialEq, Eq)]
pub struct BindgenAttrs {
    /// Whether the declaration has a directive list at all.
    pub exists: bool,
    pub attrs: Vec<(bool, BindgenAttr)>,
}

/// The view of a [`BindgenAttrs`]: the directives, and beside them the
/// markers.
pub struct BindgenAttrsView {
    pub exists: bool,
    pub attrs: Seq<BindgenAttrView>,
    pub used: Seq<bool>,
}

impl View for BindgenAttrs {
    type V = BindgenAttrsView;

    open spec fn view(&self) -> BindgenAttrsView {
        BindgenAttrsView {
            exists: self.exists,
            attrs: Seq::new(self.attrs@.len(), |i: int| self.attrs@[i].1@),
            used: Seq::new(self.attrs@.len(), |i: int| self.attrs@[i].0),
        }
    }
}

/// The table of the directives that the builders know.
pub open spec fn default_table_view() -> Seq<(Seq<char>, Shape)> {
    seq![
        ("js_name"@, Shape::Str),
        ("constructor"@, Shape::Flag),
        ("getter"@, Shape::OptionalIdent),
        ("setter"@, Shape::OptionalIdent),
        ("readonly"@, Shape::Flag),
        ("skip"@, Shape::Flag),
        ("strict"@, Shape::Flag),
    ]
}

/// The table of the directives that the builders know.
pub fn default_table() -> (r: Vec<AttrSpec>)
    ensures
        table_view(r@) == default_table_view(),
{
    let mut table: Vec<AttrSpec> = Vec::new();
    table.push(AttrSpec { name: "js_name".to_owned(), shape: Shape::Str });
    table.push(AttrSpec { name: "constructor".to_owned(), shape: Shape::Flag });
    table.push(AttrSpec { name: "getter".to_owned(), shape: Shape::OptionalIdent });
    table.push(AttrSpec { name: "setter".to_owned(), shape: Shape::OptionalIdent });
    table.push(AttrSpec { name: "readonly".to_owned(), shape: Shape::Flag });
    table.push(AttrSpec { name: "skip".to_owned(), shape: Shape::Flag });
    table.push(AttrSpec { name: "strict".to_owned(), shape: Shape::Flag });
    assert(table_view(table@) =~= default_table_view());
    table
}

/// Whether `a` is a directive of the name `name` and the shape `shape`.
pub open spec fn is_attr(a: BindgenAttrView, name: Seq<char>, shape: Shape) -> bool {
    a.name == name && a.value.shape() == shape
}

/// The last directive of the name `name` and the shape `shape` among
/// `attrs`: where a directive is given twice, the later one counts.
pub open spec fn find_last(attrs: Seq<BindgenAttrView>, name: Seq<char>, shape: Shape) -> Option<
    int,
>
    decreases attrs.len(),
{
    if attrs.len() == 0 {
        None
    } else if is_attr(attrs.last(), name, shape) {
        Some(attrs.len() - 1)
    } else {
        find_last(attrs.drop_last(), name, shape)
    }
}

/// The strings of all the list directives `name` among `attrs`, in order.
pub open spec fn folded_lists(attrs: Seq<BindgenAttrView>, name: Seq<char>) -> Seq<Seq<char>>
    decreases attrs.len(),
{
    if attrs.len() == 0 {
        Seq::empty()
    } else {
        folded_lists(attrs.drop_last(), name) + (match attrs.last().value {
            AttrValueView::StrList(values, _) => if attrs.last().name == name {
                values
            } else {
                Seq::empty()
            },
            _ => Seq::empty(),
        })
    }
}

/// The errors for the directives of `attrs` that `used` does not mark.
pub open spec fn unused_errors(attrs: Seq<BindgenAttrView>, used: Seq<bool>) -> Seq<SpannedError>
    decreases attrs.len(),
{
    if attrs.len() == 0 || used.len() != attrs.len() {
        Seq::empty()
    } else {
        let rest = unused_errors(attrs.drop_last(), used.drop_last());
        if used.last() {
            rest
        } else {
            rest.push(SpannedError { span: attrs.last().span, kind: ErrorKind::UnusedAttribute })
        }
    }
}

impl BindgenAttrsView {
    /// The value of the directive `name`, if the set holds one of the shape
    /// `shape`.
    pub open spec fn get(self, name: Seq<char>, shape: Shape) -> Option<AttrValueView> {
        match find_last(self.attrs, name, shape) {
            Some(i) => Some(self.attrs[i].value),
            None => None,
        }
    }

    /// The set after the directive `name` was looked up: every directive of
    /// that name and shape is marked, and nothing else has changed.
    pub open spec fn touch(self, name: Seq<char>, shape: Shape) -> BindgenAttrsView {
        BindgenAttrsView {
            exists: self.exists,
            attrs: self.attrs,
            used: Seq::new(
                self.attrs.len(),
                |i: int| self.used[i] || is_attr(self.attrs[i], name, shape),
            ),
        }
    }

    /// The span of the flag `name`, if the set holds it.
    pub open spec fn flag(self, name: Seq<char>) -> Option<Span> {
        match find_last(self.attrs, name, Shape::Flag) {
            Some(i) => Some(self.attrs[i].span),
            None => None,
        }
    }

    /// The identifier of the directive `name`, which may come without one,
    /// if the set holds the directive.
    pub open spec fn optional_ident(self, name: Seq<char>) -> Option<Option<(Seq<char>, Span)>> {
        match self.get(name, Shape::OptionalIdent) {
            Some(AttrValueView::OptionalIdent(o)) => Some(o),
            _ => None,
        }
    }

    /// The text of the directive `name`, with the span of the text, if the
    /// set holds the directive.
    pub open spec fn string(self, name: Seq<char>) -> Option<(Seq<char>, Span)> {
        match self.get(name, Shape::Str) {
            Some(AttrValueView::Str(value, span)) => Some((value, span)),
            _ => None,
        }
    }

    /// The override of the external name.
    pub open spec fn js_name(self) -> Option<(Seq<char>, Span)> {
        self.string("js_name"@)
    }

    /// The directive that makes a constructor.
    pub open spec fn constructor(self) -> Option<Span> {
        self.flag("constructor"@)
    }

    /// The directive that makes a getter, with the property's name where
    /// one is given.
    pub open spec fn getter(self) -> Option<Option<(Seq<char>, Span)>> {
        self.optional_ident("getter"@)
    }

    /// The directive that makes a setter, with the property's name where
    /// one is given.
    pub open spec fn setter(self) -> Option<Option<(Seq<char>, Span)>> {
        self.optional_ident("setter"@)
    }

    /// The directive that keeps a field from being written.
    pub open spec fn readonly(self) -> Option<Span> {
        self.flag("readonly"@)
    }

    /// The directive that hides a field.
    pub open spec fn skip(self) -> Option<Span> {
        self.flag("skip"@)
    }

    /// The directive that makes a callable check its arguments strictly.
    pub open spec fn strict(self) -> Option<Span> {
        self.flag("strict"@)
    }
}

impl AttrValue {
    /// The shape that the value is of.
    pub fn shape(&self) -> (r: Shape)
        ensures
            r == self@.shape(),
    {
        match self {
            AttrValue::Flag => Shape::Flag,
            AttrValue::Ident(_) => Shape::Ident,
            AttrValue::OptionalIdent(_) => Shape::OptionalIdent,
            AttrValue::Path { .. } => Shape::Path,
            AttrValue::Expr { .. } => Shape::Expr,
            AttrValue::Str { .. } => Shape::Str,
            AttrValue::StrList { .. } => Shape::StrList,
        }
    }
}

/// A copy of an identifier.
pub fn clone_ident(ident: &Ident) -> (r: Ident)
    ensures
        r@ == ident@,
{
    Ident { text: ident.text.clone(), span: ident.span }
}

impl BindgenAttrs {
    /// The set of a declaration without a directive list.
    pub fn new() -> (r: BindgenAttrs)
        ensures
            r@ == (BindgenAttrsView { exists: false, attrs: Seq::empty(), used: Seq::empty() }),
    {
        let set = BindgenAttrs { exists: false, attrs: Vec::new() };
        assert(set@.attrs =~= Seq::empty());
        assert(set@.used =~= Seq::empty());
        set
    }

    /// Looks up the directive `name` of the shape `shape`: marks every such
    /// directive as looked at and returns the index of the last.
    pub fn touch(&mut self, name: &str, shape: Shape) -> (r: Option<usize>)
        ensures
            final(self)@ == old(self)@.touch(name@, shape),
            final(self).attrs@.len() == old(self).attrs@.len(),
            forall|k: int|
                0 <= k < old(self).attrs@.len() ==> (#[trigger] final(self).attrs@[k]).1 == old(
                    self,
                ).attrs@[k].1,
            r is Some <==> find_last(old(self)@.attrs, name@, shape) is Some,
            r matches Some(i) ==> find_last(old(self)@.attrs, name@, shape) == Some(i as int) && i
                < old(self).attrs@.len(),
    {
        let mut found: Option<usize> = None;
        let mut i: usize = 0;
        let n = self.attrs.len();
        let ghost start = *self;
        proof {
            assert(start@.attrs.take(0) =~= Seq::empty());
        }
        while i < n
            invariant
                i <= n,
                n == start.attrs@.len(),
                self.attrs@.len() == n,
                self.exists == start.exists,
                forall|k: int| 0 <= k < n ==> (#[trigger] self.attrs@[k]).1 == start.attrs@[k].1,
                forall|k: int|
                    0 <= k < i ==> (#[trigger] self.attrs@[k]).0 == (start.attrs@[k].0 || is_attr(
                        start@.attrs[k],
                        name@,
                        shape,
                    )),
                forall|k: int| i <= k < n ==> (#[trigger] self.attrs@[k]).0 == start.attrs@[k].0,
                found is Some <==> find_last(start@.attrs.take(i as int), name@, shape) is Some,
                found matches Some(j) ==> j < i && find_last(
                    start@.attrs.take(i as int),
                    name@,
                    shape,
                ) == Some(j as int),
            decreases n - i,
        {
            let matches = self.attrs[i].1.value.shape() == shape && str_eq(
                self.attrs[i].1.name.as_str(),
                name,
            );
            proof {
                assert(start@.attrs.take(i + 1).drop_last() =~= start@.attrs.take(i as int));
                assert(start@.attrs.take(i + 1).last() == start@.attrs[i as int]);
            }
            if matches {
                self.attrs[i].0 = true;
                found = Some(i);
            }
            i = i + 1;
        }
        proof {
            assert(start@.attrs.take(n as int) =~= start@.attrs);
            assert(self@.attrs =~= start@.attrs);
            assert(self@.used =~= start@.touch(name@, shape).used);
        }
        found
    }

    /// The span of the flag `name`, if the set holds it. Marks the
    /// directive as looked at.
    pub fn flag(&mut self, name: &str) -> (r: Option<Span>)
        ensures
            final(self)@ == old(self)@.touch(name@, Shape::Flag),
            r == old(self)@.flag(name@),
    {
        match self.touch(name, Shape::Flag) {
            Some(i) => Some(self.attrs[i].1.span),
            None => None,
        }
    }

    /// The identifier of the directive `name`, which may come without one,
    /// if the set holds the directive. Marks the directive as looked at.
    pub fn optional_ident(&mut self, name: &str) -> (r: Option<Option<Ident>>)
        ensures
            final(self)@ == old(self)@.touch(name@, Shape::OptionalIdent),
            r is Some <==> old(self)@.optional_ident(name@) is Some,
            r matches Some(o) ==> old(self)@.optional_ident(name@) == Some(
                match o {
                    Some(i) => Some(i@),
                    None => None,
                },
            ),
    {
        match self.touch(name, Shape::OptionalIdent) {
            Some(i) => match &self.attrs[i].1.value {
                AttrValue::OptionalIdent(Some(ident)) => Some(Some(clone_ident(ident))),
                AttrValue::OptionalIdent(None) => Some(None),
                _ => None,
            },
            None => None,
        }
    }

    /// The text of the directive `name`, with the span of the text, if the
    /// set holds the directive. Marks the directive as looked at.
    pub fn string(&mut self, name: &str) -> (r: Option<(String, Span)>)
        ensures
            final(self)@ == old(self)@.touch(name@, Shape::Str),
            r is Some <==> old(self)@.string(name@) is Some,
            r matches Some(p) ==> old(self)@.string(name@) == Some((p.0@, p.1)),
    {
        match self.touch(name, Shape::Str) {
            Some(i) => match &self.attrs[i].1.value {
                AttrValue::Str { value, span } => Some((value.clone(), *span)),
                _ => None,
            },
            None => None,
        }
    }

    /// The override of the external name.
    pub fn js_name(&mut self) -> (r: Option<(String, Span)>)
        ensures
            final(self)@ == old(self)@.touch("js_name"@, Shape::Str),
            r is Some <==> old(self)@.js_name() is Some,
            r matches Some(p) ==> old(self)@.js_name() == Some((p.0@, p.1)),
    {
        self.string("js_name")
    }

    /// The directive that makes a constructor.
    pub fn constructor(&mut self) -> (r: Option<Span>)
        ensures
            final(self)@ == old(self)@.touch("constructor"@, Shape::Flag),
            r == old(self)@.constructor(),
    {
        self.flag("constructor")
    }

    /// The directive that makes a getter, with the property's name where one
    /// is given.
    pub fn getter(&mut self) -> (r: Option<Option<Ident>>)
        ensures
            final(self)@ == old(self)@.touch("getter"@, Shape::OptionalIdent),
            r is Some <==> old(self)@.getter() is Some,
            r matches Some(o) ==> old(self)@.getter() == Some(
                match o {
                    Some(i) => Some(i@),
                    None => None,
                },
            ),
    {
        self.optional_ident("getter")
    }

    /// The directive that makes a setter, with the property's name where one
    /// is given.
    pub fn setter(&mut self) -> (r: Option<Option<Ident>>)
        ensures
            final(self)@ == old(self)@.touch("setter"@, Shape::OptionalIdent),
            r is Some <==> old(self)@.setter() is Some,
            r matches Some(o) ==> old(self)@.setter() == Some(
                match o {
                    Some(i) => Some(i@),
                    None => None,
                },
            ),
    {
        self.optional_ident("setter")
    }

    /// The directive that keeps a field from being written.
    pub fn readonly(&mut self) -> (r: Option<Span>)
        ensures
            final(self)@ == old(self)@.touch("readonly"@, Shape::Flag),
            r == old(self)@.readonly(),
    {
        self.flag("readonly")
    }

    /// The directive that hides a field.
    pub fn skip(&mut self) -> (r: Option<Span>)
        ensures
            final(self)@ == old(self)@.touch("skip"@, Shape::Flag),
            r == old(self)@.skip(),
    {
        self.flag("skip")
    }

    /// The directive that makes a callable check its arguments strictly.
    pub fn strict(&mut self) -> (r: Option<Span>)
        ensures
            final(self)@ == old(self)@.touch("strict"@, Shape::Flag),
            r == old(self)@.strict(),
    {
        self.flag("strict")
    }

    /// The strings of the list directive `name`. Where the directive is given
    /// more than once, the lists are joined in the order in which they were
    /// written. Marks every such directive as looked at.
    pub fn string_list(&mut self, name: &str) -> (r: Vec<String>)
        ensures
            final(self)@ == old(self)@.touch(name@, Shape::StrList),
            texts(r@) == folded_lists(old(self)@.attrs, name@),
    {
        let _ = self.touch(name, Shape::StrList);
        let mut out: Vec<String> = Vec::new();
        let mut i: usize = 0;
        proof {
            assert(self@.attrs.take(0) =~= Seq::empty());
            assert(texts(out@) =~= Seq::empty());
        }
        while i < self.attrs.len()
            invariant
                i <= self.attrs@.len(),
                texts(out@) == folded_lists(self@.attrs.take(i as int), name@),
            decreases self.attrs@.len() - i,
        {
            proof {
                assert(self@.attrs.take(i + 1).drop_last() =~= self@.attrs.take(i as int));
                assert(self@.attrs.take(i + 1).last() == self@.attrs[i as int]);
            }
            let ghost before = texts(out@);
            let attr = &self.attrs[i].1;
            match &attr.value {
                AttrValue::StrList { values, .. } => {
                    if str_eq(attr.name.as_str(), name) {
                        let mut j: usize = 0;
                        while j < values.len()
                            invariant
                                j <= values@.len(),
                                texts(out@) == before + texts(
                                    values@,
                                ).take(j as int),
                            decreases values@.len() - j,
                        {
                            let ghost prev = texts(out@);
                            out.push(values[j].clone());
                            proof {
                                assert(texts(out@) =~= prev.push(values@[j as int]@));
                                assert(texts(values@).take(j + 1)
                                    =~= texts(values@).take(j as int).push(
                                    values@[j as int]@,
                                ));
                            }
                            j = j + 1;
                        }
                        proof {
                            assert(texts(values@).take(j as int)
                                =~= texts(values@));
                        }
                    } else {
                        proof {
                            assert(before + Seq::<Seq<char>>::empty() =~= before);
                        }
                    }
                },
                _ => {
                    proof {
                        assert(before + Seq::<Seq<char>>::empty() =~= before);
                    }
                },
            }
            i = i + 1;
        }
        proof {
            assert(self@.attrs.take(i as int) =~= self@.attrs);
        }
        out
    }

    /// Reports the directives that nothing looked at: one error for each, at
    /// the directive's name, in the order of the list.
    pub fn check_used(&self) -> (r: BindgenResult<()>)
        ensures
            r is Ok <==> unused_errors(self@.attrs, self@.used).len() == 0,
            r matches Err(d) ==> d@ == unused_errors(self@.attrs, self@.used),
    {
        let mut errors: Vec<SpannedError> = Vec::new();
        let mut i: usize = 0;
        proof {
            assert(self@.attrs.take(0) =~= Seq::empty());
        }
        while i < self.attrs.len()
            invariant
                i <= self.attrs@.len(),
                errors@ == unused_errors(self@.attrs.take(i as int), self@.used.take(i as int)),
            decreases self.attrs@.len() - i,
        {
            proof {
                assert(self@.attrs.take(i + 1).drop_last() =~= self@.attrs.take(i as int));
                assert(self@.used.take(i + 1).drop_last() =~= self@.used.take(i as int));
            }
            if !self.attrs[i].0 {
                errors.push(
                    SpannedError { span: self.attrs[i].1.span, kind: ErrorKind::UnusedAttribute },
                );
            }
            i = i + 1;
        }
        proof {
            assert(self@.attrs.take(i as int) =~= self@.attrs);
            assert(self@.used.take(i as int) =~= self@.used);
        }
        Diagnostic::from_errors(errors)
    }
}

} // verus!
