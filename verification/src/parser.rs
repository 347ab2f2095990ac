//! The two entry points of the front end: compiling a declaration of a
//! known kind, and classifying a declaration of any kind.

use crate::ast::{Napi, NapiView};
use crate::attrs::{BindgenAttrs, BindgenAttrsView};
use crate::diagnostic::{BindgenResult, SpannedError};
use crate::diagnostic::{Diagnostic, ErrorKind};
use crate::registry::Registry;
use crate::span::Span;
use crate::syntax::{Item, ItemEnum, ItemFn, ItemImpl, ItemStruct};
use vstd::prelude::*;

verus! {

/// What compiling a declaration comes to: the descriptor or the errors, and
/// the directive set and the registry as the compilation leaves them.
pub struct Outcome {
    pub result: Result<NapiView, Seq<SpannedError>>,
    pub opts: BindgenAttrsView,
    pub registry: Seq<(Seq<char>, Seq<char>)>,
}

/// The outcome that the values `r`, `opts` and `registry` stand for.
pub open spec fn outcome_of(
    r: BindgenResult<Napi>,
    opts: BindgenAttrs,
    registry: Registry,
) -> Outcome {
    Outcome {
        result: match r {
            Ok(napi) => Ok(napi@),
            Err(d) => Err(d@),
        },
        opts: opts@,
        registry: registry@,
    }
}

/// A declaration that compiles to a descriptor.
pub trait ConvertToAST {
    /// What the declaration compiles to under the directives `opts`, with
    /// the records `registry` compiled before it.
    spec fn converted(
        &self,
        opts: BindgenAttrsView,
        registry: Seq<(Seq<char>, Seq<char>)>,
    ) -> Outcome;

    /// Compiles the declaration. The directives that the compilation looks
    /// at are marked in `opts`; a record is added to `registry`.
    fn convert_to_ast(&self, opts: &mut BindgenAttrs, registry: &mut Registry) -> (r:
        BindgenResult<Napi>)
        ensures
            outcome_of(r, *final(opts), *final(registry)) == self.converted(
                old(opts)@,
                old(registry)@,
            ),
            r matches Ok(napi) ==> napi@.item.well_named(),
    ;
}

/// A declaration that carries a directive list.
pub trait ParseNapi {
    /// What the declaration compiles to under the directives `opts`, with
    /// the records `registry` compiled before it.
    spec fn parsed(&self, opts: BindgenAttrsView, registry: Seq<(Seq<char>, Seq<char>)>) -> Outcome;

    /// The span of the declaration, where the declaration is kept in the
    /// output.
    spec fn preserved(&self) -> Option<Span>;

    /// Compiles the declaration, and notes in `tokens` that the declaration
    /// itself is to be kept in the output, whether or not it compiled.
    fn parse_napi(
        &self,
        tokens: &mut Vec<Span>,
        opts: &mut BindgenAttrs,
        registry: &mut Registry,
    ) -> (r: BindgenResult<Napi>)
        ensures
            outcome_of(r, *final(opts), *final(registry)) == self.parsed(
                old(opts)@,
                old(registry)@,
            ),
            r matches Ok(napi) ==> napi@.item.well_named(),
            final(tokens)@ == (match self.preserved() {
                Some(span) => old(tokens)@.push(span),
                None => old(tokens)@,
            }),
    ;
}

impl ParseNapi for ItemFn {
    open spec fn parsed(
        &self,
        opts: BindgenAttrsView,
        registry: Seq<(Seq<char>, Seq<char>)>,
    ) -> Outcome {
        self.converted(opts, registry)
    }

    open spec fn preserved(&self) -> Option<Span> {
        Some(self.span)
    }

    fn parse_napi(
        &self,
        tokens: &mut Vec<Span>,
        opts: &mut BindgenAttrs,
        registry: &mut Registry,
    ) -> (r: BindgenResult<Napi>) {
        tokens.push(self.span);
        self.convert_to_ast(opts, registry)
    }
}

impl ParseNapi for ItemStruct {
    open spec fn parsed(
        &self,
        opts: BindgenAttrsView,
        registry: Seq<(Seq<char>, Seq<char>)>,
    ) -> Outcome {
        self.converted(opts, registry)
    }

    open spec fn preserved(&self) -> Option<Span> {
        Some(self.span)
    }

    fn parse_napi(
        &self,
        tokens: &mut Vec<Span>,
        opts: &mut BindgenAttrs,
        registry: &mut Registry,
    ) -> (r: BindgenResult<Napi>) {
        let napi = self.convert_to_ast(opts, registry);
        tokens.push(self.span);
        napi
    }
}

impl ParseNapi for ItemImpl {
    open spec fn parsed(
        &self,
        opts: BindgenAttrsView,
        registry: Seq<(Seq<char>, Seq<char>)>,
    ) -> Outcome {
        self.converted(opts, registry)
    }

    open spec fn preserved(&self) -> Option<Span> {
        Some(self.span)
    }

    fn parse_napi(
        &self,
        tokens: &mut Vec<Span>,
        opts: &mut BindgenAttrs,
        registry: &mut Registry,
    ) -> (r: BindgenResult<Napi>) {
        let napi = self.convert_to_ast(opts, registry);
        tokens.push(self.span);
        napi
    }
}

impl ParseNapi for ItemEnum {
    open spec fn parsed(
        &self,
        opts: BindgenAttrsView,
        registry: Seq<(Seq<char>, Seq<char>)>,
    ) -> Outcome {
        self.converted(opts, registry)
    }

    open spec fn preserved(&self) -> Option<Span> {
        Some(self.span)
    }

    fn parse_napi(
        &self,
        tokens: &mut Vec<Span>,
        opts: &mut BindgenAttrs,
        registry: &mut Registry,
    ) -> (r: BindgenResult<Napi>) {
        let napi = self.convert_to_ast(opts, registry);
        tokens.push(self.span);
        napi
    }
}

impl ParseNapi for Item {
    open spec fn parsed(
        &self,
        opts: BindgenAttrsView,
        registry: Seq<(Seq<char>, Seq<char>)>,
    ) -> Outcome {
        match *self {
            Item::Fn(f) => f.converted(opts, registry),
            Item::Struct(s) => s.converted(opts, registry),
            Item::Impl(i) => i.converted(opts, registry),
            Item::Enum(e) => e.converted(opts, registry),
            Item::Other { span } => Outcome {
                result: Err(seq![SpannedError { span, kind: ErrorKind::UnsupportedItem }]),
                opts,
                registry,
            },
        }
    }

    open spec fn preserved(&self) -> Option<Span> {
        match *self {
            Item::Fn(f) => Some(f.span),
            Item::Struct(s) => Some(s.span),
            Item::Impl(i) => Some(i.span),
            Item::Enum(e) => Some(e.span),
            Item::Other { .. } => None,
        }
    }

    fn parse_napi(
        &self,
        tokens: &mut Vec<Span>,
        opts: &mut BindgenAttrs,
        registry: &mut Registry,
    ) -> (r: BindgenResult<Napi>) {
        match self {
            Item::Fn(f) => f.parse_napi(tokens, opts, registry),
            Item::Struct(s) => s.parse_napi(tokens, opts, registry),
            Item::Impl(i) => i.parse_napi(tokens, opts, registry),
            Item::Enum(e) => e.parse_napi(tokens, opts, registry),
            Item::Other { span } => Err(
                Diagnostic::spanned_error(*span, ErrorKind::UnsupportedItem),
            ),
        }
    }
}

} // verus!
