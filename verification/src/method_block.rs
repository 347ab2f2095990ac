//! Compiling a method block: the methods that carry directives become the
//! callables of the record that the block is for.

use crate::ast::{
    fn_views, texts, Napi, NapiFn, NapiFnView, NapiImpl, NapiImplView, NapiItem, NapiItemView,
    NapiView,
};
use crate::attrs::{BindgenAttrs, BindgenAttrsView};
use crate::diagnostic::{BindgenResult, Diagnostic, ErrorKind, SpannedError};
use crate::function::{fn_ast, get_ty, napi_fn_from_decl, ungrouped};
use crate::parser::{ConvertToAST, Outcome};
use crate::record::member_opts;
use crate::registry::{reconciled, Registry};
use crate::syntax::{
    Ident, ImplItem, ImplItemMethod, ItemImpl, Path, PathArguments, PathSegment, TypeKind,
    Visibility,
};
use vstd::prelude::*;

verus! {

/// Whether one of the segments `segments` has arguments.
pub open spec fn has_arguments(segments: Seq<PathSegment>) -> bool {
    exists|i: int| 0 <= i < segments.len() && !((#[trigger] segments[i]).arguments is Absent)
}

/// The last identifier of `path`, which names the record that a method
/// block is for. No segment of the path may have arguments.
pub open spec fn path_ident(path: Path) -> Result<Ident, SpannedError> {
    if has_arguments(path.segments@) {
        Err(SpannedError { span: path.span, kind: ErrorKind::PathWithTypeParameters })
    } else if path.segments@.len() == 0 {
        Err(SpannedError { span: path.span, kind: ErrorKind::EmptyPath })
    } else {
        Ok(path.segments@.last().ident)
    }
}

/// Extracts the last identifier from a path.
pub fn extract_path_ident(path: &Path) -> (r: BindgenResult<&Ident>)
    ensures
        match path_ident(*path) {
            Ok(ident) => r matches Ok(i) && *i == ident,
            Err(e) => r matches Err(d) && d@ == seq![e],
        },
{
    let mut i: usize = 0;
    while i < path.segments.len()
        invariant
            i <= path.segments@.len(),
            forall|k: int| 0 <= k < i ==> (#[trigger] path.segments@[k]).arguments is Absent,
        decreases path.segments@.len() - i,
    {
        match path.segments[i].arguments {
            PathArguments::Absent => {},
            _ => {
                return Err(
                    Diagnostic::spanned_error(path.span, ErrorKind::PathWithTypeParameters),
                );
            },
        }
        i = i + 1;
    }
    if path.segments.len() == 0 {
        Err(Diagnostic::spanned_error(path.span, ErrorKind::EmptyPath))
    } else {
        Ok(&path.segments[path.segments.len() - 1].ident)
    }
}

/// The methods of a block that were compiled, and the external name of
/// their record.
pub struct Methods {
    pub js_name: Seq<char>,
    pub items: Seq<NapiFnView>,
}

/// What the method `m` of the record `owner` adds to `before`, what the
/// members before it gave.
///
/// A method without a directive list is passed over. A method that declares
/// a constructor is checked against the registry, which then gives the
/// external name of the record. A method that is not public is an error.
pub open spec fn with_method(
    before: Methods,
    m: ImplItemMethod,
    owner: Ident,
    registry: Seq<(Seq<char>, Seq<char>)>,
) -> Result<Methods, Seq<SpannedError>> {
    match member_opts(m.directives) {
        Err(e) => Err(seq![e]),
        Ok(opts) => if !opts.exists {
            Ok(before)
        } else {
            match (if opts.constructor() is Some {
                reconciled(registry, owner, opts.js_name())
            } else {
                Ok(before.js_name)
            }) {
                Err(e) => Err(seq![e]),
                Ok(js_name) => if m.vis != Visibility::Public {
                    Err(
                        seq![
                            SpannedError {
                                span: m.sig.ident.span,
                                kind: ErrorKind::NonPublicMethod,
                            },
                        ],
                    )
                } else {
                    match fn_ast(m.sig, opts, m.vis, Some(owner.text@)) {
                        Err(errors) => Err(errors),
                        Ok(f) => Ok(Methods { js_name, items: before.items.push(f) }),
                    }
                },
            }
        },
    }
}

/// What the members `items` of a block for the record `owner` give, one
/// after the other; the first member at fault ends the compilation.
pub open spec fn methods_from(
    items: Seq<ImplItem>,
    owner: Ident,
    registry: Seq<(Seq<char>, Seq<char>)>,
) -> Result<Methods, Seq<SpannedError>>
    decreases items.len(),
{
    if items.len() == 0 {
        Ok(Methods { js_name: owner.text@, items: Seq::empty() })
    } else {
        match methods_from(items.drop_last(), owner, registry) {
            Err(e) => Err(e),
            Ok(before) => match items.last() {
                ImplItem::Other { span } => Err(
                    seq![SpannedError { span, kind: ErrorKind::UnsupportedImplItem }],
                ),
                ImplItem::Method(m) => with_method(before, m, owner, registry),
            },
        }
    }
}

/// What the method block `item` compiles to, with the records `registry`
/// compiled before it.
pub open spec fn impl_ast(item: ItemImpl, registry: Seq<(Seq<char>, Seq<char>)>) -> Result<
    NapiView,
    Seq<SpannedError>,
> {
    match ungrouped(item.self_ty).kind {
        TypeKind::Path { qself: false, path } => match path_ident(path) {
            Err(e) => Err(seq![e]),
            Ok(owner) => match methods_from(item.items@, owner, registry) {
                Err(e) => Err(e),
                Ok(methods) => if methods.js_name.len() == 0 {
                    Err(seq![SpannedError { span: owner.span, kind: ErrorKind::EmptyName }])
                } else {
                    Ok(
                    NapiView {
                        comments: Seq::empty(),
                        item: NapiItemView::Impl(
                            NapiImplView {
                                name: owner.text@,
                                js_name: methods.js_name,
                                items: methods.items,
                            },
                        ),
                    },
                    )
                },
            },
        },
        _ => Err(
            seq![SpannedError { span: item.self_ty.span, kind: ErrorKind::UnsupportedSelfType }],
        ),
    }
}

/// Compiles one method of the record `owner`; `js_name` is the external
/// name of the record as the members before gave it.
fn method_from_decl(
    m: &ImplItemMethod,
    owner: &Ident,
    registry: &Registry,
    js_name: &mut String,
    items: &mut Vec<NapiFn>,
) -> (r: BindgenResult<()>)
    ensures
        match with_method(
            Methods { js_name: old(js_name)@, items: fn_views(old(items)@) },
            *m,
            *owner,
            registry@,
        ) {
            Ok(methods) => r is Ok && methods == (Methods {
                js_name: final(js_name)@,
                items: fn_views(final(items)@),
            }),
            Err(e) => r matches Err(d) && d@ == e,
        },
{
    let mut opts = match BindgenAttrs::find(&m.directives) {
        Ok(opts) => opts,
        Err(d) => {
            return Err(d);
        },
    };
    if !opts.exists {
        return Ok(());
    }
    if opts.constructor().is_some() {
        match registry.check_recorded_struct_for_impl(owner, &mut opts) {
            Ok(name) => {
                *js_name = name;
            },
            Err(d) => {
                return Err(d);
            },
        }
    }
    match m.vis {
        Visibility::Public => {},
        _ => {
            return Err(Diagnostic::spanned_error(m.sig.ident.span, ErrorKind::NonPublicMethod));
        },
    }
    let func = match napi_fn_from_decl(&m.sig, &mut opts, m.vis, Some(owner)) {
        Ok(func) => func,
        Err(d) => {
            return Err(d);
        },
    };
    let ghost before = fn_views(items@);
    let ghost view = func@;
    items.push(func);
    proof {
        assert(fn_views(items@) =~= before.push(view));
    }
    Ok(())
}

impl ConvertToAST for ItemImpl {
    open spec fn converted(
        &self,
        opts: BindgenAttrsView,
        registry: Seq<(Seq<char>, Seq<char>)>,
    ) -> Outcome {
        Outcome { result: impl_ast(*self, registry), opts, registry }
    }

    fn convert_to_ast(&self, opts: &mut BindgenAttrs, registry: &mut Registry) -> (r:
        BindgenResult<Napi>) {
        let path = match &get_ty(&self.self_ty).kind {
            TypeKind::Path { qself: false, path } => path,
            _ => {
                return Err(
                    Diagnostic::spanned_error(self.self_ty.span, ErrorKind::UnsupportedSelfType),
                );
            },
        };
        let struct_name = match extract_path_ident(path) {
            Ok(ident) => ident,
            Err(d) => {
                return Err(d);
            },
        };
        let mut struct_js_name = struct_name.text.clone();
        let mut items: Vec<NapiFn> = Vec::new();
        let mut i: usize = 0;
        proof {
            assert(self.items@.take(0) =~= Seq::empty());
            assert(fn_views(items@) =~= Seq::empty());
        }
        while i < self.items.len()
            invariant
                i <= self.items@.len(),
                methods_from(self.items@.take(i as int), *struct_name, registry@) == Ok::<
                    Methods,
                    Seq<SpannedError>,
                >(Methods { js_name: struct_js_name@, items: fn_views(items@) }),
                ungrouped(self.self_ty).kind matches TypeKind::Path { qself: false, path: p }
                    && path_ident(p) == Ok::<Ident, SpannedError>(*struct_name),
                opts@ == old(opts)@,
                registry@ == old(registry)@,
            decreases self.items@.len() - i,
        {
            proof {
                assert(self.items@.take(i + 1).drop_last() =~= self.items@.take(i as int));
                assert(self.items@.take(i + 1).last() == self.items@[i as int]);
            }
            let outcome = match &self.items[i] {
                ImplItem::Method(m) => method_from_decl(
                    m,
                    struct_name,
                    registry,
                    &mut struct_js_name,
                    &mut items,
                ),
                ImplItem::Other { span } => Err(
                    Diagnostic::spanned_error(*span, ErrorKind::UnsupportedImplItem),
                ),
            };
            match outcome {
                Ok(()) => {},
                Err(d) => {
                    proof {
                        lemma_methods_error(self.items@, *struct_name, registry@, i as int + 1);
                    }
                    return Err(d);
                },
            }
            i = i + 1;
        }
        proof {
            assert(self.items@.take(i as int) =~= self.items@);
            lemma_methods_are_named(self.items@, *struct_name, registry@);
        }
        if struct_js_name.as_str().is_empty() {
            return Err(Diagnostic::spanned_error(struct_name.span, ErrorKind::EmptyName));
        }
        let comments: Vec<String> = Vec::new();
        assert(texts(comments@) =~= Seq::empty());
        Ok(
            Napi {
                comments,
                item: NapiItem::Impl(
                    NapiImpl { name: struct_name.text.clone(), js_name: struct_js_name, items },
                ),
            },
        )
    }
}

proof fn lemma_methods_are_named(
    items: Seq<ImplItem>,
    owner: Ident,
    registry: Seq<(Seq<char>, Seq<char>)>,
)
    ensures
        methods_from(items, owner, registry) matches Ok(m) ==> forall|i: int|
            0 <= i < m.items.len() ==> (#[trigger] m.items[i]).js_name.len() > 0,
    decreases items.len(),
{
    if items.len() > 0 {
        lemma_methods_are_named(items.drop_last(), owner, registry);
    }
}

/// The external names of a method block and of its callables are never
/// empty.
pub proof fn lemma_method_block_is_named(item: ItemImpl, registry: Seq<(Seq<char>, Seq<char>)>)
    ensures
        impl_ast(item, registry) matches Ok(napi) ==> napi.item.well_named(),
{
    match ungrouped(item.self_ty).kind {
        TypeKind::Path { qself: false, path } => {
            if path_ident(path) is Ok {
                lemma_methods_are_named(item.items@, path_ident(path)->Ok_0, registry);
            }
        },
        _ => {},
    }
}

/// An error among the first `n` members is the error of all the members.
proof fn lemma_methods_error(
    items: Seq<ImplItem>,
    owner: Ident,
    registry: Seq<(Seq<char>, Seq<char>)>,
    n: int,
)
    requires
        0 <= n <= items.len(),
        methods_from(items.take(n), owner, registry) is Err,
    ensures
        methods_from(items, owner, registry) == methods_from(items.take(n), owner, registry),
    decreases items.len() - n,
{
    if n < items.len() {
        assert(items.take(n + 1).drop_last() =~= items.take(n));
        lemma_methods_error(items, owner, registry, n + 1);
    } else {
        assert(items.take(n) =~= items);
    }
}

} // verus!
