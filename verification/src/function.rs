//! Compiling a function: its parameters are told apart into plain arguments,
//! callbacks and the receiver, and its external name and role are read from
//! its directives.

use crate::ast::{
    arg_views, opt_text, texts, CallbackArg, CallbackArgView, FnKind, FnSelf, Napi, NapiFn,
    NapiFnArgKind, NapiFnArgKindView, NapiFnView, NapiItem, NapiItemView, NapiView, PatType,
    PatTypeView,
};
use crate::attrs::{BindgenAttrs, BindgenAttrsView, Shape};
use crate::casing::{
    check_name, convert_case, converted_case, external_name, trim_start_matches, trimmed_start,
    Case,
};
use crate::diagnostic::{BindgenResult, Diagnostic, ErrorKind, SpannedError};
use crate::parser::{ConvertToAST, Outcome};
use crate::registry::Registry;
use crate::syntax::{
    FnArg, GenericArgument, GenericParam, Generics, Ident, ItemFn, Path, PathArguments, PathSegment,
    ReturnType, Signature, Type, TypeKind, TypeParamBound, Visibility, WherePredicate,
};
use crate::text::str_eq;
use vstd::prelude::*;

verus! {

/// The type inside the invisible groups round `ty`.
pub open spec fn ungrouped(ty: Type) -> Type
    decreases ty,
{
    match ty.kind {
        TypeKind::Group(inner) => ungrouped(*inner),
        _ => ty,
    }
}

/// The type inside the invisible groups round `ty`.
pub fn get_ty(ty: &Type) -> (r: &Type)
    ensures
        *r == ungrouped(*ty),
    decreases ty,
{
    match &ty.kind {
        TypeKind::Group(inner) => get_ty(inner),
        _ => ty,
    }
}

/// Whether `ty` is the bare self type: a path of the one segment `Self`,
/// without a qualifier.
pub open spec fn is_bare_self(ty: Type) -> bool {
    ty.kind matches TypeKind::Path { qself, path } && !qself && path.segments@.len() == 1
        && path.segments@[0].ident.text@ == "Self"@
}

/// How `ty` is spelled in a descriptor: for a method of the record `parent`
/// the type is taken out of its invisible groups, and the bare self type is
/// replaced by the record's name; for a free function the type stays as it
/// is.
pub open spec fn replaced_self(ty: Type, parent: Option<Seq<char>>) -> Seq<char> {
    match parent {
        None => ty.text@,
        Some(name) => if is_bare_self(ungrouped(ty)) {
            name
        } else {
            ungrouped(ty).text@
        },
    }
}

/// Spells `ty` for a descriptor, with the bare self type replaced by the
/// name of the owning record.
pub fn replace_self(ty: &Type, self_ty: Option<&Ident>) -> (r: String)
    ensures
        r@ == replaced_self(
            *ty,
            match self_ty {
                Some(i) => Some(i.text@),
                None => None,
            },
        ),
{
    let self_ty = match self_ty {
        Some(i) => i,
        None => {
            return ty.text.clone();
        },
    };
    let inner = get_ty(ty);
    match &inner.kind {
        TypeKind::Path { qself, path } => {
            if !*qself && path.segments.len() == 1 && str_eq(
                path.segments[0].ident.text.as_str(),
                "Self",
            ) {
                self_ty.text.clone()
            } else {
                inner.text.clone()
            }
        },
        _ => inner.text.clone(),
    }
}

/// How the types `types` are spelled.
pub open spec fn type_texts(types: Seq<Type>) -> Seq<Seq<char>> {
    Seq::new(types.len(), |i: int| types[i].text@)
}

/// What a callback returns, read from the return type `ret` of its trait
/// bound. The type has to be a path of the one segment `Result` with
/// arguments in angle brackets, the first of them a type: the unit type
/// stands for no return value, any other type is the return type.
pub open spec fn callback_return(ret: Type) -> Result<Option<Seq<char>>, SpannedError> {
    match ret.kind {
        TypeKind::Path { qself: false, path } => if path.segments@.len() != 1
            || path.segments@[0].ident.text@ != "Result"@ {
            Err(SpannedError { span: ret.span, kind: ErrorKind::CallbackReturnNotResult })
        } else {
            match path.segments@[0].arguments {
                PathArguments::AngleBracketed { args, .. } => if args@.len() == 0 {
                    Err(
                        SpannedError {
                            span: path.segments@[0].span,
                            kind: ErrorKind::CallbackReturnArguments,
                        },
                    )
                } else {
                    match args@[0] {
                        GenericArgument::Type(ok) => if ok.text@ == "()"@ {
                            Ok(None)
                        } else {
                            Ok(Some(ok.text@))
                        },
                        GenericArgument::Other { span } => Err(
                            SpannedError { span, kind: ErrorKind::UnsupportedGenericType },
                        ),
                    }
                },
                _ => Err(
                    SpannedError {
                        span: path.segments@[0].span,
                        kind: ErrorKind::CallbackReturnArguments,
                    },
                ),
            }
        },
        _ => Err(SpannedError { span: ret.span, kind: ErrorKind::CallbackReturnNotResult }),
    }
}

/// The types that a callback takes and returns, read from the arguments of
/// its trait bound: `Fn` alone takes and returns nothing, `Fn(A, B)` takes
/// `A` and `B` and returns nothing, `Fn(A, B) -> Result<C>` takes `A` and
/// `B` and returns `C`.
pub open spec fn callback_types(arguments: PathArguments) -> Result<
    (Seq<Seq<char>>, Option<Seq<char>>),
    SpannedError,
> {
    match arguments {
        PathArguments::Absent => Ok((Seq::empty(), None)),
        PathArguments::AngleBracketed { span, .. } => Err(
            SpannedError { span, kind: ErrorKind::CallbackAngleBrackets },
        ),
        PathArguments::Parenthesized { inputs, output, .. } => match output {
            ReturnType::Default => Ok((type_texts(inputs@), None)),
            ReturnType::Type(ret) => match callback_return(*ret) {
                Err(e) => Err(e),
                Ok(r) => Ok((type_texts(inputs@), r)),
            },
        },
    }
}

/// Reads what a callback returns from the return type of its trait bound.
fn extract_fn_return(ret: &Type) -> (r: BindgenResult<Option<String>>)
    ensures
        match callback_return(*ret) {
            Ok(o) => r matches Ok(x) && opt_text(x) == o,
            Err(e) => r matches Err(d) && d@ == seq![e],
        },
{
    let path = match &ret.kind {
        TypeKind::Path { qself: false, path } => path,
        _ => {
            return Err(Diagnostic::spanned_error(ret.span, ErrorKind::CallbackReturnNotResult));
        },
    };
    if path.segments.len() != 1 {
        return Err(Diagnostic::spanned_error(ret.span, ErrorKind::CallbackReturnNotResult));
    }
    let segment = &path.segments[0];
    if !str_eq(segment.ident.text.as_str(), "Result") {
        return Err(Diagnostic::spanned_error(ret.span, ErrorKind::CallbackReturnNotResult));
    }
    match &segment.arguments {
        PathArguments::AngleBracketed { args, .. } => {
            if args.len() == 0 {
                return Err(
                    Diagnostic::spanned_error(segment.span, ErrorKind::CallbackReturnArguments),
                );
            }
            match &args[0] {
                GenericArgument::Type(ok) => {
                    if str_eq(ok.text.as_str(), "()") {
                        Ok(None)
                    } else {
                        Ok(Some(ok.text.clone()))
                    }
                },
                GenericArgument::Other { span } => Err(
                    Diagnostic::spanned_error(*span, ErrorKind::UnsupportedGenericType),
                ),
            }
        },
        _ => Err(Diagnostic::spanned_error(segment.span, ErrorKind::CallbackReturnArguments)),
    }
}

/// Reads the types that a callback takes and returns from the arguments of
/// its trait bound.
pub fn extract_fn_types(arguments: &PathArguments) -> (r: BindgenResult<
    (Vec<String>, Option<String>),
>)
    ensures
        match callback_types(*arguments) {
            Ok(t) => r matches Ok(p) && texts(p.0@) == t.0 && opt_text(p.1) == t.1,
            Err(e) => r matches Err(d) && d@ == seq![e],
        },
{
    match arguments {
        PathArguments::Absent => {
            let args: Vec<String> = Vec::new();
            assert(texts(args@) =~= Seq::empty());
            Ok((args, None))
        },
        PathArguments::AngleBracketed { span, .. } => Err(
            Diagnostic::spanned_error(*span, ErrorKind::CallbackAngleBrackets),
        ),
        PathArguments::Parenthesized { inputs, output, .. } => {
            let ret = match output {
                ReturnType::Default => None,
                ReturnType::Type(ret) => match extract_fn_return(ret) {
                    Ok(ret) => ret,
                    Err(d) => {
                        return Err(d);
                    },
                },
            };
            let mut args: Vec<String> = Vec::new();
            let mut i: usize = 0;
            while i < inputs.len()
                invariant
                    i <= inputs@.len(),
                    args@.len() == i,
                    forall|k: int| 0 <= k < i ==> (#[trigger] args@[k])@ == inputs@[k].text@,
                decreases inputs@.len() - i,
            {
                args.push(inputs[i].text.clone());
                i = i + 1;
            }
            assert(texts(args@) =~= type_texts(inputs@));
            Ok((args, ret))
        },
    }
}

/// Whether `name` is one of the three callable traits.
pub open spec fn is_callback_trait(name: Seq<char>) -> bool {
    name == "Fn"@ || name == "FnOnce"@ || name == "FnMut"@
}

/// The generic parameters that are bound to a callable trait: each as the
/// spelling of the bounded type and the arguments of the trait, in the order
/// in which the bounds are written. Where a type is bound twice the later
/// bound counts.
pub struct CallbackTraits<'a> {
    pub entries: Vec<(String, &'a PathArguments)>,
}

impl<'a> View for CallbackTraits<'a> {
    type V = Seq<(Seq<char>, PathArguments)>;

    open spec fn view(&self) -> Seq<(Seq<char>, PathArguments)> {
        Seq::new(self.entries@.len(), |i: int| (self.entries@[i].0@, *self.entries@[i].1))
    }
}

/// The arguments of the callable trait that the type spelled `key` is bound
/// to, if it is bound to one.
pub open spec fn callback_of(entries: Seq<(Seq<char>, PathArguments)>, key: Seq<char>) -> Option<
    PathArguments,
>
    decreases entries.len(),
{
    if entries.len() == 0 {
        None
    } else if entries.last().0 == key {
        Some(entries.last().1)
    } else {
        callback_of(entries.drop_last(), key)
    }
}

impl<'a> CallbackTraits<'a> {
    /// No bounds.
    pub fn new() -> (r: CallbackTraits<'a>)
        ensures
            r@ == Seq::<(Seq<char>, PathArguments)>::empty(),
    {
        let r = CallbackTraits { entries: Vec::new() };
        assert(r@ =~= Seq::empty());
        r
    }

    /// Records that the type spelled `key` is bound to a callable trait with
    /// the arguments `arguments`.
    pub fn insert(&mut self, key: String, arguments: &'a PathArguments)
        ensures
            final(self)@ == old(self)@.push((key@, *arguments)),
    {
        let ghost before = self@;
        let ghost k = key@;
        self.entries.push((key, arguments));
        assert(self@ =~= before.push((k, *arguments)));
    }

    /// The arguments of the callable trait that the type spelled `key` is
    /// bound to.
    pub fn get(&self, key: &str) -> (r: Option<&'a PathArguments>)
        ensures
            r is Some <==> callback_of(self@, key@) is Some,
            r matches Some(a) ==> callback_of(self@, key@) == Some(*a),
    {
        let mut i: usize = self.entries.len();
        proof {
            assert(self@.take(i as int) =~= self@);
        }
        while i > 0
            invariant
                i <= self.entries@.len(),
                callback_of(self@, key@) == callback_of(self@.take(i as int), key@),
            decreases i,
        {
            proof {
                assert(self@.take(i as int).drop_last() =~= self@.take(i - 1));
                assert(self@.take(i as int).last() == self@[i - 1]);
            }
            i = i - 1;
            if str_eq(self.entries[i].0.as_str(), key) {
                return Some(self.entries[i].1);
            }
        }
        None
    }
}

/// The bounds that the trait path `segments` gives the type spelled `key`:
/// one for each segment that names a callable trait.
pub open spec fn path_entries(key: Seq<char>, segments: Seq<PathSegment>) -> Seq<
    (Seq<char>, PathArguments),
>
    decreases segments.len(),
{
    if segments.len() == 0 {
        Seq::empty()
    } else if is_callback_trait(segments.last().ident.text@) {
        path_entries(key, segments.drop_last()).push((key, segments.last().arguments))
    } else {
        path_entries(key, segments.drop_last())
    }
}

/// The bounds to callable traits among `bounds`, for the type spelled `key`.
pub open spec fn bound_entries(key: Seq<char>, bounds: Seq<TypeParamBound>) -> Seq<
    (Seq<char>, PathArguments),
>
    decreases bounds.len(),
{
    if bounds.len() == 0 {
        Seq::empty()
    } else {
        bound_entries(key, bounds.drop_last()) + (match bounds.last() {
            TypeParamBound::Trait { path, .. } => path_entries(key, path.segments@),
            TypeParamBound::Lifetime { .. } => Seq::empty(),
        })
    }
}

/// The errors in `bounds`: one for each lifetime bound other than `'static`.
pub open spec fn bound_errors(bounds: Seq<TypeParamBound>) -> Seq<SpannedError>
    decreases bounds.len(),
{
    if bounds.len() == 0 {
        Seq::empty()
    } else {
        match bounds.last() {
            TypeParamBound::Lifetime { ident, span } => if ident.text@ != "static"@ {
                bound_errors(bounds.drop_last()).push(
                    SpannedError { span, kind: ErrorKind::NonStaticLifetime },
                )
            } else {
                bound_errors(bounds.drop_last())
            },
            TypeParamBound::Trait { .. } => bound_errors(bounds.drop_last()),
        }
    }
}

/// The bounds to callable traits in the predicates of a `where` clause.
pub open spec fn where_entries(predicates: Seq<WherePredicate>) -> Seq<(Seq<char>, PathArguments)>
    decreases predicates.len(),
{
    if predicates.len() == 0 {
        Seq::empty()
    } else {
        where_entries(predicates.drop_last()) + (match predicates.last() {
            WherePredicate::Type { bounded_ty, bounds, .. } => bound_entries(
                bounded_ty.text@,
                bounds@,
            ),
            WherePredicate::Other { .. } => Seq::empty(),
        })
    }
}

/// The errors in the predicates of a `where` clause: those of the bounds,
/// and one for each predicate that does not bound a type.
pub open spec fn where_errors(predicates: Seq<WherePredicate>) -> Seq<SpannedError>
    decreases predicates.len(),
{
    if predicates.len() == 0 {
        Seq::empty()
    } else {
        where_errors(predicates.drop_last()) + (match predicates.last() {
            WherePredicate::Type { bounds, .. } => bound_errors(bounds@),
            WherePredicate::Other { span } => seq![
                SpannedError { span, kind: ErrorKind::UnsupportedWherePredicate },
            ],
        })
    }
}

/// The bounds to callable traits that the generic parameters carry.
pub open spec fn param_entries(params: Seq<GenericParam>) -> Seq<(Seq<char>, PathArguments)>
    decreases params.len(),
{
    if params.len() == 0 {
        Seq::empty()
    } else {
        param_entries(params.drop_last()) + (match params.last() {
            GenericParam::Type { ident, bounds, .. } => bound_entries(ident.text@, bounds@),
            GenericParam::Other { .. } => Seq::empty(),
        })
    }
}

/// The errors in the generic parameters: those of the bounds, and one for
/// each parameter that is not a type.
pub open spec fn param_errors(params: Seq<GenericParam>) -> Seq<SpannedError>
    decreases params.len(),
{
    if params.len() == 0 {
        Seq::empty()
    } else {
        param_errors(params.drop_last()) + (match params.last() {
            GenericParam::Type { bounds, .. } => bound_errors(bounds@),
            GenericParam::Other { span } => seq![
                SpannedError { span, kind: ErrorKind::UnsupportedGenericParam },
            ],
        })
    }
}

/// The predicates of the `where` clause of `generics`.
pub open spec fn predicates_of(generics: Generics) -> Seq<WherePredicate> {
    match generics.where_clause {
        Some(predicates) => predicates@,
        None => Seq::empty(),
    }
}

/// The bounds to callable traits in `generics`: those of the `where` clause,
/// then those of the parameters. Without parameters there are none.
pub open spec fn closure_generics(generics: Generics) -> Seq<(Seq<char>, PathArguments)> {
    if generics.params@.len() == 0 {
        Seq::empty()
    } else {
        where_entries(predicates_of(generics)) + param_entries(generics.params@)
    }
}

/// The errors in `generics`: those of the `where` clause, then those of the
/// parameters. Without parameters there are none.
pub open spec fn closure_errors(generics: Generics) -> Seq<SpannedError> {
    if generics.params@.len() == 0 {
        Seq::empty()
    } else {
        where_errors(predicates_of(generics)) + param_errors(generics.params@)
    }
}

/// Whether `name` is one of the three callable traits.
fn names_callback_trait(name: &str) -> (r: bool)
    ensures
        r == is_callback_trait(name@),
{
    str_eq(name, "Fn") || str_eq(name, "FnOnce") || str_eq(name, "FnMut")
}

/// Scans the bounds of the type spelled `key`.
fn scan_bounds<'a>(
    key: &str,
    bounds: &'a Vec<TypeParamBound>,
    map: &mut CallbackTraits<'a>,
    errors: &mut Vec<SpannedError>,
)
    ensures
        final(map)@ == old(map)@ + bound_entries(key@, bounds@),
        final(errors)@ == old(errors)@ + bound_errors(bounds@),
{
    let ghost map0 = map@;
    let ghost errors0 = errors@;
    let mut i: usize = 0;
    proof {
        assert(bounds@.take(0) =~= Seq::empty());
        assert(map0 + Seq::<(Seq<char>, PathArguments)>::empty() =~= map0);
        assert(errors0 + Seq::<SpannedError>::empty() =~= errors0);
    }
    while i < bounds.len()
        invariant
            i <= bounds@.len(),
            map@ == map0 + bound_entries(key@, bounds@.take(i as int)),
            errors@ == errors0 + bound_errors(bounds@.take(i as int)),
        decreases bounds@.len() - i,
    {
        proof {
            assert(bounds@.take(i + 1).drop_last() =~= bounds@.take(i as int));
            assert(bounds@.take(i + 1).last() == bounds@[i as int]);
        }
        let ghost map1 = map@;
        match &bounds[i] {
            TypeParamBound::Trait { path, .. } => {
                let mut j: usize = 0;
                proof {
                    assert(path.segments@.take(0) =~= Seq::empty());
                    assert(map1 + Seq::<(Seq<char>, PathArguments)>::empty() =~= map1);
                }
                while j < path.segments.len()
                    invariant
                        j <= path.segments@.len(),
                        map@ == map1 + path_entries(key@, path.segments@.take(j as int)),
                    decreases path.segments@.len() - j,
                {
                    proof {
                        assert(path.segments@.take(j + 1).drop_last() =~= path.segments@.take(
                            j as int,
                        ));
                        assert(path.segments@.take(j + 1).last() == path.segments@[j as int]);
                    }
                    let segment = &path.segments[j];
                    if names_callback_trait(segment.ident.text.as_str()) {
                        let ghost before = map@;
                        map.insert(key.to_owned(), &segment.arguments);
                        proof {
                            assert(map@ =~= map1 + path_entries(
                                key@,
                                path.segments@.take(j as int),
                            ).push((key@, segment.arguments)));
                        }
                    }
                    j = j + 1;
                }
                proof {
                    assert(path.segments@.take(j as int) =~= path.segments@);
                    assert(map@ =~= map0 + (bound_entries(key@, bounds@.take(i as int))
                        + path_entries(key@, path.segments@)));
                }
            },
            TypeParamBound::Lifetime { ident, span } => {
                if !str_eq(ident.text.as_str(), "static") {
                    errors.push(SpannedError { span: *span, kind: ErrorKind::NonStaticLifetime });
                    proof {
                        assert(errors@ =~= errors0 + bound_errors(bounds@.take(i as int)).push(
                            SpannedError { span: *span, kind: ErrorKind::NonStaticLifetime },
                        ));
                    }
                }
                proof {
                    assert(map@ =~= map0 + (bound_entries(key@, bounds@.take(i as int))
                        + Seq::<(Seq<char>, PathArguments)>::empty()));
                }
            },
        }
        i = i + 1;
    }
    proof {
        assert(bounds@.take(i as int) =~= bounds@);
    }
}

/// Scans the generic parameters of a signature and its `where` clause for
/// bounds to the callable traits, and records for each such bound the
/// spelling of the bounded type and the arguments of the trait. The errors
/// are gathered, and returned together where there are any.
pub fn extract_fn_closure_generics<'a>(generics: &'a Generics) -> (r: BindgenResult<
    CallbackTraits<'a>,
>)
    ensures
        r is Ok <==> closure_errors(*generics).len() == 0,
        r matches Ok(map) ==> map@ == closure_generics(*generics),
        r matches Err(d) ==> d@ == closure_errors(*generics),
{
    let mut errors: Vec<SpannedError> = Vec::new();
    let mut map = CallbackTraits::new();
    if generics.params.len() == 0 {
        return Ok(map);
    }
    match &generics.where_clause {
        Some(predicates) => {
            let mut i: usize = 0;
            proof {
                assert(predicates@.take(0) =~= Seq::empty());
            }
            while i < predicates.len()
                invariant
                    i <= predicates@.len(),
                    map@ == where_entries(predicates@.take(i as int)),
                    errors@ == where_errors(predicates@.take(i as int)),
                decreases predicates@.len() - i,
            {
                proof {
                    assert(predicates@.take(i + 1).drop_last() =~= predicates@.take(i as int));
                    assert(predicates@.take(i + 1).last() == predicates@[i as int]);
                }
                match &predicates[i] {
                    WherePredicate::Type { bounded_ty, bounds, .. } => {
                        scan_bounds(bounded_ty.text.as_str(), bounds, &mut map, &mut errors);
                    },
                    WherePredicate::Other { span } => {
                        let ghost before = errors@;
                        errors.push(
                            SpannedError {
                                span: *span,
                                kind: ErrorKind::UnsupportedWherePredicate,
                            },
                        );
                        proof {
                            assert(errors@ =~= before + seq![
                                SpannedError {
                                    span: *span,
                                    kind: ErrorKind::UnsupportedWherePredicate,
                                },
                            ]);
                            assert(map@ + Seq::<(Seq<char>, PathArguments)>::empty() =~= map@);
                        }
                    },
                }
                i = i + 1;
            }
            proof {
                assert(predicates@.take(i as int) =~= predicates@);
            }
        },
        None => {},
    }
    let ghost map0 = map@;
    let ghost errors0 = errors@;
    let mut i: usize = 0;
    proof {
        assert(generics.params@.take(0) =~= Seq::empty());
        assert(map0 + Seq::<(Seq<char>, PathArguments)>::empty() =~= map0);
        assert(errors0 + Seq::<SpannedError>::empty() =~= errors0);
    }
    while i < generics.params.len()
        invariant
            i <= generics.params@.len(),
            map@ == map0 + param_entries(generics.params@.take(i as int)),
            errors@ == errors0 + param_errors(generics.params@.take(i as int)),
        decreases generics.params@.len() - i,
    {
        proof {
            assert(generics.params@.take(i + 1).drop_last() =~= generics.params@.take(i as int));
            assert(generics.params@.take(i + 1).last() == generics.params@[i as int]);
        }
        let ghost map1 = map@;
        let ghost errors1 = errors@;
        match &generics.params[i] {
            GenericParam::Type { ident, bounds, .. } => {
                scan_bounds(ident.text.as_str(), bounds, &mut map, &mut errors);
                proof {
                    assert(map@ =~= map0 + (param_entries(generics.params@.take(i as int))
                        + bound_entries(ident.text@, bounds@)));
                    assert(errors@ =~= errors0 + (param_errors(generics.params@.take(i as int))
                        + bound_errors(bounds@)));
                }
            },
            GenericParam::Other { span } => {
                errors.push(
                    SpannedError { span: *span, kind: ErrorKind::UnsupportedGenericParam },
                );
                proof {
                    assert(errors@ =~= errors0 + (param_errors(generics.params@.take(i as int))
                        + seq![
                        SpannedError { span: *span, kind: ErrorKind::UnsupportedGenericParam },
                    ]));
                    assert(map@ =~= map0 + (param_entries(generics.params@.take(i as int))
                        + Seq::<(Seq<char>, PathArguments)>::empty()));
                }
            },
        }
        i = i + 1;
    }
    proof {
        assert(generics.params@.take(i as int) =~= generics.params@);
    }
    match Diagnostic::from_errors(errors) {
        Ok(()) => Ok(map),
        Err(d) => Err(d),
    }
}

/// What reading the parameters of a signature gives: the arguments of the
/// callable, the errors, and how the receiver is taken.
pub struct Params {
    pub args: Seq<NapiFnArgKindView>,
    pub errors: Seq<SpannedError>,
    pub fn_self: Option<FnSelf>,
}

/// What reading the one parameter `arg` adds to `before`, what the
/// parameters before it gave.
///
/// A typed parameter whose type is spelled as a generic parameter that is
/// bound to a callable trait is a callback, with the types that the bound
/// gives; any other typed parameter is a plain argument. A receiver is an
/// error in a free function, and in a method when it is taken by value or
/// when there was a receiver before; else it says how the method takes the
/// record.
pub open spec fn read_param(
    before: Params,
    arg: FnArg,
    callbacks: Seq<(Seq<char>, PathArguments)>,
    parent: Option<Seq<char>>,
) -> Params {
    match arg {
        FnArg::Typed { pat, ty, .. } => match callback_of(callbacks, ty.text@) {
            Some(arguments) => match callback_types(arguments) {
                Ok((args, ret)) => Params {
                    args: before.args.push(
                        NapiFnArgKindView::Callback(CallbackArgView { pat: pat@, args, ret }),
                    ),
                    errors: before.errors,
                    fn_self: before.fn_self,
                },
                Err(e) => Params {
                    args: before.args,
                    errors: before.errors.push(e),
                    fn_self: before.fn_self,
                },
            },
            None => Params {
                args: before.args.push(
                    NapiFnArgKindView::PatType(
                        PatTypeView { pat: pat@, ty: replaced_self(ty, parent) },
                    ),
                ),
                errors: before.errors,
                fn_self: before.fn_self,
            },
        },
        FnArg::Receiver { reference, mutability, span } => {
            let kind = if parent is None {
                Some(ErrorKind::SelfArgument)
            } else if before.fn_self is Some {
                Some(ErrorKind::DuplicateReceiver)
            } else if !reference {
                Some(ErrorKind::SelfByValue)
            } else {
                None
            };
            match kind {
                Some(kind) => Params {
                    args: before.args,
                    errors: before.errors.push(SpannedError { span, kind }),
                    fn_self: before.fn_self,
                },
                None => Params {
                    args: before.args,
                    errors: before.errors,
                    fn_self: Some(
                        if mutability {
                            FnSelf::MutRef
                        } else {
                            FnSelf::Ref
                        },
                    ),
                },
            }
        },
    }
}

/// What reading the parameters `inputs` gives, one after the other.
pub open spec fn read_params(
    inputs: Seq<FnArg>,
    callbacks: Seq<(Seq<char>, PathArguments)>,
    parent: Option<Seq<char>>,
) -> Params
    decreases inputs.len(),
{
    if inputs.len() == 0 {
        Params { args: Seq::empty(), errors: Seq::empty(), fn_self: None }
    } else {
        read_param(
            read_params(inputs.drop_last(), callbacks, parent),
            inputs.last(),
            callbacks,
            parent,
        )
    }
}

/// The external name of the callable named `ident` under the directives
/// `opts`. A getter or a setter is named as its directive says, or else by
/// its own name without `get_` or `set_` in front, in camel case; any other
/// callable is named as the override of the name says, or else by its own
/// name in camel case. `None` where a name that has to be converted cannot
/// be converted.
pub open spec fn callable_name(ident: Seq<char>, opts: BindgenAttrsView) -> Option<Seq<char>> {
    match opts.getter() {
        Some(Some((name, _))) => Some(name),
        Some(None) => converted_case(trimmed_start(ident, "get_"@), Case::Camel),
        None => match opts.setter() {
            Some(Some((name, _))) => Some(name),
            Some(None) => converted_case(trimmed_start(ident, "set_"@), Case::Camel),
            None => match opts.js_name() {
                Some((name, _)) => Some(name),
                None => converted_case(ident, Case::Camel),
            },
        },
    }
}

/// The directive set after the external name of a callable was read from
/// it: the setter is looked at where there is no getter, the override of
/// the name where there is neither.
pub open spec fn name_opts(opts: BindgenAttrsView) -> BindgenAttrsView {
    let a = opts.touch("getter"@, Shape::OptionalIdent);
    if opts.getter() is Some {
        a
    } else {
        let b = a.touch("setter"@, Shape::OptionalIdent);
        if opts.setter() is Some {
            b
        } else {
            b.touch("js_name"@, Shape::Str)
        }
    }
}

/// The role of a callable under the directives `opts`: a constructor where
/// the directive for one is given, else a getter, else a setter, else an
/// ordinary function or method.
pub open spec fn fn_kind_of(opts: BindgenAttrsView) -> FnKind {
    if opts.constructor() is Some {
        FnKind::Constructor
    } else if opts.getter() is Some {
        FnKind::Getter
    } else if opts.setter() is Some {
        FnKind::Setter
    } else {
        FnKind::Normal
    }
}

/// The directive set after the role of a callable was read from it.
pub open spec fn kind_opts(opts: BindgenAttrsView) -> BindgenAttrsView {
    opts.touch("getter"@, Shape::OptionalIdent).touch("setter"@, Shape::OptionalIdent).touch(
        "constructor"@,
        Shape::Flag,
    )
}

/// The role of a callable under the directives `opts`.
pub fn fn_kind(opts: &mut BindgenAttrs) -> (r: FnKind)
    ensures
        r == fn_kind_of(old(opts)@),
        final(opts)@ == kind_opts(old(opts)@),
{
    let mut kind = FnKind::Normal;
    if opts.getter().is_some() {
        kind = FnKind::Getter;
    }
    if opts.setter().is_some() {
        if let FnKind::Normal = kind {
            kind = FnKind::Setter;
        }
    }
    if opts.constructor().is_some() {
        kind = FnKind::Constructor;
    }
    kind
}

/// The text of the owning record, if there is one.
pub open spec fn parent_text(parent: Option<&Ident>) -> Option<Seq<char>> {
    match parent {
        Some(i) => Some(i.text@),
        None => None,
    }
}

/// The return type of a callable, as it is spelled in its descriptor.
pub open spec fn return_text(output: ReturnType, parent: Option<Seq<char>>) -> Option<Seq<char>> {
    match output {
        ReturnType::Default => None,
        ReturnType::Type(ty) => Some(replaced_self(*ty, parent)),
    }
}

/// Whether the signature `sig` is at fault: in its generics, or else in its
/// parameters.
pub open spec fn signature_errors(sig: Signature, parent: Option<Seq<char>>) -> Seq<SpannedError> {
    if closure_errors(sig.generics).len() > 0 {
        closure_errors(sig.generics)
    } else {
        read_params(sig.inputs@, closure_generics(sig.generics), parent).errors
    }
}

/// The callable that the signature `sig` compiles to under the directives
/// `opts`, as a method of the record `parent` where there is one. The
/// errors in the generics come alone; those in the parameters come
/// together.
pub open spec fn fn_ast(
    sig: Signature,
    opts: BindgenAttrsView,
    vis: Visibility,
    parent: Option<Seq<char>>,
) -> Result<NapiFnView, Seq<SpannedError>> {
    let params = read_params(sig.inputs@, closure_generics(sig.generics), parent);
    if signature_errors(sig, parent).len() > 0 {
        Err(signature_errors(sig, parent))
    } else {
        match external_name(callable_name(sig.ident.text@, opts)) {
            Err(kind) => Err(seq![SpannedError { span: sig.ident.span, kind }]),
            Ok(js_name) => Ok(
                NapiFnView {
                    name: sig.ident.text@,
                    js_name,
                    args: params.args,
                    ret: return_text(sig.output, parent),
                    is_async: sig.asyncness,
                    vis,
                    kind: fn_kind_of(opts),
                    fn_self: params.fn_self,
                    parent,
                    strict: opts.strict() is Some,
                },
            ),
        }
    }
}

/// The directive set after the signature `sig` was compiled under it: the
/// directives are looked at only when the signature is without fault.
pub open spec fn fn_opts(
    sig: Signature,
    opts: BindgenAttrsView,
    parent: Option<Seq<char>>,
) -> BindgenAttrsView {
    if signature_errors(sig, parent).len() > 0 {
        opts
    } else {
        kind_opts(name_opts(opts)).touch("strict"@, Shape::Flag)
    }
}

/// Reads the external name of the callable `ident` from its directives.
fn fn_js_name(ident: &Ident, opts: &mut BindgenAttrs) -> (r: Option<String>)
    ensures
        opt_text(r) == callable_name(ident.text@, old(opts)@),
        final(opts)@ == name_opts(old(opts)@),
{
    match opts.getter() {
        Some(Some(name)) => {
            return Some(name.text);
        },
        Some(None) => {
            let stem = trim_start_matches(ident.text.as_str(), "get_");
            return convert_case(stem.as_str(), Case::Camel);
        },
        None => {},
    }
    match opts.setter() {
        Some(Some(name)) => {
            return Some(name.text);
        },
        Some(None) => {
            let stem = trim_start_matches(ident.text.as_str(), "set_");
            return convert_case(stem.as_str(), Case::Camel);
        },
        None => {},
    }
    match opts.js_name() {
        Some((name, _)) => Some(name),
        None => convert_case(ident.text.as_str(), Case::Camel),
    }
}

/// Reads one parameter of a signature.
fn read_fn_arg(
    arg: &FnArg,
    callbacks: &CallbackTraits,
    parent: Option<&Ident>,
    args: &mut Vec<NapiFnArgKind>,
    errors: &mut Vec<SpannedError>,
    fn_self: &mut Option<FnSelf>,
)
    ensures
        (Params {
            args: arg_views(final(args)@),
            errors: final(errors)@,
            fn_self: *final(fn_self),
        }) == read_param(
            Params { args: arg_views(old(args)@), errors: old(errors)@, fn_self: *old(fn_self) },
            *arg,
            callbacks@,
            parent_text(parent),
        ),
{
    let ghost before = arg_views(args@);
    match arg {
        FnArg::Typed { pat, ty, .. } => {
            match callbacks.get(ty.text.as_str()) {
                Some(arguments) => match extract_fn_types(arguments) {
                    Ok((fn_args, fn_ret)) => {
                        let callback = NapiFnArgKind::Callback(
                            CallbackArg { pat: pat.clone(), args: fn_args, ret: fn_ret },
                        );
                        let ghost view = callback@;
                        args.push(callback);
                        proof {
                            assert(arg_views(args@) =~= before.push(view));
                        }
                    },
                    Err(d) => {
                        errors.push(d.errors[0]);
                    },
                },
                None => {
                    let plain = NapiFnArgKind::PatType(
                        PatType { pat: pat.clone(), ty: replace_self(ty, parent) },
                    );
                    let ghost view = plain@;
                    args.push(plain);
                    proof {
                        assert(arg_views(args@) =~= before.push(view));
                    }
                },
            }
        },
        FnArg::Receiver { reference, mutability, span } => {
            if parent.is_none() {
                errors.push(SpannedError { span: *span, kind: ErrorKind::SelfArgument });
            } else if fn_self.is_some() {
                errors.push(SpannedError { span: *span, kind: ErrorKind::DuplicateReceiver });
            } else if !*reference {
                errors.push(SpannedError { span: *span, kind: ErrorKind::SelfByValue });
            } else if *mutability {
                *fn_self = Some(FnSelf::MutRef);
            } else {
                *fn_self = Some(FnSelf::Ref);
            }
        },
    }
}

/// Compiles the signature of a function or method to a callable: `vis` is
/// the declared visibility and `parent` the record that a method belongs
/// to. The directives are looked at, and marked in `opts`, only when the
/// signature is without fault.
pub fn napi_fn_from_decl(
    sig: &Signature,
    opts: &mut BindgenAttrs,
    vis: Visibility,
    parent: Option<&Ident>,
) -> (r: BindgenResult<NapiFn>)
    ensures
        match fn_ast(*sig, old(opts)@, vis, parent_text(parent)) {
            Ok(f) => r matches Ok(x) && x@ == f,
            Err(e) => r matches Err(d) && d@ == e,
        },
        final(opts)@ == fn_opts(*sig, old(opts)@, parent_text(parent)),
        r matches Ok(x) ==> x@.js_name.len() > 0,
{
    let callback_traits = match extract_fn_closure_generics(&sig.generics) {
        Ok(map) => map,
        Err(d) => {
            return Err(d);
        },
    };
    let mut errors: Vec<SpannedError> = Vec::new();
    let mut fn_self: Option<FnSelf> = None;
    let mut args: Vec<NapiFnArgKind> = Vec::new();
    let mut i: usize = 0;
    proof {
        assert(sig.inputs@.take(0) =~= Seq::empty());
        assert(arg_views(args@) =~= Seq::empty());
    }
    while i < sig.inputs.len()
        invariant
            i <= sig.inputs@.len(),
            (Params { args: arg_views(args@), errors: errors@, fn_self }) == read_params(
                sig.inputs@.take(i as int),
                callback_traits@,
                parent_text(parent),
            ),
        decreases sig.inputs@.len() - i,
    {
        proof {
            assert(sig.inputs@.take(i + 1).drop_last() =~= sig.inputs@.take(i as int));
            assert(sig.inputs@.take(i + 1).last() == sig.inputs@[i as int]);
        }
        read_fn_arg(&sig.inputs[i], &callback_traits, parent, &mut args, &mut errors, &mut fn_self);
        i = i + 1;
    }
    proof {
        assert(sig.inputs@.take(i as int) =~= sig.inputs@);
    }
    match Diagnostic::from_errors(errors) {
        Ok(()) => {},
        Err(d) => {
            return Err(d);
        },
    }
    let ret = match &sig.output {
        ReturnType::Default => None,
        ReturnType::Type(ty) => Some(replace_self(ty, parent)),
    };
    let js_name = fn_js_name(&sig.ident, opts);
    let kind = fn_kind(opts);
    let strict = opts.strict().is_some();
    let js_name = match check_name(js_name, sig.ident.span) {
        Ok(js_name) => js_name,
        Err(d) => {
            return Err(d);
        },
    };
    let parent_name = match parent {
        Some(i) => Some(i.text.clone()),
        None => None,
    };
    Ok(
        NapiFn {
            name: sig.ident.text.clone(),
            js_name,
            args,
            ret,
            is_async: sig.asyncness,
            vis,
            kind,
            fn_self,
            parent: parent_name,
            strict,
        },
    )
}

/// What the function `item` compiles to under the directives `opts`.
pub open spec fn item_fn_ast(item: ItemFn, opts: BindgenAttrsView) -> Result<
    NapiView,
    Seq<SpannedError>,
> {
    match fn_ast(item.sig, opts, item.vis, None) {
        Ok(f) => Ok(NapiView { comments: Seq::empty(), item: NapiItemView::Fn(f) }),
        Err(e) => Err(e),
    }
}

impl ConvertToAST for ItemFn {
    open spec fn converted(
        &self,
        opts: BindgenAttrsView,
        registry: Seq<(Seq<char>, Seq<char>)>,
    ) -> Outcome {
        Outcome {
            result: item_fn_ast(*self, opts),
            opts: fn_opts(self.sig, opts, None),
            registry,
        }
    }

    fn convert_to_ast(&self, opts: &mut BindgenAttrs, registry: &mut Registry) -> (r:
        BindgenResult<Napi>) {
        let func = match napi_fn_from_decl(&self.sig, opts, self.vis, None) {
            Ok(func) => func,
            Err(d) => {
                return Err(d);
            },
        };
        let comments: Vec<String> = Vec::new();
        assert(texts(comments@) =~= Seq::empty());
        Ok(Napi { comments, item: NapiItem::Fn(func) })
    }
}

/// Only a method has a receiver: what the parameters give as the receiver
/// is nothing where there is no owning record.
proof fn lemma_receiver_of_params(
    inputs: Seq<FnArg>,
    callbacks: Seq<(Seq<char>, PathArguments)>,
    parent: Option<Seq<char>>,
)
    requires
        parent is None,
    ensures
        read_params(inputs, callbacks, parent).fn_self is None,
    decreases inputs.len(),
{
    if inputs.len() > 0 {
        lemma_receiver_of_params(inputs.drop_last(), callbacks, parent);
    }
}

/// The external name of a callable is never empty.
pub proof fn lemma_callable_is_named(
    sig: Signature,
    opts: BindgenAttrsView,
    vis: Visibility,
    parent: Option<Seq<char>>,
)
    ensures
        fn_ast(sig, opts, vis, parent) matches Ok(f) ==> f.js_name.len() > 0,
{
}

/// A callable says how its receiver is taken only when it says which record
/// it belongs to.
pub proof fn lemma_receiver_needs_owner(
    sig: Signature,
    opts: BindgenAttrsView,
    vis: Visibility,
    parent: Option<Seq<char>>,
)
    ensures
        fn_ast(sig, opts, vis, parent) matches Ok(f) ==> (f.fn_self is Some ==> f.parent is Some),
{
    if parent is None {
        lemma_receiver_of_params(sig.inputs@, closure_generics(sig.generics), parent);
    }
}

/// A getter or a setter whose directive gives no name is named by its own
/// name without the prefix, in camel case, whatever override of the name
/// stands beside the directive.
pub proof fn lemma_accessor_name_drops_prefix(ident: Seq<char>, opts: BindgenAttrsView)
    ensures
        opts.getter() == Some(None::<(Seq<char>, crate::span::Span)>) ==> callable_name(ident, opts)
            == converted_case(trimmed_start(ident, "get_"@), Case::Camel),
        opts.getter() is None && opts.setter() == Some(None::<(Seq<char>, crate::span::Span)>)
            ==> callable_name(ident, opts) == converted_case(
            trimmed_start(ident, "set_"@),
            Case::Camel,
        ),
{
}

} // verus!
