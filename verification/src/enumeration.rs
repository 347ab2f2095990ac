//! Compiling an enumeration: its variants get their values, each the value
//! before it plus one unless the variant gives its own.

use crate::ast::{
    Napi, NapiEnum, NapiEnumVariant, NapiEnumVariantView, NapiEnumView, NapiItem, NapiItemView,
    NapiView, variant_views,
};
use crate::attrs::{BindgenAttrs, BindgenAttrsView, Shape};
use crate::diagnostic::{BindgenResult, Diagnostic, ErrorKind, SpannedError};
use crate::doc::{doc_comments, extract_doc_comments};
use crate::literal::{i32_of, parse_i32};
use crate::parser::{ConvertToAST, Outcome};
use crate::registry::Registry;
use crate::syntax::{Expr, ExprKind, Fields, ItemEnum, Variant, Visibility};
use crate::token::Lit;
use vstd::prelude::*;

verus! {

/// The expression inside the invisible groups round `expr`.
pub open spec fn ungrouped_expr(expr: Expr) -> Expr
    decreases expr,
{
    match expr.kind {
        ExprKind::Group(inner) => ungrouped_expr(*inner),
        _ => expr,
    }
}

/// The expression inside the invisible groups round `expr`.
pub fn get_expr(expr: &Expr) -> (r: &Expr)
    ensures
        *r == ungrouped_expr(*expr),
    decreases expr,
{
    match &expr.kind {
        ExprKind::Group(inner) => get_expr(inner),
        _ => expr,
    }
}

/// The value that the discriminant `expr` gives: an integer literal, or one
/// with a minus sign in front, that fits a signed 32-bit integer.
pub open spec fn discriminant(expr: Expr) -> Result<int, SpannedError> {
    let outer = ungrouped_expr(expr);
    let negative = outer.kind is Neg;
    let inner = match outer.kind {
        ExprKind::Neg(operand) => *operand,
        _ => outer,
    };
    match inner.kind {
        ExprKind::Lit { lit: Lit::Int(digits), span } => match i32_of(digits@) {
            None => Err(SpannedError { span, kind: ErrorKind::DiscriminantOutOfRange }),
            Some(v) => if !negative {
                Ok(v as int)
            } else if v == i32::MIN {
                Err(SpannedError { span, kind: ErrorKind::DiscriminantOutOfRange })
            } else {
                Ok(-v)
            },
        },
        _ => Err(SpannedError { span: expr.span, kind: ErrorKind::DiscriminantNotLiteral }),
    }
}

/// The value of the variant `v` that follows a variant of the value
/// `previous`.
pub open spec fn variant_value(v: Variant, previous: int) -> Result<int, SpannedError> {
    match v.fields {
        Fields::Structured { span } => Err(SpannedError { span, kind: ErrorKind::StructuredEnum }),
        Fields::Unit => match v.discriminant {
            Some(expr) => discriminant(expr),
            None => if previous + 1 > i32::MAX {
                Err(SpannedError { span: v.ident.span, kind: ErrorKind::DiscriminantOutOfRange })
            } else {
                Ok(previous + 1)
            },
        },
    }
}

/// The descriptors of `variants`, which follow a variant of the value
/// `previous`; the first variant at fault ends the compilation with its
/// error.
pub open spec fn variants_from(variants: Seq<Variant>, previous: int) -> Result<
    Seq<NapiEnumVariantView>,
    SpannedError,
>
    decreases variants.len(),
{
    if variants.len() == 0 {
        Ok(Seq::empty())
    } else {
        match variant_value(variants[0], previous) {
            Err(e) => Err(e),
            Ok(val) => match variants_from(variants.skip(1), val) {
                Err(e) => Err(e),
                Ok(rest) => Ok(
                    seq![
                        NapiEnumVariantView {
                            name: variants[0].ident.text@,
                            val,
                            comments: doc_comments(variants[0].attrs@),
                        },
                    ] + rest,
                ),
            },
        }
    }
}

/// The external name of a declaration named `ident`, which `opts` may
/// override.
pub open spec fn name_or_override(opts: BindgenAttrsView, ident: Seq<char>) -> Seq<char> {
    match opts.js_name() {
        Some((name, _)) => name,
        None => ident,
    }
}

/// What the enumeration `item` compiles to under the directives `opts`.
pub open spec fn enum_ast(item: ItemEnum, opts: BindgenAttrsView) -> Result<
    NapiView,
    Seq<SpannedError>,
> {
    if item.vis != Visibility::Public {
        Err(seq![SpannedError { span: item.span, kind: ErrorKind::NonPublicEnum }])
    } else if item.variants@.len() == 0 {
        Err(seq![SpannedError { span: item.span, kind: ErrorKind::EmptyEnum }])
    } else if name_or_override(opts, item.ident.text@).len() == 0 {
        Err(seq![SpannedError { span: item.ident.span, kind: ErrorKind::EmptyName }])
    } else {
        match variants_from(item.variants@, -1) {
            Err(e) => Err(seq![e]),
            Ok(variants) => Ok(
                NapiView {
                    comments: doc_comments(item.attrs@),
                    item: NapiItemView::Enum(
                        NapiEnumView {
                            name: item.ident.text@,
                            js_name: name_or_override(opts, item.ident.text@),
                            variants,
                        },
                    ),
                },
            ),
        }
    }
}

/// The directive set after the enumeration `item` was compiled under it:
/// the override of the name is looked at once the enumeration is known to
/// be public and to have variants.
pub open spec fn enum_opts(item: ItemEnum, opts: BindgenAttrsView) -> BindgenAttrsView {
    if item.vis != Visibility::Public || item.variants@.len() == 0 {
        opts
    } else {
        opts.touch("js_name"@, Shape::Str)
    }
}

/// Reads the value that a discriminant gives.
fn discriminant_value(expr: &Expr) -> (r: BindgenResult<i32>)
    ensures
        match discriminant(*expr) {
            Ok(v) => r matches Ok(x) && x == v,
            Err(e) => r matches Err(d) && d@ == seq![e],
        },
{
    let outer = get_expr(expr);
    let (negative, inner) = match &outer.kind {
        ExprKind::Neg(operand) => (true, &**operand),
        _ => (false, outer),
    };
    match &inner.kind {
        ExprKind::Lit { lit: Lit::Int(digits), span } => {
            match parse_i32(digits.as_str()) {
                None => Err(Diagnostic::spanned_error(*span, ErrorKind::DiscriminantOutOfRange)),
                Some(v) => {
                    if !negative {
                        Ok(v)
                    } else if v == i32::MIN {
                        Err(Diagnostic::spanned_error(*span, ErrorKind::DiscriminantOutOfRange))
                    } else {
                        Ok(-v)
                    }
                },
            }
        },
        _ => Err(Diagnostic::spanned_error(expr.span, ErrorKind::DiscriminantNotLiteral)),
    }
}

/// The value of the variant `v` that follows a variant of the value
/// `previous`.
fn value_of_variant(v: &Variant, previous: i32) -> (r: BindgenResult<i32>)
    ensures
        match variant_value(*v, previous as int) {
            Ok(val) => r matches Ok(x) && x == val,
            Err(e) => r matches Err(d) && d@ == seq![e],
        },
{
    match v.fields {
        Fields::Structured { span } => Err(
            Diagnostic::spanned_error(span, ErrorKind::StructuredEnum),
        ),
        Fields::Unit => match &v.discriminant {
            Some(expr) => discriminant_value(expr),
            None => {
                if previous == i32::MAX {
                    Err(Diagnostic::spanned_error(v.ident.span, ErrorKind::DiscriminantOutOfRange))
                } else {
                    Ok(previous + 1)
                }
            },
        },
    }
}

impl ConvertToAST for ItemEnum {
    open spec fn converted(
        &self,
        opts: BindgenAttrsView,
        registry: Seq<(Seq<char>, Seq<char>)>,
    ) -> Outcome {
        Outcome { result: enum_ast(*self, opts), opts: enum_opts(*self, opts), registry }
    }

    fn convert_to_ast(&self, opts: &mut BindgenAttrs, registry: &mut Registry) -> (r:
        BindgenResult<Napi>) {
        match self.vis {
            Visibility::Public => {},
            _ => {
                return Err(Diagnostic::spanned_error(self.span, ErrorKind::NonPublicEnum));
            },
        }
        if self.variants.len() == 0 {
            return Err(Diagnostic::spanned_error(self.span, ErrorKind::EmptyEnum));
        }
        let js_name = match opts.js_name() {
            Some((name, _)) => name,
            None => self.ident.text.clone(),
        };
        if js_name.as_str().is_empty() {
            return Err(Diagnostic::spanned_error(self.ident.span, ErrorKind::EmptyName));
        }
        let ghost start = self.converted(old(opts)@, old(registry)@);
        let mut last_variant_val: i32 = -1;
        let mut variants: Vec<NapiEnumVariant> = Vec::new();
        let mut i: usize = 0;
        proof {
            assert(self.variants@.skip(0) =~= self.variants@);
            let all = variants_from(self.variants@, -1);
            if all is Ok {
                assert(variant_views(variants@) + all->Ok_0 =~= all->Ok_0);
            }
        }
        while i < self.variants.len()
            invariant
                i <= self.variants@.len(),
                self.vis == Visibility::Public,
                self.variants@.len() > 0,
                js_name@.len() > 0,
                js_name@ == name_or_override(old(opts)@, self.ident.text@),
                start == self.converted(old(opts)@, old(registry)@),
                start.opts == opts@,
                start.registry == registry@,
                variants_from(self.variants@, -1) == (match variants_from(
                    self.variants@.skip(i as int),
                    last_variant_val as int,
                ) {
                    Ok(rest) => Ok(variant_views(variants@) + rest),
                    Err(e) => Err(e),
                }),
            decreases self.variants@.len() - i,
        {
            let v = &self.variants[i];
            proof {
                assert(self.variants@.skip(i as int)[0] == self.variants@[i as int]);
                assert(self.variants@.skip(i as int).skip(1) =~= self.variants@.skip(i + 1));
            }
            let val = match value_of_variant(v, last_variant_val) {
                Ok(val) => val,
                Err(d) => {
                    return Err(d);
                },
            };
            last_variant_val = val;
            let comments = extract_doc_comments(&v.attrs);
            let ghost before = variant_views(variants@);
            let variant = NapiEnumVariant { name: v.ident.text.clone(), val, comments };
            let ghost view = variant@;
            variants.push(variant);
            proof {
                assert(variant_views(variants@) =~= before.push(view));
                let rest = variants_from(self.variants@.skip(i + 1), val as int);
                if rest is Ok {
                    assert(before + (seq![view] + rest->Ok_0) =~= variant_views(variants@)
                        + rest->Ok_0);
                }
            }
            i = i + 1;
        }
        proof {
            assert(variant_views(variants@) + Seq::<NapiEnumVariantView>::empty()
                =~= variant_views(variants@));
        }
        let comments = extract_doc_comments(&self.attrs);
        Ok(
            Napi {
                comments,
                item: NapiItem::Enum(NapiEnum { name: self.ident.text.clone(), js_name, variants }),
            },
        )
    }
}

/// The external name of an enumeration is never empty.
pub proof fn lemma_enumeration_is_named(item: ItemEnum, opts: BindgenAttrsView)
    ensures
        enum_ast(item, opts) matches Ok(napi) ==> napi.item.well_named(),
{
}

/// The variants of a compiled enumeration are as many as were declared, and
/// the value of each is what [`variant_value`] gives after the value of the
/// variant before it, or after `previous` for the first.
proof fn lemma_values_chain(variants: Seq<Variant>, previous: int, i: int)
    requires
        variants_from(variants, previous) is Ok,
        0 <= i < variants.len(),
    ensures
        variants_from(variants, previous)->Ok_0.len() == variants.len(),
        variant_value(
            variants[i],
            if i == 0 {
                previous
            } else {
                variants_from(variants, previous)->Ok_0[i - 1].val
            },
        ) == Ok::<int, SpannedError>(variants_from(variants, previous)->Ok_0[i].val),
    decreases variants.len(),
{
    let first = variant_value(variants[0], previous)->Ok_0;
    let rest = variants.skip(1);
    lemma_values_len(rest, first);
    if i > 0 {
        lemma_values_chain(rest, first, i - 1);
        assert(rest[i - 1] == variants[i]);
    }
}

proof fn lemma_values_len(variants: Seq<Variant>, previous: int)
    requires
        variants_from(variants, previous) is Ok,
    ensures
        variants_from(variants, previous)->Ok_0.len() == variants.len(),
    decreases variants.len(),
{
    if variants.len() > 0 {
        lemma_values_len(variants.skip(1), variant_value(variants[0], previous)->Ok_0);
    }
}

/// Where no variant of an enumeration gives its own value, the values count
/// up from zero: the variant at `i` gets the value `i`, so that each value
/// is greater than the one before it.
pub proof fn lemma_implicit_values_count_up(variants: Seq<Variant>)
    requires
        forall|i: int| 0 <= i < variants.len() ==> (#[trigger] variants[i]).discriminant is None,
    ensures
        variants_from(variants, -1) matches Ok(vs) ==> vs.len() == variants.len() && (forall|
            i: int,
        |
            0 <= i < vs.len() ==> (#[trigger] vs[i]).val == i) && (forall|i: int, j: int|
            0 <= i < j < vs.len() ==> (#[trigger] vs[i]).val < (#[trigger] vs[j]).val),
{
    if variants_from(variants, -1) is Ok {
        let vs = variants_from(variants, -1)->Ok_0;
        lemma_values_len(variants, -1);
        assert forall|i: int| 0 <= i < vs.len() implies (#[trigger] vs[i]).val == i by {
            lemma_counts_up_to(variants, i);
        }
    }
}

proof fn lemma_counts_up_to(variants: Seq<Variant>, i: int)
    requires
        forall|k: int| 0 <= k < variants.len() ==> (#[trigger] variants[k]).discriminant is None,
        variants_from(variants, -1) is Ok,
        0 <= i < variants.len(),
    ensures
        variants_from(variants, -1)->Ok_0[i].val == i,
    decreases i,
{
    lemma_values_chain(variants, -1, i);
    if i > 0 {
        lemma_counts_up_to(variants, i - 1);
    }
}

/// A variant that gives its own value gets that value, and a variant after
/// it that gives none gets that value plus one: the variant at `i` gives the
/// value, the one at `i + 1` gives none.
pub proof fn lemma_value_follows_explicit(variants: Seq<Variant>, i: int)
    requires
        0 <= i,
        i + 1 < variants.len(),
        variants[i].discriminant is Some,
        variants[i + 1].discriminant is None,
    ensures
        variants_from(variants, -1) matches Ok(vs) ==> vs.len() == variants.len()
            && discriminant(variants[i].discriminant->0) == Ok::<int, SpannedError>(vs[i].val)
            && vs[i + 1].val == vs[i].val + 1,
{
    if variants_from(variants, -1) is Ok {
        lemma_values_chain(variants, -1, i);
        lemma_values_chain(variants, -1, i + 1);
    }
}

/// Whatever the variant before it is, a variant that gives no value of its
/// own gets the value before it plus one.
pub proof fn lemma_value_follows_previous(variants: Seq<Variant>, i: int)
    requires
        0 <= i,
        i + 1 < variants.len(),
        variants[i + 1].discriminant is None,
    ensures
        variants_from(variants, -1) matches Ok(vs) ==> vs.len() == variants.len() && vs[i + 1].val
            == vs[i].val + 1,
{
    if variants_from(variants, -1) is Ok {
        lemma_values_chain(variants, -1, i + 1);
    }
}

} // verus!
