// Tests of the builders on declarations written as source text: `syn`
// parses the text, and the helpers below turn its syntax trees into the
// declarations that the library reads.

use napi_parser::ast::{
    CallbackArg, FnKind, FnSelf, Member, Napi, NapiEnum, NapiFn, NapiFnArgKind, NapiImpl, NapiItem,
    NapiStruct, NapiStructField, PatType,
};
use napi_parser::attrs::BindgenAttrs;
use napi_parser::diagnostic::{Diagnostic, ErrorKind};
use napi_parser::parser::{ConvertToAST, ParseNapi};
use napi_parser::registry::Registry;
use napi_parser::span::Span;
use napi_parser::syntax::{
    Attribute, DirectiveList, Expr, ExprKind, Field, Fields, FnArg, GenericArgument, GenericParam,
    Generics, Ident, ImplItem, ImplItemMethod, Item, ItemEnum, ItemFn, ItemImpl, ItemStruct, Path,
    PathArguments, PathSegment, ReturnType, Signature, Type, TypeKind, TypeParamBound, Variant,
    Visibility, WherePredicate,
};
use napi_parser::token::{Delimiter, Lit, Token};
use quote::ToTokens;
use syn::spanned::Spanned;

/// The spans of the compiler, each under the number by which the library
/// knows it: the span numbered `k` is `Span { lo: k, hi: k + 1 }` there.
#[derive(Default)]
struct SpanTable {
    spans: Vec<proc_macro2::Span>,
}

impl SpanTable {
    /// Numbers `span`.
    fn intern(&mut self, span: proc_macro2::Span) -> Span {
        let k = self.spans.len();
        self.spans.push(span);
        Span { lo: k, hi: k + 1 }
    }

}

fn spelled<T: ToTokens>(node: &T) -> String {
    node.to_token_stream().to_string()
}

fn ident(table: &mut SpanTable, ident: &proc_macro2::Ident) -> Ident {
    Ident { text: ident.to_string(), span: table.intern(ident.span()) }
}

fn tokens(table: &mut SpanTable, stream: proc_macro2::TokenStream) -> Vec<Token> {
    stream
        .into_iter()
        .map(|tree| match tree {
            proc_macro2::TokenTree::Ident(i) => {
                Token::Ident { text: i.to_string(), span: table.intern(i.span()) }
            }
            proc_macro2::TokenTree::Punct(p) => Token::Punct {
                ch: p.as_char(),
                joint: p.spacing() == proc_macro2::Spacing::Joint,
                span: table.intern(p.span()),
            },
            proc_macro2::TokenTree::Literal(l) => Token::Literal {
                text: l.to_string(),
                lit: literal(&l),
                span: table.intern(l.span()),
            },
            proc_macro2::TokenTree::Group(g) => {
                let span = table.intern(g.span());
                Token::Group {
                    delimiter: match g.delimiter() {
                        proc_macro2::Delimiter::Parenthesis => Delimiter::Parenthesis,
                        proc_macro2::Delimiter::Brace => Delimiter::Brace,
                        proc_macro2::Delimiter::Bracket => Delimiter::Bracket,
                        proc_macro2::Delimiter::None => Delimiter::Invisible,
                    },
                    tokens: tokens(table, g.stream()),
                    span,
                }
            }
        })
        .collect()
}

// What `syn` reads a literal token as.
fn literal(token: &proc_macro2::Literal) -> Lit {
    match token.to_string().chars().next() {
        Some('"') | Some('r') | Some('-') | Some('0'..='9') => read(&syn::Lit::new(token.clone())),
        _ => Lit::Other,
    }
}

fn read(lit: &syn::Lit) -> Lit {
    match lit {
        syn::Lit::Str(s) => Lit::Str(s.value()),
        syn::Lit::Int(i) => Lit::Int(i.base10_digits().to_string()),
        _ => Lit::Other,
    }
}

fn visibility(vis: &syn::Visibility) -> Visibility {
    match vis {
        syn::Visibility::Public(_) => Visibility::Public,
        syn::Visibility::Crate(_) => Visibility::Crate,
        syn::Visibility::Restricted(_) => Visibility::Restricted,
        syn::Visibility::Inherited => Visibility::Inherited,
    }
}

fn attribute(table: &mut SpanTable, attr: &syn::Attribute) -> Attribute {
    Attribute {
        path: attr.path.segments.iter().map(|s| ident(table, &s.ident)).collect(),
        tokens: tokens(table, attr.tokens.clone()),
        span: table.intern(attr.span()),
    }
}

fn is_directive(attr: &syn::Attribute) -> bool {
    attr.path.is_ident("napi")
}

/// The attributes of a declaration without its directive lists.
fn attributes(table: &mut SpanTable, attrs: &[syn::Attribute]) -> Vec<Attribute> {
    attrs.iter().filter(|a| !is_directive(a)).map(|a| attribute(table, a)).collect()
}

/// The directive list among the attributes of a member, if it has one.
fn directives(table: &mut SpanTable, attrs: &[syn::Attribute]) -> Option<DirectiveList> {
    let attr = attrs.iter().find(|a| is_directive(a))?;
    let span = table.intern(attr.span());
    let inner = match attr.tokens.clone().into_iter().next() {
        Some(proc_macro2::TokenTree::Group(g)) => g.stream(),
        _ => proc_macro2::TokenStream::new(),
    };
    Some(DirectiveList { tokens: tokens(table, inner), span })
}

fn path(table: &mut SpanTable, path: &syn::Path) -> Path {
    Path {
        segments: path.segments.iter().map(|s| path_segment(table, s)).collect(),
        span: table.intern(path.span()),
    }
}

fn path_segment(table: &mut SpanTable, segment: &syn::PathSegment) -> PathSegment {
    PathSegment {
        ident: ident(table, &segment.ident),
        arguments: path_arguments(table, &segment.arguments),
        span: table.intern(segment.span()),
    }
}

fn path_arguments(table: &mut SpanTable, arguments: &syn::PathArguments) -> PathArguments {
    match arguments {
        syn::PathArguments::None => PathArguments::Absent,
        syn::PathArguments::AngleBracketed(a) => PathArguments::AngleBracketed {
            args: a
                .args
                .iter()
                .map(|arg| match arg {
                    syn::GenericArgument::Type(t) => GenericArgument::Type(ty(table, t)),
                    other => GenericArgument::Other { span: table.intern(other.span()) },
                })
                .collect(),
            span: table.intern(arguments.span()),
        },
        syn::PathArguments::Parenthesized(p) => PathArguments::Parenthesized {
            inputs: p.inputs.iter().map(|t| ty(table, t)).collect(),
            output: return_type(table, &p.output),
            span: table.intern(arguments.span()),
        },
    }
}

fn return_type(table: &mut SpanTable, output: &syn::ReturnType) -> ReturnType {
    match output {
        syn::ReturnType::Default => ReturnType::Default,
        syn::ReturnType::Type(_, t) => ReturnType::Type(Box::new(ty(table, t))),
    }
}

fn ty(table: &mut SpanTable, t: &syn::Type) -> Type {
    let kind = match t {
        syn::Type::Group(g) => TypeKind::Group(Box::new(ty(table, &g.elem))),
        syn::Type::Path(p) => TypeKind::Path { qself: p.qself.is_some(), path: path(table, &p.path) },
        _ => TypeKind::Other,
    };
    Type { text: spelled(t), span: table.intern(t.span()), kind }
}

fn bound(table: &mut SpanTable, b: &syn::TypeParamBound) -> TypeParamBound {
    match b {
        syn::TypeParamBound::Trait(t) => {
            TypeParamBound::Trait { path: path(table, &t.path), span: table.intern(b.span()) }
        }
        syn::TypeParamBound::Lifetime(l) => {
            TypeParamBound::Lifetime { ident: ident(table, &l.ident), span: table.intern(b.span()) }
        }
    }
}

fn generics(table: &mut SpanTable, g: &syn::Generics) -> Generics {
    Generics {
        params: g
            .params
            .iter()
            .map(|p| match p {
                syn::GenericParam::Type(t) => GenericParam::Type {
                    ident: ident(table, &t.ident),
                    bounds: t.bounds.iter().map(|b| bound(table, b)).collect(),
                    span: table.intern(p.span()),
                },
                other => GenericParam::Other { span: table.intern(other.span()) },
            })
            .collect(),
        where_clause: g.where_clause.as_ref().map(|w| {
            w.predicates
                .iter()
                .map(|p| match p {
                    syn::WherePredicate::Type(t) => WherePredicate::Type {
                        bounded_ty: ty(table, &t.bounded_ty),
                        bounds: t.bounds.iter().map(|b| bound(table, b)).collect(),
                        span: table.intern(p.span()),
                    },
                    other => WherePredicate::Other { span: table.intern(other.span()) },
                })
                .collect()
        }),
    }
}

fn signature(table: &mut SpanTable, sig: &syn::Signature) -> Signature {
    Signature {
        ident: ident(table, &sig.ident),
        asyncness: sig.asyncness.is_some(),
        inputs: sig
            .inputs
            .iter()
            .map(|arg| match arg {
                syn::FnArg::Receiver(r) => FnArg::Receiver {
                    reference: r.reference.is_some(),
                    mutability: r.mutability.is_some(),
                    span: table.intern(r.span()),
                },
                syn::FnArg::Typed(p) => FnArg::Typed {
                    pat: spelled(&p.pat),
                    ty: ty(table, &p.ty),
                    span: table.intern(p.span()),
                },
            })
            .collect(),
        output: return_type(table, &sig.output),
        generics: generics(table, &sig.generics),
    }
}

fn expr(table: &mut SpanTable, e: &syn::Expr) -> Expr {
    let kind = match e {
        syn::Expr::Group(g) => ExprKind::Group(Box::new(expr(table, &g.expr))),
        syn::Expr::Unary(syn::ExprUnary { op: syn::UnOp::Neg(_), expr: operand, .. }) => {
            ExprKind::Neg(Box::new(expr(table, operand)))
        }
        syn::Expr::Lit(l) => ExprKind::Lit { lit: read(&l.lit), span: table.intern(l.lit.span()) },
        _ => ExprKind::Other,
    };
    Expr { span: table.intern(e.span()), kind }
}

fn item_fn(table: &mut SpanTable, f: &syn::ItemFn) -> ItemFn {
    ItemFn {
        attrs: attributes(table, &f.attrs),
        vis: visibility(&f.vis),
        sig: signature(table, &f.sig),
        span: table.intern(f.span()),
    }
}

fn item_struct(table: &mut SpanTable, s: &syn::ItemStruct) -> ItemStruct {
    ItemStruct {
        attrs: attributes(table, &s.attrs),
        vis: visibility(&s.vis),
        ident: ident(table, &s.ident),
        fields: s
            .fields
            .iter()
            .map(|f| Field {
                directives: directives(table, &f.attrs),
                vis: visibility(&f.vis),
                ident: f.ident.as_ref().map(|i| ident(table, i)),
                ty: ty(table, &f.ty),
            })
            .collect(),
        span: table.intern(s.span()),
    }
}

fn item_impl(table: &mut SpanTable, i: &syn::ItemImpl) -> ItemImpl {
    ItemImpl {
        attrs: attributes(table, &i.attrs),
        self_ty: ty(table, &i.self_ty),
        items: i
            .items
            .iter()
            .map(|member| match member {
                syn::ImplItem::Method(m) => ImplItem::Method(ImplItemMethod {
                    directives: directives(table, &m.attrs),
                    attrs: attributes(table, &m.attrs),
                    vis: visibility(&m.vis),
                    sig: signature(table, &m.sig),
                    span: table.intern(m.span()),
                }),
                other => ImplItem::Other { span: table.intern(other.span()) },
            })
            .collect(),
        span: table.intern(i.span()),
    }
}

fn item_enum(table: &mut SpanTable, e: &syn::ItemEnum) -> ItemEnum {
    ItemEnum {
        attrs: attributes(table, &e.attrs),
        vis: visibility(&e.vis),
        ident: ident(table, &e.ident),
        variants: e
            .variants
            .iter()
            .map(|v| Variant {
                attrs: attributes(table, &v.attrs),
                ident: ident(table, &v.ident),
                fields: match &v.fields {
                    syn::Fields::Unit => Fields::Unit,
                    other => Fields::Structured { span: table.intern(other.span()) },
                },
                discriminant: v.discriminant.as_ref().map(|(_, d)| expr(table, d)),
            })
            .collect(),
        span: table.intern(e.span()),
    }
}

fn item(table: &mut SpanTable, i: &syn::Item) -> Item {
    match i {
        syn::Item::Fn(f) => Item::Fn(item_fn(table, f)),
        syn::Item::Struct(s) => Item::Struct(item_struct(table, s)),
        syn::Item::Impl(b) => Item::Impl(item_impl(table, b)),
        syn::Item::Enum(e) => Item::Enum(item_enum(table, e)),
        other => Item::Other { span: table.intern(other.span()) },
    }
}

fn declaration(source: &str) -> Item {
    let parsed: syn::Item = syn::parse_str(source).expect("the source of a declaration");
    item(&mut SpanTable::default(), &parsed)
}

fn directive_tokens(source: &str) -> Vec<Token> {
    let stream: proc_macro2::TokenStream = source.parse().expect("the source of a directive list");
    tokens(&mut SpanTable::default(), stream)
}

fn options(source: &str) -> BindgenAttrs {
    BindgenAttrs::parse(&directive_tokens(source), Span { lo: 0, hi: 0 }).expect("a directive list")
}

fn compile(source: &str, directives: &str, registry: &mut Registry) -> Result<Napi, Diagnostic> {
    let mut preserved = Vec::new();
    declaration(source).parse_napi(&mut preserved, &mut options(directives), registry)
}

fn compile_alone(source: &str, directives: &str) -> Result<Napi, Diagnostic> {
    compile(source, directives, &mut Registry::new())
}

fn kinds(result: Result<Napi, Diagnostic>) -> Vec<ErrorKind> {
    match result {
        Ok(napi) => panic!("compiled to {:?}", napi),
        Err(d) => d.errors.iter().map(|e| e.kind).collect(),
    }
}

fn compiled_enum(source: &str, directives: &str) -> NapiEnum {
    match compile_alone(source, directives) {
        Ok(Napi { item: NapiItem::Enum(e), .. }) => e,
        other => panic!("not an enumeration: {:?}", other),
    }
}

fn compiled_fn(source: &str, directives: &str) -> NapiFn {
    match compile_alone(source, directives) {
        Ok(Napi { item: NapiItem::Fn(f), .. }) => f,
        other => panic!("not a callable: {:?}", other),
    }
}

fn compiled_struct(source: &str, directives: &str) -> NapiStruct {
    match compile_alone(source, directives) {
        Ok(Napi { item: NapiItem::Struct(s), .. }) => s,
        other => panic!("not a record: {:?}", other),
    }
}

fn compiled_impl(source: &str, registry: &mut Registry) -> NapiImpl {
    match compile(source, "", registry) {
        Ok(Napi { item: NapiItem::Impl(i), .. }) => i,
        other => panic!("not a method block: {:?}", other),
    }
}

fn values(e: &NapiEnum) -> Vec<(String, i32)> {
    e.variants.iter().map(|v| (v.name.clone(), v.val)).collect()
}

fn named(pairs: &[(&str, i32)]) -> Vec<(String, i32)> {
    pairs.iter().map(|(n, v)| (n.to_string(), *v)).collect()
}

fn plain(pat: &str, ty: &str) -> NapiFnArgKind {
    NapiFnArgKind::PatType(PatType { pat: pat.to_string(), ty: ty.to_string() })
}

fn callback(pat: &str, args: &[&str], ret: Option<&str>) -> NapiFnArgKind {
    NapiFnArgKind::Callback(CallbackArg {
        pat: pat.to_string(),
        args: args.iter().map(|a| a.to_string()).collect(),
        ret: ret.map(|r| r.to_string()),
    })
}

fn registry_with(name: &str, js_name: &str) -> Registry {
    Registry { records: vec![(name.to_string(), js_name.to_string())] }
}

// Enumerations

#[test]
fn enum_with_an_explicit_value_in_the_middle() {
    let e = compiled_enum("pub enum E { A, B = 5, C }", "");
    assert_eq!(values(&e), named(&[("A", 0), ("B", 5), ("C", 6)]));
}

#[test]
fn enum_that_starts_below_zero() {
    let e = compiled_enum("pub enum E { A = -2, B }", "");
    assert_eq!(values(&e), named(&[("A", -2), ("B", -1)]));
}

#[test]
fn enum_without_explicit_values_counts_up_from_zero() {
    let e = compiled_enum("pub enum E { A, B, C, D }", "");
    assert_eq!(values(&e), named(&[("A", 0), ("B", 1), ("C", 2), ("D", 3)]));
}

#[test]
fn enum_value_after_an_explicit_one_is_one_more() {
    let e = compiled_enum("pub enum E { A = 10, B, C = 3, D, E = -7, F }", "");
    assert_eq!(
        values(&e),
        named(&[("A", 10), ("B", 11), ("C", 3), ("D", 4), ("E", -7), ("F", -6)])
    );
}

#[test]
fn enum_values_in_other_bases_and_with_suffixes() {
    let e = compiled_enum("pub enum E { A = 0x10, B = 0b101, C = 1_000i32, D = 0o17 }", "");
    assert_eq!(values(&e), named(&[("A", 16), ("B", 5), ("C", 1000), ("D", 15)]));
}

#[test]
fn enum_values_at_the_limits() {
    let e = compiled_enum("pub enum E { A = 2147483647, B = -2147483647 }", "");
    assert_eq!(values(&e), named(&[("A", 2147483647), ("B", -2147483647)]));
}

#[test]
fn enum_value_that_does_not_fit() {
    assert_eq!(
        kinds(compile_alone("pub enum E { A = 2147483648 }", "")),
        vec![ErrorKind::DiscriminantOutOfRange]
    );
    assert_eq!(
        kinds(compile_alone("pub enum E { A = -2147483648 }", "")),
        vec![ErrorKind::DiscriminantOutOfRange]
    );
    assert_eq!(
        kinds(compile_alone("pub enum E { A = 2147483647, B }", "")),
        vec![ErrorKind::DiscriminantOutOfRange]
    );
}

#[test]
fn enum_value_that_is_not_an_integer_literal() {
    for source in [
        "pub enum E { A = 1 + 1 }",
        "pub enum E { A = \"one\" }",
        "pub enum E { A = 1.5 }",
        "pub enum E { A = X }",
        "pub enum E { A = !1 }",
    ] {
        assert_eq!(kinds(compile_alone(source, "")), vec![ErrorKind::DiscriminantNotLiteral]);
    }
}

#[test]
fn enum_has_to_be_public() {
    assert_eq!(kinds(compile_alone("enum E { A }", "")), vec![ErrorKind::NonPublicEnum]);
    assert_eq!(kinds(compile_alone("pub(crate) enum E { A }", "")), vec![ErrorKind::NonPublicEnum]);
}

#[test]
fn enum_has_to_have_variants() {
    assert_eq!(kinds(compile_alone("pub enum E {}", "")), vec![ErrorKind::EmptyEnum]);
}

#[test]
fn enum_variants_have_to_be_units() {
    assert_eq!(kinds(compile_alone("pub enum E { A, B(u8) }", "")), vec![ErrorKind::StructuredEnum]);
    assert_eq!(
        kinds(compile_alone("pub enum E { A { x: u8 } }", "")),
        vec![ErrorKind::StructuredEnum]
    );
}

#[test]
fn enum_names_and_documentation() {
    let source = "/// Kinds of thing.\npub enum Kind {\n /// The first.\n /// Still the first.\n One,\n Two }";
    match compile_alone(source, "js_name = \"Sort\"") {
        Ok(Napi { comments, item: NapiItem::Enum(e) }) => {
            assert_eq!(comments, vec![" Kinds of thing.".to_string()]);
            assert_eq!(e.name, "Kind");
            assert_eq!(e.js_name, "Sort");
            assert_eq!(
                e.variants[0].comments,
                vec![" The first.".to_string(), " Still the first.".to_string()]
            );
            assert!(e.variants[1].comments.is_empty());
        }
        other => panic!("not an enumeration: {:?}", other),
    }
    assert_eq!(compiled_enum("pub enum Kind { One }", "").js_name, "Kind");
}

#[test]
fn enum_marks_the_name_override_as_used() {
    let item = declaration("pub enum E { A }");
    let mut opts = options("js_name = \"F\", strict");
    let mut registry = Registry::new();
    let mut preserved = Vec::new();
    assert!(item.parse_napi(&mut preserved, &mut opts, &mut registry).is_ok());
    assert_eq!(opts.attrs.iter().map(|a| a.0).collect::<Vec<_>>(), vec![true, false]);
    assert_eq!(preserved.len(), 1);
    let unused = opts.check_used().unwrap_err();
    assert_eq!(unused.errors.len(), 1);
    assert_eq!(unused.errors[0].kind, ErrorKind::UnusedAttribute);
}

// Functions

#[test]
fn function_with_plain_arguments() {
    let f = compiled_fn("pub fn add_one(a: u32, b: Vec<u8>) -> u32 { a }", "");
    assert_eq!(
        f,
        NapiFn {
            name: "add_one".to_string(),
            js_name: "addOne".to_string(),
            args: vec![plain("a", "u32"), plain("b", "Vec < u8 >")],
            ret: Some("u32".to_string()),
            is_async: false,
            vis: Visibility::Public,
            kind: FnKind::Normal,
            fn_self: None,
            parent: None,
            strict: false,
        }
    );
}

#[test]
fn function_that_is_async_private_and_strict() {
    let f = compiled_fn("async fn fetch() {}", "strict");
    assert!(f.is_async);
    assert!(f.strict);
    assert_eq!(f.vis, Visibility::Inherited);
    assert_eq!(f.ret, None);
    assert!(f.args.is_empty());
}

#[test]
fn getter_and_setter_names_lose_their_prefix() {
    assert_eq!(compiled_fn("pub fn get_count() {}", "getter").js_name, "count");
    assert_eq!(compiled_fn("pub fn set_count(v: u32) {}", "setter").js_name, "count");
    assert_eq!(compiled_fn("pub fn get_maxSize() {}", "getter").js_name, "maxSize");
    assert_eq!(compiled_fn("pub fn get_max_size() {}", "getter").js_name, "maxSize");
    assert_eq!(compiled_fn("pub fn get_get_x() {}", "getter").js_name, "x");
    assert_eq!(compiled_fn("pub fn set_count() {}", "getter").js_name, "setCount");
    assert_eq!(compiled_fn("pub fn get_count() {}", "").js_name, "getCount");
}

#[test]
fn getter_and_setter_names_can_be_given() {
    assert_eq!(compiled_fn("pub fn get_count() {}", "getter = total").js_name, "total");
    assert_eq!(compiled_fn("pub fn set_count() {}", "setter = total").js_name, "total");
    assert_eq!(
        compiled_fn("pub fn get_count() {}", "getter, js_name = \"ignored\"").js_name,
        "count"
    );
    assert_eq!(compiled_fn("pub fn get_count() {}", "getter, setter = other").js_name, "count");
}

#[test]
fn function_name_can_be_overridden() {
    assert_eq!(compiled_fn("pub fn do_it() {}", "js_name = \"run_it\"").js_name, "run_it");
    assert_eq!(compiled_fn("pub fn do_it() {}", "js_name = run_it").js_name, "run_it");
    assert_eq!(compiled_fn("pub fn do_it() {}", "js_name = \"a\\tb\"").js_name, "a\tb");
}

#[test]
fn function_name_that_cannot_be_converted() {
    assert_eq!(compiled_fn("pub fn größe() {}", "").js_name, "größe");
    assert_eq!(compiled_fn("pub fn größe_in_metern() {}", "").js_name, "größeInMetern");
    assert_eq!(compiled_fn("pub fn get_größe() {}", "getter").js_name, "größe");
    assert_eq!(compiled_fn("pub fn ñaBc() {}", "").js_name, "ñAbc");
    assert_eq!(kinds(compile_alone("pub fn aÉ() {}", "")), vec![ErrorKind::NameNotConvertible]);
    assert_eq!(kinds(compile_alone("pub fn 名aBc() {}", "")), vec![ErrorKind::NameNotConvertible]);
    assert_eq!(compiled_fn("pub fn aÉ() {}", "js_name = \"size\"").js_name, "size");
}

#[test]
fn roles_in_their_order_of_precedence() {
    assert_eq!(compiled_fn("pub fn f() {}", "").kind, FnKind::Normal);
    assert_eq!(compiled_fn("pub fn f() {}", "getter").kind, FnKind::Getter);
    assert_eq!(compiled_fn("pub fn f() {}", "setter").kind, FnKind::Setter);
    assert_eq!(compiled_fn("pub fn f() {}", "constructor").kind, FnKind::Constructor);
    assert_eq!(compiled_fn("pub fn f() {}", "setter, getter").kind, FnKind::Getter);
    assert_eq!(compiled_fn("pub fn f() {}", "getter, setter, constructor").kind, FnKind::Constructor);
}

#[test]
fn function_marks_the_directives_it_reads() {
    let item = declaration("pub fn f() {}");
    let mut opts = options("setter, js_name = x, readonly");
    let mut registry = Registry::new();
    match &item {
        Item::Fn(f) => assert!(f.convert_to_ast(&mut opts, &mut registry).is_ok()),
        _ => unreachable!(),
    }
    assert_eq!(opts.attrs.iter().map(|a| a.0).collect::<Vec<_>>(), vec![true, false, false]);
    let mut opts = options("js_name = x, skip");
    match &item {
        Item::Fn(f) => assert!(f.convert_to_ast(&mut opts, &mut registry).is_ok()),
        _ => unreachable!(),
    }
    assert_eq!(opts.attrs.iter().map(|a| a.0).collect::<Vec<_>>(), vec![true, false]);
}

#[test]
fn callback_with_a_return_value_and_without() {
    let f = compiled_fn(
        "pub fn each<F: Fn(i32) -> Result<i32, Error>>(cb: F, n: u8) {}",
        "",
    );
    assert_eq!(f.args, vec![callback("cb", &["i32"], Some("i32")), plain("n", "u8")]);
    let f = compiled_fn("pub fn each<F: Fn(i32) -> Result<(), Error>>(cb: F) {}", "");
    assert_eq!(f.args, vec![callback("cb", &["i32"], None)]);
    let f = compiled_fn("pub fn each<F: FnMut(String, u8) -> Result<()>>(cb: F) {}", "");
    assert_eq!(f.args, vec![callback("cb", &["String", "u8"], None)]);
    let f = compiled_fn("pub fn each<F: FnOnce>(cb: F) {}", "");
    assert_eq!(f.args, vec![callback("cb", &[], None)]);
    let f = compiled_fn("pub fn each<F: Fn(i32, bool)>(cb: F) {}", "");
    assert_eq!(f.args, vec![callback("cb", &["i32", "bool"], None)]);
}

#[test]
fn callback_bound_in_a_where_clause() {
    let f = compiled_fn(
        "pub fn each<F>(cb: F) where F: 'static + Send + Fn(u32) -> Result<Vec<u8>> {}",
        "",
    );
    assert_eq!(f.args, vec![callback("cb", &["u32"], Some("Vec < u8 >"))]);
}

#[test]
fn callback_bound_twice_takes_the_later_bound() {
    let f = compiled_fn(
        "pub fn each<F: Fn(u8) -> Result<u8>>(cb: F) where F: Fn(u16) -> Result<u16> {}",
        "",
    );
    assert_eq!(f.args, vec![callback("cb", &["u8"], Some("u8"))]);
}

#[test]
fn parameter_of_another_type_is_no_callback() {
    let f = compiled_fn("pub fn each<F: Fn() -> Result<()>>(cb: Option<F>, n: T) {}", "");
    assert_eq!(f.args, vec![plain("cb", "Option < F >"), plain("n", "T")]);
}

#[test]
fn callback_return_types_that_are_refused() {
    let cases = [
        ("pub fn f<F: Fn<(i32,)>>(cb: F) {}", ErrorKind::CallbackAngleBrackets),
        ("pub fn f<F: Fn() -> i32>(cb: F) {}", ErrorKind::CallbackReturnNotResult),
        ("pub fn f<F: Fn() -> std::result::Result<()>>(cb: F) {}", ErrorKind::CallbackReturnNotResult),
        ("pub fn f<F: Fn() -> (u8, u8)>(cb: F) {}", ErrorKind::CallbackReturnNotResult),
        ("pub fn f<F: Fn() -> Result>(cb: F) {}", ErrorKind::CallbackReturnArguments),
        ("pub fn f<F: Fn() -> Result<>>(cb: F) {}", ErrorKind::CallbackReturnArguments),
        ("pub fn f<F: Fn() -> Result<'static>>(cb: F) {}", ErrorKind::UnsupportedGenericType),
    ];
    for (source, kind) in cases {
        assert_eq!(kinds(compile_alone(source, "")), vec![kind], "{}", source);
    }
}

#[test]
fn malformed_callback_that_no_parameter_uses() {
    let f = compiled_fn("pub fn f<F: Fn(i32) -> bool>(n: u8) {}", "");
    assert_eq!(f.args, vec![plain("n", "u8")]);
}

#[test]
fn errors_in_the_parameters_come_together() {
    assert_eq!(
        kinds(compile_alone("pub fn f<F: Fn<i32>, G: Fn() -> u8>(a: F, n: u8, b: G, c: F) {}", "")),
        vec![
            ErrorKind::CallbackAngleBrackets,
            ErrorKind::CallbackReturnNotResult,
            ErrorKind::CallbackAngleBrackets
        ]
    );
}

#[test]
fn errors_in_the_generics_come_first_and_alone() {
    assert_eq!(
        kinds(compile_alone(
            "pub fn f<'a, T: 'a + 'static, const N: usize, F: Fn(i32)>(cb: F) where 'a: 'static, T: 'a {}",
            ""
        )),
        vec![
            ErrorKind::UnsupportedWherePredicate,
            ErrorKind::NonStaticLifetime,
            ErrorKind::UnsupportedGenericParam,
            ErrorKind::NonStaticLifetime,
            ErrorKind::UnsupportedGenericParam,
        ]
    );
}

#[test]
fn failed_function_leaves_the_directives_unread() {
    let item = declaration("pub fn f(self) {}");
    let mut opts = options("getter");
    let mut registry = Registry::new();
    let mut preserved = Vec::new();
    let result = item.parse_napi(&mut preserved, &mut opts, &mut registry);
    assert_eq!(kinds(result), vec![ErrorKind::SelfArgument]);
    assert!(!opts.attrs[0].0);
    assert_eq!(preserved.len(), 1);
}

#[test]
fn external_names_are_never_empty() {
    let empty = vec![ErrorKind::EmptyName];
    assert_eq!(kinds(compile_alone("pub fn f() {}", "js_name = \"\"")), empty);
    assert_eq!(kinds(compile_alone("pub fn __() {}", "")), empty);
    assert_eq!(kinds(compile_alone("pub fn get_() {}", "getter")), empty);
    assert_eq!(kinds(compile_alone("pub fn set_set_() {}", "setter")), empty);
    assert_eq!(compiled_fn("pub fn get_() {}", "getter = x").js_name, "x");
    assert_eq!(kinds(compile_alone("pub struct S;", "js_name = \"\"")), empty);
    assert_eq!(kinds(compile_alone("pub struct __;", "")), empty);
    assert_eq!(kinds(compile_alone("pub struct S { #[napi(js_name = \"\")] pub a: u8 }", "")), empty);
    assert_eq!(kinds(compile_alone("pub struct S(#[napi(js_name = \"\")] pub u8);", "")), empty);
    assert!(compile_alone("pub struct S { #[napi(js_name = \"\")] a: u8 }", "").is_ok());
    assert_eq!(kinds(compile_alone("pub enum E { A }", "js_name = \"\"")), empty);
    let source = "impl Foo { #[napi(constructor)] pub fn new() -> Self { Foo } }";
    assert_eq!(kinds(compile(source, "", &mut registry_with("Foo", ""))), empty);
    let mut registry = Registry::new();
    assert_eq!(kinds(compile("pub struct S;", "js_name = \"\"", &mut registry)), vec![ErrorKind::EmptyName]);
    assert!(registry.records.is_empty());
}

// Records

#[test]
fn record_with_named_fields() {
    let s = compiled_struct(
        "pub struct my_point { pub x: u32, y: u32, #[napi(js_name = \"zed\")] pub z: Vec<u8>, pub(crate) w: u8 }",
        "",
    );
    assert_eq!(
        s,
        NapiStruct {
            name: "my_point".to_string(),
            js_name: "MyPoint".to_string(),
            vis: Visibility::Public,
            fields: vec![
                NapiStructField {
                    name: Member::Named("x".to_string()),
                    js_name: "x".to_string(),
                    ty: "u32".to_string(),
                    getter: true,
                    setter: true,
                },
                NapiStructField {
                    name: Member::Named("z".to_string()),
                    js_name: "zed".to_string(),
                    ty: "Vec < u8 >".to_string(),
                    getter: true,
                    setter: true,
                },
            ],
            is_tuple: false,
            gen_default_ctor: false,
        }
    );
}

#[test]
fn record_with_positional_fields() {
    let s = compiled_struct("struct Pair(pub u32, u8, #[napi(js_name = second)] pub String);", "");
    assert!(s.is_tuple);
    assert_eq!(s.vis, Visibility::Inherited);
    assert_eq!(s.js_name, "Pair");
    let seen: Vec<(Member, String, String)> =
        s.fields.into_iter().map(|f| (f.name, f.js_name, f.ty)).collect();
    assert_eq!(
        seen,
        vec![
            (Member::Unnamed(0), "0".to_string(), "u32".to_string()),
            (Member::Unnamed(2), "second".to_string(), "String".to_string()),
        ]
    );
}

#[test]
fn record_whose_only_positional_field_is_private() {
    assert!(!compiled_struct("pub struct Hidden(u32);", "").is_tuple);
    assert!(!compiled_struct("pub struct Unit;", "").is_tuple);
}

#[test]
fn record_with_many_positional_fields() {
    let s = compiled_struct(
        "pub struct Wide(u8, u8, u8, u8, u8, u8, u8, u8, u8, u8, pub u8, u8, pub u8);",
        "",
    );
    let names: Vec<String> = s.fields.into_iter().map(|f| f.js_name).collect();
    assert_eq!(names, vec!["10".to_string(), "12".to_string()]);
}

#[test]
fn hidden_and_read_only_fields() {
    let s = compiled_struct(
        "pub struct S { #[napi(skip)] pub a: u8, #[napi(readonly)] pub b: u8, #[napi(readonly, skip)] pub c: u8, #[napi(skip, readonly)] pub d: u8, #[napi] pub e: u8 }",
        "",
    );
    let flags: Vec<(bool, bool)> = s.fields.iter().map(|f| (f.getter, f.setter)).collect();
    assert_eq!(flags, vec![(false, false), (true, false), (false, false), (false, false), (true, true)]);
}

#[test]
fn record_names_and_constructor() {
    let s = compiled_struct("pub struct http_client;", "constructor");
    assert_eq!(s.js_name, "HttpClient");
    assert!(s.gen_default_ctor);
    let s = compiled_struct("pub struct http_client;", "js_name = \"Client\"");
    assert_eq!(s.js_name, "Client");
    assert!(!s.gen_default_ctor);
    assert_eq!(compiled_struct("pub struct Größe;", "").js_name, "Größe");
    assert_eq!(kinds(compile_alone("pub struct aÉ;", "")), vec![ErrorKind::NameNotConvertible]);
}

#[test]
fn record_is_registered_under_its_external_name() {
    let mut registry = Registry::new();
    assert!(compile("pub struct my_point;", "", &mut registry).is_ok());
    assert!(compile("pub struct Other;", "js_name = \"Another\"", &mut registry).is_ok());
    assert_eq!(
        registry.records,
        vec![
            ("my_point".to_string(), "MyPoint".to_string()),
            ("Other".to_string(), "Another".to_string())
        ]
    );
    assert_eq!(registry.lookup("Other"), Some("Another".to_string()));
    assert_eq!(registry.lookup("Missing"), None);
}

#[test]
fn record_with_a_field_whose_directives_do_not_parse() {
    let mut registry = Registry::new();
    let result = compile("pub struct S { pub a: u8, #[napi(bogus)] pub b: u8 }", "", &mut registry);
    assert_eq!(kinds(result), vec![ErrorKind::UnknownAttribute]);
    assert!(registry.records.is_empty());
    assert!(compile("pub struct S { pub a: u8, #[napi(bogus)] b: u8 }", "", &mut registry).is_ok());
}

// Method blocks

#[test]
fn constructor_for_a_record_that_is_not_registered() {
    let mut registry = Registry::new();
    let result = compile(
        "impl Foo { #[napi(constructor)] pub fn new() -> Self { Foo } }",
        "",
        &mut registry,
    );
    assert_eq!(kinds(result), vec![ErrorKind::RecordNotRegistered]);
    assert!(registry.records.is_empty());
}

#[test]
fn methods_of_a_registered_record() {
    let mut registry = Registry::new();
    assert!(compile("pub struct foo_bar;", "", &mut registry).is_ok());
    let block = compiled_impl(
        "impl foo_bar {
            #[napi(constructor)] pub fn new(other: Self, n: Option<Self>) -> Self { loop {} }
            fn helper(&self) {}
            #[napi] pub fn len(&self) -> usize { 0 }
            #[napi(setter)] pub fn set_len(&mut self, len: usize) {}
            #[napi] pub async fn load(&self) -> Result<Self> { loop {} }
         }",
        &mut registry,
    );
    assert_eq!(block.name, "foo_bar");
    assert_eq!(block.js_name, "FooBar");
    let seen: Vec<(String, String, FnKind, Option<FnSelf>, Option<String>)> = block
        .items
        .iter()
        .map(|f| (f.name.clone(), f.js_name.clone(), f.kind, f.fn_self, f.ret.clone()))
        .collect();
    assert_eq!(
        seen,
        vec![
            ("new".to_string(), "new".to_string(), FnKind::Constructor, None, Some("foo_bar".to_string())),
            ("len".to_string(), "len".to_string(), FnKind::Normal, Some(FnSelf::Ref), Some("usize".to_string())),
            ("set_len".to_string(), "len".to_string(), FnKind::Setter, Some(FnSelf::MutRef), None),
            ("load".to_string(), "load".to_string(), FnKind::Normal, Some(FnSelf::Ref), Some("Result < Self >".to_string())),
        ]
    );
    assert_eq!(block.items[0].args, vec![plain("other", "foo_bar"), plain("n", "Option < Self >")]);
    assert!(block.items.iter().all(|f| f.parent == Some("foo_bar".to_string())));
    assert!(block.items[3].is_async);
}

#[test]
fn method_block_without_a_constructor_needs_no_registration() {
    let block = compiled_impl("impl Foo { #[napi] pub fn f(&self) {} }", &mut Registry::new());
    assert_eq!(block.js_name, "Foo");
    assert_eq!(block.items.len(), 1);
    let block = compiled_impl("impl Foo { pub fn f(&self) {} }", &mut Registry::new());
    assert!(block.items.is_empty());
}

#[test]
fn constructor_that_names_the_record() {
    let source = "impl Foo { #[napi(constructor, js_name = \"Bar\")] pub fn new() -> Self { Foo } }";
    let block = compiled_impl(source, &mut registry_with("Foo", "Bar"));
    assert_eq!(block.js_name, "Bar");
    assert_eq!(kinds(compile(source, "", &mut registry_with("Foo", "Foo"))), vec![ErrorKind::ExternalNameMismatch]);
}

#[test]
fn record_registered_twice_goes_by_the_later_name() {
    let mut registry = registry_with("Foo", "Old");
    registry.records.push(("Foo".to_string(), "New".to_string()));
    let block = compiled_impl("impl Foo { #[napi(constructor)] pub fn new() -> Self { Foo } }", &mut registry);
    assert_eq!(block.js_name, "New");
}

#[test]
fn method_block_targets_that_are_refused() {
    let cases = [
        ("impl Foo<T> { }", ErrorKind::PathWithTypeParameters),
        ("impl a::b<T>::Foo { }", ErrorKind::PathWithTypeParameters),
        ("impl [u8] { }", ErrorKind::UnsupportedSelfType),
        ("impl <T as Trait>::Out { }", ErrorKind::UnsupportedSelfType),
        ("impl Foo { const N: u8 = 1; }", ErrorKind::UnsupportedImplItem),
        ("impl Foo { #[napi] fn f(&self) {} }", ErrorKind::NonPublicMethod),
        ("impl Foo { #[napi] pub fn f(self) {} }", ErrorKind::SelfByValue),
        ("impl Foo { #[napi(what)] pub fn f(&self) {} }", ErrorKind::UnknownAttribute),
    ];
    for (source, kind) in cases {
        assert_eq!(kinds(compile_alone(source, "")), vec![kind], "{}", source);
    }
}

#[test]
fn method_block_for_a_qualified_path() {
    let block = compiled_impl("impl crate::shapes::Circle { #[napi] pub fn r(&self) {} }", &mut Registry::new());
    assert_eq!(block.name, "Circle");
    assert_eq!(block.items[0].parent, Some("Circle".to_string()));
}

#[test]
fn method_block_stops_at_the_first_method_at_fault() {
    let result = compile_alone(
        "impl Foo { #[napi] pub fn a(self) {} #[napi] fn b(&self) {} }",
        "",
    );
    assert_eq!(kinds(result), vec![ErrorKind::SelfByValue]);
}

// Classification

#[test]
fn other_declarations_carry_no_directives() {
    for source in ["const N: u8 = 1;", "trait T {}", "mod m {}", "type A = u8;", "use a::b;"] {
        let item = declaration(source);
        let mut preserved = Vec::new();
        let mut opts = options("strict");
        let result = item.parse_napi(&mut preserved, &mut opts, &mut Registry::new());
        assert_eq!(kinds(result), vec![ErrorKind::UnsupportedItem]);
        assert!(preserved.is_empty());
        assert!(!opts.attrs[0].0);
    }
}

#[test]
fn declaration_is_kept_whether_or_not_it_compiles() {
    for source in ["pub fn f(self) {}", "enum E {}", "impl Foo<T> {}", "pub struct aÉ;", "pub fn f() {}"] {
        let item = declaration(source);
        let mut preserved = vec![Span { lo: 7, hi: 9 }];
        let _ = item.parse_napi(&mut preserved, &mut options(""), &mut Registry::new());
        assert_eq!(preserved.len(), 2, "{}", source);
        assert_eq!(preserved[0], Span { lo: 7, hi: 9 });
    }
}
