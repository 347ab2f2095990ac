// Tests of literals, numbers, names in other cases, diagnostics and the
// runtime's value kinds.

use napi_parser::casing::{check_name, convert_case, is_convertible, trim_start_matches, Case};
use napi_parser::diagnostic::{Diagnostic, ErrorKind, SpannedError};
use napi_parser::enumeration::get_expr;
use napi_parser::function::{
    extract_fn_closure_generics, extract_fn_types, fn_kind, get_ty, napi_fn_from_decl, replace_self,
    CallbackTraits,
};
use napi_parser::ast::{FnKind, FnSelf};
use napi_parser::attrs::{clone_ident, AttrValue, BindgenAttr, BindgenAttrs};
use napi_parser::js_values::{JsUndefined, TypeName, Value, ValueType};
use napi_parser::literal::parse_i32;
use napi_parser::parser::ConvertToAST;
use napi_parser::token::Lit;
use napi_parser::method_block::extract_path_ident;
use napi_parser::registry::Registry;
use napi_parser::span::Span;
use napi_parser::syntax::{
    Expr, ExprKind, FnArg, GenericArgument, Generics, Ident, Path, PathArguments, PathSegment,
    ReturnType, Signature, Type, TypeKind, Visibility,
};
use napi_parser::text::{chars_of, str_eq, string_of, usize_to_string};

fn at(k: usize) -> Span {
    Span { lo: k, hi: k + 1 }
}

fn word(text: &str, k: usize) -> Ident {
    Ident { text: text.to_string(), span: at(k) }
}

fn segment(name: &str, arguments: PathArguments, k: usize) -> PathSegment {
    PathSegment { ident: word(name, k), arguments, span: at(k) }
}

fn path_type(text: &str, names: &[&str], k: usize) -> Type {
    Type {
        text: text.to_string(),
        span: at(k),
        kind: TypeKind::Path {
            qself: false,
            path: Path {
                segments: names.iter().map(|n| segment(n, PathArguments::Absent, k)).collect(),
                span: at(k),
            },
        },
    }
}

fn other_type(text: &str, k: usize) -> Type {
    Type { text: text.to_string(), span: at(k), kind: TypeKind::Other }
}

fn grouped(inner: Type, k: usize) -> Type {
    Type { text: format!("({})", inner.text), span: at(k), kind: TypeKind::Group(Box::new(inner)) }
}

fn flag(name: &str) -> (bool, BindgenAttr) {
    (false, BindgenAttr { name: name.to_string(), span: at(0), value: AttrValue::Flag })
}

fn accessor(name: &str) -> (bool, BindgenAttr) {
    (false, BindgenAttr { name: name.to_string(), span: at(0), value: AttrValue::OptionalIdent(None) })
}

fn no_generics() -> Generics {
    Generics { params: vec![], where_clause: None }
}

#[test]
fn decimal_spelling_of_signed_numbers() {
    assert_eq!(parse_i32("0"), Some(0));
    assert_eq!(parse_i32("42"), Some(42));
    assert_eq!(parse_i32("-42"), Some(-42));
    assert_eq!(parse_i32("+42"), Some(42));
    assert_eq!(parse_i32("-0"), Some(0));
    assert_eq!(parse_i32("0000000000000000007"), Some(7));
    assert_eq!(parse_i32("2147483647"), Some(i32::MAX));
    assert_eq!(parse_i32("-2147483648"), Some(i32::MIN));
}

#[test]
fn decimal_spelling_that_is_no_number() {
    for s in ["", "-", "+", "2147483648", "-2147483649", "99999999999999999999999", "1_000", " 1", "1 ", "0x10", "--1", "1-", "١"] {
        assert_eq!(parse_i32(s), None, "{}", s);
    }
}

#[test]
fn parse_i32_agrees_with_the_standard_library() {
    for s in ["0", "-0", "+7", "2147483647", "2147483648", "-2147483648", "-2147483649", "", "+", "12a", "00012"] {
        assert_eq!(parse_i32(s), s.parse::<i32>().ok(), "{}", s);
    }
}

#[test]
fn discriminants_are_read_from_their_digits() {
    let literal = |lit: Lit, k: usize| Expr { span: at(k), kind: ExprKind::Lit { lit, span: at(k + 100) } };
    let digits = |d: &str, k: usize| literal(Lit::Int(d.to_string()), k);
    let minus = |e: Expr, k: usize| Expr { span: at(k), kind: ExprKind::Neg(Box::new(e)) };
    let group = |e: Expr, k: usize| Expr { span: at(k), kind: ExprKind::Group(Box::new(e)) };
    let compile = |discriminant: Expr| {
        let item = napi_parser::syntax::ItemEnum {
            attrs: vec![],
            vis: Visibility::Public,
            ident: word("E", 0),
            variants: vec![
                napi_parser::syntax::Variant {
                    attrs: vec![],
                    ident: word("A", 1),
                    fields: napi_parser::syntax::Fields::Unit,
                    discriminant: Some(discriminant),
                },
                napi_parser::syntax::Variant {
                    attrs: vec![],
                    ident: word("B", 2),
                    fields: napi_parser::syntax::Fields::Unit,
                    discriminant: None,
                },
            ],
            span: at(3),
        };
        match item.convert_to_ast(&mut BindgenAttrs::new(), &mut Registry::new()) {
            Ok(napi_parser::ast::Napi { item: napi_parser::ast::NapiItem::Enum(e), .. }) => {
                Ok(e.variants.iter().map(|v| v.val).collect::<Vec<i32>>())
            }
            Ok(other) => panic!("not an enumeration: {:?}", other),
            Err(d) => Err(d.errors),
        }
    };
    assert_eq!(compile(digits("16", 10)), Ok(vec![16, 17]));
    assert_eq!(compile(minus(digits("16", 10), 11)), Ok(vec![-16, -15]));
    assert_eq!(compile(digits("-7", 10)), Ok(vec![-7, -6]));
    assert_eq!(compile(minus(digits("-7", 10), 11)), Ok(vec![7, 8]));
    assert_eq!(compile(digits("+3", 10)), Ok(vec![3, 4]));
    assert_eq!(compile(group(group(minus(digits("1", 10), 11), 12), 13)), Ok(vec![-1, 0]));
    assert_eq!(compile(digits("-2147483648", 10)), Ok(vec![i32::MIN, i32::MIN + 1]));
    let out_of_range = |k: usize| Err(vec![SpannedError { span: at(k), kind: ErrorKind::DiscriminantOutOfRange }]);
    let not_literal = |k: usize| Err(vec![SpannedError { span: at(k), kind: ErrorKind::DiscriminantNotLiteral }]);
    assert_eq!(compile(minus(digits("-2147483648", 10), 11)), out_of_range(110));
    assert_eq!(compile(digits("2147483648", 10)), out_of_range(110));
    assert_eq!(compile(digits("1_0", 10)), out_of_range(110));
    assert_eq!(compile(digits("", 10)), out_of_range(110));
    assert_eq!(compile(digits("2147483647", 10)), out_of_range(2));
    assert_eq!(compile(literal(Lit::Str("1".to_string()), 10)), not_literal(10));
    assert_eq!(compile(literal(Lit::Other, 10)), not_literal(10));
    assert_eq!(compile(minus(group(digits("1", 10), 11), 12)), not_literal(12));
    assert_eq!(compile(minus(minus(digits("1", 10), 11), 12)), not_literal(12));
    assert_eq!(compile(Expr { span: at(10), kind: ExprKind::Other }), not_literal(10));
}

#[test]
fn names_in_camel_and_pascal_case() {
    assert_eq!(convert_case("my_function_name", Case::Camel), Some("myFunctionName".to_string()));
    assert_eq!(convert_case("my_function_name", Case::Pascal), Some("MyFunctionName".to_string()));
    assert_eq!(convert_case("alreadyCamel", Case::Camel), Some("alreadyCamel".to_string()));
    assert_eq!(convert_case("HTTPServer", Case::Camel), Some("httpServer".to_string()));
    assert_eq!(convert_case("x", Case::Pascal), Some("X".to_string()));
    assert_eq!(convert_case("", Case::Camel), Some(String::new()));
    assert_eq!(convert_case("__", Case::Camel), Some(String::new()));
    assert_eq!(convert_case("naïve_name", Case::Camel), Some("naïveName".to_string()));
    assert_eq!(convert_case("größe", Case::Camel), Some("größe".to_string()));
    assert_eq!(convert_case("Größe", Case::Pascal), Some("Größe".to_string()));
    assert_eq!(convert_case("éaBc", Case::Camel), Some("éAbc".to_string()));
    assert_eq!(convert_case("aéB", Case::Pascal), Some("AéB".to_string()));
    assert_eq!(convert_case("aÉ", Case::Pascal), None);
    assert_eq!(convert_case("€aBc", Case::Camel), None);
    assert_eq!(convert_case("fine_€aBc", Case::Camel), None);
    assert_eq!(convert_case("é1", Case::Camel), Some("é1".to_string()));
    assert_eq!(convert_case("éé1x", Case::Camel), Some("éÉ1X".to_string()));
}

#[test]
fn names_that_can_be_cut_into_words() {
    for name in ["", "a", "plain_ascii", "HTTPServer2", "größe", "Größe", "ñaBc", "aéB", "é1", "-_ ", "x_名", "名_x9Y", "éé1x"] {
        assert!(is_convertible(name), "{}", name);
    }
    for name in ["aÉ", "€aBc", "名aBc", "ok_aÉ", "aÉ_ok", "1é", "名1x", "ÉÉé"] {
        assert!(!is_convertible(name), "{}", name);
    }
}

#[test]
fn external_name_is_given_and_not_empty() {
    assert_eq!(check_name(Some("name".to_string()), at(1)), Ok("name".to_string()));
    assert_eq!(
        check_name(Some(String::new()), at(1)).unwrap_err().errors,
        vec![SpannedError { span: at(1), kind: ErrorKind::EmptyName }]
    );
    assert_eq!(
        check_name(None, at(2)).unwrap_err().errors,
        vec![SpannedError { span: at(2), kind: ErrorKind::NameNotConvertible }]
    );
}

#[test]
fn prefix_is_taken_off_as_often_as_it_stands() {
    assert_eq!(trim_start_matches("get_count", "get_"), "count");
    assert_eq!(trim_start_matches("get_get_get_x", "get_"), "x");
    assert_eq!(trim_start_matches("get_", "get_"), "");
    assert_eq!(trim_start_matches("getter", "get_"), "getter");
    assert_eq!(trim_start_matches("ge", "get_"), "ge");
    assert_eq!(trim_start_matches("set_get_x", "get_"), "set_get_x");
    assert_eq!(trim_start_matches("anything", ""), "anything");
    assert_eq!(trim_start_matches("", "get_"), "");
    assert_eq!(trim_start_matches("ééé!", "é"), "!");
}

#[test]
fn characters_and_strings() {
    assert_eq!(chars_of("aé!"), vec!['a', 'é', '!']);
    assert_eq!(string_of(&vec!['a', 'é', '!', 'z'], 1, 3), "é!");
    assert_eq!(string_of(&vec!['a'], 1, 1), "");
    assert!(str_eq("same", "same"));
    assert!(!str_eq("same", "Same"));
    assert!(!str_eq("same", "sam"));
    assert!(str_eq("", ""));
}

#[test]
fn numbers_in_decimal_digits() {
    assert_eq!(usize_to_string(0), "0");
    assert_eq!(usize_to_string(7), "7");
    assert_eq!(usize_to_string(10), "10");
    assert_eq!(usize_to_string(1234567890), "1234567890");
    assert_eq!(usize_to_string(usize::MAX), usize::MAX.to_string());
}

#[test]
fn diagnostics_are_merged_in_order() {
    let a = SpannedError { span: at(1), kind: ErrorKind::SelfArgument };
    let b = SpannedError { span: at(2), kind: ErrorKind::EmptyEnum };
    let c = SpannedError { span: at(3), kind: ErrorKind::SelfArgument };
    assert_eq!(Diagnostic::from_vec(vec![]), Ok(()));
    assert_eq!(Diagnostic::from_errors(vec![]), Ok(()));
    assert_eq!(Diagnostic::spanned_error(at(1), ErrorKind::SelfArgument).errors, vec![a]);
    let merged = Diagnostic::from_vec(vec![
        Diagnostic { errors: vec![a, b] },
        Diagnostic { errors: vec![] },
        Diagnostic { errors: vec![c] },
    ])
    .unwrap_err();
    assert_eq!(merged.errors, vec![a, b, c]);
    assert_eq!(
        Diagnostic::from_vec(vec![Diagnostic { errors: vec![] }, Diagnostic { errors: vec![] }]),
        Ok(())
    );
    assert_eq!(Diagnostic::from_errors(vec![b, a]).unwrap_err().errors, vec![b, a]);
    assert!(merged.has(ErrorKind::EmptyEnum));
    assert!(!merged.has(ErrorKind::NonPublicEnum));
}

#[test]
fn every_kind_of_error_has_its_message() {
    assert_eq!(ErrorKind::UnknownAttribute.message(), "unknown attribute");
    assert_eq!(ErrorKind::ExpectedIdentifier.message(), "expected an identifier");
    assert_eq!(
        ErrorKind::PathWithTypeParameters.message(),
        "paths with type parameters are not supported yet"
    );
    assert_eq!(
        ErrorKind::DiscriminantNotLiteral.message(),
        "only signed 32-bit literal discriminants are supported"
    );
    assert!(ErrorKind::RecordNotRegistered.message().starts_with("record not registered"));
    let all = [
        ErrorKind::ExpectedIdentifier,
        ErrorKind::ExpectedEquals,
        ErrorKind::ExpectedComma,
        ErrorKind::ExpectedPath,
        ErrorKind::ExpectedExpression,
        ErrorKind::UnknownAttribute,
        ErrorKind::UnusedAttribute,
        ErrorKind::UnsupportedItem,
        ErrorKind::StructuredEnum,
        ErrorKind::EmptyEnum,
        ErrorKind::SelfArgument,
        ErrorKind::SelfByValue,
        ErrorKind::DuplicateReceiver,
        ErrorKind::PathWithTypeParameters,
        ErrorKind::EmptyPath,
        ErrorKind::UnsupportedSelfType,
        ErrorKind::UnsupportedImplItem,
        ErrorKind::UnsupportedWherePredicate,
        ErrorKind::UnsupportedGenericParam,
        ErrorKind::NonStaticLifetime,
        ErrorKind::CallbackAngleBrackets,
        ErrorKind::CallbackReturnNotResult,
        ErrorKind::CallbackReturnArguments,
        ErrorKind::UnsupportedGenericType,
        ErrorKind::NonPublicMethod,
        ErrorKind::NonPublicEnum,
        ErrorKind::DiscriminantOutOfRange,
        ErrorKind::DiscriminantNotLiteral,
        ErrorKind::RecordNotRegistered,
        ErrorKind::ExternalNameMismatch,
        ErrorKind::NameNotConvertible,
        ErrorKind::EmptyName,
    ];
    let mut messages: Vec<String> = all.iter().map(|k| k.message()).collect();
    assert!(messages.iter().all(|m| !m.is_empty()));
    messages.sort();
    messages.dedup();
    assert_eq!(messages.len(), all.len());
}

#[test]
fn type_inside_its_groups() {
    let inner = path_type("Foo", &["Foo"], 1);
    let ty = grouped(grouped(path_type("Foo", &["Foo"], 1), 2), 3);
    assert_eq!(get_ty(&ty), &inner);
    assert_eq!(get_ty(&inner), &inner);
}

#[test]
fn self_type_is_replaced_by_the_record() {
    let owner = word("Foo", 9);
    let bare = path_type("Self", &["Self"], 1);
    assert_eq!(replace_self(&bare, Some(&owner)), "Foo");
    assert_eq!(replace_self(&bare, None), "Self");
    assert_eq!(replace_self(&grouped(path_type("Self", &["Self"], 1), 2), Some(&owner)), "Foo");
    assert_eq!(replace_self(&grouped(path_type("Self", &["Self"], 1), 2), None), "(Self)");
    assert_eq!(replace_self(&grouped(path_type("u8", &["u8"], 1), 2), Some(&owner)), "u8");
    assert_eq!(replace_self(&path_type("Self :: Item", &["Self", "Item"], 1), Some(&owner)), "Self :: Item");
    assert_eq!(replace_self(&other_type("& Self", 1), Some(&owner)), "& Self");
    let mut qualified = path_type("< Self >", &["Self"], 1);
    if let TypeKind::Path { qself, .. } = &mut qualified.kind {
        *qself = true;
    }
    assert_eq!(replace_self(&qualified, Some(&owner)), "< Self >");
    let mut with_arguments = path_type("Self < T >", &["Self"], 1);
    if let TypeKind::Path { path, .. } = &mut with_arguments.kind {
        path.segments[0].arguments = PathArguments::AngleBracketed { args: vec![], span: at(4) };
    }
    assert_eq!(replace_self(&with_arguments, Some(&owner)), "Foo");
}

#[test]
fn expression_inside_its_groups() {
    let lit = Expr { span: at(1), kind: ExprKind::Lit { lit: Lit::Int("1".to_string()), span: at(1) } };
    let inner = Expr { span: at(1), kind: ExprKind::Lit { lit: Lit::Int("1".to_string()), span: at(1) } };
    let outer = Expr {
        span: at(3),
        kind: ExprKind::Group(Box::new(Expr { span: at(2), kind: ExprKind::Group(Box::new(inner)) })),
    };
    assert_eq!(get_expr(&outer), &lit);
    let negated = Expr { span: at(4), kind: ExprKind::Neg(Box::new(outer)) };
    assert_eq!(get_expr(&negated), &negated);
}

#[test]
fn last_identifier_of_a_path() {
    let path = Path {
        segments: vec![segment("a", PathArguments::Absent, 1), segment("B", PathArguments::Absent, 2)],
        span: at(0),
    };
    assert_eq!(extract_path_ident(&path), Ok(&word("B", 2)));
    let empty = Path { segments: vec![], span: at(5) };
    assert_eq!(
        extract_path_ident(&empty).unwrap_err().errors,
        vec![SpannedError { span: at(5), kind: ErrorKind::EmptyPath }]
    );
    let generic = Path {
        segments: vec![
            segment("a", PathArguments::AngleBracketed { args: vec![], span: at(7) }, 1),
            segment("B", PathArguments::Absent, 2),
        ],
        span: at(6),
    };
    assert_eq!(
        extract_path_ident(&generic).unwrap_err().errors,
        vec![SpannedError { span: at(6), kind: ErrorKind::PathWithTypeParameters }]
    );
}

#[test]
fn types_of_a_callback() {
    assert_eq!(extract_fn_types(&PathArguments::Absent), Ok((vec![], None)));
    let result = |args: Vec<GenericArgument>| Type {
        text: "Result < .. >".to_string(),
        span: at(20),
        kind: TypeKind::Path {
            qself: false,
            path: Path {
                segments: vec![segment("Result", PathArguments::AngleBracketed { args, span: at(22) }, 21)],
                span: at(20),
            },
        },
    };
    let takes = |output: ReturnType| PathArguments::Parenthesized {
        inputs: vec![path_type("i32", &["i32"], 10), other_type("& str", 11)],
        output,
        span: at(12),
    };
    let returns = |args: Vec<GenericArgument>| takes(ReturnType::Type(Box::new(result(args))));
    assert_eq!(
        extract_fn_types(&returns(vec![GenericArgument::Type(path_type("u8", &["u8"], 30))])),
        Ok((vec!["i32".to_string(), "& str".to_string()], Some("u8".to_string())))
    );
    assert_eq!(
        extract_fn_types(&returns(vec![
            GenericArgument::Type(other_type("()", 30)),
            GenericArgument::Other { span: at(31) }
        ])),
        Ok((vec!["i32".to_string(), "& str".to_string()], None))
    );
    let error = |arguments: &PathArguments| extract_fn_types(arguments).unwrap_err().errors;
    assert_eq!(
        error(&returns(vec![GenericArgument::Other { span: at(31) }])),
        vec![SpannedError { span: at(31), kind: ErrorKind::UnsupportedGenericType }]
    );
    assert_eq!(
        error(&returns(vec![])),
        vec![SpannedError { span: at(21), kind: ErrorKind::CallbackReturnArguments }]
    );
    assert_eq!(
        extract_fn_types(&takes(ReturnType::Default)),
        Ok((vec!["i32".to_string(), "& str".to_string()], None))
    );
    assert_eq!(
        error(&takes(ReturnType::Type(Box::new(path_type("i32", &["i32"], 40))))),
        vec![SpannedError { span: at(40), kind: ErrorKind::CallbackReturnNotResult }]
    );
    assert_eq!(
        error(&takes(ReturnType::Type(Box::new(path_type("Result", &["Result"], 41))))),
        vec![SpannedError { span: at(41), kind: ErrorKind::CallbackReturnArguments }]
    );
    assert_eq!(
        error(&takes(ReturnType::Type(Box::new(grouped(result(vec![]), 42))))),
        vec![SpannedError { span: at(42), kind: ErrorKind::CallbackReturnNotResult }]
    );
    assert_eq!(
        error(&PathArguments::AngleBracketed { args: vec![], span: at(50) }),
        vec![SpannedError { span: at(50), kind: ErrorKind::CallbackAngleBrackets }]
    );
}

#[test]
fn bounds_are_found_by_the_spelling_of_the_type() {
    let arguments = PathArguments::Absent;
    let other = PathArguments::AngleBracketed { args: vec![], span: at(1) };
    let mut traits = CallbackTraits::new();
    assert!(traits.get("F").is_none());
    traits.insert("F".to_string(), &other);
    traits.insert("G".to_string(), &other);
    traits.insert("F".to_string(), &arguments);
    assert_eq!(traits.get("F"), Some(&arguments));
    assert_eq!(traits.get("G"), Some(&other));
    assert!(traits.get("f").is_none());
}

#[test]
fn generics_without_parameters_are_not_scanned() {
    let generics = Generics {
        params: vec![],
        where_clause: Some(vec![napi_parser::syntax::WherePredicate::Other { span: at(1) }]),
    };
    let traits = extract_fn_closure_generics(&generics).ok().expect("no errors");
    assert!(traits.entries.is_empty());
}

#[test]
fn role_of_a_callable() {
    let mut opts = BindgenAttrs { exists: true, attrs: vec![accessor("setter"), flag("strict"), accessor("getter")] };
    assert_eq!(fn_kind(&mut opts), FnKind::Getter);
    assert_eq!(opts.attrs.iter().map(|a| a.0).collect::<Vec<_>>(), vec![true, false, true]);
    let mut opts = BindgenAttrs { exists: true, attrs: vec![flag("getter"), flag("constructor")] };
    assert_eq!(fn_kind(&mut opts), FnKind::Constructor);
    assert_eq!(opts.attrs.iter().map(|a| a.0).collect::<Vec<_>>(), vec![false, true]);
    assert_eq!(fn_kind(&mut BindgenAttrs::new()), FnKind::Normal);
}

#[test]
fn receivers_of_a_signature() {
    let receiver = |reference, mutability, k| FnArg::Receiver { reference, mutability, span: at(k) };
    let signature = |inputs| Signature {
        ident: word("f", 0),
        asyncness: false,
        inputs,
        output: ReturnType::Default,
        generics: no_generics(),
    };
    let owner = word("Foo", 9);
    let compile = |inputs, parent: Option<&Ident>| {
        napi_fn_from_decl(&signature(inputs), &mut BindgenAttrs::new(), Visibility::Public, parent)
    };
    assert_eq!(compile(vec![receiver(true, false, 1)], Some(&owner)).unwrap().fn_self, Some(FnSelf::Ref));
    assert_eq!(compile(vec![receiver(true, true, 1)], Some(&owner)).unwrap().fn_self, Some(FnSelf::MutRef));
    assert_eq!(compile(vec![], Some(&owner)).unwrap().fn_self, None);
    assert_eq!(
        compile(vec![receiver(false, true, 1)], Some(&owner)).unwrap_err().errors,
        vec![SpannedError { span: at(1), kind: ErrorKind::SelfByValue }]
    );
    assert_eq!(
        compile(vec![receiver(true, false, 1), receiver(true, true, 2)], None).unwrap_err().errors,
        vec![
            SpannedError { span: at(1), kind: ErrorKind::SelfArgument },
            SpannedError { span: at(2), kind: ErrorKind::SelfArgument }
        ]
    );
    assert_eq!(
        compile(
            vec![receiver(false, false, 1), receiver(true, false, 2), receiver(true, true, 3), receiver(false, false, 4)],
            Some(&owner)
        )
        .unwrap_err()
        .errors,
        vec![
            SpannedError { span: at(1), kind: ErrorKind::SelfByValue },
            SpannedError { span: at(3), kind: ErrorKind::DuplicateReceiver },
            SpannedError { span: at(4), kind: ErrorKind::DuplicateReceiver }
        ]
    );
}

#[test]
fn registry_checks_a_constructor() {
    let registry = Registry { records: vec![("Foo".to_string(), "Bar".to_string())] };
    let named = |name: &str| BindgenAttrs {
        exists: true,
        attrs: vec![(
            false,
            BindgenAttr {
                name: "js_name".to_string(),
                span: at(3),
                value: AttrValue::Str { value: name.to_string(), span: at(4) },
            },
        )],
    };
    let foo = word("Foo", 1);
    assert_eq!(registry.check_recorded_struct_for_impl(&foo, &mut BindgenAttrs::new()), Ok("Bar".to_string()));
    let mut opts = named("Bar");
    assert_eq!(registry.check_recorded_struct_for_impl(&foo, &mut opts), Ok("Bar".to_string()));
    assert!(opts.attrs[0].0);
    assert_eq!(
        registry.check_recorded_struct_for_impl(&foo, &mut named("Foo")).unwrap_err().errors,
        vec![SpannedError { span: at(4), kind: ErrorKind::ExternalNameMismatch }]
    );
    assert_eq!(
        registry.check_recorded_struct_for_impl(&word("Baz", 2), &mut named("Bar")).unwrap_err().errors,
        vec![SpannedError { span: at(2), kind: ErrorKind::RecordNotRegistered }]
    );
    let mut grown = Registry::new();
    grown.record_struct(&foo, "First".to_string());
    grown.record_struct(&foo, "Second".to_string());
    assert_eq!(grown.lookup("Foo"), Some("Second".to_string()));
    assert_eq!(grown.records.len(), 2);
}

#[test]
fn spans_and_identifiers() {
    assert_eq!(Span::new(3, 8), Span { lo: 3, hi: 8 });
    let ident = word("name", 4);
    assert_eq!(clone_ident(&ident), ident);
}

#[test]
fn undefined_has_its_name_and_kind() {
    assert_eq!(JsUndefined::js_type_name(), "undefined");
    assert_eq!(JsUndefined::value_type(), ValueType::Undefined);
    let undefined = JsUndefined(Value { value_type: ValueType::Undefined });
    assert_eq!(undefined.0.value_type, JsUndefined::value_type());
}
