//! The directive grammar: a comma-separated list of directives, each a name
//! and what the table of directives says follows that name.

use crate::ast::texts;
use crate::attrs::{
    default_table, default_table_view, ident_views, table_view, AttrSpec, AttrValue, AttrValueView,
    BindgenAttr, BindgenAttrView, BindgenAttrs, BindgenAttrsView, Shape,
};
use crate::diagnostic::{BindgenResult, Diagnostic, ErrorKind, SpannedError};
use crate::span::Span;
use crate::syntax::{DirectiveList, Ident};
use crate::text::chars_of;
use crate::token::{render, rendered, span_at, token_span, Delimiter, Lit, Token};
use vstd::prelude::*;

verus! {

/// Whether the word `word` names the table entry `entry`: it is the entry's
/// name, or the entry's name is the word spelled as a raw identifier.
pub open spec fn names(entry: Seq<char>, word: Seq<char>) -> bool {
    word == entry || seq!['r', '#'] + word == entry
}

/// The first entry of `table`, from `from` on, that `word` names.
pub open spec fn lookup_from(table: Seq<(Seq<char>, Shape)>, word: Seq<char>, from: nat) -> Option<
    int,
>
    decreases table.len() - from,
{
    if from >= table.len() {
        None
    } else if names(table[from as int].0, word) {
        Some(from as int)
    } else {
        lookup_from(table, word, from + 1)
    }
}

/// The first entry of `table` that `word` names.
pub open spec fn lookup(table: Seq<(Seq<char>, Shape)>, word: Seq<char>) -> Option<int> {
    lookup_from(table, word, 0)
}

/// The identifier at `i`, if an identifier stands there.
pub open spec fn ident_at(tokens: Seq<Token>, i: int) -> Option<(Seq<char>, Span)> {
    if 0 <= i < tokens.len() && tokens[i] is Ident {
        Some((tokens[i]->Ident_text@, tokens[i].span()))
    } else {
        None
    }
}

/// The text of the string literal at `i`, if one stands there.
pub open spec fn str_at(tokens: Seq<Token>, i: int) -> Option<(Seq<char>, Span)> {
    if 0 <= i < tokens.len() {
        match tokens[i] {
            Token::Literal { lit: Lit::Str(value), span, .. } => Some((value@, span)),
            _ => None,
        }
    } else {
        None
    }
}

/// Whether `=` stands at `i`.
pub open spec fn eq_at(tokens: Seq<Token>, i: int) -> bool {
    0 <= i < tokens.len() && tokens[i].is_punct('=')
}

/// The strings that `inner` lists from `i` on: string literals separated by
/// commas, with or without a comma after the last. `None` where `inner` is
/// not of that form.
pub open spec fn str_list_from(inner: Seq<Token>, i: nat) -> Option<(Seq<Seq<char>>, Seq<Span>)>
    decreases inner.len() - i,
{
    if i >= inner.len() {
        Some((Seq::empty(), Seq::empty()))
    } else {
        match str_at(inner, i as int) {
            None => None,
            Some((v, s)) => if i + 1 >= inner.len() {
                Some((seq![v], seq![s]))
            } else if !inner[i as int + 1].is_punct(',') {
                None
            } else {
                match str_list_from(inner, i + 2) {
                    None => None,
                    Some((vs, ss)) => Some((seq![v] + vs, seq![s] + ss)),
                }
            },
        }
    }
}

/// The strings of the array literal at `i`, if one stands there.
pub open spec fn str_array_at(tokens: Seq<Token>, i: int) -> Option<(Seq<Seq<char>>, Seq<Span>)> {
    if 0 <= i < tokens.len() {
        match tokens[i] {
            Token::Group { delimiter: Delimiter::Bracket, tokens: inner, .. } => str_list_from(
                inner@,
                0,
            ),
            _ => None,
        }
    } else {
        None
    }
}

/// Whether `::` stands at `i`.
pub open spec fn colons_at(tokens: Seq<Token>, i: int) -> bool {
    0 <= i && i + 1 < tokens.len() && tokens[i] == (Token::Punct {
        ch: ':',
        joint: true,
        span: tokens[i].span(),
    }) && tokens[i + 1].is_punct(':')
}

/// The segments of the path that stands at `i`, where its first identifier
/// has to stand, and how many tokens the path takes. `None` where there is
/// no identifier at `i` or after a `::`.
pub open spec fn path_from(tokens: Seq<Token>, i: nat) -> Option<(Seq<(Seq<char>, Span)>, nat)>
    decreases tokens.len() - i,
{
    match ident_at(tokens, i as int) {
        None => None,
        Some(segment) => if colons_at(tokens, i as int + 1) {
            match path_from(tokens, i + 3) {
                None => None,
                Some((rest, taken)) => Some((seq![segment] + rest, taken + 3)),
            }
        } else {
            Some((seq![segment], 1))
        },
    }
}

/// The path that stands at `at`, and how many tokens it takes.
pub open spec fn path_at(tokens: Seq<Token>, at: int) -> Option<(AttrValueView, nat)> {
    if at < 0 {
        None
    } else if colons_at(tokens, at) {
        match path_from(tokens, (at + 2) as nat) {
            Some((segments, taken)) => Some((AttrValueView::Path(true, segments), taken + 2)),
            None => None,
        }
    } else {
        match path_from(tokens, at as nat) {
            Some((segments, taken)) => Some((AttrValueView::Path(false, segments), taken)),
            None => None,
        }
    }
}

/// How many tokens stand from `from` on before the next comma, or before
/// the end of the list.
pub open spec fn run_len(tokens: Seq<Token>, from: nat) -> nat
    decreases tokens.len() - from,
{
    if from >= tokens.len() || tokens[from as int].is_punct(',') {
        0
    } else {
        1 + run_len(tokens, from + 1)
    }
}

/// The expression that stands at `at`, and how many tokens it takes: the
/// tokens before the next comma, written out, with the span from the first
/// of them to the last.
pub open spec fn expr_at(tokens: Seq<Token>, at: int) -> Option<(AttrValueView, nat)> {
    if at < 0 || run_len(tokens, at as nat) == 0 {
        None
    } else {
        let n = run_len(tokens, at as nat);
        Some(
            (
                AttrValueView::Expr(
                    rendered(tokens.subrange(at, at + n)),
                    Span { lo: tokens[at].span().lo, hi: tokens[at + n - 1].span().hi },
                ),
                n,
            ),
        )
    }
}

/// The error of the kind `kind` at the token at `i`.
pub open spec fn error_at(
    tokens: Seq<Token>,
    i: int,
    scope: Span,
    kind: ErrorKind,
) -> SpannedError {
    SpannedError { span: span_at(tokens, i, scope), kind }
}

/// The value that stands at `at`, just after the name of a directive of the
/// shape `shape`, and how many tokens it takes.
pub open spec fn parse_value(shape: Shape, tokens: Seq<Token>, at: int, scope: Span) -> Result<
    (AttrValueView, nat),
    SpannedError,
> {
    if shape == Shape::Flag {
        Ok((AttrValueView::Flag, 0))
    } else if shape == Shape::OptionalIdent && !eq_at(tokens, at) {
        Ok((AttrValueView::OptionalIdent(None), 0))
    } else if !eq_at(tokens, at) {
        Err(error_at(tokens, at, scope, ErrorKind::ExpectedEquals))
    } else if shape == Shape::Path {
        match path_at(tokens, at + 1) {
            Some((value, taken)) => Ok((value, taken + 1)),
            None => Err(error_at(tokens, at + 1, scope, ErrorKind::ExpectedPath)),
        }
    } else if shape == Shape::Expr {
        match expr_at(tokens, at + 1) {
            Some((value, taken)) => Ok((value, taken + 1)),
            None => Err(error_at(tokens, at + 1, scope, ErrorKind::ExpectedExpression)),
        }
    } else if shape == Shape::Str && str_at(tokens, at + 1) is Some {
        match str_at(tokens, at + 1) {
            Some((value, span)) => Ok((AttrValueView::Str(value, span), 2)),
            None => Ok((AttrValueView::Flag, 0)),
        }
    } else if shape == Shape::StrList && str_array_at(tokens, at + 1) is Some {
        match str_array_at(tokens, at + 1) {
            Some((values, spans)) => Ok((AttrValueView::StrList(values, spans), 2)),
            None => Ok((AttrValueView::Flag, 0)),
        }
    } else {
        match ident_at(tokens, at + 1) {
            None => Err(error_at(tokens, at + 1, scope, ErrorKind::ExpectedIdentifier)),
            Some((text, span)) => Ok(
                (
                    match shape {
                        Shape::Ident => AttrValueView::Ident(text, span),
                        Shape::OptionalIdent => AttrValueView::OptionalIdent(Some((text, span))),
                        Shape::Str => AttrValueView::Str(text, span),
                        _ => AttrValueView::StrList(seq![text], seq![span]),
                    },
                    2,
                ),
            ),
        }
    }
}

/// The directive that stands at `pos`, and how many tokens its value takes.
pub open spec fn parse_attr(
    table: Seq<(Seq<char>, Shape)>,
    tokens: Seq<Token>,
    pos: int,
    scope: Span,
) -> Result<(BindgenAttrView, nat), SpannedError> {
    match ident_at(tokens, pos) {
        None => Err(error_at(tokens, pos, scope, ErrorKind::ExpectedIdentifier)),
        Some((word, span)) => match lookup(table, word) {
            None => Err(SpannedError { span, kind: ErrorKind::UnknownAttribute }),
            Some(k) => match parse_value(table[k].1, tokens, pos + 1, scope) {
                Err(e) => Err(e),
                Ok((value, taken)) => Ok(
                    (BindgenAttrView { name: table[k].0, span, value }, taken),
                ),
            },
        },
    }
}

/// The directives that `tokens` list from `pos` on: directives separated by
/// commas, with or without a comma after the last. The first error ends the
/// parse.
pub open spec fn parse_list(
    table: Seq<(Seq<char>, Shape)>,
    tokens: Seq<Token>,
    pos: nat,
    scope: Span,
) -> Result<Seq<BindgenAttrView>, SpannedError>
    decreases tokens.len() - pos,
{
    if pos >= tokens.len() {
        Ok(Seq::empty())
    } else {
        match parse_attr(table, tokens, pos as int, scope) {
            Err(e) => Err(e),
            Ok((attr, taken)) => {
                let next = pos + 1 + taken;
                if next >= tokens.len() {
                    Ok(seq![attr])
                } else if !tokens[next as int].is_punct(',') {
                    Err(error_at(tokens, next as int, scope, ErrorKind::ExpectedComma))
                } else {
                    match parse_list(table, tokens, next + 1, scope) {
                        Err(e) => Err(e),
                        Ok(rest) => Ok(seq![attr] + rest),
                    }
                }
            },
        }
    }
}

/// The result of parsing one directive: what [`parse_attr`] gives, with the
/// index of the token after the directive in place of the count.
pub open spec fn parsed_one(
    table: Seq<(Seq<char>, Shape)>,
    tokens: Seq<Token>,
    pos: int,
    scope: Span,
    r: BindgenResult<(BindgenAttr, usize)>,
) -> bool {
    match parse_attr(table, tokens, pos, scope) {
        Ok((attr, taken)) => r matches Ok((a, next)) && a@ == attr && next == pos + 1 + taken,
        Err(e) => r matches Err(d) && d@ == seq![e],
    }
}

/// The result of parsing a directive list: the directives that
/// [`parse_list`] gives, none of them looked at yet, or its error.
pub open spec fn parsed_all(
    table: Seq<(Seq<char>, Shape)>,
    tokens: Seq<Token>,
    scope: Span,
    exists: bool,
    r: BindgenResult<BindgenAttrs>,
) -> bool {
    match parse_list(table, tokens, 0, scope) {
        Ok(attrs) => r matches Ok(set) && set@ == (BindgenAttrsView {
            exists,
            attrs,
            used: Seq::new(attrs.len(), |i: int| false),
        }),
        Err(e) => r matches Err(d) && d@ == seq![e],
    }
}

/// Whether `entry` is named by the word whose characters are `word`.
fn entry_named(entry: &str, word: &Vec<char>) -> (r: bool)
    ensures
        r == names(entry@, word@),
{
    let e = chars_of(entry);
    let n = word.len();
    let raw = e.len() >= 2 && e.len() - 2 == n && e[0] == 'r' && e[1] == '#';
    if e.len() != n && !raw {
        proof {
            assert((seq!['r', '#'] + word@).len() == word@.len() + 2);
            if seq!['r', '#'] + word@ == e@ {
                assert(e@[0] == (seq!['r', '#'] + word@)[0]);
                assert(e@[1] == (seq!['r', '#'] + word@)[1]);
            }
        }
        return false;
    }
    let skip: usize = if raw {
        2
    } else {
        0
    };
    let mut i: usize = 0;
    while i < n
        invariant
            i <= n,
            n == word@.len(),
            e@.len() == n + skip,
            e@ == entry@,
            n + skip <= usize::MAX,
            skip == 0 || skip == 2,
            skip == 2 ==> e@[0] == 'r' && e@[1] == '#',
            forall|k: int| 0 <= k < i ==> e@[k + skip] == word@[k],
        decreases n - i,
    {
        if e[i + skip] != word[i] {
            proof {
                if skip == 2 {
                    assert((seq!['r', '#'] + word@)[i + 2] == word@[i as int]);
                }
            }
            return false;
        }
        i = i + 1;
    }
    proof {
        if skip == 2 {
            assert(seq!['r', '#'] + word@ =~= e@);
        } else {
            assert(word@ =~= e@);
        }
    }
    true
}

/// The first entry of `table` that `word` names.
fn find_entry(table: &Vec<AttrSpec>, word: &str) -> (r: Option<usize>)
    ensures
        r is Some <==> lookup(table_view(table@), word@) is Some,
        r matches Some(k) ==> lookup(table_view(table@), word@) == Some(k as int) && k
            < table@.len(),
{
    let w = chars_of(word);
    let mut i: usize = 0;
    while i < table.len()
        invariant
            i <= table@.len(),
            w@ == word@,
            lookup(table_view(table@), word@) == lookup_from(table_view(table@), word@, i as nat),
        decreases table@.len() - i,
    {
        if entry_named(table[i].name.as_str(), &w) {
            return Some(i);
        }
        i = i + 1;
    }
    None
}

/// The identifier at `i`, if an identifier stands there.
fn ident_token(tokens: &Vec<Token>, i: usize) -> (r: Option<Ident>)
    ensures
        r is Some <==> ident_at(tokens@, i as int) is Some,
        r matches Some(id) ==> Some(id@) == ident_at(tokens@, i as int),
        r is Some ==> i < tokens@.len(),
{
    if i < tokens.len() {
        match &tokens[i] {
            Token::Ident { text, span } => Some(Ident { text: text.clone(), span: *span }),
            _ => None,
        }
    } else {
        None
    }
}

/// The text of the string literal at `i`, if one stands there.
fn str_token(tokens: &Vec<Token>, i: usize) -> (r: Option<(String, Span)>)
    ensures
        r is Some <==> str_at(tokens@, i as int) is Some,
        r matches Some(p) ==> Some((p.0@, p.1)) == str_at(tokens@, i as int),
{
    if i < tokens.len() {
        match &tokens[i] {
            Token::Literal { lit: Lit::Str(value), span, .. } => Some((value.clone(), *span)),
            _ => None,
        }
    } else {
        None
    }
}

/// `v` in front of the strings of `rest`, where there is a `rest`.
pub open spec fn with_front(
    values: Seq<Seq<char>>,
    spans: Seq<Span>,
    rest: Option<(Seq<Seq<char>>, Seq<Span>)>,
) -> Option<(Seq<Seq<char>>, Seq<Span>)> {
    match rest {
        Some((vs, ss)) => Some((values + vs, spans + ss)),
        None => None,
    }
}

/// The strings that the inside of an array literal lists.
fn str_list(inner: &Vec<Token>) -> (r: Option<(Vec<String>, Vec<Span>)>)
    ensures
        r is Some <==> str_list_from(inner@, 0) is Some,
        r matches Some(p) ==> Some((texts(p.0@), p.1@)) == str_list_from(inner@, 0),
{
    let mut values: Vec<String> = Vec::new();
    let mut spans: Vec<Span> = Vec::new();
    let mut i: usize = 0;
    proof {
        let r = str_list_from(inner@, 0);
        if r is Some {
            assert(Seq::<Seq<char>>::empty() + (r->0).0 =~= (r->0).0);
            assert(Seq::<Span>::empty() + (r->0).1 =~= (r->0).1);
        }
        assert(texts(values@) =~= Seq::<Seq<char>>::empty());
    }
    while i < inner.len()
        invariant
            i <= inner@.len(),
            str_list_from(inner@, 0) == with_front(
                texts(values@),
                spans@,
                str_list_from(inner@, i as nat),
            ),
        decreases inner@.len() - i,
    {
        let ghost vs = texts(values@);
        let ghost ss = spans@;
        let (value, span) = match str_token(inner, i) {
            Some(p) => p,
            None => {
                return None;
            },
        };
        values.push(value);
        spans.push(span);
        proof {
            assert(texts(values@) =~= vs + seq![value@]);
        }
        if i + 1 >= inner.len() {
            proof {
                assert(vs + seq![value@] =~= texts(values@));
                assert(ss + seq![span] =~= spans@);
            }
            return Some((values, spans));
        }
        if !inner[i + 1].is_punct(',') {
            return None;
        }
        proof {
            let rest = str_list_from(inner@, (i + 2) as nat);
            if rest is Some {
                assert(vs + (seq![value@] + (rest->0).0) =~= texts(values@) + (
                rest->0).0);
                assert(ss + (seq![span] + (rest->0).1) =~= spans@ + (rest->0).1);
            }
        }
        i = i + 2;
    }
    proof {
        assert(texts(values@) + Seq::<Seq<char>>::empty() =~= texts(
            values@,
        ));
        assert(spans@ + Seq::<Span>::empty() =~= spans@);
    }
    Some((values, spans))
}

/// The strings of the array literal at `i`, if one stands there.
fn str_array(tokens: &Vec<Token>, i: usize) -> (r: Option<(Vec<String>, Vec<Span>)>)
    ensures
        r is Some <==> str_array_at(tokens@, i as int) is Some,
        r matches Some(p) ==> Some((texts(p.0@), p.1@)) == str_array_at(
            tokens@,
            i as int,
        ),
{
    if i < tokens.len() {
        match &tokens[i] {
            Token::Group { delimiter: Delimiter::Bracket, tokens: inner, .. } => str_list(inner),
            _ => None,
        }
    } else {
        None
    }
}

/// Whether `::` stands at `i`.
fn colons(tokens: &Vec<Token>, i: usize) -> (r: bool)
    ensures
        r == colons_at(tokens@, i as int),
        r ==> i + 2 <= tokens@.len(),
{
    if i < tokens.len() && tokens.len() - i >= 2 {
        match &tokens[i] {
            Token::Punct { ch, joint, .. } => *ch == ':' && *joint && tokens[i + 1].is_punct(':'),
            _ => false,
        }
    } else {
        false
    }
}

/// `segments` in front of the segments of `rest`, where there is a `rest`.
pub open spec fn with_segments(
    segments: Seq<(Seq<char>, Span)>,
    taken: nat,
    rest: Option<(Seq<(Seq<char>, Span)>, nat)>,
) -> Option<(Seq<(Seq<char>, Span)>, nat)> {
    match rest {
        Some((more, n)) => Some((segments + more, taken + n)),
        None => None,
    }
}

/// Reads the segments of the path that stands at `start`. Returns the
/// segments and the index of the token after the path.
fn path_segments(tokens: &Vec<Token>, start: usize) -> (r: Option<(Vec<Ident>, usize)>)
    ensures
        r is Some <==> path_from(tokens@, start as nat) is Some,
        r matches Some(p) ==> path_from(tokens@, start as nat) == Some(
            (ident_views(p.0@), (p.1 - start) as nat),
        ) && start < p.1 <= tokens@.len(),
{
    let mut segments: Vec<Ident> = Vec::new();
    let mut i: usize = start;
    let n = tokens.len();
    proof {
        let all = path_from(tokens@, start as nat);
        assert(ident_views(segments@) =~= Seq::empty());
        if all is Some {
            assert(Seq::<(Seq<char>, Span)>::empty() + (all->0).0 =~= (all->0).0);
        }
    }
    loop
        invariant
            start <= i <= tokens@.len() || (i == start && segments@.len() == 0),
            segments@.len() > 0 ==> start < i,
            n == tokens@.len(),
            path_from(tokens@, start as nat) == with_segments(
                ident_views(segments@),
                (i - start) as nat,
                path_from(tokens@, i as nat),
            ),
        decreases tokens@.len() - i,
    {
        let ghost before = ident_views(segments@);
        let segment = match ident_token(tokens, i) {
            Some(segment) => segment,
            None => {
                return None;
            },
        };
        let ghost view = segment@;
        segments.push(segment);
        proof {
            assert(ident_views(segments@) =~= before.push(view));
        }
        if !colons(tokens, i + 1) {
            proof {
                assert(before + seq![view] =~= ident_views(segments@));
            }
            return Some((segments, i + 1));
        }
        proof {
            let rest = path_from(tokens@, (i + 3) as nat);
            if rest is Some {
                assert(before + (seq![view] + (rest->0).0) =~= ident_views(segments@) + (
                rest->0).0);
            }
        }
        i = i + 3;
    }
}

/// Reads the path that stands at `at`. Returns the path and how many tokens
/// it takes.
fn parse_path(tokens: &Vec<Token>, at: usize) -> (r: Option<(AttrValue, usize)>)
    ensures
        r is Some <==> path_at(tokens@, at as int) is Some,
        r matches Some(p) ==> path_at(tokens@, at as int) == Some((p.0@, p.1 as nat)) && at + p.1
            <= tokens@.len(),
{
    let leading = colons(tokens, at);
    let n = tokens.len();
    let start = if leading {
        at + 2
    } else {
        at
    };
    match path_segments(tokens, start) {
        Some((segments, end)) => Some((AttrValue::Path { leading, segments }, end - at)),
        None => None,
    }
}

/// Reads the expression that stands at `at`. Returns the expression and how
/// many tokens it takes.
fn parse_expr(tokens: &Vec<Token>, at: usize) -> (r: Option<(AttrValue, usize)>)
    ensures
        r is Some <==> expr_at(tokens@, at as int) is Some,
        r matches Some(p) ==> expr_at(tokens@, at as int) == Some((p.0@, p.1 as nat)) && at + p.1
            <= tokens@.len(),
{
    let mut end: usize = at;
    while end < tokens.len() && !tokens[end].is_punct(',')
        invariant
            at <= end,
            end <= tokens@.len() || end == at,
            run_len(tokens@, at as nat) == (end - at) + run_len(tokens@, end as nat),
        decreases tokens@.len() - end,
    {
        end = end + 1;
    }
    if end == at {
        return None;
    }
    let mut text = String::new();
    render(tokens, at, end, &mut text);
    proof {
        assert(Seq::<char>::empty() + rendered(tokens@.subrange(at as int, end as int))
            =~= rendered(tokens@.subrange(at as int, end as int)));
    }
    let span = Span { lo: tokens[at].span().lo, hi: tokens[end - 1].span().hi };
    Some((AttrValue::Expr { text, span }, end - at))
}

/// The diagnostic for an error of the kind `kind` at the token at `i`.
fn fail_at<T>(tokens: &Vec<Token>, i: usize, scope: Span, kind: ErrorKind) -> (r: BindgenResult<T>)
    ensures
        r matches Err(d) && d@ == seq![error_at(tokens@, i as int, scope, kind)],
{
    Err(Diagnostic::spanned_error(token_span(tokens, i, scope), kind))
}

/// Parses the value of a directive of the shape `shape`; `at` is the index
/// just after the directive's name. Returns the value and how many tokens it
/// takes.
fn parse_attr_value(shape: Shape, tokens: &Vec<Token>, at: usize, scope: Span) -> (r:
    BindgenResult<(AttrValue, usize)>)
    ensures
        match parse_value(shape, tokens@, at as int, scope) {
            Ok((value, taken)) => r matches Ok((v, n)) && v@ == value && n == taken && (n == 0
                || at + n <= tokens@.len()),
            Err(e) => r matches Err(d) && d@ == seq![e],
        },
{
    let has_eq = at < tokens.len() && tokens[at].is_punct('=');
    match shape {
        Shape::Flag => {
            return Ok((AttrValue::Flag, 0));
        },
        Shape::OptionalIdent => {
            if !has_eq {
                return Ok((AttrValue::OptionalIdent(None), 0));
            }
        },
        _ => {},
    }
    if !has_eq {
        return fail_at(tokens, at, scope, ErrorKind::ExpectedEquals);
    }
    match shape {
        Shape::Path => {
            return match parse_path(tokens, at + 1) {
                Some((value, taken)) => Ok((value, taken + 1)),
                None => fail_at(tokens, at + 1, scope, ErrorKind::ExpectedPath),
            };
        },
        Shape::Expr => {
            return match parse_expr(tokens, at + 1) {
                Some((value, taken)) => Ok((value, taken + 1)),
                None => fail_at(tokens, at + 1, scope, ErrorKind::ExpectedExpression),
            };
        },
        Shape::Str => {
            match str_token(tokens, at + 1) {
                Some((value, span)) => {
                    return Ok((AttrValue::Str { value, span }, 2));
                },
                None => {},
            }
        },
        Shape::StrList => {
            match str_array(tokens, at + 1) {
                Some((values, spans)) => {
                    return Ok((AttrValue::StrList { values, spans }, 2));
                },
                None => {},
            }
        },
        _ => {},
    }
    let ident = match ident_token(tokens, at + 1) {
        Some(ident) => ident,
        None => {
            return fail_at(tokens, at + 1, scope, ErrorKind::ExpectedIdentifier);
        },
    };
    let value = match shape {
        Shape::Ident => AttrValue::Ident(ident),
        Shape::OptionalIdent => AttrValue::OptionalIdent(Some(ident)),
        Shape::Str => AttrValue::Str { value: ident.text, span: ident.span },
        _ => {
            let mut values: Vec<String> = Vec::new();
            let mut spans: Vec<Span> = Vec::new();
            let ghost text = ident.text@;
            spans.push(ident.span);
            values.push(ident.text);
            proof {
                assert(texts(values@) =~= seq![text]);
            }
            AttrValue::StrList { values, spans }
        },
    };
    Ok((value, 2))
}

impl BindgenAttr {
    /// Parses the directive that stands at `pos` in `tokens`: its name,
    /// which has to be in `table`, and what the table says follows the name.
    /// Returns the directive and the index of the token after it. An error
    /// about a token that is not there is reported at `scope`.
    pub fn parse(table: &Vec<AttrSpec>, tokens: &Vec<Token>, pos: usize, scope: Span) -> (r:
        BindgenResult<(BindgenAttr, usize)>)
        ensures
            parsed_one(table_view(table@), tokens@, pos as int, scope, r),
            r matches Ok(p) ==> pos < p.1 <= tokens@.len(),
    {
        let word = match ident_token(tokens, pos) {
            Some(word) => word,
            None => {
                return fail_at(tokens, pos, scope, ErrorKind::ExpectedIdentifier);
            },
        };
        let len = tokens.len();
        assert(pos < len);
        let k = match find_entry(table, word.text.as_str()) {
            Some(k) => k,
            None => {
                return Err(Diagnostic::spanned_error(word.span, ErrorKind::UnknownAttribute));
            },
        };
        let (value, taken) = match parse_attr_value(table[k].shape, tokens, pos + 1, scope) {
            Ok(p) => p,
            Err(d) => {
                return Err(d);
            },
        };
        Ok((BindgenAttr { name: table[k].name.clone(), span: word.span, value }, pos + 1 + taken))
    }
}

impl BindgenAttrs {
    /// Parses a directive list against `table`. An empty list gives an empty
    /// set. The first directive that does not parse ends the parse with its
    /// error.
    pub fn parse_with(table: &Vec<AttrSpec>, tokens: &Vec<Token>, scope: Span) -> (r:
        BindgenResult<BindgenAttrs>)
        ensures
            parsed_all(table_view(table@), tokens@, scope, false, r),
    {
        let mut set = BindgenAttrs { exists: false, attrs: Vec::new() };
        let mut pos: usize = 0;
        let ghost tv = table_view(table@);
        proof {
            assert(set@.attrs =~= Seq::empty());
        }
        while pos < tokens.len()
            invariant
                pos <= tokens@.len(),
                tv == table_view(table@),
                set.exists == false,
                forall|k: int| 0 <= k < set.attrs@.len() ==> !(#[trigger] set.attrs@[k]).0,
                parse_list(tv, tokens@, 0, scope) == (match parse_list(
                    tv,
                    tokens@,
                    pos as nat,
                    scope,
                ) {
                    Ok(rest) => Ok(set@.attrs + rest),
                    Err(e) => Err(e),
                }),
            decreases tokens@.len() - pos,
        {
            let ghost before = set@.attrs;
            let (attr, next) = match BindgenAttr::parse(table, tokens, pos, scope) {
                Ok(p) => p,
                Err(d) => {
                    return Err(d);
                },
            };
            let ghost a = attr@;
            set.attrs.push((false, attr));
            proof {
                assert(set@.attrs =~= before.push(a));
            }
            if next >= tokens.len() {
                proof {
                    assert(before + seq![a] =~= set@.attrs);
                    assert(set@.used =~= Seq::new(set@.attrs.len(), |i: int| false));
                }
                return Ok(set);
            }
            if !tokens[next].is_punct(',') {
                return fail_at(tokens, next, scope, ErrorKind::ExpectedComma);
            }
            proof {
                let rest = parse_list(tv, tokens@, (next + 1) as nat, scope);
                if rest is Ok {
                    assert(before + (seq![a] + rest->Ok_0) =~= set@.attrs + rest->Ok_0);
                }
            }
            pos = next + 1;
        }
        proof {
            assert(set@.attrs + Seq::<BindgenAttrView>::empty() =~= set@.attrs);
            assert(set@.used =~= Seq::new(set@.attrs.len(), |i: int| false));
        }
        Ok(set)
    }

    /// Parses a directive list against the table of the directives that the
    /// builders know.
    pub fn parse(tokens: &Vec<Token>, scope: Span) -> (r: BindgenResult<BindgenAttrs>)
        ensures
            parsed_all(default_table_view(), tokens@, scope, false, r),
    {
        let table = default_table();
        BindgenAttrs::parse_with(&table, tokens, scope)
    }

    /// The directive set of a member of a declaration: an empty set where
    /// the member has no directive list, else what its list parses to.
    pub fn find(directives: &Option<DirectiveList>) -> (r: BindgenResult<BindgenAttrs>)
        ensures
            match *directives {
                None => r matches Ok(set) && set@ == (BindgenAttrsView {
                    exists: false,
                    attrs: Seq::empty(),
                    used: Seq::empty(),
                }),
                Some(list) => parsed_all(default_table_view(), list.tokens@, list.span, true, r),
            },
    {
        match directives {
            None => Ok(BindgenAttrs::new()),
            Some(list) => {
                match BindgenAttrs::parse(&list.tokens, list.span) {
                    Ok(set) => {
                        let found = BindgenAttrs { exists: true, attrs: set.attrs };
                        proof {
                            assert(found@.attrs =~= set@.attrs);
                            assert(found@.used =~= set@.used);
                        }
                        Ok(found)
                    },
                    Err(d) => Err(d),
                }
            },
        }
    }
}

/// Where a list of strings is expected, a bare identifier in place of the
/// array stands for the list of one string, the identifier's text, with the
/// identifier's span.
pub proof fn lemma_bare_identifier_is_list_of_one(tokens: Seq<Token>, at: int, scope: Span)
    requires
        eq_at(tokens, at),
        ident_at(tokens, at + 1) is Some,
    ensures
        parse_value(Shape::StrList, tokens, at, scope) == Ok::<(AttrValueView, nat), SpannedError>(
            (
                AttrValueView::StrList(
                    seq![(ident_at(tokens, at + 1)->0).0],
                    seq![(ident_at(tokens, at + 1)->0).1],
                ),
                2,
            ),
        ),
{
}

/// What a parse of a directive list comes to: the view of the set, or the
/// errors.
pub open spec fn parse_outcome(r: BindgenResult<BindgenAttrs>) -> Result<
    BindgenAttrsView,
    Seq<SpannedError>,
> {
    match r {
        Ok(set) => Ok(set@),
        Err(d) => Err(d@),
    }
}

/// Parsing the same directive list twice gives the same outcome: `first`
/// and `second` are what two parses of `tokens` returned.
pub proof fn lemma_parse_is_repeatable(
    table: Seq<(Seq<char>, Shape)>,
    tokens: Seq<Token>,
    scope: Span,
    first: BindgenResult<BindgenAttrs>,
    second: BindgenResult<BindgenAttrs>,
)
    requires
        parsed_all(table, tokens, scope, false, first),
        parsed_all(table, tokens, scope, false, second),
    ensures
        parse_outcome(first) == parse_outcome(second),
{
}

} // verus!
