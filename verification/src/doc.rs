//! Documentation lines: the text that a declaration's `doc` attributes hold,
//! with the escapes of the literal undone.

use crate::ast::texts;
use crate::syntax::Attribute;
use crate::text::{str_eq, string_of};
use crate::token::Token;
use std::str::Chars;
use vstd::prelude::*;
use vstd::std_specs::iter::IteratorSpec;

verus! {

/// Whether `c` is a hexadecimal digit.
pub open spec fn is_hex_digit(c: char) -> bool {
    ('0' <= c && c <= '9') || ('a' <= c && c <= 'f') || ('A' <= c && c <= 'F')
}

/// The value of a hexadecimal digit.
pub open spec fn hex_digit_value(c: char) -> nat {
    if '0' <= c && c <= '9' {
        (c as u32 - '0' as u32) as nat
    } else if 'a' <= c && c <= 'f' {
        (c as u32 - 'a' as u32 + 10) as nat
    } else {
        (c as u32 - 'A' as u32 + 10) as nat
    }
}

/// How many hexadecimal digits `s` starts with.
pub open spec fn hex_run(s: Seq<char>) -> nat
    decreases s.len(),
{
    if s.len() > 0 && is_hex_digit(s[0]) {
        1 + hex_run(s.skip(1))
    } else {
        0
    }
}

/// The number that the hexadecimal digits `s` spell, most significant first.
pub open spec fn hex_value(s: Seq<char>) -> nat
    decreases s.len(),
{
    if s.len() == 0 {
        0
    } else {
        hex_value(s.drop_last()) * 16 + hex_digit_value(s.last())
    }
}

/// Whether `v` is a Unicode scalar value.
pub open spec fn is_scalar_value(v: nat) -> bool {
    v < 0xD800 || (0xE000 <= v && v <= 0x10FFFF)
}

/// What the inside of a `\u{..}` escape decodes to: `s` is what follows the
/// opening brace. One to six hexadecimal digits give the character; the
/// character after them is handed back too, for the caller to test.
pub open spec fn unicode_escape(s: Seq<char>) -> Option<(char, char)> {
    let n = hex_run(s);
    if n == 0 || n > 6 || n >= s.len() || !is_scalar_value(hex_value(s.take(n as int))) {
        None
    } else {
        Some((hex_value(s.take(n as int)) as char, s[n as int]))
    }
}

/// How many characters decoding a `\u{..}` escape takes from `s`: the digits
/// and the character after them, at most seven, and no more than there are.
pub open spec fn unicode_escape_taken(s: Seq<char>) -> nat {
    let n = if hex_run(s) > 6 {
        7
    } else {
        hex_run(s) + 1
    };
    if n > s.len() {
        s.len()
    } else {
        n
    }
}

/// The character that the escape `\c` stands for, for the one-letter escapes.
pub open spec fn simple_escape(c: char) -> Option<char> {
    if c == 't' {
        Some('\t')
    } else if c == 'r' {
        Some('\r')
    } else if c == 'n' {
        Some('\n')
    } else if c == '\\' || c == '\'' || c == '"' {
        Some(c)
    } else {
        None
    }
}

/// `c` in front of `rest`, where there is a `rest`.
pub open spec fn prepend(c: char, rest: Option<Seq<char>>) -> Option<Seq<char>> {
    match rest {
        Some(t) => Some(seq![c] + t),
        None => None,
    }
}

/// What an escape decodes to, and how many characters it takes: `s` is what
/// follows the backslash.
pub open spec fn escape(s: Seq<char>) -> Option<(char, nat)> {
    if s.len() == 0 {
        None
    } else if simple_escape(s[0]) is Some {
        Some((simple_escape(s[0])->0, 1))
    } else if s[0] == 'u' && s.len() >= 2 && s[1] == '{' {
        match unicode_escape(s.skip(2)) {
            Some((c, next)) => if next == '}' {
                Some((c, 2 + unicode_escape_taken(s.skip(2))))
            } else {
                None
            },
            None => None,
        }
    } else {
        None
    }
}

/// `s` with every escape replaced by the character it stands for, or `None`
/// where an escape is malformed.
pub open spec fn unescape_body(s: Seq<char>) -> Option<Seq<char>>
    decreases s.len(),
{
    if s.len() == 0 {
        Some(Seq::empty())
    } else if s[0] != '\\' {
        prepend(s[0], unescape_body(s.skip(1)))
    } else {
        match escape(s.skip(1)) {
            Some((c, n)) => prepend(c, unescape_body(s.skip(1 + n as int))),
            None => None,
        }
    }
}

/// `s` without its last character, where that is a double quote.
pub open spec fn strip_trailing_quote(s: Seq<char>) -> Seq<char> {
    if s.len() > 0 && s.last() == '"' {
        s.drop_last()
    } else {
        s
    }
}

/// The text that the quoted literal `s` stands for: the opening quote is
/// dropped, the escapes are decoded, and a closing quote left at the end is
/// dropped. `None` where an escape is malformed.
pub open spec fn unescaped(s: Seq<char>) -> Option<Seq<char>> {
    let body = if s.len() > 0 && s[0] == '"' {
        s.skip(1)
    } else {
        s
    };
    match unescape_body(body) {
        Some(t) => Some(strip_trailing_quote(t)),
        None => None,
    }
}

/// The character with the code `v`, if `v` is a Unicode scalar value. Calls
/// `char::from_u32`, which returns `None` for a surrogate and for a number
/// above `0x10FFFF`.
#[verifier::external_body]
fn char_from_u32(v: u32) -> (r: Option<char>)
    ensures
        r is Some <==> is_scalar_value(v as nat),
        r matches Some(c) ==> c == v as char,
{
    char::from_u32(v)
}

proof fn lemma_hex_run_step(s: Seq<char>, k: nat)
    requires
        k < s.len(),
        hex_run(s) >= k,
    ensures
        is_hex_digit(s[k as int]) ==> hex_run(s) >= k + 1,
        !is_hex_digit(s[k as int]) ==> hex_run(s) == k,
    decreases k,
{
    if k == 0 {
    } else {
        assert(s.len() > 0 && is_hex_digit(s[0]));
        assert(s.skip(1)[k as int - 1] == s[k as int]);
        lemma_hex_run_step(s.skip(1), (k - 1) as nat);
    }
}

proof fn lemma_hex_run_end(s: Seq<char>)
    requires
        hex_run(s) >= s.len(),
    ensures
        hex_run(s) == s.len(),
    decreases s.len(),
{
    if s.len() > 0 {
        assert(is_hex_digit(s[0]));
        lemma_hex_run_end(s.skip(1));
    }
}

/// Decodes the inside of a `\u{..}` escape from `chars`, which stands just
/// after the opening brace. Returns the character and the one that follows
/// the digits.
pub fn unescape_unicode(chars: &mut Chars) -> (r: Option<(char, char)>)
    ensures
        r == unicode_escape((*old(chars)).remaining()),
        (*final(chars)).remaining() == (*old(chars)).remaining().skip(
            unicode_escape_taken((*old(chars)).remaining()) as int,
        ),
{
    let ghost s = (*chars).remaining();
    let mut value: u32 = 0;
    let mut i: usize = 0;
    while i < 7
        invariant
            i <= 7,
            i <= s.len(),
            hex_run(s) >= i,
            i <= 6 ==> value == hex_value(s.take(i as int)),
            i <= 6 ==> value < pow16(i as nat),
            (*chars).remaining() == s.skip(i as int),
            s == (*old(chars)).remaining(),
        decreases 7 - i,
    {
        let c = match chars.next() {
            Some(c) => c,
            None => {
                proof {
                    lemma_hex_run_end(s);
                    assert(s.skip(i as int) =~= s.skip(s.len() as int));
                }
                return None;
            },
        };
        proof {
            lemma_hex_run_step(s, i as nat);
            assert(s.skip(i as int).drop_first() =~= s.skip(i as int + 1));
        }
        let num: u32 = if '0' <= c && c <= '9' {
            c as u32 - '0' as u32
        } else if 'a' <= c && c <= 'f' {
            c as u32 - 'a' as u32 + 10
        } else if 'A' <= c && c <= 'F' {
            c as u32 - 'A' as u32 + 10
        } else {
            if i == 0 {
                return None;
            }
            return match char_from_u32(value) {
                Some(decoded) => Some((decoded, c)),
                None => None,
            };
        };
        if i >= 6 {
            return None;
        }
        proof {
            assert(s.take(i as int + 1).drop_last() =~= s.take(i as int));
            assert(pow16(6) == 0x1000000 && pow16(i as nat + 1) <= pow16(6)) by {
                reveal_with_fuel(pow16, 7);
            }
        }
        value = value * 16 + num;
        i = i + 1;
    }
    None
}

/// 16 to the power `n`.
pub open spec fn pow16(n: nat) -> nat
    decreases n,
{
    if n == 0 {
        1
    } else {
        16 * pow16((n - 1) as nat)
    }
}

/// Decodes one escape from `chars`, which stands just after the backslash.
fn unescape_escape(chars: &mut Chars) -> (r: Option<char>)
    ensures
        r is Some <==> escape((*old(chars)).remaining()) is Some,
        r matches Some(c) ==> c == (escape((*old(chars)).remaining())->0).0,
        r is Some ==> (*final(chars)).remaining() == (*old(chars)).remaining().skip(
            (escape((*old(chars)).remaining())->0).1 as int,
        ),
{
    let ghost s = (*chars).remaining();
    let e = match chars.next() {
        Some(e) => e,
        None => {
            return None;
        },
    };
    proof {
        assert(s.drop_first() =~= s.skip(1));
    }
    if e == 't' {
        Some('\t')
    } else if e == 'r' {
        Some('\r')
    } else if e == 'n' {
        Some('\n')
    } else if e == '\\' || e == '\'' || e == '"' {
        Some(e)
    } else if e == 'u' {
        let b = chars.next();
        if b != Some('{') {
            return None;
        }
        proof {
            assert(s.skip(1).drop_first() =~= s.skip(2));
        }
        let (d, next) = match unescape_unicode(chars) {
            Some(p) => p,
            None => {
                return None;
            },
        };
        if next != '}' {
            return None;
        }
        proof {
            let taken = unicode_escape_taken(s.skip(2));
            assert(s.skip(2).skip(taken as int) =~= s.skip(2 + taken as int));
        }
        Some(d)
    } else {
        None
    }
}

/// The text that the quoted literal `s` stands for: see [`unescaped`].
pub fn try_unescape(s: &str) -> (r: Option<String>)
    ensures
        r is Some <==> unescaped(s@) is Some,
        r matches Some(t) ==> t@ == unescaped(s@)->0,
{
    let mut out: Vec<char> = Vec::new();
    let mut chars = s.chars();
    let ghost mut pos: nat = 0;
    let mut first = true;
    let ghost body = if s@.len() > 0 && s@[0] == '"' {
        s@.skip(1)
    } else {
        s@
    };
    proof {
        assert(s@.skip(0) =~= s@);
    }
    loop
        invariant
            pos <= s@.len(),
            chars.remaining() == s@.skip(pos as int),
            first ==> pos == 0 && out@.len() == 0,
            !first ==> unescape_body(body) == (match unescape_body(s@.skip(pos as int)) {
                Some(t) => Some(out@ + t),
                None => None,
            }),
            body == (if s@.len() > 0 && s@[0] == '"' {
                s@.skip(1)
            } else {
                s@
            }),
        decreases s@.len() - pos,
    {
        let ghost rem = s@.skip(pos as int);
        let ghost acc = out@;
        let c = match chars.next() {
            Some(c) => c,
            None => {
                proof {
                    assert(acc + Seq::<char>::empty() =~= acc);
                    assert(rem =~= Seq::<char>::empty());
                    assert(s@.skip(0) =~= s@);
                }
                let n = out.len();
                let end = if n > 0 && out[n - 1] == '"' {
                    n - 1
                } else {
                    n
                };
                let text = string_of(&out, 0, end);
                proof {
                    assert(out@.subrange(0, end as int) =~= strip_trailing_quote(out@));
                }
                return Some(text);
            },
        };
        proof {
            assert(rem.drop_first() =~= s@.skip((pos + 1) as int));
            assert(rem.skip(1) =~= s@.skip((pos + 1) as int));
            assert(s@.skip(0) =~= s@);
            if first {
                assert(acc + unescape_body(s@.skip(1))->0 =~= unescape_body(s@.skip(1))->0);
                assert(acc + unescape_body(s@)->0 =~= unescape_body(s@)->0);
            }
            pos = pos + 1;
        }
        if first && c == '"' {
            first = false;
        } else if c == '\\' {
            first = false;
            let d = match unescape_escape(&mut chars) {
                Some(d) => d,
                None => {
                    return None;
                },
            };
            out.push(d);
            proof {
                let n = (escape(rem.skip(1))->0).1;
                assert(rem.skip(1).skip(n as int) =~= s@.skip((pos + n) as int));
                assert(rem.skip(1 + n as int) =~= s@.skip((pos + n) as int));
                pos = pos + n;
                let t = unescape_body(s@.skip(pos as int));
                if t is Some {
                    assert(acc + (seq![d] + t->0) =~= out@ + t->0);
                }
            }
        } else {
            first = false;
            out.push(c);
            proof {
                let t = unescape_body(s@.skip(pos as int));
                if t is Some {
                    assert(acc + (seq![c] + t->0) =~= out@ + t->0);
                }
            }
        }
    }
}

/// Whether `a` is a documentation attribute: one with a segment `doc` in its
/// path.
pub open spec fn is_doc(a: Attribute) -> bool {
    exists|i: int| 0 <= i < a.path@.len() && (#[trigger] a.path@[i]).text@ == "doc"@
}

/// The documentation lines among `tokens`: the text of each literal, in
/// order; a literal with a malformed escape is left out.
pub open spec fn literal_docs(tokens: Seq<Token>) -> Seq<Seq<char>>
    decreases tokens.len(),
{
    if tokens.len() == 0 {
        Seq::empty()
    } else {
        let rest = literal_docs(tokens.drop_last());
        match tokens.last() {
            Token::Literal { text, .. } => match unescaped(text@) {
                Some(t) => rest.push(t),
                None => rest,
            },
            _ => rest,
        }
    }
}

/// The documentation lines of `attrs`: those of each documentation
/// attribute, in order.
pub open spec fn doc_comments(attrs: Seq<Attribute>) -> Seq<Seq<char>>
    decreases attrs.len(),
{
    if attrs.len() == 0 {
        Seq::empty()
    } else if is_doc(attrs.last()) {
        doc_comments(attrs.drop_last()) + literal_docs(attrs.last().tokens@)
    } else {
        doc_comments(attrs.drop_last())
    }
}

/// Whether `a` is a documentation attribute.
fn has_doc_segment(a: &Attribute) -> (r: bool)
    ensures
        r == is_doc(*a),
{
    let mut i: usize = 0;
    while i < a.path.len()
        invariant
            i <= a.path@.len(),
            forall|k: int| 0 <= k < i ==> (#[trigger] a.path@[k]).text@ != "doc"@,
        decreases a.path@.len() - i,
    {
        if str_eq(a.path[i].text.as_str(), "doc") {
            return true;
        }
        i = i + 1;
    }
    false
}

/// Extracts the documentation lines from the attributes of a declaration.
pub fn extract_doc_comments(attrs: &Vec<Attribute>) -> (r: Vec<String>)
    ensures
        texts(r@) == doc_comments(attrs@),
{
    let mut out: Vec<String> = Vec::new();
    let mut i: usize = 0;
    proof {
        assert(attrs@.take(0) =~= Seq::empty());
        assert(texts(out@) =~= Seq::empty());
    }
    while i < attrs.len()
        invariant
            i <= attrs@.len(),
            texts(out@) == doc_comments(attrs@.take(i as int)),
        decreases attrs@.len() - i,
    {
        let a = &attrs[i];
        proof {
            assert(attrs@.take(i + 1).drop_last() =~= attrs@.take(i as int));
            assert(attrs@.take(i + 1).last() == attrs@[i as int]);
        }
        if has_doc_segment(a) {
            let ghost before = texts(out@);
            let mut j: usize = 0;
            proof {
                assert(a.tokens@.take(0) =~= Seq::empty());
                assert(before + Seq::<Seq<char>>::empty() =~= before);
            }
            while j < a.tokens.len()
                invariant
                    j <= a.tokens@.len(),
                    texts(out@) == before + literal_docs(a.tokens@.take(j as int)),
                decreases a.tokens@.len() - j,
            {
                proof {
                    assert(a.tokens@.take(j + 1).drop_last() =~= a.tokens@.take(j as int));
                    assert(a.tokens@.take(j + 1).last() == a.tokens@[j as int]);
                }
                match &a.tokens[j] {
                    Token::Literal { text, .. } => {
                        match try_unescape(text.as_str()) {
                            Some(t) => {
                                let ghost prev = texts(out@);
                                let ghost tv = t@;
                                out.push(t);
                                proof {
                                    assert(texts(out@) =~= prev.push(tv));
                                    assert(before + literal_docs(a.tokens@.take(j as int)).push(tv)
                                        =~= (before + literal_docs(a.tokens@.take(j as int))).push(
                                        tv,
                                    ));
                                }
                            },
                            None => {},
                        }
                    },
                    _ => {},
                }
                j = j + 1;
            }
            proof {
                assert(a.tokens@.take(j as int) =~= a.tokens@);
            }
        }
        i = i + 1;
    }
    proof {
        assert(attrs@.take(i as int) =~= attrs@);
    }
    out
}

} // verus!
