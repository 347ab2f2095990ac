//! Token trees: what a directive list or an attribute is made of.

use crate::span::Span;
use crate::text::push_char;
use vstd::prelude::*;
use vstd::string::StringExecFns;

verus! {

/// The brackets round a group of tokens.
#[derive(Clone, Copy, Debug, PartialEq, Eq, Structural)]
pub enum Delimiter {
    /// `( .. )`
    Parenthesis,
    /// `{ .. }`
    Brace,
    /// `[ .. ]`
    Bracket,
    /// An invisible group, as a macro expansion leaves round a fragment.
    Invisible,
}

/// What a literal is read as.
#[derive(Debug, PartialEq, Eq)]
pub enum Lit {
    /// A string literal, with the text that it stands for: the quotes taken
    /// off and the escapes decoded.
    Str(String),
    /// An integer literal, with its digits in base 10, without underscores
    /// and suffix; `-` stands in front of the digits of a negative literal.
    Int(String),
    /// Any other literal.
    Other,
}

/// One token tree.
#[derive(Debug, PartialEq, Eq)]
pub enum Token {
    /// A word: an identifier or a keyword. A raw identifier keeps its `r#`.
    Ident { text: String, span: Span },
    /// A single punctuation character; `joint` when the next token follows
    /// it immediately, as the first `:` of `::` does.
    Punct { ch: char, joint: bool, span: Span },
    /// A literal: `text` is the literal as it is written in the source, a
    /// string with its quotes and escapes, a number with its suffix; `lit`
    /// is what the literal is read as.
    Literal { text: String, lit: Lit, span: Span },
    /// Token trees between a pair of delimiters.
    Group { delimiter: Delimiter, tokens: Vec<Token>, span: Span },
}

impl Token {
    /// Where the token stands.
    pub open spec fn spec_span(&self) -> Span {
        match *self {
            Token::Ident { span, .. } => span,
            Token::Punct { span, .. } => span,
            Token::Literal { span, .. } => span,
            Token::Group { span, .. } => span,
        }
    }

    /// Where the token stands.
    #[verifier::when_used_as_spec(spec_span)]
    pub fn span(&self) -> (r: Span)
        ensures
            r == self.spec_span(),
    {
        match self {
            Token::Ident { span, .. } => *span,
            Token::Punct { span, .. } => *span,
            Token::Literal { span, .. } => *span,
            Token::Group { span, .. } => *span,
        }
    }

    /// Whether the token is the punctuation character `c`.
    pub open spec fn spec_is_punct(&self, c: char) -> bool {
        *self matches Token::Punct { ch, .. } && ch == c
    }

    /// Whether the token is the punctuation character `c`.
    #[verifier::when_used_as_spec(spec_is_punct)]
    pub fn is_punct(&self, c: char) -> (r: bool)
        ensures
            r == self.spec_is_punct(c),
    {
        match self {
            Token::Punct { ch, .. } => *ch == c,
            _ => false,
        }
    }
}

/// The span of the token at `i`, or `scope` where the tokens end before `i`:
/// the place to report when something is missing there.
pub open spec fn span_at(tokens: Seq<Token>, i: int, scope: Span) -> Span {
    if 0 <= i < tokens.len() {
        tokens[i].span()
    } else {
        scope
    }
}

/// The span of the token at `i`, or `scope` where the tokens end before `i`.
pub fn token_span(tokens: &Vec<Token>, i: usize, scope: Span) -> (r: Span)
    ensures
        r == span_at(tokens@, i as int, scope),
{
    if i < tokens.len() {
        tokens[i].span()
    } else {
        scope
    }
}

impl Delimiter {
    /// The opening bracket, if the delimiter has one.
    pub open spec fn spec_open(self) -> Option<char> {
        match self {
            Delimiter::Parenthesis => Some('('),
            Delimiter::Brace => Some('{'),
            Delimiter::Bracket => Some('['),
            Delimiter::Invisible => None,
        }
    }

    /// The closing bracket, if the delimiter has one.
    pub open spec fn spec_close(self) -> Option<char> {
        match self {
            Delimiter::Parenthesis => Some(')'),
            Delimiter::Brace => Some('}'),
            Delimiter::Bracket => Some(']'),
            Delimiter::Invisible => None,
        }
    }

    /// The opening bracket, if the delimiter has one.
    #[verifier::when_used_as_spec(spec_open)]
    pub fn open(self) -> (r: Option<char>)
        ensures
            r == self.spec_open(),
    {
        match self {
            Delimiter::Parenthesis => Some('('),
            Delimiter::Brace => Some('{'),
            Delimiter::Bracket => Some('['),
            Delimiter::Invisible => None,
        }
    }

    /// The closing bracket, if the delimiter has one.
    #[verifier::when_used_as_spec(spec_close)]
    pub fn close(self) -> (r: Option<char>)
        ensures
            r == self.spec_close(),
    {
        match self {
            Delimiter::Parenthesis => Some(')'),
            Delimiter::Brace => Some('}'),
            Delimiter::Bracket => Some(']'),
            Delimiter::Invisible => None,
        }
    }
}

/// A bracket followed by a space, or nothing where there is no bracket.
pub open spec fn bracket_text(bracket: Option<char>) -> Seq<char> {
    match bracket {
        Some(c) => seq![c, ' '],
        None => Seq::empty(),
    }
}

/// How the token `t` is written, with the space that parts it from the
/// next token: every token is followed by a space but a punctuation
/// character that is joined to the next token.
pub open spec fn token_text(t: Token) -> Seq<char>
    decreases t,
{
    match t {
        Token::Ident { text, .. } => text@.push(' '),
        Token::Punct { ch, joint, .. } => if joint {
            seq![ch]
        } else {
            seq![ch, ' ']
        },
        Token::Literal { text, .. } => text@.push(' '),
        Token::Group { delimiter, tokens, .. } => bracket_text(delimiter.open()) + rendered(
            tokens@,
        ) + bracket_text(delimiter.close()),
    }
}

/// How the tokens `tokens` are written, one after the other.
pub open spec fn rendered(tokens: Seq<Token>) -> Seq<char>
    decreases tokens,
{
    if tokens.len() == 0 {
        Seq::empty()
    } else {
        rendered(tokens.drop_last()) + token_text(tokens.last())
    }
}

/// Writes a bracket and a space to `out`.
fn render_bracket(bracket: Option<char>, out: &mut String)
    ensures
        final(out)@ == old(out)@ + bracket_text(bracket),
{
    match bracket {
        Some(c) => {
            push_char(out, c);
            push_char(out, ' ');
            assert(out@ =~= old(out)@ + seq![c, ' ']);
        },
        None => {
            assert(out@ =~= out@ + Seq::<char>::empty());
        },
    }
}

/// Writes the tokens `tokens[from..to]` to the end of `out`.
pub fn render(tokens: &Vec<Token>, from: usize, to: usize, out: &mut String)
    requires
        from <= to <= tokens@.len(),
    ensures
        final(out)@ == old(out)@ + rendered(tokens@.subrange(from as int, to as int)),
    decreases tokens,
{
    let ghost start = out@;
    let mut i: usize = from;
    proof {
        assert(tokens@.subrange(from as int, from as int) =~= Seq::empty());
        assert(start + Seq::<char>::empty() =~= start);
    }
    while i < to
        invariant
            from <= i <= to <= tokens@.len(),
            out@ == start + rendered(tokens@.subrange(from as int, i as int)),
        decreases to - i,
    {
        let ghost before = out@;
        proof {
            assert(tokens@.subrange(from as int, i + 1).drop_last() =~= tokens@.subrange(
                from as int,
                i as int,
            ));
            assert(tokens@.subrange(from as int, i + 1).last() == tokens@[i as int]);
        }
        match &tokens[i] {
            Token::Ident { text, .. } => {
                out.append(text.as_str());
                push_char(out, ' ');
                assert(out@ =~= before + text@.push(' '));
            },
            Token::Punct { ch, joint, .. } => {
                push_char(out, *ch);
                if !*joint {
                    push_char(out, ' ');
                }
                assert(out@ =~= before + token_text(tokens@[i as int]));
            },
            Token::Literal { text, .. } => {
                out.append(text.as_str());
                push_char(out, ' ');
                assert(out@ =~= before + text@.push(' '));
            },
            Token::Group { delimiter, tokens: inner, .. } => {
                render_bracket(delimiter.open(), out);
                assert(decreases_to!(tokens => inner)) by {
                    assert(decreases_to!(tokens@ => tokens@[i as int]));
                }
                render(inner, 0, inner.len(), out);
                render_bracket(delimiter.close(), out);
                proof {
                    assert(inner@.subrange(0, inner@.len() as int) =~= inner@);
                    assert(out@ =~= before + token_text(tokens@[i as int]));
                }
            },
        }
        i = i + 1;
        proof {
            assert(out@ =~= start + (rendered(tokens@.subrange(from as int, i - 1)) + token_text(
                tokens@[i - 1],
            )));
        }
    }
}

} // verus!
