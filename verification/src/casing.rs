//! External names: the case conversions and the stripping of accessor
//! prefixes.

use crate::diagnostic::{BindgenResult, Diagnostic, ErrorKind, SpannedError};
use crate::span::Span;
use crate::text::{chars_of, string_of};
use vstd::prelude::*;

verus! {

/// The two cases that external names are converted to.
#[derive(Clone, Copy, Debug, PartialEq, Eq, Structural)]
pub enum Case {
    /// `camelCase`, for callables.
    Camel,
    /// `PascalCase`, for records.
    Pascal,
}

/// `text` converted to `case`, as `convert_case` converts it.
pub uninterp spec fn cased(text: Seq<char>, case: Case) -> Seq<char>;

/// Whether `c` is a lowercase character, as `char::is_lowercase` tells.
pub uninterp spec fn lowercase(c: char) -> bool;

/// Whether `c` is an uppercase character, as `char::is_uppercase` tells.
pub uninterp spec fn uppercase(c: char) -> bool;

/// Tells whether `c` is lowercase. Calls `char::is_lowercase`, which goes by
/// the Unicode property `Lowercase`.
#[verifier::external_body]
fn is_lowercase(c: char) -> (r: bool)
    ensures
        r == lowercase(c),
{
    c.is_lowercase()
}

/// Tells whether `c` is uppercase. Calls `char::is_uppercase`, which goes by
/// the Unicode property `Uppercase`.
#[verifier::external_body]
fn is_uppercase(c: char) -> (r: bool)
    ensures
        r == uppercase(c),
{
    c.is_uppercase()
}

/// Whether `c` parts the words of a name.
pub open spec fn is_separator(c: char) -> bool {
    c == '-' || c == '_' || c == ' '
}

/// Whether `c` is an ASCII digit.
pub open spec fn is_digit(c: char) -> bool {
    '0' <= c && c <= '9'
}

/// Whether `c` is an ASCII punctuation character.
pub open spec fn is_punctuation(c: char) -> bool {
    ('!' <= c && c <= '/') || (':' <= c && c <= '@') || ('[' <= c && c <= '`') || ('{' <= c && c
        <= '~')
}

/// Whether a word ends between `f` and `s`: after a lowercase character
/// before an uppercase one, and between a digit and what is neither digit
/// nor punctuation.
pub open spec fn two_char_boundary(f: char, s: char) -> bool {
    (lowercase(f) && uppercase(s)) || (is_digit(f) && !(is_digit(s) || is_punctuation(s))) || (!(
    is_digit(f) || is_punctuation(f)) && is_digit(s))
}

/// Whether a word ends between `f` and `s`, which `t` follows: as between
/// two characters, and also after the first of two uppercase characters that
/// a lowercase one follows.
pub open spec fn three_char_boundary(f: char, s: char, t: char) -> bool {
    (uppercase(f) && uppercase(s) && lowercase(t)) || two_char_boundary(f, s)
}

/// How many bytes `c` takes in UTF-8.
pub open spec fn utf8_len(c: char) -> nat {
    if (c as u32) < 0x80 {
        1
    } else if (c as u32) < 0x800 {
        2
    } else if (c as u32) < 0x10000 {
        3
    } else {
        4
    }
}

/// Whether one of the characters of `word` from the `k`th on starts at the
/// byte `x`, or `word` ends there; the `k`th character starts at the byte
/// `offset`.
pub open spec fn starts_char_from(word: Seq<char>, k: nat, offset: nat, x: nat) -> bool
    decreases word.len() - k,
{
    if offset == x {
        true
    } else if offset > x || k >= word.len() {
        false
    } else {
        starts_char_from(word, k + 1, offset + utf8_len(word[k as int]), x)
    }
}

/// Whether the byte `x` of `word`, written in UTF-8, is the first of a
/// character, or the end of `word`.
pub open spec fn starts_char(word: Seq<char>, x: nat) -> bool {
    starts_char_from(word, 0, 0, x)
}

/// Whether `word`, a part of a name between separators, can be cut into its
/// words. `convert_case` finds where a word ends by counting characters and
/// cuts there by counting bytes: after the `i`th character it cuts at the
/// byte `i`, and before the last character at the last byte. The word can be
/// cut when each of these bytes is the first of a character.
pub open spec fn word_can_be_cut(word: Seq<char>) -> bool {
    &&& forall|i: int|
        0 <= i && i + 2 < word.len() && three_char_boundary(
            #[trigger] word[i],
            word[i + 1],
            word[i + 2],
        ) ==> starts_char(word, (i + 1) as nat)
    &&& word.len() >= 2 && two_char_boundary(word[word.len() - 2], word[word.len() - 1])
        ==> utf8_len(word[word.len() - 1]) == 1
}

/// How many characters stand in `text` from `from` on before the next
/// separator, or before the end.
pub open spec fn word_len(text: Seq<char>, from: nat) -> nat
    decreases text.len() - from,
{
    if from >= text.len() || is_separator(text[from as int]) {
        0
    } else {
        1 + word_len(text, from + 1)
    }
}

/// Whether the parts of `text` between separators, from the part that
/// starts at `from` on, can all be cut into their words.
pub open spec fn can_convert_from(text: Seq<char>, from: nat) -> bool
    decreases text.len() - from,
{
    let end = from + word_len(text, from);
    word_can_be_cut(text.subrange(from as int, end as int)) && (end >= text.len()
        || can_convert_from(text, end + 1))
}

/// Whether `text` can be converted to another case: `convert_case` fails on
/// a text that it would have to cut inside a character.
pub open spec fn can_convert(text: Seq<char>) -> bool {
    can_convert_from(text, 0)
}

/// Converts `text` to `case` with `convert_case::Casing::to_case`, which
/// splits the text into words and joins them again in the new case. The
/// text has to be one that can be cut into words: `to_case` cuts the text at
/// byte positions that it counted in characters.
#[verifier::external_body]
fn to_case(text: &str, case: Case) -> (r: String)
    requires
        can_convert(text@),
    ensures
        r@ == cased(text@, case),
{
    match case {
        Case::Camel => convert_case::Casing::to_case(text, convert_case::Case::Camel),
        Case::Pascal => convert_case::Casing::to_case(text, convert_case::Case::Pascal),
    }
}

/// `text` converted to `case`, or `None` where `text` cannot be converted.
pub open spec fn converted_case(text: Seq<char>, case: Case) -> Option<Seq<char>> {
    if can_convert(text) {
        Some(cased(text, case))
    } else {
        None
    }
}

/// How many bytes `c` takes in UTF-8.
fn utf8_length(c: char) -> (r: usize)
    ensures
        r == utf8_len(c),
{
    let v = c as u32;
    if v < 0x80 {
        1
    } else if v < 0x800 {
        2
    } else if v < 0x10000 {
        3
    } else {
        4
    }
}

/// Whether the byte `x` of `word` is the first of a character, or the end
/// of `word`.
fn is_char_start(word: &Vec<char>, x: usize) -> (r: bool)
    ensures
        r == starts_char(word@, x as nat),
{
    let mut k: usize = 0;
    let mut offset: usize = 0;
    while offset < x && k < word.len()
        invariant
            offset <= x,
            k <= word@.len(),
            starts_char(word@, x as nat) == starts_char_from(
                word@,
                k as nat,
                offset as nat,
                x as nat,
            ),
        decreases word@.len() - k,
    {
        let len = utf8_length(word[k]);
        if len > x - offset {
            assert(!starts_char_from(
                word@,
                (k + 1) as nat,
                (offset + len) as nat,
                x as nat,
            ));
            return false;
        }
        offset = offset + len;
        k = k + 1;
    }
    offset == x
}

/// Whether a word ends between `f` and `s`.
fn ends_between(f: char, s: char) -> (r: bool)
    ensures
        r == two_char_boundary(f, s),
{
    let f_digit = '0' <= f && f <= '9';
    let s_digit = '0' <= s && s <= '9';
    let f_punct = ('!' <= f && f <= '/') || (':' <= f && f <= '@') || ('[' <= f && f <= '`') || (
    '{' <= f && f <= '~');
    let s_punct = ('!' <= s && s <= '/') || (':' <= s && s <= '@') || ('[' <= s && s <= '`') || (
    '{' <= s && s <= '~');
    (is_lowercase(f) && is_uppercase(s)) || (f_digit && !(s_digit || s_punct)) || (!(f_digit
        || f_punct) && s_digit)
}

/// Whether `word` can be cut into its words.
fn word_is_safe(word: &Vec<char>) -> (r: bool)
    ensures
        r == word_can_be_cut(word@),
{
    let n = word.len();
    if n >= 2 && ends_between(word[n - 2], word[n - 1]) && utf8_length(word[n - 1]) != 1 {
        return false;
    }
    let mut i: usize = 0;
    while n >= 3 && i < n - 2
        invariant
            n == word@.len(),
            n >= 3 ==> i <= n - 2,
            forall|j: int|
                0 <= j < i && j + 2 < n && three_char_boundary(
                    #[trigger] word@[j],
                    word@[j + 1],
                    word@[j + 2],
                ) ==> starts_char(word@, (j + 1) as nat),
        decreases n - i,
    {
        let ends = (is_uppercase(word[i]) && is_uppercase(word[i + 1]) && is_lowercase(
            word[i + 2],
        )) || ends_between(word[i], word[i + 1]);
        if ends && !is_char_start(word, i + 1) {
            return false;
        }
        i = i + 1;
    }
    true
}

/// Whether `text` can be converted to another case.
pub fn is_convertible(text: &str) -> (r: bool)
    ensures
        r == can_convert(text@),
{
    let chars = chars_of(text);
    let n = chars.len();
    let mut from: usize = 0;
    loop
        invariant
            from <= n,
            n == chars@.len(),
            chars@ == text@,
            can_convert(text@) == can_convert_from(chars@, from as nat),
        decreases n - from,
    {
        let mut word: Vec<char> = Vec::new();
        let mut end: usize = from;
        while end < n && !(chars[end] == '-' || chars[end] == '_' || chars[end] == ' ')
            invariant
                from <= end <= n,
                n == chars@.len(),
                word@ == chars@.subrange(from as int, end as int),
                word_len(chars@, from as nat) == (end - from) + word_len(chars@, end as nat),
            decreases n - end,
        {
            word.push(chars[end]);
            end = end + 1;
            assert(word@ =~= chars@.subrange(from as int, end as int));
        }
        if !word_is_safe(&word) {
            return false;
        }
        if end >= n {
            return true;
        }
        from = end + 1;
    }
}

/// Converts `text` to `case`. A text that would have to be cut inside a
/// character cannot be converted.
pub fn convert_case(text: &str, case: Case) -> (r: Option<String>)
    ensures
        r is Some <==> converted_case(text@, case) is Some,
        r matches Some(s) ==> Some(s@) == converted_case(text@, case),
{
    if is_convertible(text) {
        Some(to_case(text, case))
    } else {
        None
    }
}

/// The external name that `name` gives: `name` is a name as it was given or
/// converted, or `None` where it could not be converted. An external name
/// is never empty.
pub open spec fn external_name(name: Option<Seq<char>>) -> Result<Seq<char>, ErrorKind> {
    match name {
        None => Err(ErrorKind::NameNotConvertible),
        Some(text) => if text.len() == 0 {
            Err(ErrorKind::EmptyName)
        } else {
            Ok(text)
        },
    }
}

/// Checks that `name` gives an external name; an error is reported at
/// `span`.
pub fn check_name(name: Option<String>, span: Span) -> (r: BindgenResult<String>)
    ensures
        match external_name(
            match name {
                Some(s) => Some(s@),
                None => None,
            },
        ) {
            Ok(text) => r matches Ok(s) && s@ == text && s@.len() > 0,
            Err(kind) => r matches Err(d) && d@ == seq![SpannedError { span, kind }],
        },
{
    match name {
        None => Err(Diagnostic::spanned_error(span, ErrorKind::NameNotConvertible)),
        Some(text) => {
            if text.as_str().is_empty() {
                Err(Diagnostic::spanned_error(span, ErrorKind::EmptyName))
            } else {
                Ok(text)
            }
        },
    }
}

/// Whether `s` starts with `prefix`.
pub open spec fn starts_with(s: Seq<char>, prefix: Seq<char>) -> bool {
    prefix.len() <= s.len() && s.take(prefix.len() as int) == prefix
}

/// `s` without every repetition of `prefix` at its start.
pub open spec fn trimmed_start(s: Seq<char>, prefix: Seq<char>) -> Seq<char>
    decreases s.len(),
{
    if prefix.len() > 0 && starts_with(s, prefix) {
        trimmed_start(s.skip(prefix.len() as int), prefix)
    } else {
        s
    }
}

/// Takes every repetition of `prefix` off the start of `s`.
pub fn trim_start_matches(s: &str, prefix: &str) -> (r: String)
    ensures
        r@ == trimmed_start(s@, prefix@),
{
    let text = chars_of(s);
    let p = chars_of(prefix);
    let n = text.len();
    let m = p.len();
    let mut start: usize = 0;
    proof {
        assert(text@.skip(0) =~= text@);
    }
    if m > 0 {
        loop
            invariant
                start <= n,
                n == text@.len(),
                m == p@.len(),
                m > 0,
                text@ == s@,
                p@ == prefix@,
                trimmed_start(s@, prefix@) == trimmed_start(text@.skip(start as int), p@),
            ensures
                start <= n,
                trimmed_start(s@, prefix@) == text@.skip(start as int),
            decreases n - start,
        {
            if n - start < m {
                break ;
            }
            let mut k: usize = 0;
            while k < m && text[start + k] == p[k]
                invariant
                    k <= m,
                    start + m <= n,
                    n == text@.len(),
                    m == p@.len(),
                    forall|j: int| 0 <= j < k ==> text@[start + j] == p@[j],
                decreases m - k,
            {
                k = k + 1;
            }
            let ghost rest = text@.skip(start as int);
            if k < m {
                proof {
                    assert(rest.take(m as int)[k as int] == text@[start + k]);
                }
                break ;
            }
            proof {
                assert(rest.take(m as int) =~= p@);
                assert(rest.skip(m as int) =~= text@.skip(start + m));
            }
            start = start + m;
        }
    }
    let out = string_of(&text, start, n);
    proof {
        assert(text@.subrange(start as int, n as int) =~= text@.skip(start as int));
    }
    out
}

proof fn lemma_word_len_bound(text: Seq<char>, from: nat)
    requires
        from <= text.len(),
    ensures
        from + word_len(text, from) <= text.len(),
    decreases text.len() - from,
{
    if from < text.len() && !is_separator(text[from as int]) {
        lemma_word_len_bound(text, from + 1);
    }
}

proof fn lemma_ascii_starts_char(word: Seq<char>, k: nat, x: nat)
    requires
        forall|i: int| 0 <= i < word.len() ==> utf8_len(#[trigger] word[i]) == 1,
        k <= x <= word.len(),
    ensures
        starts_char_from(word, k, k, x),
    decreases x - k,
{
    if k < x {
        lemma_ascii_starts_char(word, k + 1, x);
    }
}

proof fn lemma_ascii_from(text: Seq<char>, from: nat)
    requires
        forall|i: int| 0 <= i < text.len() ==> utf8_len(#[trigger] text[i]) == 1,
        from <= text.len(),
    ensures
        can_convert_from(text, from),
    decreases text.len() - from,
{
    lemma_word_len_bound(text, from);
    let end = from + word_len(text, from);
    let word = text.subrange(from as int, end as int);
    assert forall|i: int|
        0 <= i && i + 2 < word.len() && three_char_boundary(
            #[trigger] word[i],
            word[i + 1],
            word[i + 2],
        ) implies starts_char(word, (i + 1) as nat) by {
        lemma_ascii_starts_char(word, 0, (i + 1) as nat);
    }
    if end < text.len() {
        lemma_ascii_from(text, end + 1);
    }
}

/// Every ASCII text can be converted to another case: each of its
/// characters takes one byte, so that no cut falls inside a character.
pub proof fn lemma_ascii_can_be_converted(text: Seq<char>)
    requires
        vstd::utf8::is_ascii_chars(text),
    ensures
        can_convert(text),
{
    assert forall|i: int| 0 <= i < text.len() implies utf8_len(#[trigger] text[i]) == 1 by {
        assert(text[i] <= '\u{7f}');
    }
    lemma_ascii_from(text, 0);
}

/// A text in which no word ends, because none of its characters is a digit
/// or an uppercase letter, can be converted to another case, whatever
/// characters it holds.
pub proof fn lemma_text_without_boundaries_can_be_converted(text: Seq<char>)
    requires
        forall|i: int|
            0 <= i < text.len() ==> !is_digit(#[trigger] text[i]) && !uppercase(text[i]),
    ensures
        can_convert(text),
{
    lemma_no_boundaries_from(text, 0);
}

proof fn lemma_no_boundaries_from(text: Seq<char>, from: nat)
    requires
        forall|i: int|
            0 <= i < text.len() ==> !is_digit(#[trigger] text[i]) && !uppercase(text[i]),
        from <= text.len(),
    ensures
        can_convert_from(text, from),
    decreases text.len() - from,
{
    lemma_word_len_bound(text, from);
    let end = from + word_len(text, from);
    let word = text.subrange(from as int, end as int);
    assert forall|i: int| 0 <= i < word.len() implies !is_digit(#[trigger] word[i]) && !uppercase(
        word[i],
    ) by {
        assert(word[i] == text[from + i]);
    }
    if end < text.len() {
        lemma_no_boundaries_from(text, end + 1);
    }
}

} // verus!
