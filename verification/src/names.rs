//! Names: which tokens may name a widget, and the name that a widget gets
//! from its function where it was given none.
//!
//! Whether a text is an identifier is asked of `syn`. Its answers are taken
//! as they come: the grammar reads them as a sequence of verdicts, one for
//! each token, and says what the tokens stand for under any such sequence.

use vstd::prelude::*;
use vstd::string::*;
use crate::ast::{Ident, IdentView, Path};
use crate::diagnostic::{Diagnostic, DiagnosticKind, DiagnosticView};
use crate::token::{Token, TokenView, token_views};

verus! {

/// One of the six bracket characters.
pub open spec fn is_bracket(c: char) -> bool {
    c == '(' || c == ')' || c == '[' || c == ']' || c == '{' || c == '}'
}

/// A character that a reader of Rust passes over before and after a word:
/// white space as Unicode has it, the two direction marks and the
/// byte-order mark; and `/`, with which a comment begins.
pub open spec fn is_blank(c: char) -> bool {
    c == ' ' || ('\u{9}' <= c && c <= '\u{d}') || c == '/' || c == '\u{85}' || c == '\u{a0}' || c
        == '\u{1680}' || ('\u{2000}' <= c && c <= '\u{200a}') || c == '\u{200e}' || c
        == '\u{200f}' || c == '\u{2028}' || c == '\u{2029}' || c == '\u{202f}' || c == '\u{205f}'
        || c == '\u{3000}' || c == '\u{feff}'
}

/// No character of the text is a bracket or a blank.
pub open spec fn plain_text(text: Seq<char>) -> bool {
    forall|i: int| 0 <= i < text.len() ==> !is_bracket(#[trigger] text[i]) && !is_blank(text[i])
}

/// What is left of a text in double quotes when the quotes are taken away;
/// nothing for any other text.
pub open spec fn unquoted(text: Seq<char>) -> Option<Seq<char>> {
    if text.len() >= 2 && text[0] == '"' && text[text.len() - 1] == '"' {
        Some(text.subrange(1, text.len() - 1))
    } else {
        None
    }
}

/// The text that the token at `pos` offers as a name: a word as it is, a
/// literal in double quotes without the quotes. Other tokens offer none.
pub open spec fn name_candidate(ts: Seq<TokenView>, pos: int) -> Option<Seq<char>> {
    if 0 <= pos < ts.len() {
        match ts[pos] {
            TokenView::Ident(s) => Some(s),
            TokenView::Literal(s) => unquoted(s),
            _ => None,
        }
    } else {
        None
    }
}

/// Whether the verdicts take the token at `pos` for a name. Beyond their
/// end they take nothing.
pub open spec fn name_at(names: Seq<bool>, pos: int) -> bool {
    0 <= pos < names.len() && names[pos]
}

/// What holds of the verdicts that [`name_verdicts`] gives for the tokens
/// `ts`: there is one for each token, and a token is only taken for a name
/// if it offers a text, and the text is not empty and has no bracket and
/// no blank in it.
pub open spec fn verdicts_for(ts: Seq<TokenView>, names: Seq<bool>) -> bool {
    &&& names.len() == ts.len()
    &&& forall|i: int|
        0 <= i < names.len() && #[trigger] names[i] ==> (name_candidate(ts, i) matches Some(text)
            && text.len() > 0 && plain_text(text))
}

/// `syn::parse_str::<syn::Ident>`: whether `syn` reads the text as one
/// identifier that is no keyword. Nothing is claimed of the answer but that
/// it is no for the empty text: which letters an identifier may have is
/// decided by the lexer at work in the process, and that need not be the
/// same one everywhere. Text with brackets is kept away from it, since
/// `syn` descends once for each level of nested brackets; text with blanks
/// is kept away, since they would be passed over.
#[verifier::external_body]
fn parses_as_identifier(text: &str) -> (ok: bool)
    requires
        plain_text(text@),
    ensures
        ok ==> text@.len() > 0,
{
    syn::parse_str::<syn::Ident>(text).is_ok()
}

/// `String::push`: appends one character to the end of the string.
pub assume_specification[ String::push ](s: &mut String, c: char)
    ensures
        final(s)@ == old(s)@.push(c),
;

fn blank_char(c: char) -> (b: bool)
    ensures
        b == is_blank(c),
{
    c == ' ' || ('\u{9}' <= c && c <= '\u{d}') || c == '/' || c == '\u{85}' || c == '\u{a0}' || c
        == '\u{1680}' || ('\u{2000}' <= c && c <= '\u{200a}') || c == '\u{200e}' || c
        == '\u{200f}' || c == '\u{2028}' || c == '\u{2029}' || c == '\u{202f}' || c == '\u{205f}'
        || c == '\u{3000}' || c == '\u{feff}'
}

fn is_plain(text: &str) -> (b: bool)
    ensures
        b == plain_text(text@),
{
    for c in it: text.chars()
        invariant
            it.seq() == text@,
            forall|j: int|
                0 <= j < it.index() ==> !is_bracket(#[trigger] text@[j]) && !is_blank(text@[j]),
    {
        if c == '(' || c == ')' || c == '[' || c == ']' || c == '{' || c == '}' || blank_char(c) {
            return false;
        }
    }
    true
}

/// Whether `text` can name a widget: whether it is an identifier and no
/// keyword. `syn` decides; it is only asked about text without brackets
/// and blanks, and any other text is no name.
pub fn is_valid_name(text: &str) -> (ok: bool)
    ensures
        ok ==> text@.len() > 0 && plain_text(text@),
{
    if is_plain(text) {
        parses_as_identifier(text)
    } else {
        false
    }
}

/// Computes [`unquoted`].
pub fn unquote(text: &str) -> (r: Option<&str>)
    ensures
        match r {
            Some(inner) => unquoted(text@) == Some(inner@),
            None => unquoted(text@) is None,
        },
{
    let n: usize = text.unicode_len();
    if n >= 2 && text.get_char(0) == '"' && text.get_char(n - 1) == '"' {
        Some(text.substring_char(1, n - 1))
    } else {
        None
    }
}

/// A copy of the text that the token at `pos` offers as a name.
pub(crate) fn candidate_text(tokens: &Vec<Token>, pos: usize) -> (r: Option<String>)
    ensures
        match r {
            Some(text) => name_candidate(token_views(tokens@), pos as int) == Some(text@),
            None => name_candidate(token_views(tokens@), pos as int) is None,
        },
{
    if pos < tokens.len() {
        match &tokens[pos] {
            Token::Ident(s) => Some(s.clone()),
            Token::Literal(s) => match unquote(s.as_str()) {
                Some(inner) => Some(String::from_str(inner)),
                None => None,
            },
            _ => None,
        }
    } else {
        None
    }
}

/// Asks for each token whether the text that it offers can name a widget.
///
/// The answers come from `syn`, one for each token, and are not fixed by
/// the tokens alone; [`verdicts_for`] says what holds of them in any case.
pub fn name_verdicts(tokens: &Vec<Token>) -> (names: Vec<bool>)
    ensures
        verdicts_for(token_views(tokens@), names@),
{
    let ghost ts = token_views(tokens@);
    let n: usize = tokens.len();
    let mut names: Vec<bool> = Vec::with_capacity(n);
    let mut i: usize = 0;
    while i < n
        invariant
            n == tokens.len(),
            ts == token_views(tokens@),
            i <= n,
            names@.len() == i,
            forall|j: int|
                0 <= j < i && #[trigger] names@[j] ==> (name_candidate(ts, j) matches Some(text)
                    && text.len() > 0 && plain_text(text)),
        decreases n - i,
    {
        let verdict = match candidate_text(tokens, i) {
            Some(text) => is_valid_name(text.as_str()),
            None => false,
        };
        names.push(verdict);
        i = i + 1;
    }
    names
}

/// Computes [`name_at`].
pub(crate) fn accepted(names: &Vec<bool>, pos: usize) -> (b: bool)
    ensures
        b == name_at(names@, pos as int),
{
    pos < names.len() && names[pos]
}

/// The name, if it is one: `acceptable` says whether its text can name a
/// widget.
pub open spec fn spec_checked_name(name: IdentView, acceptable: bool) -> Result<
    IdentView,
    DiagnosticView,
> {
    if acceptable {
        Ok(name)
    } else {
        Err(DiagnosticView { kind: DiagnosticKind::ExpectedName, at: name.at })
    }
}

/// Hands the name on where `acceptable` holds, and reports at its position
/// that a name was expected where it does not.
pub fn checked_name(name: Ident, acceptable: bool) -> (r: Result<Ident, Diagnostic>)
    ensures
        match r {
            Ok(n) => spec_checked_name(name@, acceptable) == Ok::<IdentView, DiagnosticView>(n@),
            Err(d) => spec_checked_name(name@, acceptable) == Err::<IdentView, DiagnosticView>(d@),
        },
{
    if acceptable {
        Ok(name)
    } else {
        Err(Diagnostic { kind: DiagnosticKind::ExpectedName, at: name.at })
    }
}

/// An upper-case letter of ASCII.
pub open spec fn is_upper(c: char) -> bool {
    'A' <= c && c <= 'Z'
}

/// A lower-case letter or a digit of ASCII.
pub open spec fn is_lower_or_digit(c: char) -> bool {
    ('a' <= c && c <= 'z') || ('0' <= c && c <= '9')
}

/// The lower-case form of an upper-case letter of ASCII; any other character
/// as it is.
pub open spec fn lower(c: char) -> char {
    if is_upper(c) {
        ((c as u8) + 32) as char
    } else {
        c
    }
}

/// The snake-case form of a word: every upper-case letter of ASCII becomes
/// lower case, and `_` is put before it where it follows a lower-case letter
/// or a digit.
pub open spec fn snake_case(word: Seq<char>) -> Seq<char>
    decreases word.len(),
{
    if word.len() == 0 {
        Seq::empty()
    } else {
        let head = snake_case(word.drop_last());
        let c = word.last();
        if is_upper(c) && word.len() >= 2 && is_lower_or_digit(word[word.len() - 2]) {
            head.push('_').push(lower(c))
        } else {
            head.push(lower(c))
        }
    }
}

/// The snake-case forms of the segments of a path, joined by `_`.
pub open spec fn snake_path(segments: Seq<IdentView>) -> Seq<char>
    decreases segments.len(),
{
    if segments.len() == 0 {
        Seq::empty()
    } else if segments.len() == 1 {
        snake_case(segments[0].name)
    } else {
        snake_path(segments.drop_last()).push('_') + snake_case(segments.last().name)
    }
}

fn lower_char(c: char) -> (r: char)
    ensures
        r == lower(c),
{
    if 'A' <= c && c <= 'Z' {
        ((c as u8) + 32) as char
    } else {
        c
    }
}

/// Appends the snake-case form of `word` to `out`.
fn push_snake_case(out: &mut String, word: &str)
    ensures
        final(out)@ == old(out)@ + snake_case(word@),
{
    let mut previous: char = '_';
    assert(word@.take(0) =~= Seq::<char>::empty());
    for c in it: word.chars()
        invariant
            it.seq() == word@,
            out@ == old(out)@ + snake_case(word@.take(it.index() as int)),
            it.index() > 0 ==> previous == word@[it.index() - 1],
            it.index() == 0 ==> previous == '_',
    {
        proof {
            let w = word@.take(it.index() + 1);
            assert(w.drop_last() =~= word@.take(it.index() as int));
            assert(w.last() == c);
            assert(it.index() > 0 ==> w[w.len() - 2] == previous);
        }
        let follows = ('a' <= previous && previous <= 'z') || ('0' <= previous && previous <= '9');
        if 'A' <= c && c <= 'Z' && follows {
            out.push('_');
        }
        out.push(lower_char(c));
        proof {
            let w = word@.take(it.index() + 1);
            assert(out@ =~= old(out)@ + snake_case(w));
        }
        previous = c;
    }
    assert(word@.take(word@.len() as int) =~= word@);
}

/// The snake-case form of a word.
pub fn to_snake_case(word: &str) -> (r: String)
    ensures
        r@ == snake_case(word@),
{
    let mut out = String::new();
    push_snake_case(&mut out, word);
    assert(Seq::<char>::empty() + snake_case(word@) =~= snake_case(word@));
    out
}

/// The name that a widget gets from the path of its function.
pub fn snake_case_name(path: &Path) -> (r: String)
    ensures
        r@ == snake_path(path@),
{
    let mut out = String::new();
    let n: usize = path.segments.len();
    let mut i: usize = 0;
    let ghost segments = path@;
    assert(segments.take(0) =~= Seq::<IdentView>::empty());
    while i < n
        invariant
            segments == path@,
            n == path.segments.len(),
            n == segments.len(),
            i <= n,
            out@ == snake_path(segments.take(i as int)),
        decreases n - i,
    {
        proof {
            let s = segments.take(i + 1);
            assert(s.drop_last() =~= segments.take(i as int));
            assert(s.last() == path.segments@[i as int]@);
        }
        if i > 0 {
            out.push('_');
        }
        push_snake_case(&mut out, path.segments[i].name.as_str());
        proof {
            let s = segments.take(i + 1);
            assert(out@ =~= snake_path(s));
        }
        i = i + 1;
    }
    assert(segments.take(n as int) =~= segments);
    out
}

/// A word without upper-case letters of ASCII is its own snake-case form.
pub proof fn lemma_snake_case_fixed(word: Seq<char>)
    requires
        forall|i: int| 0 <= i < word.len() ==> !is_upper(#[trigger] word[i]),
    ensures
        snake_case(word) == word,
    decreases word.len(),
{
    if word.len() > 0 {
        lemma_snake_case_fixed(word.drop_last());
        assert(word.drop_last().push(word.last()) =~= word);
    }
}

} // verus!
