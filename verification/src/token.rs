//! Tokens: the alphabet of the widget notation.

use vstd::prelude::*;

verus! {

/// The three kinds of brackets that enclose a group of tokens.
#[derive(Clone, Copy, Debug, PartialEq, Eq, Structural)]
pub enum Delimiter {
    /// `(` and `)`
    Parenthesis,
    /// `{` and `}`
    Brace,
    /// `[` and `]`
    Bracket,
}

/// One token of the input.
///
/// A punctuation token holds a single character; its flag says that the
/// character is joined to the punctuation character after it, as the first
/// character of `::`, `=>` and `->` is.
#[derive(Clone, Debug, PartialEq, Eq)]
pub enum Token {
    /// A word: a name or a keyword.
    Ident(String),
    /// A punctuation character, and whether it is joined to the next one.
    Punct(char, bool),
    /// A literal, as written in the source.
    Literal(String),
    /// An opening bracket.
    Open(Delimiter),
    /// A closing bracket.
    Close(Delimiter),
}

/// The mathematical value of a token.
pub enum TokenView {
    Ident(Seq<char>),
    Punct(char, bool),
    Literal(Seq<char>),
    Open(Delimiter),
    Close(Delimiter),
}

impl View for Token {
    type V = TokenView;

    open spec fn view(&self) -> TokenView {
        match *self {
            Token::Ident(s) => TokenView::Ident(s@),
            Token::Punct(c, joint) => TokenView::Punct(c, joint),
            Token::Literal(s) => TokenView::Literal(s@),
            Token::Open(d) => TokenView::Open(d),
            Token::Close(d) => TokenView::Close(d),
        }
    }
}

/// The values of a sequence of tokens, one for one.
pub open spec fn token_views(tokens: Seq<Token>) -> Seq<TokenView> {
    tokens.map_values(|t: Token| t@)
}

/// The token at `pos` is the punctuation character `c`.
pub open spec fn is_punct(ts: Seq<TokenView>, pos: int, c: char) -> bool {
    0 <= pos < ts.len() && (ts[pos] == TokenView::Punct(c, true) || ts[pos] == TokenView::Punct(
        c,
        false,
    ))
}

/// The token at `pos` is the punctuation character `c`, joined to the next.
pub open spec fn is_joint(ts: Seq<TokenView>, pos: int, c: char) -> bool {
    0 <= pos < ts.len() && ts[pos] == TokenView::Punct(c, true)
}

/// The token at `pos` opens a group with the bracket `d`.
pub open spec fn is_open(ts: Seq<TokenView>, pos: int, d: Delimiter) -> bool {
    0 <= pos < ts.len() && ts[pos] == TokenView::Open(d)
}

/// The token at `pos` closes a group with the bracket `d`.
pub open spec fn is_close(ts: Seq<TokenView>, pos: int, d: Delimiter) -> bool {
    0 <= pos < ts.len() && ts[pos] == TokenView::Close(d)
}

/// The token at `pos` is a word.
pub open spec fn is_ident(ts: Seq<TokenView>, pos: int) -> bool {
    0 <= pos < ts.len() && ts[pos] is Ident
}

/// The token at `pos` is a literal.
pub open spec fn is_literal(ts: Seq<TokenView>, pos: int) -> bool {
    0 <= pos < ts.len() && ts[pos] is Literal
}

/// The token at `pos` is the word `w`.
pub open spec fn is_word(ts: Seq<TokenView>, pos: int, w: Seq<char>) -> bool {
    0 <= pos < ts.len() && ts[pos] == TokenView::Ident(w)
}

/// The text of the word or literal at `pos`; empty for any other token.
pub open spec fn text_at(ts: Seq<TokenView>, pos: int) -> Seq<char> {
    if 0 <= pos < ts.len() {
        match ts[pos] {
            TokenView::Ident(s) => s,
            TokenView::Literal(s) => s,
            _ => Seq::empty(),
        }
    } else {
        Seq::empty()
    }
}

pub(crate) fn punct_at(tokens: &Vec<Token>, pos: usize, c: char) -> (b: bool)
    ensures
        b == is_punct(token_views(tokens@), pos as int, c),
{
    if pos < tokens.len() {
        match &tokens[pos] {
            Token::Punct(ch, _) => *ch == c,
            _ => false,
        }
    } else {
        false
    }
}

pub(crate) fn joint_at(tokens: &Vec<Token>, pos: usize, c: char) -> (b: bool)
    ensures
        b == is_joint(token_views(tokens@), pos as int, c),
{
    if pos < tokens.len() {
        match &tokens[pos] {
            Token::Punct(ch, joint) => *ch == c && *joint,
            _ => false,
        }
    } else {
        false
    }
}

pub(crate) fn open_at(tokens: &Vec<Token>, pos: usize, d: Delimiter) -> (b: bool)
    ensures
        b == is_open(token_views(tokens@), pos as int, d),
{
    if pos < tokens.len() {
        match &tokens[pos] {
            Token::Open(x) => *x == d,
            _ => false,
        }
    } else {
        false
    }
}

pub(crate) fn close_at(tokens: &Vec<Token>, pos: usize, d: Delimiter) -> (b: bool)
    ensures
        b == is_close(token_views(tokens@), pos as int, d),
{
    if pos < tokens.len() {
        match &tokens[pos] {
            Token::Close(x) => *x == d,
            _ => false,
        }
    } else {
        false
    }
}

pub(crate) fn ident_at(tokens: &Vec<Token>, pos: usize) -> (b: bool)
    ensures
        b == is_ident(token_views(tokens@), pos as int),
{
    if pos < tokens.len() {
        match &tokens[pos] {
            Token::Ident(_) => true,
            _ => false,
        }
    } else {
        false
    }
}

pub(crate) fn literal_at(tokens: &Vec<Token>, pos: usize) -> (b: bool)
    ensures
        b == is_literal(token_views(tokens@), pos as int),
{
    if pos < tokens.len() {
        match &tokens[pos] {
            Token::Literal(_) => true,
            _ => false,
        }
    } else {
        false
    }
}

pub(crate) fn word_at(tokens: &Vec<Token>, pos: usize, w: &str) -> (b: bool)
    ensures
        b == is_word(token_views(tokens@), pos as int, w@),
{
    if pos < tokens.len() {
        match &tokens[pos] {
            Token::Ident(s) => {
                let k = String::from_str(w);
                *s == k
            },
            _ => false,
        }
    } else {
        false
    }
}

/// A copy of the text of the word or literal at `pos`.
pub(crate) fn copy_text(tokens: &Vec<Token>, pos: usize) -> (s: String)
    ensures
        s@ == text_at(token_views(tokens@), pos as int),
{
    if pos < tokens.len() {
        match &tokens[pos] {
            Token::Ident(s) => s.clone(),
            Token::Literal(s) => s.clone(),
            _ => String::new(),
        }
    } else {
        String::new()
    }
}

} // verus!
