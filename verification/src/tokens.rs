//! The token trees of a macro invocation, as plain values.
//!
//! A procedural macro receives its input as token trees; `inline_java` reads
//! identifiers, punctuation, literals and delimited groups from them, and
//! recovers verbatim source text from their spans where the compiler
//! provides it.
use vstd::prelude::*;

verus! {

/// The delimiter of a group.
#[derive(Clone, Copy, PartialEq, Eq, Debug, Structural)]
pub enum Delimiter {
    /// `( .. )`
    Parenthesis,
    /// `{ .. }`
    Brace,
    /// `[ .. ]`
    Bracket,
    /// An invisible delimiter.
    Invisible,
}

/// What kind of token tree a token is.
#[derive(Debug)]
pub enum TokenKind {
    Ident,
    Punct(char),
    Literal,
    Group(Delimiter, Vec<Token>),
}

/// One token tree: its kind, its text as printed (`to_string`), and, where
/// known, its span as a range of character offsets into the source text.
#[derive(Debug)]
pub struct Token {
    pub kind: TokenKind,
    pub text: String,
    pub span: Option<(usize, usize)>,
}

/// The model of a token kind.
pub enum KindV {
    Ident,
    Punct(char),
    Literal,
    Group(Delimiter, Seq<TokV>),
}

/// The model of a token.
pub struct TokV {
    pub kind: KindV,
    pub text: Seq<char>,
    pub span: Option<(usize, usize)>,
}

/// The model of a token.
pub open spec fn token_view(t: Token) -> TokV
    decreases t,
{
    TokV {
        kind: match t.kind {
            TokenKind::Ident => KindV::Ident,
            TokenKind::Punct(c) => KindV::Punct(c),
            TokenKind::Literal => KindV::Literal,
            TokenKind::Group(d, inner) => KindV::Group(
                d,
                Seq::new(
                    inner@.len(),
                    |i: int|
                        if 0 <= i < inner@.len() {
                            token_view(inner@[i])
                        } else {
                            TokV { kind: KindV::Literal, text: Seq::empty(), span: None }
                        },
                ),
            ),
        },
        text: t.text@,
        span: t.span,
    }
}

/// The models of a sequence of tokens.
pub open spec fn tokens_view(ts: Seq<Token>) -> Seq<TokV> {
    Seq::new(ts.len(), |i: int| token_view(ts[i]))
}

impl View for Token {
    type V = TokV;

    open spec fn view(&self) -> TokV {
        token_view(*self)
    }
}

/// Whether `t` is the identifier `name`.
pub open spec fn is_ident(t: TokV, name: Seq<char>) -> bool {
    t.kind is Ident && t.text == name
}

/// Whether `t` is the punctuation character `c`.
pub open spec fn is_punct(t: TokV, c: char) -> bool {
    t.kind == KindV::Punct(c)
}

/// Whether `t` is an empty `[]` group.
pub open spec fn is_empty_brackets(t: TokV) -> bool {
    match t.kind {
        KindV::Group(d, inner) => d == Delimiter::Bracket && inner.len() == 0,
        _ => false,
    }
}

impl Token {
    /// Whether this token is the identifier `name`.
    pub fn is_ident(&self, name: &str) -> (r: bool)
        ensures
            r == is_ident(self@, name@),
    {
        match self.kind {
            TokenKind::Ident => crate::text::str_eq(self.text.as_str(), name),
            _ => false,
        }
    }

    /// Whether this token is the punctuation character `c`.
    pub fn is_punct(&self, c: char) -> (r: bool)
        ensures
            r == is_punct(self@, c),
    {
        match self.kind {
            TokenKind::Punct(p) => p == c,
            _ => false,
        }
    }

    /// Whether this token is an empty `[]` group.
    pub fn is_empty_brackets(&self) -> (r: bool)
        ensures
            r == is_empty_brackets(self@),
    {
        match &self.kind {
            TokenKind::Group(d, inner) => *d == Delimiter::Bracket && inner.len() == 0,
            _ => false,
        }
    }
}

} // verus!
