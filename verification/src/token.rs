use vstd::prelude::*;
use vstd::string::StringExecFns;

verus! {

/// A string literal as the lexer delivers it: the raw source text together
/// with the interpreted value, escapes already resolved.
#[derive(Debug, Clone, PartialEq)]
pub struct StringLiteral {
    pub raw: String,
    pub interpreted: String,
}

/// The discriminated kind of a token. Keywords, identifiers and operators
/// carry their text; numeric literals keep their raw lexeme; string literals
/// arrive fully resolved; parentheses are the only bare punctuation.
#[derive(Debug, Clone, PartialEq)]
pub enum TokenKind {
    Keyword(String),
    Identifier(String),
    Operator(String),
    NumberLiteral(String),
    StringLiteral(StringLiteral),
    OpenParen,
    CloseParen,
}

/// One token of the input stream, with enough position information for
/// diagnostics.
#[derive(Debug, Clone, PartialEq)]
pub struct Token {
    pub kind: TokenKind,
    pub line: usize,
    pub column: usize,
}

pub open spec fn kind_is_keyword(k: TokenKind, text: Seq<char>) -> bool {
    k matches TokenKind::Keyword(s) && s@ == text
}

pub open spec fn kind_is_operator(k: TokenKind, text: Seq<char>) -> bool {
    k matches TokenKind::Operator(s) && s@ == text
}

pub open spec fn kind_is_identifier(k: TokenKind) -> bool {
    k is Identifier
}

pub open spec fn kind_is_number(k: TokenKind) -> bool {
    k is NumberLiteral
}

pub open spec fn kind_is_string(k: TokenKind) -> bool {
    k is StringLiteral
}

/// The token at position `i` is the keyword `text`.
pub open spec fn tok_keyword(toks: Seq<Token>, i: int, text: Seq<char>) -> bool {
    0 <= i < toks.len() && kind_is_keyword(toks[i].kind, text)
}

/// The token at position `i` is the operator `text`.
pub open spec fn tok_operator(toks: Seq<Token>, i: int, text: Seq<char>) -> bool {
    0 <= i < toks.len() && kind_is_operator(toks[i].kind, text)
}

pub open spec fn tok_identifier(toks: Seq<Token>, i: int) -> bool {
    0 <= i < toks.len() && kind_is_identifier(toks[i].kind)
}

pub open spec fn tok_number(toks: Seq<Token>, i: int) -> bool {
    0 <= i < toks.len() && kind_is_number(toks[i].kind)
}

pub open spec fn tok_string(toks: Seq<Token>, i: int) -> bool {
    0 <= i < toks.len() && kind_is_string(toks[i].kind)
}

pub open spec fn tok_open_paren(toks: Seq<Token>, i: int) -> bool {
    0 <= i < toks.len() && toks[i].kind is OpenParen
}

pub open spec fn tok_close_paren(toks: Seq<Token>, i: int) -> bool {
    0 <= i < toks.len() && toks[i].kind is CloseParen
}

/// Text equality between an owned string and a borrowed one.
pub fn str_eq(a: &String, b: &str) -> (r: bool)
    ensures
        r == (a@ == b@),
{
    let bs: String = String::from_str(b);
    *a == bs
}

/// The rendering used by diagnostics for each token kind.
pub open spec fn spec_describe(k: TokenKind) -> Seq<char> {
    match k {
        TokenKind::Keyword(s) => "keyword `"@ + s@ + "`"@,
        TokenKind::Identifier(s) => "identifier `"@ + s@ + "`"@,
        TokenKind::Operator(s) => "operator `"@ + s@ + "`"@,
        TokenKind::NumberLiteral(s) => "number `"@ + s@ + "`"@,
        TokenKind::StringLiteral(s) => "string literal `"@ + s.raw@ + "`"@,
        TokenKind::OpenParen => "`(`"@,
        TokenKind::CloseParen => "`)`"@,
    }
}

impl TokenKind {
    /// A short human-readable rendering of the token kind, for diagnostics.
    pub fn describe(&self) -> (r: String)
        ensures
            r@ == spec_describe(*self),
    {
        match self {
            TokenKind::Keyword(s) => {
                let mut m = String::from_str("keyword `");
                m.append(s.as_str());
                m.append("`");
                m
            },
            TokenKind::Identifier(s) => {
                let mut m = String::from_str("identifier `");
                m.append(s.as_str());
                m.append("`");
                m
            },
            TokenKind::Operator(s) => {
                let mut m = String::from_str("operator `");
                m.append(s.as_str());
                m.append("`");
                m
            },
            TokenKind::NumberLiteral(s) => {
                let mut m = String::from_str("number `");
                m.append(s.as_str());
                m.append("`");
                m
            },
            TokenKind::StringLiteral(s) => {
                let mut m = String::from_str("string literal `");
                m.append(s.raw.as_str());
                m.append("`");
                m
            },
            TokenKind::OpenParen => String::from_str("`(`"),
            TokenKind::CloseParen => String::from_str("`)`"),
        }
    }
}

impl Token {
    /// A short human-readable rendering of the token, for diagnostics.
    pub fn describe(&self) -> (r: String)
        ensures
            r@ == spec_describe(self.kind),
    {
        self.kind.describe()
    }
}

} // verus!
