//! Tokens: the vocabulary the lexer produces and the parser consumes.

use vstd::prelude::*;
use vstd::string::StringExecFns;

use crate::digits::dec_str;
use crate::digits::int_to_string;

verus! {

/// The kind of a lexical token.  `Int` carries the parsed 32-bit value.
#[derive(Debug, PartialEq, Eq, Structural, Clone, Copy)]
pub enum TokenType {
    Ident,
    Illegal,
    EOF,
    Int(i32),
    Plus,
    Minus,
    EQ,
    NotEQ,
    Not,
    Larrow,
    Rarrow,
    Fslash,
    Assign,
    Comma,
    Semicolon,
    Lparen,
    Rparen,
    Lbrack,
    Rbrack,
    Asterisk,
    Let,
    Function,
    If,
    Else,
    True,
    False,
    Return,
}

/// A token: its kind together with the literal text it was read from.
#[derive(Debug)]
pub struct Token {
    pub tok_type: TokenType,
    pub literal: String,
}

/// Mathematical image of a token: the kind plus the literal as a character
/// sequence.
pub struct TokenV {
    pub tok_type: TokenType,
    pub literal: Seq<char>,
}

impl View for Token {
    type V = TokenV;

    open spec fn view(&self) -> TokenV {
        TokenV { tok_type: self.tok_type, literal: self.literal@ }
    }
}

/// Compares two string slices by their contents.
pub fn str_eq(a: &str, b: &str) -> (r: bool)
    ensures
        r == (a@ == b@),
{
    a.to_owned() == b.to_owned()
}

/// The token kind an identifier's text denotes: a keyword's kind where the
/// text is one of the seven keywords, and `Ident` otherwise.
pub open spec fn spec_lookup_ident(s: Seq<char>) -> TokenType {
    if s == "fn"@ {
        TokenType::Function
    } else if s == "let"@ {
        TokenType::Let
    } else if s == "if"@ {
        TokenType::If
    } else if s == "else"@ {
        TokenType::Else
    } else if s == "true"@ {
        TokenType::True
    } else if s == "false"@ {
        TokenType::False
    } else if s == "return"@ {
        TokenType::Return
    } else {
        TokenType::Ident
    }
}

/// Looks an identifier's text up against the keyword table.
pub fn lookup_ident(ident: &str) -> (t: TokenType)
    ensures
        t == spec_lookup_ident(ident@),
{
    if str_eq(ident, "fn") {
        TokenType::Function
    } else if str_eq(ident, "let") {
        TokenType::Let
    } else if str_eq(ident, "if") {
        TokenType::If
    } else if str_eq(ident, "else") {
        TokenType::Else
    } else if str_eq(ident, "true") {
        TokenType::True
    } else if str_eq(ident, "false") {
        TokenType::False
    } else if str_eq(ident, "return") {
        TokenType::Return
    } else {
        TokenType::Ident
    }
}

/// The display name of a token kind, used in parser diagnostics.
pub open spec fn spec_token_type_name(t: TokenType) -> Seq<char> {
    match t {
        TokenType::EQ => "EQ"@,
        TokenType::NotEQ => "NotEQ"@,
        TokenType::If => "If"@,
        TokenType::Function => "Function"@,
        TokenType::EOF => "EOF"@,
        TokenType::Else => "Else"@,
        TokenType::Let => "Let"@,
        TokenType::Plus => "Plus"@,
        TokenType::True => "True"@,
        TokenType::Ident => "Ident"@,
        TokenType::Minus => "Minus"@,
        TokenType::Comma => "Comma"@,
        TokenType::False => "False"@,
        TokenType::Larrow => "<"@,
        TokenType::Rarrow => ">"@,
        TokenType::Fslash => "/"@,
        TokenType::Assign => "Assign"@,
        TokenType::Lparen => "("@,
        TokenType::Rparen => ")"@,
        TokenType::Lbrack => "Left Bracket"@,
        TokenType::Rbrack => "Right Bracket"@,
        TokenType::Return => "Return"@,
        TokenType::Illegal => "Illegal"@,
        TokenType::Int(num) => dec_str(num as int),
        TokenType::Asterisk => "Astrisk"@,
        TokenType::Semicolon => "Semicolon"@,
        TokenType::Not => "Not"@,
    }
}

/// Renders a token kind's display name.
pub fn token_type_name(t: &TokenType) -> (s: String)
    ensures
        s@ == spec_token_type_name(*t),
{
    match *t {
        TokenType::EQ => String::from_str("EQ"),
        TokenType::NotEQ => String::from_str("NotEQ"),
        TokenType::If => String::from_str("If"),
        TokenType::Function => String::from_str("Function"),
        TokenType::EOF => String::from_str("EOF"),
        TokenType::Else => String::from_str("Else"),
        TokenType::Let => String::from_str("Let"),
        TokenType::Plus => String::from_str("Plus"),
        TokenType::True => String::from_str("True"),
        TokenType::Ident => String::from_str("Ident"),
        TokenType::Minus => String::from_str("Minus"),
        TokenType::Comma => String::from_str("Comma"),
        TokenType::False => String::from_str("False"),
        TokenType::Larrow => String::from_str("<"),
        TokenType::Rarrow => String::from_str(">"),
        TokenType::Fslash => String::from_str("/"),
        TokenType::Assign => String::from_str("Assign"),
        TokenType::Lparen => String::from_str("("),
        TokenType::Rparen => String::from_str(")"),
        TokenType::Lbrack => String::from_str("Left Bracket"),
        TokenType::Rbrack => String::from_str("Right Bracket"),
        TokenType::Return => String::from_str("Return"),
        TokenType::Illegal => String::from_str("Illegal"),
        TokenType::Int(num) => int_to_string(num),
        TokenType::Asterisk => String::from_str("Astrisk"),
        TokenType::Semicolon => String::from_str("Semicolon"),
        TokenType::Not => String::from_str("Not"),
    }
}

} // verus!
