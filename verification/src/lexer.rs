//! The lexer: turns source text into tokens, one at a time.  After the input
//! is exhausted every further call yields `EOF` tokens.
//!
//! `lex_step` is the specification: given the characters and a position it
//! says which token starts there and where the next one begins.  The
//! executable `next_token` is proved to follow it exactly.

use vstd::prelude::*;
use vstd::string::StrSliceExecFns;
use vstd::string::StringExecFns;

use crate::digits::dec_str;
use crate::digits::int_to_string;
use crate::token::Token;
use crate::token::TokenType;
use crate::token::TokenV;
use crate::token::lookup_ident;
use crate::token::spec_lookup_ident;

verus! {

/// Whitespace: blank, newline, tab, carriage return.
pub open spec fn is_ws(c: char) -> bool {
    c == ' ' || c == '\n' || c == '\t' || c == '\r'
}

/// An ASCII letter.
pub open spec fn is_letter(c: char) -> bool {
    (97 <= c as u32 && c as u32 <= 122) || (65 <= c as u32 && c as u32 <= 90)
}

/// An ASCII decimal digit.
pub open spec fn is_digit(c: char) -> bool {
    48 <= c as u32 && c as u32 <= 57
}

/// A character that may continue an identifier: a letter, a digit or an
/// underscore.
pub open spec fn is_ident_char(c: char) -> bool {
    is_letter(c) || is_digit(c) || c == '_'
}

/// The numeric value of a digit character.
pub open spec fn digit_val(c: char) -> int {
    c as u32 - 48
}

/// The first position at or after `pos` that does not hold whitespace.
pub open spec fn skip_ws(cs: Seq<char>, pos: int) -> int
    decreases cs.len() - pos,
{
    if 0 <= pos < cs.len() && is_ws(cs[pos]) {
        skip_ws(cs, pos + 1)
    } else {
        pos
    }
}

/// The end of the maximal identifier run starting at `pos`.
pub open spec fn ident_end(cs: Seq<char>, pos: int) -> int
    decreases cs.len() - pos,
{
    if 0 <= pos < cs.len() && is_ident_char(cs[pos]) {
        ident_end(cs, pos + 1)
    } else {
        pos
    }
}

/// The end of the maximal digit run starting at `pos`.
pub open spec fn digit_end(cs: Seq<char>, pos: int) -> int
    decreases cs.len() - pos,
{
    if 0 <= pos < cs.len() && is_digit(cs[pos]) {
        digit_end(cs, pos + 1)
    } else {
        pos
    }
}

/// The value of the digit run `cs[lo..hi]` read in decimal.
pub open spec fn digits_val(cs: Seq<char>, lo: int, hi: int) -> int
    decreases hi - lo,
{
    if lo >= hi {
        0
    } else {
        digits_val(cs, lo, hi - 1) * 10 + digit_val(cs[hi - 1])
    }
}

/// The token starting at `pos0` (whitespace skipped first) and the position
/// just past it.  At or past the end of the input the token is `EOF` and the
/// position does not move.
pub open spec fn lex_step(cs: Seq<char>, pos0: int) -> (TokenV, int) {
    let pos = skip_ws(cs, pos0);
    if !(0 <= pos < cs.len()) {
        (TokenV { tok_type: TokenType::EOF, literal: ""@ }, pos)
    } else {
        let c = cs[pos];
        if c == ',' {
            (TokenV { tok_type: TokenType::Comma, literal: ","@ }, pos + 1)
        } else if c == ';' {
            (TokenV { tok_type: TokenType::Semicolon, literal: ";"@ }, pos + 1)
        } else if c == '(' {
            (TokenV { tok_type: TokenType::Lparen, literal: "("@ }, pos + 1)
        } else if c == ')' {
            (TokenV { tok_type: TokenType::Rparen, literal: ")"@ }, pos + 1)
        } else if c == '{' {
            (TokenV { tok_type: TokenType::Lbrack, literal: "{"@ }, pos + 1)
        } else if c == '}' {
            (TokenV { tok_type: TokenType::Rbrack, literal: "}"@ }, pos + 1)
        } else if c == '+' {
            (TokenV { tok_type: TokenType::Plus, literal: "+"@ }, pos + 1)
        } else if c == '-' {
            (TokenV { tok_type: TokenType::Minus, literal: "-"@ }, pos + 1)
        } else if c == '*' {
            (TokenV { tok_type: TokenType::Asterisk, literal: "*"@ }, pos + 1)
        } else if c == '/' {
            (TokenV { tok_type: TokenType::Fslash, literal: "/"@ }, pos + 1)
        } else if c == '<' {
            (TokenV { tok_type: TokenType::Larrow, literal: "<"@ }, pos + 1)
        } else if c == '>' {
            (TokenV { tok_type: TokenType::Rarrow, literal: ">"@ }, pos + 1)
        } else if c == '=' {
            if pos + 1 < cs.len() && cs[pos + 1] == '=' {
                (TokenV { tok_type: TokenType::EQ, literal: "=="@ }, pos + 2)
            } else {
                (TokenV { tok_type: TokenType::Assign, literal: "="@ }, pos + 1)
            }
        } else if c == '!' {
            if pos + 1 < cs.len() && cs[pos + 1] == '=' {
                (TokenV { tok_type: TokenType::NotEQ, literal: "!="@ }, pos + 2)
            } else {
                (TokenV { tok_type: TokenType::Not, literal: "!"@ }, pos + 1)
            }
        } else if is_letter(c) {
            let end = ident_end(cs, pos);
            let word = cs.subrange(pos, end);
            (TokenV { tok_type: spec_lookup_ident(word), literal: word }, end)
        } else if is_digit(c) {
            let end = digit_end(cs, pos);
            let v = digits_val(cs, pos, end);
            if v <= i32::MAX {
                (TokenV { tok_type: TokenType::Int(v as i32), literal: dec_str(v) }, end)
            } else {
                (TokenV { tok_type: TokenType::Illegal, literal: ""@ }, end)
            }
        } else {
            (TokenV { tok_type: TokenType::Illegal, literal: ""@ }, pos + 1)
        }
    }
}

/// Lexer state: the source text and how far it has been consumed, counted in
/// characters.
pub struct Lexer {
    input: String,
    pos: usize,
}

/// Mathematical image of the lexer's state.
pub struct LexerV {
    pub chars: Seq<char>,
    pub pos: int,
}

impl View for Lexer {
    type V = LexerV;

    closed spec fn view(&self) -> LexerV {
        LexerV { chars: self.input@, pos: self.pos as int }
    }
}

fn is_ws_char(c: char) -> (r: bool)
    ensures
        r == is_ws(c),
{
    c == ' ' || c == '\n' || c == '\t' || c == '\r'
}

fn is_letter_char(c: char) -> (r: bool)
    ensures
        r == is_letter(c),
{
    (97 <= c as u32 && c as u32 <= 122) || (65 <= c as u32 && c as u32 <= 90)
}

fn is_digit_char(c: char) -> (r: bool)
    ensures
        r == is_digit(c),
{
    48 <= c as u32 && c as u32 <= 57
}

fn is_ident_char_exec(c: char) -> (r: bool)
    ensures
        r == is_ident_char(c),
{
    is_letter_char(c) || is_digit_char(c) || c == '_'
}

fn skip_ws_exec(s: &str, pos: usize, n: usize) -> (r: usize)
    requires
        n == s@.len(),
        pos <= n,
    ensures
        r == skip_ws(s@, pos as int),
        pos <= r <= n,
    decreases n - pos,
{
    if pos < n && is_ws_char(s.get_char(pos)) {
        skip_ws_exec(s, pos + 1, n)
    } else {
        pos
    }
}

fn ident_end_exec(s: &str, pos: usize, n: usize) -> (r: usize)
    requires
        n == s@.len(),
        pos <= n,
    ensures
        r == ident_end(s@, pos as int),
        pos <= r <= n,
    decreases n - pos,
{
    if pos < n && is_ident_char_exec(s.get_char(pos)) {
        ident_end_exec(s, pos + 1, n)
    } else {
        pos
    }
}

fn digit_end_exec(s: &str, pos: usize, n: usize) -> (r: usize)
    requires
        n == s@.len(),
        pos <= n,
    ensures
        r == digit_end(s@, pos as int),
        pos <= r <= n,
    decreases n - pos,
{
    if pos < n && is_digit_char(s.get_char(pos)) {
        digit_end_exec(s, pos + 1, n)
    } else {
        pos
    }
}

proof fn lemma_digits_val_nonneg(cs: Seq<char>, lo: int, hi: int)
    requires
        forall|j: int| lo <= j < hi ==> is_digit(#[trigger] cs[j]),
    ensures
        digits_val(cs, lo, hi) >= 0,
    decreases hi - lo,
{
    if lo < hi {
        lemma_digits_val_nonneg(cs, lo, hi - 1);
    }
}

proof fn lemma_digits_val_mono(cs: Seq<char>, lo: int, mid: int, hi: int)
    requires
        lo <= mid <= hi,
        forall|j: int| lo <= j < hi ==> is_digit(#[trigger] cs[j]),
    ensures
        digits_val(cs, lo, hi) >= digits_val(cs, lo, mid),
    decreases hi - mid,
{
    if mid < hi {
        lemma_digits_val_mono(cs, lo, mid, hi - 1);
        lemma_digits_val_nonneg(cs, lo, hi - 1);
    }
}

/// Reads the digit run `s[lo..hi]` as a 32-bit integer; `None` when the value
/// does not fit.
fn read_int(s: &str, lo: usize, hi: usize) -> (r: Option<i32>)
    requires
        lo <= hi <= s@.len(),
        forall|j: int| lo <= j < hi ==> is_digit(#[trigger] s@[j]),
    ensures
        match r {
            Some(v) => digits_val(s@, lo as int, hi as int) == v as int,
            None => digits_val(s@, lo as int, hi as int) > i32::MAX,
        },
{
    let mut acc: u64 = 0;
    let mut i: usize = lo;
    while i < hi
        invariant
            lo <= i <= hi <= s@.len(),
            forall|j: int| lo <= j < hi ==> is_digit(#[trigger] s@[j]),
            acc as int == digits_val(s@, lo as int, i as int),
            acc <= i32::MAX as u64,
        decreases hi - i,
    {
        let c = s.get_char(i);
        let d: u64 = (c as u32) as u64 - 48;
        acc = acc * 10 + d;
        i = i + 1;
        if acc > i32::MAX as u64 {
            proof {
                lemma_digits_val_mono(s@, lo as int, i as int, hi as int);
            }
            return None;
        }
    }
    Some(acc as i32)
}

impl Lexer {
    /// Makes a lexer over `input`, positioned at its start.
    pub fn new(input: String) -> (lex: Lexer)
        ensures
            lex@.chars == input@,
            lex@.pos == 0,
    {
        Lexer { input, pos: 0 }
    }

    /// The length of the input, in characters.
    pub fn char_len(&self) -> (n: usize)
        ensures
            n == self@.chars.len(),
    {
        self.input.as_str().unicode_len()
    }

    /// Consumes and returns the next token, as `lex_step` describes.
    pub fn next_token(&mut self) -> (t: Token)
        ensures
            final(self)@.chars == old(self)@.chars,
            (t@, final(self)@.pos) == lex_step(old(self)@.chars, old(self)@.pos),
    {
        let n = self.input.as_str().unicode_len();
        if self.pos > n {
            // Never reached from `new`: the position cannot pass the end.
            return Token { tok_type: TokenType::EOF, literal: String::from_str("") };
        }
        let pos = skip_ws_exec(self.input.as_str(), self.pos, n);
        self.pos = pos;
        if pos >= n {
            return Token { tok_type: TokenType::EOF, literal: String::from_str("") };
        }
        let c = self.input.as_str().get_char(pos);
        if c == ',' {
            self.pos = pos + 1;
            Token { tok_type: TokenType::Comma, literal: String::from_str(",") }
        } else if c == ';' {
            self.pos = pos + 1;
            Token { tok_type: TokenType::Semicolon, literal: String::from_str(";") }
        } else if c == '(' {
            self.pos = pos + 1;
            Token { tok_type: TokenType::Lparen, literal: String::from_str("(") }
        } else if c == ')' {
            self.pos = pos + 1;
            Token { tok_type: TokenType::Rparen, literal: String::from_str(")") }
        } else if c == '{' {
            self.pos = pos + 1;
            Token { tok_type: TokenType::Lbrack, literal: String::from_str("{") }
        } else if c == '}' {
            self.pos = pos + 1;
            Token { tok_type: TokenType::Rbrack, literal: String::from_str("}") }
        } else if c == '+' {
            self.pos = pos + 1;
            Token { tok_type: TokenType::Plus, literal: String::from_str("+") }
        } else if c == '-' {
            self.pos = pos + 1;
            Token { tok_type: TokenType::Minus, literal: String::from_str("-") }
        } else if c == '*' {
            self.pos = pos + 1;
            Token { tok_type: TokenType::Asterisk, literal: String::from_str("*") }
        } else if c == '/' {
            self.pos = pos + 1;
            Token { tok_type: TokenType::Fslash, literal: String::from_str("/") }
        } else if c == '<' {
            self.pos = pos + 1;
            Token { tok_type: TokenType::Larrow, literal: String::from_str("<") }
        } else if c == '>' {
            self.pos = pos + 1;
            Token { tok_type: TokenType::Rarrow, literal: String::from_str(">") }
        } else if c == '=' {
            if pos + 1 < n && self.input.as_str().get_char(pos + 1) == '=' {
                self.pos = pos + 2;
                Token { tok_type: TokenType::EQ, literal: String::from_str("==") }
            } else {
                self.pos = pos + 1;
                Token { tok_type: TokenType::Assign, literal: String::from_str("=") }
            }
        } else if c == '!' {
            if pos + 1 < n && self.input.as_str().get_char(pos + 1) == '=' {
                self.pos = pos + 2;
                Token { tok_type: TokenType::NotEQ, literal: String::from_str("!=") }
            } else {
                self.pos = pos + 1;
                Token { tok_type: TokenType::Not, literal: String::from_str("!") }
            }
        } else if is_letter_char(c) {
            let end = ident_end_exec(self.input.as_str(), pos, n);
            let word = self.input.as_str().substring_char(pos, end).to_owned();
            self.pos = end;
            let kind = lookup_ident(word.as_str());
            Token { tok_type: kind, literal: word }
        } else if is_digit_char(c) {
            let end = digit_end_exec(self.input.as_str(), pos, n);
            proof {
                lemma_digit_run(self.input@, pos as int, end as int);
            }
            self.pos = end;
            match read_int(self.input.as_str(), pos, end) {
                Some(v) => Token { tok_type: TokenType::Int(v), literal: int_to_string(v) },
                None => Token { tok_type: TokenType::Illegal, literal: String::from_str("") },
            }
        } else {
            self.pos = pos + 1;
            Token { tok_type: TokenType::Illegal, literal: String::from_str("") }
        }
    }
}

proof fn lemma_digit_run(cs: Seq<char>, pos: int, end: int)
    requires
        end == digit_end(cs, pos),
        0 <= pos,
    ensures
        forall|j: int| pos <= j < end ==> is_digit(#[trigger] cs[j]),
        pos <= end,
    decreases cs.len() - pos,
{
    if 0 <= pos < cs.len() && is_digit(cs[pos]) {
        lemma_digit_run(cs, pos + 1, end);
    }
}


proof fn lemma_skip_ws_bounds(cs: Seq<char>, pos: int)
    requires
        0 <= pos,
    ensures
        pos <= skip_ws(cs, pos),
        pos <= cs.len() ==> skip_ws(cs, pos) <= cs.len(),
    decreases cs.len() - pos,
{
    if 0 <= pos < cs.len() && is_ws(cs[pos]) {
        lemma_skip_ws_bounds(cs, pos + 1);
    }
}

proof fn lemma_ident_end_bounds(cs: Seq<char>, pos: int)
    requires
        0 <= pos,
    ensures
        pos <= ident_end(cs, pos),
        pos <= cs.len() ==> ident_end(cs, pos) <= cs.len(),
    decreases cs.len() - pos,
{
    if 0 <= pos < cs.len() && is_ident_char(cs[pos]) {
        lemma_ident_end_bounds(cs, pos + 1);
    }
}

proof fn lemma_digit_end_bounds(cs: Seq<char>, pos: int)
    requires
        0 <= pos,
    ensures
        pos <= digit_end(cs, pos),
        pos <= cs.len() ==> digit_end(cs, pos) <= cs.len(),
    decreases cs.len() - pos,
{
    if 0 <= pos < cs.len() && is_digit(cs[pos]) {
        lemma_digit_end_bounds(cs, pos + 1);
    }
}

/// At or past the end of the input the lexer is a fixed point: every further
/// step yields an `EOF` token and does not move, so `next_token` keeps
/// yielding `EOF` forever once the input is exhausted.
pub proof fn lemma_lex_eof_idempotent(cs: Seq<char>, pos: int)
    requires
        pos >= cs.len(),
    ensures
        lex_step(cs, pos) == (TokenV { tok_type: TokenType::EOF, literal: ""@ }, pos),
{
}

/// Before the end of the input the lexer makes progress: any token but `EOF`
/// ends strictly past the whitespace it started after, and never past the
/// end of the input.
pub proof fn lemma_lex_step_progress(cs: Seq<char>, pos: int)
    requires
        0 <= pos <= cs.len(),
    ensures
        ({
            let (t, p2) = lex_step(cs, pos);
            &&& pos <= skip_ws(cs, pos) <= p2 <= cs.len()
            &&& (t.tok_type != TokenType::EOF ==> skip_ws(cs, pos) < p2)
        }),
{
    lemma_skip_ws_bounds(cs, pos);
    let start = skip_ws(cs, pos);
    if 0 <= start < cs.len() {
        let c = cs[start];
        if is_letter(c) {
            lemma_ident_end_bounds(cs, start + 1);
        }
        if is_digit(c) {
            lemma_digit_end_bounds(cs, start + 1);
        }
    }
}

} // verus!

