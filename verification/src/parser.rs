//! The parser: a Pratt (operator precedence) parser that pulls tokens from
//! the lexer one at a time and builds a `Program`, collecting error messages
//! instead of aborting on malformed input.
//!
//! Every parsing function is proved against a specification function over
//! `ParserV`, the mathematical image of the parser state.  The specification
//! functions thread an explicit fuel so that they are total; the public entry
//! points supply a fuel that grows with the input, so on real input the fuel
//! never runs out before the end of the text.

use vstd::prelude::*;
use vstd::string::StringExecFns;

use crate::ast::BlockStatment;
use crate::ast::Boolen;
use crate::ast::CallExpression;
use crate::ast::Expression;
use crate::ast::ExprV;
use crate::ast::FunctionLiteral;
use crate::ast::Identifier;
use crate::ast::IfStatment;
use crate::ast::InfixExpression;
use crate::ast::IntLiteral;
use crate::ast::LetStatment;
use crate::ast::PrefixExpression;
use crate::ast::Program;
use crate::ast::ReturnStatment;
use crate::ast::Statment;
use crate::ast::StmtV;
use crate::ast::expr_view;
use crate::ast::stmt_view;
use crate::ast::idents_view;
use crate::ast::exprs_view;
use crate::ast::stmts_view;
use crate::ast::lemma_exprs_view_push;
use crate::ast::lemma_stmts_view_push;
use crate::ast::lemma_idents_view_push;
use crate::lexer::Lexer;
use crate::lexer::lex_step;
use crate::token::Token;
use crate::token::TokenType;
use crate::token::TokenV;
use crate::token::spec_token_type_name;
use crate::token::token_type_name;

verus! {

/// Binding power of an operator position, lowest first.
#[derive(Debug, Clone, Copy, PartialEq, Eq, Structural)]
pub enum Precedence {
    Lowest,
    Equals,
    LessGreater,
    Sum,
    Product,
    Prefix,
    Call,
}

/// The numeric rank of a precedence level.
pub open spec fn prec_val(p: Precedence) -> int {
    match p {
        Precedence::Lowest => 1,
        Precedence::Equals => 2,
        Precedence::LessGreater => 3,
        Precedence::Sum => 4,
        Precedence::Product => 5,
        Precedence::Prefix => 6,
        Precedence::Call => 7,
    }
}

fn prec_value(p: Precedence) -> (v: u8)
    ensures
        v as int == prec_val(p),
{
    match p {
        Precedence::Lowest => 1,
        Precedence::Equals => 2,
        Precedence::LessGreater => 3,
        Precedence::Sum => 4,
        Precedence::Product => 5,
        Precedence::Prefix => 6,
        Precedence::Call => 7,
    }
}

/// The precedence a token has in infix position.
pub open spec fn spec_token_to_precedence(tok: TokenType) -> Precedence {
    match tok {
        TokenType::EQ | TokenType::NotEQ => Precedence::Equals,
        TokenType::Rarrow | TokenType::Larrow => Precedence::LessGreater,
        TokenType::Plus | TokenType::Minus => Precedence::Sum,
        TokenType::Asterisk | TokenType::Fslash => Precedence::Product,
        TokenType::Lparen => Precedence::Call,
        _ => Precedence::Lowest,
    }
}

/// Parser state: the lexer, one token of lookahead, and the error messages
/// collected so far.
pub struct Parser {
    pub lexer: Lexer,
    pub curr_token: Token,
    pub peek_token: Token,
    pub errors: Vec<String>,
}

/// Mathematical image of the parser state.
pub struct ParserV {
    pub chars: Seq<char>,
    pub pos: int,
    pub curr: TokenV,
    pub peek: TokenV,
    pub errors: Seq<Seq<char>>,
}

impl View for Parser {
    type V = ParserV;

    open spec fn view(&self) -> ParserV {
        ParserV {
            chars: self.lexer@.chars,
            pos: self.lexer@.pos,
            curr: self.curr_token@,
            peek: self.peek_token@,
            errors: self.errors.deep_view(),
        }
    }
}

/// The parser state after pulling one token: the old lookahead becomes the
/// current token and the lexer yields the new lookahead.
pub open spec fn padv(p: ParserV) -> ParserV {
    let (t, pos2) = lex_step(p.chars, p.pos);
    ParserV { chars: p.chars, pos: pos2, curr: p.peek, peek: t, errors: p.errors }
}

/// The parser state with one more error message.
pub open spec fn with_error(p: ParserV, m: Seq<char>) -> ParserV {
    ParserV { errors: p.errors.push(m), ..p }
}

/// The message recorded when a required token does not match.
pub open spec fn peek_error_msg(expected: TokenType, got: TokenType) -> Seq<char> {
    "Expected next token: "@ + spec_token_type_name(expected) + ", got: "@
        + spec_token_type_name(got)
}

/// The message recorded when no prefix parse rule exists for a token.
pub open spec fn prefix_error_msg(lit: Seq<char>) -> Seq<char> {
    "Prefix is incorrect, no prefix function to parse current prefix. got: "@ + lit
}

/// The state of a parser freshly built on a lexer at `(chars, pos)`: both
/// lookahead slots primed by two pulls.
pub open spec fn initial_parser(chars: Seq<char>, pos: int) -> ParserV {
    let eof = TokenV { tok_type: TokenType::EOF, literal: ""@ };
    padv(padv(ParserV { chars, pos, curr: eof, peek: eof, errors: Seq::empty() }))
}

impl Parser {
    /// Builds a parser over `lex` and primes the two lookahead tokens.
    pub fn new(lex: Lexer) -> (p: Parser)
        ensures
            p@ == initial_parser(lex@.chars, lex@.pos),
    {
        let mut p = Parser {
            lexer: lex,
            curr_token: Token { tok_type: TokenType::EOF, literal: String::from_str("") },
            peek_token: Token { tok_type: TokenType::EOF, literal: String::from_str("") },
            errors: Vec::new(),
        };
        proof {
            assert(p@.errors =~= Seq::<Seq<char>>::empty());
        }
        p.next_token_parser();
        p.next_token_parser();
        p
    }

    /// Pulls one token: the lookahead becomes current, the lexer refills the
    /// lookahead.
    pub fn next_token_parser(&mut self)
        ensures
            final(self)@ == padv(old(self)@),
    {
        let tok = self.lexer.next_token();
        core::mem::swap(&mut self.curr_token, &mut self.peek_token);
        self.peek_token = tok;
    }

    fn curr_token_is(&self, tok: &TokenType) -> (r: bool)
        ensures
            r == (self@.curr.tok_type == *tok),
    {
        self.curr_token.tok_type == *tok
    }

    fn next_token_is(&self, tok: &TokenType) -> (r: bool)
        ensures
            r == (self@.peek.tok_type == *tok),
    {
        self.peek_token.tok_type == *tok
    }

    fn token_to_precedence(tok: &TokenType) -> (p: Precedence)
        ensures
            p == spec_token_to_precedence(*tok),
    {
        match *tok {
            TokenType::EQ | TokenType::NotEQ => Precedence::Equals,
            TokenType::Rarrow | TokenType::Larrow => Precedence::LessGreater,
            TokenType::Plus | TokenType::Minus => Precedence::Sum,
            TokenType::Asterisk | TokenType::Fslash => Precedence::Product,
            TokenType::Lparen => Precedence::Call,
            _ => Precedence::Lowest,
        }
    }

    fn next_token_precedence(&mut self) -> (p: Precedence)
        ensures
            *final(self) == *old(self),
            p == spec_token_to_precedence(old(self)@.peek.tok_type),
    {
        Self::token_to_precedence(&self.peek_token.tok_type)
    }

    /// The error messages collected so far.
    pub fn errors(&self) -> (r: Vec<String>)
        ensures
            r.deep_view() == self@.errors,
    {
        let mut out: Vec<String> = Vec::new();
        let mut i: usize = 0;
        while i < self.errors.len()
            invariant
                i <= self.errors.len(),
                out@.len() == i as int,
                forall|j: int| 0 <= j < i as int ==> out@[j]@ == #[trigger] self.errors@[j]@,
            decreases self.errors.len() - i,
        {
            out.push(self.errors[i].clone());
            i = i + 1;
        }
        proof {
            assert(out.deep_view() =~= self@.errors);
        }
        out
    }

    /// Records that `tok` was required next but the lookahead held something
    /// else.
    pub fn peek_error(&mut self, tok: TokenType)
        ensures
            final(self)@ == with_error(
                old(self)@,
                peek_error_msg(tok, old(self)@.peek.tok_type),
            ),
    {
        let mut message = String::from_str("Expected next token: ");
        let expected_name = token_type_name(&tok);
        message.append(expected_name.as_str());
        message.append(", got: ");
        let got_name = token_type_name(&self.peek_token.tok_type);
        message.append(got_name.as_str());
        self.errors.push(message);
        proof {
            assert(final(self)@.errors =~= with_error(
                old(self)@,
                peek_error_msg(tok, old(self)@.peek.tok_type),
            ).errors);
        }
    }

    fn prefix_error(&mut self) -> (e: Expression)
        ensures
            final(self)@ == with_error(old(self)@, prefix_error_msg(old(self)@.curr.literal)),
            e@ == ExprV::Blank,
    {
        let mut s = String::from_str(
            "Prefix is incorrect, no prefix function to parse current prefix. got: ",
        );
        s.append(self.curr_token.literal.as_str());
        self.errors.push(s);
        proof {
            assert(final(self)@.errors =~= with_error(
                old(self)@,
                prefix_error_msg(old(self)@.curr.literal),
            ).errors);
        }
        Expression::Blank
    }
}


/// `Some` of an expression's image; no change for `None`.
pub open spec fn opt_expr_view(o: Option<Expression>) -> Option<ExprV> {
    match o {
        Some(e) => Some(expr_view(e)),
        None => None,
    }
}

/// `Some` of a statement's image; no change for `None`.
pub open spec fn opt_stmt_view(o: Option<Statment>) -> Option<StmtV> {
    match o {
        Some(st) => Some(stmt_view(st)),
        None => None,
    }
}

/// `Some` of the images of a parameter list; no change for `None`.
pub open spec fn opt_params_view(o: Option<Vec<Identifier>>) -> Option<Seq<Seq<char>>> {
    match o {
        Some(v) => Some(idents_view(v@)),
        None => None,
    }
}

/// The expression, or `Blank` where there is none.
pub open spec fn opt_or_blank(o: Option<ExprV>) -> ExprV {
    match o {
        Some(e) => e,
        None => ExprV::Blank,
    }
}

/// The recursion budget the public entry points hand to the fueled parsing
/// functions.  Every parsing step either consumes a token or moves to a
/// strictly deeper production that will, and a token is at least one
/// character, so a budget of a few dozen steps per character outlasts any
/// real parse.
pub open spec fn program_fuel(len: int) -> nat {
    if len < 0x1_0000_0000 {
        ((len + 2) * 64) as nat
    } else {
        0x400_0000_0000 as nat
    }
}

/// What `parse_ident` does: an identifier expression from the current token.
pub open spec fn spec_parse_ident(p: ParserV) -> (ParserV, ExprV) {
    (p, ExprV::Ident(p.curr.literal))
}

/// What `parse_int` does: an integer literal expression.
pub open spec fn spec_parse_int(p: ParserV, num: i32) -> (ParserV, ExprV) {
    (p, ExprV::Int(num))
}

/// What `parse_bool_expr` does: a boolean literal expression from the current
/// token.
pub open spec fn spec_parse_bool_expr(p: ParserV) -> (ParserV, ExprV) {
    (
        p,
        ExprV::Bool {
            value: p.curr.tok_type == TokenType::True,
            tok_type: if p.curr.tok_type == TokenType::True {
                TokenType::True
            } else {
                TokenType::False
            },
        },
    )
}

/// What `parse_prefix_expr` does: the current token becomes the operator and
/// the operand is parsed at `Prefix` precedence.
pub open spec fn spec_parse_prefix_expr(p: ParserV, fuel: nat) -> (ParserV, ExprV)
    decreases fuel,
{
    if fuel == 0 {
        (p, ExprV::Blank)
    } else {
        let tok = p.curr.tok_type;
        let op = p.curr.literal;
        let (p2, rhs) = spec_parse_expr(padv(p), Precedence::Prefix, (fuel - 1) as nat);
        (p2, ExprV::Prefix { tok_type: tok, op, rhs: Box::new(opt_or_blank(rhs)) })
    }
}

/// What `parse_infix_expr` does: the current token is the operator, the right
/// operand is parsed at the operator's precedence.
pub open spec fn spec_parse_infix_expr(p: ParserV, left: ExprV, fuel: nat) -> (ParserV, ExprV)
    decreases fuel,
{
    if fuel == 0 {
        (p, ExprV::Blank)
    } else {
        let tok = p.curr.tok_type;
        let op = p.curr.literal;
        let prec = spec_token_to_precedence(tok);
        let (p2, rhs) = spec_parse_expr(padv(p), prec, (fuel - 1) as nat);
        (
            p2,
            ExprV::Infix {
                tok_type: tok,
                op,
                lhs: Box::new(left),
                rhs: Box::new(opt_or_blank(rhs)),
            },
        )
    }
}

/// What `parse_grouped_expr` does: the inner expression is parsed at `Lowest`
/// and a closing parenthesis is required.
pub open spec fn spec_parse_grouped_expr(p: ParserV, fuel: nat) -> (ParserV, ExprV)
    decreases fuel,
{
    if fuel == 0 {
        (p, ExprV::Blank)
    } else {
        let (p2, e) = spec_parse_expr(padv(p), Precedence::Lowest, (fuel - 1) as nat);
        if p2.peek.tok_type != TokenType::Rparen {
            (with_error(p2, peek_error_msg(TokenType::Rparen, p2.peek.tok_type)), ExprV::Blank)
        } else {
            (padv(p2), opt_or_blank(e))
        }
    }
}

/// What `parse_block_statment` does: skip the opening brace, then statements
/// until the closing brace or the end of the input.
pub open spec fn spec_parse_block(p: ParserV, fuel: nat) -> (ParserV, Seq<StmtV>)
    decreases fuel,
{
    if fuel == 0 {
        (p, Seq::<StmtV>::empty())
    } else {
        spec_parse_block_rec(padv(p), Seq::<StmtV>::empty(), (fuel - 1) as nat)
    }
}

/// One step of block parsing: a statement is parsed and appended unless the
/// block is finished.
pub open spec fn spec_parse_block_rec(p: ParserV, acc: Seq<StmtV>, fuel: nat) -> (
    ParserV,
    Seq<StmtV>,
)
    decreases fuel,
{
    if fuel == 0 {
        (p, acc)
    } else if p.curr.tok_type == TokenType::Rbrack || p.curr.tok_type == TokenType::EOF {
        (p, acc)
    } else {
        let (p1, st) = spec_parse_statment(p, p.curr.tok_type, (fuel - 1) as nat);
        let acc2 = match st {
            Some(s) => acc.push(s),
            None => acc,
        };
        spec_parse_block_rec(padv(p1), acc2, (fuel - 1) as nat)
    }
}

/// What `parse_if_expr` does.
pub open spec fn spec_parse_if_expr(p: ParserV, fuel: nat) -> (ParserV, Option<ExprV>)
    decreases fuel,
{
    if fuel == 0 {
        (p, None)
    } else if p.peek.tok_type != TokenType::Lparen {
        (with_error(p, peek_error_msg(TokenType::Lparen, p.peek.tok_type)), None)
    } else {
        match spec_parse_expr(padv(padv(p)), Precedence::Lowest, (fuel - 1) as nat) {
            (p1, None) => (p1, None),
            (p1, Some(cond)) => {
                if p1.peek.tok_type != TokenType::Rparen {
                    (with_error(p1, peek_error_msg(TokenType::Rparen, p1.peek.tok_type)), None)
                } else {
                    let p2 = padv(p1);
                    if p2.peek.tok_type != TokenType::Lbrack {
                        (
                            with_error(p2, peek_error_msg(TokenType::Lbrack, p2.peek.tok_type)),
                            None,
                        )
                    } else {
                        let (p4, cons) = spec_parse_block(padv(p2), (fuel - 1) as nat);
                        if p4.peek.tok_type == TokenType::Else {
                            let p5 = padv(p4);
                            if p5.peek.tok_type != TokenType::Lbrack {
                                (
                                    with_error(
                                        p5,
                                        peek_error_msg(TokenType::Lbrack, p5.peek.tok_type),
                                    ),
                                    None,
                                )
                            } else {
                                let (p7, alt) = spec_parse_block(padv(p5), (fuel - 1) as nat);
                                (
                                    p7,
                                    Some(
                                        ExprV::If {
                                            cond: Box::new(cond),
                                            cons,
                                            alt: Some(alt),
                                        },
                                    ),
                                )
                            }
                        } else {
                            (p4, Some(ExprV::If { cond: Box::new(cond), cons, alt: None }))
                        }
                    }
                }
            },
        }
    }
}

/// What `parse_func_param` does: an empty list yields `None` with the closing
/// parenthesis consumed; otherwise the comma-separated names.
pub open spec fn spec_parse_func_param(p: ParserV, fuel: nat) -> (ParserV, Option<Seq<Seq<char>>>)
    decreases fuel,
{
    if fuel == 0 {
        (p, None)
    } else if p.peek.tok_type == TokenType::Rparen {
        (padv(p), None)
    } else {
        let p1 = padv(p);
        spec_parse_func_param_rest(p1, seq![p1.curr.literal], (fuel - 1) as nat)
    }
}

/// Further parameters, while the lookahead is a comma.
pub open spec fn spec_parse_func_param_rest(p: ParserV, acc: Seq<Seq<char>>, fuel: nat) -> (
    ParserV,
    Option<Seq<Seq<char>>>,
)
    decreases fuel,
{
    if fuel == 0 {
        (p, None)
    } else if p.peek.tok_type == TokenType::Comma {
        let p1 = padv(padv(p));
        spec_parse_func_param_rest(p1, acc.push(p1.curr.literal), (fuel - 1) as nat)
    } else if p.peek.tok_type != TokenType::Rparen {
        (with_error(p, peek_error_msg(TokenType::Rparen, p.peek.tok_type)), None)
    } else {
        (padv(p), Some(acc))
    }
}

/// What `parse_func_literal` does.
pub open spec fn spec_parse_func_literal(p: ParserV, fuel: nat) -> (ParserV, Option<ExprV>)
    decreases fuel,
{
    if fuel == 0 {
        (p, None)
    } else if p.peek.tok_type != TokenType::Lparen {
        (with_error(p, peek_error_msg(TokenType::Lparen, p.peek.tok_type)), None)
    } else {
        let (p1, params_opt) = spec_parse_func_param(padv(p), (fuel - 1) as nat);
        let params = match params_opt {
            Some(ps) => ps,
            None => Seq::<Seq<char>>::empty(),
        };
        if p1.peek.tok_type != TokenType::Lbrack {
            (with_error(p1, peek_error_msg(TokenType::Lbrack, p1.peek.tok_type)), None)
        } else {
            let (p2, body) = spec_parse_block(padv(p1), (fuel - 1) as nat);
            (p2, Some(ExprV::Func { params, body }))
        }
    }
}

/// What `parse_call_arguments` does: a comma-separated argument list up to
/// the closing parenthesis.
pub open spec fn spec_parse_call_arguments(p: ParserV, fuel: nat) -> (ParserV, Seq<ExprV>)
    decreases fuel,
{
    if fuel == 0 {
        (p, Seq::<ExprV>::empty())
    } else if p.peek.tok_type == TokenType::Rparen {
        (padv(p), Seq::<ExprV>::empty())
    } else {
        let (p1, e0) = spec_parse_expr(padv(p), Precedence::Lowest, (fuel - 1) as nat);
        spec_parse_call_args_rest(p1, seq![opt_or_blank(e0)], (fuel - 1) as nat)
    }
}

/// Further call arguments.  An unterminated list ends at `EOF` with what was
/// collected.
pub open spec fn spec_parse_call_args_rest(p: ParserV, acc: Seq<ExprV>, fuel: nat) -> (
    ParserV,
    Seq<ExprV>,
)
    decreases fuel,
{
    if fuel == 0 {
        (p, acc)
    } else if p.peek.tok_type == TokenType::Rparen {
        (padv(p), acc)
    } else if p.peek.tok_type == TokenType::EOF {
        (p, acc)
    } else {
        let (p1, e) = spec_parse_expr(padv(padv(p)), Precedence::Lowest, (fuel - 1) as nat);
        spec_parse_call_args_rest(p1, acc.push(opt_or_blank(e)), (fuel - 1) as nat)
    }
}

/// What `parse_call_expr` does: fold a call onto the expression to its left.
pub open spec fn spec_parse_call_expr(p: ParserV, func: ExprV, fuel: nat) -> (ParserV, ExprV)
    decreases fuel,
{
    if fuel == 0 {
        (p, ExprV::Blank)
    } else {
        let (p1, args) = spec_parse_call_arguments(p, (fuel - 1) as nat);
        (p1, ExprV::Call { func: Box::new(func), args })
    }
}

/// The infix phase of Pratt parsing: while the lookahead binds tighter than
/// `prec` and is no statement end, fold it onto the left-hand side.
pub open spec fn spec_parse_infix_loop(p: ParserV, lhs: ExprV, prec: Precedence, fuel: nat) -> (
    ParserV,
    ExprV,
)
    decreases fuel,
{
    if fuel == 0 {
        (p, lhs)
    } else if p.peek.tok_type != TokenType::Semicolon && prec_val(prec) < prec_val(
        spec_token_to_precedence(p.peek.tok_type),
    ) {
        match p.peek.tok_type {
            TokenType::Plus | TokenType::Minus | TokenType::Fslash | TokenType::Asterisk
                | TokenType::EQ | TokenType::NotEQ | TokenType::Larrow | TokenType::Rarrow => {
                let (p1, lhs2) = spec_parse_infix_expr(padv(p), lhs, (fuel - 1) as nat);
                spec_parse_infix_loop(p1, lhs2, prec, (fuel - 1) as nat)
            },
            TokenType::Lparen => {
                let (p1, lhs2) = spec_parse_call_expr(padv(p), lhs, (fuel - 1) as nat);
                spec_parse_infix_loop(p1, lhs2, prec, (fuel - 1) as nat)
            },
            _ => (p, lhs),
        }
    } else {
        (p, lhs)
    }
}

/// What `parse_expr` does: one prefix production for the current token, then
/// the infix phase.
pub open spec fn spec_parse_expr(p: ParserV, prec: Precedence, fuel: nat) -> (
    ParserV,
    Option<ExprV>,
)
    decreases fuel,
{
    if fuel == 0 {
        (p, None)
    } else {
        let f1 = (fuel - 1) as nat;
        let step: (ParserV, Option<ExprV>) = match p.curr.tok_type {
            TokenType::Ident => {
                let (q, e) = spec_parse_ident(p);
                (q, Some(e))
            },
            TokenType::Int(num) => {
                let (q, e) = spec_parse_int(p, num);
                (q, Some(e))
            },
            TokenType::Not | TokenType::Minus | TokenType::Plus => {
                let (q, e) = spec_parse_prefix_expr(p, f1);
                (q, Some(e))
            },
            TokenType::True | TokenType::False => {
                let (q, e) = spec_parse_bool_expr(p);
                (q, Some(e))
            },
            TokenType::Lparen => {
                let (q, e) = spec_parse_grouped_expr(p, f1);
                (q, Some(e))
            },
            TokenType::If => spec_parse_if_expr(p, f1),
            TokenType::Function => spec_parse_func_literal(p, f1),
            _ => (with_error(p, prefix_error_msg(p.curr.literal)), Some(ExprV::Blank)),
        };
        match step {
            (p1, None) => (p1, None),
            (p1, Some(lhs)) => {
                let (p2, res) = spec_parse_infix_loop(p1, lhs, prec, f1);
                (p2, Some(res))
            },
        }
    }
}

/// What `parse_let_statment` does.
pub open spec fn spec_parse_let_statment(p: ParserV, fuel: nat) -> (ParserV, Option<StmtV>)
    decreases fuel,
{
    if fuel == 0 {
        (p, None)
    } else if p.peek.tok_type != TokenType::Ident {
        (padv(with_error(p, peek_error_msg(TokenType::Ident, p.peek.tok_type))), None)
    } else {
        let p1 = padv(p);
        let name = p1.curr.literal;
        if p1.peek.tok_type != TokenType::Assign {
            (padv(with_error(p1, peek_error_msg(TokenType::Assign, p1.peek.tok_type))), None)
        } else {
            match spec_parse_expr(padv(padv(p1)), Precedence::Lowest, (fuel - 1) as nat) {
                (p3, None) => (p3, None),
                (p3, Some(v)) => {
                    let p4 = if p3.peek.tok_type == TokenType::Semicolon {
                        padv(p3)
                    } else {
                        p3
                    };
                    (p4, Some(StmtV::Let { name, value: v }))
                },
            }
        }
    }
}

/// What `parse_return_statments` does.
pub open spec fn spec_parse_return_statments(p: ParserV, fuel: nat) -> (ParserV, Option<StmtV>)
    decreases fuel,
{
    if fuel == 0 {
        (p, None)
    } else {
        match spec_parse_expr(padv(p), Precedence::Lowest, (fuel - 1) as nat) {
            (p1, None) => (p1, None),
            (p1, Some(v)) => {
                let p2 = if p1.peek.tok_type == TokenType::Semicolon {
                    padv(p1)
                } else {
                    p1
                };
                (p2, Some(StmtV::Return(v)))
            },
        }
    }
}

/// What `parse_expr_statments` does.
pub open spec fn spec_parse_expr_statments(p: ParserV, fuel: nat) -> (ParserV, Option<StmtV>)
    decreases fuel,
{
    if fuel == 0 {
        (p, None)
    } else {
        match spec_parse_expr(p, Precedence::Lowest, (fuel - 1) as nat) {
            (p1, None) => (p1, None),
            (p1, Some(e)) => {
                let p2 = if p1.peek.tok_type == TokenType::Semicolon {
                    padv(p1)
                } else {
                    p1
                };
                (p2, Some(StmtV::Expr(e)))
            },
        }
    }
}

/// What `parse_statment` does: dispatch on the current token's kind.
pub open spec fn spec_parse_statment(p: ParserV, tok: TokenType, fuel: nat) -> (
    ParserV,
    Option<StmtV>,
)
    decreases fuel,
{
    if fuel == 0 {
        (p, None)
    } else {
        match tok {
            TokenType::Let => spec_parse_let_statment(p, (fuel - 1) as nat),
            TokenType::Return => spec_parse_return_statments(p, (fuel - 1) as nat),
            TokenType::Illegal => (p, None),
            _ => spec_parse_expr_statments(p, (fuel - 1) as nat),
        }
    }
}

/// Statements up to `EOF`, in order; a failed statement contributes nothing.
pub open spec fn spec_parse_program_rec(p: ParserV, acc: Seq<StmtV>, fuel: nat) -> (
    ParserV,
    Seq<StmtV>,
)
    decreases fuel,
{
    if fuel == 0 {
        (p, acc)
    } else if p.curr.tok_type == TokenType::EOF {
        (p, acc)
    } else {
        let (p1, st) = spec_parse_statment(p, p.curr.tok_type, (fuel - 1) as nat);
        let acc2 = match st {
            Some(s) => acc.push(s),
            None => acc,
        };
        spec_parse_program_rec(padv(p1), acc2, (fuel - 1) as nat)
    }
}

/// What `parse_program` does.
pub open spec fn spec_parse_program(p: ParserV) -> (ParserV, Seq<StmtV>) {
    spec_parse_program_rec(p, Seq::<StmtV>::empty(), program_fuel(p.chars.len() as int))
}


impl Parser {
    /// The recursion budget for one parse over this parser's input.
    fn compute_fuel(&self) -> (fuel: u64)
        ensures
            fuel as nat == program_fuel(self@.chars.len() as int),
    {
        let n = self.lexer.char_len();
        if (n as u64) < 0x1_0000_0000 {
            (n as u64 + 2) * 64
        } else {
            0x400_0000_0000
        }
    }

    fn parse_ident(&mut self) -> (e: Expression)
        ensures
            (final(self)@, e@) == spec_parse_ident(old(self)@),
    {
        Expression::Identifier(Identifier { value: self.curr_token.literal.clone() })
    }

    fn parse_int(&mut self, num: i32) -> (e: Expression)
        ensures
            (final(self)@, e@) == spec_parse_int(old(self)@, num),
    {
        Expression::Int(IntLiteral { value: num })
    }

    fn parse_bool_expr(&mut self) -> (e: Expression)
        ensures
            (final(self)@, e@) == spec_parse_bool_expr(old(self)@),
    {
        let bol = Boolen {
            tok_type: if self.curr_token_is(&TokenType::True) {
                TokenType::True
            } else {
                TokenType::False
            },
            value: self.curr_token_is(&TokenType::True),
        };
        Expression::BoolenExpr(bol)
    }

    fn parse_prefix_expr(&mut self, fuel: u64) -> (e: Expression)
        ensures
            (final(self)@, e@) == spec_parse_prefix_expr(old(self)@, fuel as nat),
        decreases fuel,
    {
        if fuel == 0 {
            return Expression::Blank;
        }
        let tok = self.curr_token.tok_type;
        let op = self.curr_token.literal.clone();
        self.next_token_parser();
        let rhs = match self.parse_expr(Precedence::Prefix, fuel - 1) {
            Some(r) => r,
            None => Expression::Blank,
        };
        Expression::Prefix(Box::new(PrefixExpression { tok_type: tok, operator: op, rhs }))
    }

    fn parse_infix_expr(&mut self, left: Expression, fuel: u64) -> (e: Expression)
        ensures
            (final(self)@, e@) == spec_parse_infix_expr(old(self)@, left@, fuel as nat),
        decreases fuel,
    {
        if fuel == 0 {
            return Expression::Blank;
        }
        let tok = self.curr_token.tok_type;
        let op = self.curr_token.literal.clone();
        let prec = Self::token_to_precedence(&self.curr_token.tok_type);
        self.next_token_parser();
        let rhs = match self.parse_expr(prec, fuel - 1) {
            Some(r) => r,
            None => Expression::Blank,
        };
        Expression::Infix(
            Box::new(InfixExpression { tok_type: tok, lhs: left, operator: op, rhs }),
        )
    }

    fn parse_grouped_expr(&mut self, fuel: u64) -> (e: Expression)
        ensures
            (final(self)@, e@) == spec_parse_grouped_expr(old(self)@, fuel as nat),
        decreases fuel,
    {
        if fuel == 0 {
            return Expression::Blank;
        }
        self.next_token_parser();
        let inner = self.parse_expr(Precedence::Lowest, fuel - 1);
        if !self.next_token_is(&TokenType::Rparen) {
            self.peek_error(TokenType::Rparen);
            return Expression::Blank;
        }
        self.next_token_parser();
        match inner {
            Some(e) => e,
            None => Expression::Blank,
        }
    }

    fn parse_block_statment(&mut self, fuel: u64) -> (b: BlockStatment)
        ensures
            (final(self)@, b@) == spec_parse_block(old(self)@, fuel as nat),
        decreases fuel,
    {
        if fuel == 0 {
            let empty = BlockStatment { stmts: Vec::new() };
            proof {
                assert(empty@ =~= Seq::<StmtV>::empty());
            }
            return empty;
        }
        self.next_token_parser();
        let mut stmts: Vec<Statment> = Vec::new();
        proof {
            assert(stmts_view(stmts@) =~= Seq::<StmtV>::empty());
        }
        self.parse_block_rec(&mut stmts, fuel - 1);
        BlockStatment { stmts }
    }

    fn parse_block_rec(&mut self, acc: &mut Vec<Statment>, fuel: u64)
        ensures
            (final(self)@, stmts_view(final(acc)@)) == spec_parse_block_rec(
                old(self)@,
                stmts_view(old(acc)@),
                fuel as nat,
            ),
        decreases fuel,
    {
        if fuel == 0 {
            return;
        }
        if self.curr_token_is(&TokenType::Rbrack) || self.curr_token_is(&TokenType::EOF) {
            return;
        }
        let tok = self.curr_token.tok_type;
        match self.parse_statment_with_fuel(tok, fuel - 1) {
            Some(s) => {
                proof {
                    lemma_stmts_view_push(acc@, s);
                }
                acc.push(s);
            },
            None => {},
        }
        self.next_token_parser();
        self.parse_block_rec(acc, fuel - 1);
    }

    fn parse_if_expr(&mut self, fuel: u64) -> (r: Option<Expression>)
        ensures
            (final(self)@, opt_expr_view(r)) == spec_parse_if_expr(old(self)@, fuel as nat),
        decreases fuel,
    {
        if fuel == 0 {
            return None;
        }
        if !self.next_token_is(&TokenType::Lparen) {
            self.peek_error(TokenType::Lparen);
            return None;
        }
        self.next_token_parser();
        self.next_token_parser();
        let cond = match self.parse_expr(Precedence::Lowest, fuel - 1) {
            Some(c) => c,
            None => {
                return None;
            },
        };
        if !self.next_token_is(&TokenType::Rparen) {
            self.peek_error(TokenType::Rparen);
            return None;
        }
        self.next_token_parser();
        if !self.next_token_is(&TokenType::Lbrack) {
            self.peek_error(TokenType::Lbrack);
            return None;
        }
        self.next_token_parser();
        let consequence = self.parse_block_statment(fuel - 1);
        if self.next_token_is(&TokenType::Else) {
            self.next_token_parser();
            if !self.next_token_is(&TokenType::Lbrack) {
                self.peek_error(TokenType::Lbrack);
                return None;
            }
            self.next_token_parser();
            let alternative = self.parse_block_statment(fuel - 1);
            Some(
                Expression::If(
                    Box::new(
                        IfStatment { condition: cond, consequence, alternative: Some(alternative) },
                    ),
                ),
            )
        } else {
            Some(
                Expression::If(
                    Box::new(IfStatment { condition: cond, consequence, alternative: None }),
                ),
            )
        }
    }

    fn parse_func_param(&mut self, fuel: u64) -> (r: Option<Vec<Identifier>>)
        ensures
            (final(self)@, opt_params_view(r)) == spec_parse_func_param(old(self)@, fuel as nat),
        decreases fuel,
    {
        if fuel == 0 {
            return None;
        }
        if self.next_token_is(&TokenType::Rparen) {
            self.next_token_parser();
            return None;
        }
        self.next_token_parser();
        let mut identifiers: Vec<Identifier> = Vec::new();
        identifiers.push(Identifier { value: self.curr_token.literal.clone() });
        proof {
            assert(idents_view(identifiers@) =~= seq![self.curr_token.literal@]);
        }
        let ok = self.parse_func_param_rest(&mut identifiers, fuel - 1);
        if ok {
            Some(identifiers)
        } else {
            None
        }
    }

    fn parse_func_param_rest(&mut self, idents: &mut Vec<Identifier>, fuel: u64) -> (ok: bool)
        ensures
            ({
                let (ps, res) = spec_parse_func_param_rest(
                    old(self)@,
                    idents_view(old(idents)@),
                    fuel as nat,
                );
                final(self)@ == ps && (match res {
                    Some(s) => ok && idents_view(final(idents)@) == s,
                    None => !ok,
                })
            }),
        decreases fuel,
    {
        if fuel == 0 {
            return false;
        }
        if self.next_token_is(&TokenType::Comma) {
            self.next_token_parser();
            self.next_token_parser();
            let ident = Identifier { value: self.curr_token.literal.clone() };
            proof {
                lemma_idents_view_push(idents@, ident);
            }
            idents.push(ident);
            return self.parse_func_param_rest(idents, fuel - 1);
        }
        if !self.next_token_is(&TokenType::Rparen) {
            self.peek_error(TokenType::Rparen);
            return false;
        }
        self.next_token_parser();
        true
    }

    fn parse_func_literal(&mut self, fuel: u64) -> (r: Option<Expression>)
        ensures
            (final(self)@, opt_expr_view(r)) == spec_parse_func_literal(old(self)@, fuel as nat),
        decreases fuel,
    {
        if fuel == 0 {
            return None;
        }
        if !self.next_token_is(&TokenType::Lparen) {
            self.peek_error(TokenType::Lparen);
            return None;
        }
        self.next_token_parser();
        let params = match self.parse_func_param(fuel - 1) {
            Some(v) => v,
            None => Vec::new(),
        };
        proof {
            assert(idents_view(Seq::<Identifier>::empty()) =~= Seq::<Seq<char>>::empty());
        }
        if !self.next_token_is(&TokenType::Lbrack) {
            self.peek_error(TokenType::Lbrack);
            return None;
        }
        self.next_token_parser();
        let body = self.parse_block_statment(fuel - 1);
        Some(Expression::Func(FunctionLiteral { params, body }))
    }

    fn parse_call_arguments(&mut self, fuel: u64) -> (args: Vec<Expression>)
        ensures
            (final(self)@, exprs_view(args@)) == spec_parse_call_arguments(
                old(self)@,
                fuel as nat,
            ),
        decreases fuel,
    {
        let mut args: Vec<Expression> = Vec::new();
        proof {
            assert(exprs_view(args@) =~= Seq::<ExprV>::empty());
        }
        if fuel == 0 {
            return args;
        }
        if self.next_token_is(&TokenType::Rparen) {
            self.next_token_parser();
            return args;
        }
        self.next_token_parser();
        let e0 = match self.parse_expr(Precedence::Lowest, fuel - 1) {
            Some(e) => e,
            None => Expression::Blank,
        };
        proof {
            lemma_exprs_view_push(args@, e0);
        }
        args.push(e0);
        self.parse_call_args_rest(&mut args, fuel - 1);
        args
    }

    fn parse_call_args_rest(&mut self, args: &mut Vec<Expression>, fuel: u64)
        ensures
            (final(self)@, exprs_view(final(args)@)) == spec_parse_call_args_rest(
                old(self)@,
                exprs_view(old(args)@),
                fuel as nat,
            ),
        decreases fuel,
    {
        if fuel == 0 {
            return;
        }
        if self.next_token_is(&TokenType::Rparen) {
            self.next_token_parser();
            return;
        }
        if self.next_token_is(&TokenType::EOF) {
            return;
        }
        self.next_token_parser();
        self.next_token_parser();
        let e = match self.parse_expr(Precedence::Lowest, fuel - 1) {
            Some(x) => x,
            None => Expression::Blank,
        };
        proof {
            lemma_exprs_view_push(args@, e);
        }
        args.push(e);
        self.parse_call_args_rest(args, fuel - 1);
    }

    fn parse_call_expr(&mut self, func: Expression, fuel: u64) -> (e: Expression)
        ensures
            (final(self)@, e@) == spec_parse_call_expr(old(self)@, func@, fuel as nat),
        decreases fuel,
    {
        if fuel == 0 {
            return Expression::Blank;
        }
        let arguments = self.parse_call_arguments(fuel - 1);
        Expression::Call(Box::new(CallExpression { arguments, function: func }))
    }

    fn parse_infix_loop(&mut self, lhs: Expression, prec: Precedence, fuel: u64) -> (e: Expression)
        ensures
            (final(self)@, e@) == spec_parse_infix_loop(old(self)@, lhs@, prec, fuel as nat),
        decreases fuel,
    {
        if fuel == 0 {
            return lhs;
        }
        let semi = self.next_token_is(&TokenType::Semicolon);
        let next_prec = Self::token_to_precedence(&self.peek_token.tok_type);
        if !semi && prec_value(prec) < prec_value(next_prec) {
            match self.peek_token.tok_type {
                TokenType::Plus | TokenType::Minus | TokenType::Fslash | TokenType::Asterisk
                    | TokenType::EQ | TokenType::NotEQ | TokenType::Larrow | TokenType::Rarrow => {
                    self.next_token_parser();
                    let lhs2 = self.parse_infix_expr(lhs, fuel - 1);
                    self.parse_infix_loop(lhs2, prec, fuel - 1)
                },
                TokenType::Lparen => {
                    self.next_token_parser();
                    let lhs2 = self.parse_call_expr(lhs, fuel - 1);
                    self.parse_infix_loop(lhs2, prec, fuel - 1)
                },
                _ => lhs,
            }
        } else {
            lhs
        }
    }

    fn parse_expr(&mut self, prec: Precedence, fuel: u64) -> (r: Option<Expression>)
        ensures
            (final(self)@, opt_expr_view(r)) == spec_parse_expr(old(self)@, prec, fuel as nat),
        decreases fuel,
    {
        if fuel == 0 {
            return None;
        }
        let lhs_opt: Option<Expression> = match self.curr_token.tok_type {
            TokenType::Ident => Some(self.parse_ident()),
            TokenType::Int(num) => Some(self.parse_int(num)),
            TokenType::Not | TokenType::Minus | TokenType::Plus => Some(
                self.parse_prefix_expr(fuel - 1),
            ),
            TokenType::True | TokenType::False => Some(self.parse_bool_expr()),
            TokenType::Lparen => Some(self.parse_grouped_expr(fuel - 1)),
            TokenType::If => self.parse_if_expr(fuel - 1),
            TokenType::Function => self.parse_func_literal(fuel - 1),
            _ => Some(self.prefix_error()),
        };
        let lhs = match lhs_opt {
            Some(e) => e,
            None => {
                return None;
            },
        };
        Some(self.parse_infix_loop(lhs, prec, fuel - 1))
    }

    fn parse_expr_statments(&mut self, fuel: u64) -> (r: Option<Statment>)
        ensures
            (final(self)@, opt_stmt_view(r)) == spec_parse_expr_statments(old(self)@, fuel as nat),
        decreases fuel,
    {
        if fuel == 0 {
            return None;
        }
        match self.parse_expr(Precedence::Lowest, fuel - 1) {
            Some(expr) => {
                if self.next_token_is(&TokenType::Semicolon) {
                    self.next_token_parser();
                }
                Some(Statment::Expr(expr))
            },
            None => None,
        }
    }

    fn parse_let_statment(&mut self, fuel: u64) -> (r: Option<Statment>)
        ensures
            (final(self)@, opt_stmt_view(r)) == spec_parse_let_statment(old(self)@, fuel as nat),
        decreases fuel,
    {
        if fuel == 0 {
            return None;
        }
        if !self.next_token_is(&TokenType::Ident) {
            self.peek_error(TokenType::Ident);
            self.next_token_parser();
            return None;
        }
        self.next_token_parser();
        let ident = Identifier { value: self.curr_token.literal.clone() };
        if !self.next_token_is(&TokenType::Assign) {
            self.peek_error(TokenType::Assign);
            self.next_token_parser();
            return None;
        }
        self.next_token_parser();
        self.next_token_parser();
        let value = match self.parse_expr(Precedence::Lowest, fuel - 1) {
            Some(v) => v,
            None => {
                return None;
            },
        };
        if self.next_token_is(&TokenType::Semicolon) {
            self.next_token_parser();
        }
        Some(Statment::Let(LetStatment { ident, value }))
    }

    fn parse_return_with_fuel(&mut self, fuel: u64) -> (r: Option<Statment>)
        ensures
            (final(self)@, opt_stmt_view(r)) == spec_parse_return_statments(
                old(self)@,
                fuel as nat,
            ),
        decreases fuel,
    {
        if fuel == 0 {
            return None;
        }
        self.next_token_parser();
        let value = match self.parse_expr(Precedence::Lowest, fuel - 1) {
            Some(v) => v,
            None => {
                return None;
            },
        };
        if self.next_token_is(&TokenType::Semicolon) {
            self.next_token_parser();
        }
        Some(Statment::Return(ReturnStatment { return_value: value }))
    }

    /// Parses one return statement with the default budget.
    pub fn parse_return_statments(&mut self) -> (r: Option<Statment>)
        ensures
            (final(self)@, opt_stmt_view(r)) == spec_parse_return_statments(
                old(self)@,
                program_fuel(old(self)@.chars.len() as int),
            ),
    {
        let fuel = self.compute_fuel();
        self.parse_return_with_fuel(fuel)
    }

    fn parse_statment_with_fuel(&mut self, tok: TokenType, fuel: u64) -> (r: Option<Statment>)
        ensures
            (final(self)@, opt_stmt_view(r)) == spec_parse_statment(old(self)@, tok, fuel as nat),
        decreases fuel,
    {
        if fuel == 0 {
            return None;
        }
        match tok {
            TokenType::Let => self.parse_let_statment(fuel - 1),
            TokenType::Return => self.parse_return_with_fuel(fuel - 1),
            TokenType::Illegal => None,
            _ => self.parse_expr_statments(fuel - 1),
        }
    }

    /// Parses one statement, dispatching on `curr_tok`, with the default
    /// budget.
    pub fn parse_statment(&mut self, curr_tok: Token) -> (r: Option<Statment>)
        ensures
            (final(self)@, opt_stmt_view(r)) == spec_parse_statment(
                old(self)@,
                curr_tok@.tok_type,
                program_fuel(old(self)@.chars.len() as int),
            ),
    {
        let fuel = self.compute_fuel();
        self.parse_statment_with_fuel(curr_tok.tok_type, fuel)
    }

    fn parse_program_rec(&mut self, acc: &mut Vec<Statment>, fuel: u64)
        ensures
            (final(self)@, stmts_view(final(acc)@)) == spec_parse_program_rec(
                old(self)@,
                stmts_view(old(acc)@),
                fuel as nat,
            ),
        decreases fuel,
    {
        if fuel == 0 {
            return;
        }
        if self.curr_token_is(&TokenType::EOF) {
            return;
        }
        let tok = self.curr_token.tok_type;
        match self.parse_statment_with_fuel(tok, fuel - 1) {
            Some(s) => {
                proof {
                    lemma_stmts_view_push(acc@, s);
                }
                acc.push(s);
            },
            None => {},
        }
        self.next_token_parser();
        self.parse_program_rec(acc, fuel - 1);
    }

    /// Parses statements until `EOF`.  Parse errors never abort the program:
    /// a failed statement contributes nothing and parsing continues, so a
    /// partial tree plus a non-empty error list comes back for bad input.
    pub fn parse_program(&mut self) -> (r: Option<Program>)
        ensures
            ({
                let (ps, stmts) = spec_parse_program(old(self)@);
                final(self)@ == ps && (match r {
                    Some(prog) => prog@ == stmts,
                    None => false,
                })
            }),
    {
        let fuel = self.compute_fuel();
        let mut statments: Vec<Statment> = Vec::new();
        proof {
            assert(stmts_view(statments@) =~= Seq::<StmtV>::empty());
        }
        self.parse_program_rec(&mut statments, fuel);
        Some(Program { statments })
    }
}

} // verus!
