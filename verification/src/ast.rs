//! The abstract syntax tree: statement and expression nodes as the parser
//! builds them, together with their mathematical images (`ExprV`, `StmtV`),
//! on which the contracts of the parser, the renderer and the evaluator are
//! stated.

use vstd::prelude::*;

use crate::token::TokenType;

verus! {

broadcast use {
    vstd::std_specs::vec::axiom_vec_decreases_to_view,
    vstd::seq::axiom_seq_index_decreases,
};

/// An expression node.  `Blank` is the placeholder a failed expression parse
/// leaves behind so that parsing can continue.
#[derive(Debug)]
pub enum Expression {
    Identifier(Identifier),
    Literal(Literal),
    Int(IntLiteral),
    Prefix(Box<PrefixExpression>),
    Infix(Box<InfixExpression>),
    BoolenExpr(Boolen),
    If(Box<IfStatment>),
    Func(FunctionLiteral),
    Call(Box<CallExpression>),
    Blank,
}

/// A statement node.
#[derive(Debug)]
pub enum Statment {
    Let(LetStatment),
    Return(ReturnStatment),
    Expr(Expression),
}

/// A parsed program: its statements in source order.
#[derive(Debug)]
pub struct Program {
    pub statments: Vec<Statment>,
}

/// A bare textual literal carried through from a token.
#[derive(Debug)]
pub struct Literal {
    pub value: String,
}

/// An integer literal with its parsed 32-bit value.
#[derive(Debug)]
pub struct IntLiteral {
    pub value: i32,
}

/// A boolean literal together with the token kind it was read from.
#[derive(Debug)]
pub struct Boolen {
    pub value: bool,
    pub tok_type: TokenType,
}

/// `let <ident> = <value>;`
#[derive(Debug)]
pub struct LetStatment {
    pub ident: Identifier,
    pub value: Expression,
}

/// A name appearing in the source.
#[derive(Debug)]
pub struct Identifier {
    pub value: String,
}

/// `return <expr>;`
#[derive(Debug)]
pub struct ReturnStatment {
    pub return_value: Expression,
}

/// `if (<condition>) { <consequence> } else { <alternative> }`, the
/// alternative optional.
#[derive(Debug)]
pub struct IfStatment {
    pub condition: Expression,
    pub consequence: BlockStatment,
    pub alternative: Option<BlockStatment>,
}

/// A brace-delimited sequence of statements.
#[derive(Debug)]
pub struct BlockStatment {
    pub stmts: Vec<Statment>,
}

/// `fn(<params>) { <body> }`
#[derive(Debug)]
pub struct FunctionLiteral {
    pub params: Vec<Identifier>,
    pub body: BlockStatment,
}

/// `<function>(<arguments>)`
#[derive(Debug)]
pub struct CallExpression {
    pub arguments: Vec<Expression>,
    pub function: Expression,
}

/// An expression in statement position.
#[derive(Debug)]
pub struct ExpressionStatment {
    pub expr: Expression,
}

/// A prefix operator application; the operator is kept as its literal text.
#[derive(Debug)]
pub struct PrefixExpression {
    pub tok_type: TokenType,
    pub operator: String,
    pub rhs: Expression,
}

/// An infix operator application; the operator is kept as its literal text.
#[derive(Debug)]
pub struct InfixExpression {
    pub tok_type: TokenType,
    pub lhs: Expression,
    pub operator: String,
    pub rhs: Expression,
}

/// The infix operators of the language, as an enumeration.
#[derive(Debug, Clone, PartialEq, Eq, Structural, Copy)]
pub enum Infix {
    Plus,
    Minus,
    Divide,
    Multiply,
    Equal,
    NotEqual,
    GreaterThanEqual,
    GreaterThan,
    LessThanEqual,
    LessThan,
}

/// The prefix operators of the language, as an enumeration.
#[derive(Debug, Clone, PartialEq, Eq, Structural, Copy)]
pub enum Prefix {
    Plus,
    Minus,
    Not,
}

/// Mathematical image of an expression: strings become character sequences
/// and vectors become sequences, so that equality on `ExprV` is structural.
pub enum ExprV {
    Ident(Seq<char>),
    Lit(Seq<char>),
    Int(i32),
    Prefix { tok_type: TokenType, op: Seq<char>, rhs: Box<ExprV> },
    Infix { tok_type: TokenType, op: Seq<char>, lhs: Box<ExprV>, rhs: Box<ExprV> },
    Bool { value: bool, tok_type: TokenType },
    If { cond: Box<ExprV>, cons: Seq<StmtV>, alt: Option<Seq<StmtV>> },
    Func { params: Seq<Seq<char>>, body: Seq<StmtV> },
    Call { func: Box<ExprV>, args: Seq<ExprV> },
    Blank,
}

/// Mathematical image of a statement.
pub enum StmtV {
    Let { name: Seq<char>, value: ExprV },
    Return(ExprV),
    Expr(ExprV),
}

/// The images of the parameter names of a function literal.
pub open spec fn idents_view(s: Seq<Identifier>) -> Seq<Seq<char>> {
    Seq::new(s.len(), |i: int| s[i].value@)
}

/// The image of the expression sequence `s[i..]`.
pub open spec fn exprs_view_from(s: Seq<Expression>, i: int) -> Seq<ExprV>
    decreases s, s.len() - i, 1int,
{
    if i < 0 || i >= s.len() {
        Seq::<ExprV>::empty()
    } else {
        seq![expr_view(s[i])] + exprs_view_from(s, i + 1)
    }
}

/// The image of the statement sequence `s[i..]`.
pub open spec fn stmts_view_from(s: Seq<Statment>, i: int) -> Seq<StmtV>
    decreases s, s.len() - i, 1int,
{
    if i < 0 || i >= s.len() {
        Seq::<StmtV>::empty()
    } else {
        seq![stmt_view(s[i])] + stmts_view_from(s, i + 1)
    }
}

/// The image of an expression node.
pub open spec fn expr_view(e: Expression) -> ExprV
    decreases e, 0int, 0int,
{
    match e {
        Expression::Identifier(id) => ExprV::Ident(id.value@),
        Expression::Literal(l) => ExprV::Lit(l.value@),
        Expression::Int(n) => ExprV::Int(n.value),
        Expression::Prefix(p) => ExprV::Prefix {
            tok_type: p.tok_type,
            op: p.operator@,
            rhs: Box::new(expr_view(p.rhs)),
        },
        Expression::Infix(ie) => ExprV::Infix {
            tok_type: ie.tok_type,
            op: ie.operator@,
            lhs: Box::new(expr_view(ie.lhs)),
            rhs: Box::new(expr_view(ie.rhs)),
        },
        Expression::BoolenExpr(b) => ExprV::Bool { value: b.value, tok_type: b.tok_type },
        Expression::If(s) => ExprV::If {
            cond: Box::new(expr_view(s.condition)),
            cons: stmts_view_from(s.consequence.stmts@, 0),
            alt: match s.alternative {
                Some(blk) => Some(stmts_view_from(blk.stmts@, 0)),
                None => None,
            },
        },
        Expression::Func(f) => ExprV::Func {
            params: idents_view(f.params@),
            body: stmts_view_from(f.body.stmts@, 0),
        },
        Expression::Call(c) => ExprV::Call {
            func: Box::new(expr_view(c.function)),
            args: exprs_view_from(c.arguments@, 0),
        },
        Expression::Blank => ExprV::Blank,
    }
}

/// The image of a statement node.
pub open spec fn stmt_view(s: Statment) -> StmtV
    decreases s, 0int, 0int,
{
    match s {
        Statment::Let(l) => StmtV::Let { name: l.ident.value@, value: expr_view(l.value) },
        Statment::Return(r) => StmtV::Return(expr_view(r.return_value)),
        Statment::Expr(e) => StmtV::Expr(expr_view(e)),
    }
}

/// The image of a whole statement sequence.
pub open spec fn stmts_view(s: Seq<Statment>) -> Seq<StmtV> {
    stmts_view_from(s, 0)
}

/// The image of a whole expression sequence.
pub open spec fn exprs_view(s: Seq<Expression>) -> Seq<ExprV> {
    exprs_view_from(s, 0)
}

impl View for Expression {
    type V = ExprV;

    open spec fn view(&self) -> ExprV {
        expr_view(*self)
    }
}

impl View for Statment {
    type V = StmtV;

    open spec fn view(&self) -> StmtV {
        stmt_view(*self)
    }
}

impl View for Identifier {
    type V = Seq<char>;

    open spec fn view(&self) -> Seq<char> {
        self.value@
    }
}

impl View for BlockStatment {
    type V = Seq<StmtV>;

    open spec fn view(&self) -> Seq<StmtV> {
        stmts_view(self.stmts@)
    }
}

impl View for FunctionLiteral {
    type V = ExprV;

    open spec fn view(&self) -> ExprV {
        ExprV::Func { params: idents_view(self.params@), body: stmts_view(self.body.stmts@) }
    }
}

impl View for Program {
    type V = Seq<StmtV>;

    open spec fn view(&self) -> Seq<StmtV> {
        stmts_view(self.statments@)
    }
}

proof fn lemma_stmts_view_from(s: Seq<Statment>, i: int)
    requires
        0 <= i <= s.len(),
    ensures
        stmts_view_from(s, i).len() == s.len() - i,
        forall|j: int| i <= j < s.len() ==> stmts_view_from(s, i)[j - i] == stmt_view(s[j]),
    decreases s.len() - i,
{
    if i < s.len() {
        lemma_stmts_view_from(s, i + 1);
    }
}

proof fn lemma_exprs_view_from(s: Seq<Expression>, i: int)
    requires
        0 <= i <= s.len(),
    ensures
        exprs_view_from(s, i).len() == s.len() - i,
        forall|j: int| i <= j < s.len() ==> exprs_view_from(s, i)[j - i] == expr_view(s[j]),
    decreases s.len() - i,
{
    if i < s.len() {
        lemma_exprs_view_from(s, i + 1);
    }
}

/// Pointwise description of the image of a statement sequence.
pub proof fn lemma_stmts_view(s: Seq<Statment>)
    ensures
        stmts_view(s).len() == s.len(),
        forall|j: int| 0 <= j < s.len() ==> (#[trigger] stmts_view(s)[j]) == stmt_view(s[j]),
{
    lemma_stmts_view_from(s, 0);
}

/// Pointwise description of the image of an expression sequence.
pub proof fn lemma_exprs_view(s: Seq<Expression>)
    ensures
        exprs_view(s).len() == s.len(),
        forall|j: int| 0 <= j < s.len() ==> (#[trigger] exprs_view(s)[j]) == expr_view(s[j]),
{
    lemma_exprs_view_from(s, 0);
}


/// Appending a statement appends its image.
pub proof fn lemma_stmts_view_push(s: Seq<Statment>, x: Statment)
    ensures
        stmts_view(s.push(x)) == stmts_view(s).push(stmt_view(x)),
{
    lemma_stmts_view(s);
    lemma_stmts_view(s.push(x));
    assert(stmts_view(s.push(x)) =~= stmts_view(s).push(stmt_view(x)));
}

/// Appending an expression appends its image.
pub proof fn lemma_exprs_view_push(s: Seq<Expression>, x: Expression)
    ensures
        exprs_view(s.push(x)) == exprs_view(s).push(expr_view(x)),
{
    lemma_exprs_view(s);
    lemma_exprs_view(s.push(x));
    assert(exprs_view(s.push(x)) =~= exprs_view(s).push(expr_view(x)));
}

/// Appending an identifier appends its image.
pub proof fn lemma_idents_view_push(s: Seq<Identifier>, x: Identifier)
    ensures
        idents_view(s.push(x)) == idents_view(s).push(x.value@),
{
    assert(idents_view(s.push(x)) =~= idents_view(s).push(x.value@));
}

/// Clones an expression tree; the clone has the same image.
#[verifier::loop_isolation(false)]
pub fn clone_expr(e: &Expression) -> (r: Expression)
    ensures
        r@ == e@,
    decreases *e, 0int, 0int,
{
    match e {
        Expression::Identifier(id) => Expression::Identifier(clone_ident(id)),
        Expression::Literal(l) => Expression::Literal(Literal { value: l.value.clone() }),
        Expression::Int(n) => Expression::Int(IntLiteral { value: n.value }),
        Expression::Prefix(p) => Expression::Prefix(
            Box::new(
                PrefixExpression {
                    tok_type: p.tok_type,
                    operator: p.operator.clone(),
                    rhs: clone_expr(&p.rhs),
                },
            ),
        ),
        Expression::Infix(ie) => Expression::Infix(
            Box::new(
                InfixExpression {
                    tok_type: ie.tok_type,
                    lhs: clone_expr(&ie.lhs),
                    operator: ie.operator.clone(),
                    rhs: clone_expr(&ie.rhs),
                },
            ),
        ),
        Expression::BoolenExpr(b) => Expression::BoolenExpr(
            Boolen { value: b.value, tok_type: b.tok_type },
        ),
        Expression::If(s) => Expression::If(
            Box::new(
                IfStatment {
                    condition: clone_expr(&s.condition),
                    consequence: clone_block(&s.consequence),
                    alternative: match &s.alternative {
                        Some(blk) => Some(clone_block(blk)),
                        None => None,
                    },
                },
            ),
        ),
        Expression::Func(f) => Expression::Func(clone_func_literal(f)),
        Expression::Call(c) => {
            let mut args: Vec<Expression> = Vec::new();
            let mut i: usize = 0;
            while i < c.arguments.len()
                invariant
                    i <= c.arguments.len(),
                    args@.len() == i as int,
                    forall|j: int| 0 <= j < i as int ==> args@[j]@ == #[trigger] c.arguments@[j]@,
                decreases c.arguments.len() - i,
            {
                args.push(clone_expr(&c.arguments[i]));
                i = i + 1;
            }
            proof {
                lemma_exprs_view(args@);
                lemma_exprs_view(c.arguments@);
                assert forall|j: int|
                    0 <= j < args@.len() implies exprs_view(args@)[j] == exprs_view(
                    c.arguments@,
                )[j] by {
                    assert(args@[j]@ == c.arguments@[j]@);
                    assert(exprs_view(args@)[j] == expr_view(args@[j]));
                    assert(exprs_view(c.arguments@)[j] == expr_view(c.arguments@[j]));
                }
                assert(exprs_view(args@) =~= exprs_view(c.arguments@));
            }
            Expression::Call(
                Box::new(CallExpression { arguments: args, function: clone_expr(&c.function) }),
            )
        },
        Expression::Blank => Expression::Blank,
    }
}

/// Clones a statement; the clone has the same image.
pub fn clone_stmt(s: &Statment) -> (r: Statment)
    ensures
        r@ == s@,
    decreases *s, 0int, 0int,
{
    match s {
        Statment::Let(l) => Statment::Let(
            LetStatment { ident: clone_ident(&l.ident), value: clone_expr(&l.value) },
        ),
        Statment::Return(ret) => Statment::Return(
            ReturnStatment { return_value: clone_expr(&ret.return_value) },
        ),
        Statment::Expr(e) => Statment::Expr(clone_expr(e)),
    }
}

/// Clones a block; the clone has the same image.
#[verifier::loop_isolation(false)]
pub fn clone_block(b: &BlockStatment) -> (r: BlockStatment)
    ensures
        r@ == b@,
    decreases *b, 1int, 0int,
{
    let mut stmts: Vec<Statment> = Vec::new();
    let mut i: usize = 0;
    while i < b.stmts.len()
        invariant
            i <= b.stmts.len(),
            stmts@.len() == i as int,
            forall|j: int| 0 <= j < i as int ==> stmts@[j]@ == #[trigger] b.stmts@[j]@,
        decreases b.stmts.len() - i,
    {
        stmts.push(clone_stmt(&b.stmts[i]));
        i = i + 1;
    }
    proof {
        lemma_stmts_view(stmts@);
        lemma_stmts_view(b.stmts@);
        assert forall|j: int|
            0 <= j < stmts@.len() implies stmts_view(stmts@)[j] == stmts_view(b.stmts@)[j] by {
            assert(stmts@[j]@ == b.stmts@[j]@);
            assert(stmts_view(stmts@)[j] == stmt_view(stmts@[j]));
            assert(stmts_view(b.stmts@)[j] == stmt_view(b.stmts@[j]));
        }
        assert(stmts_view(stmts@) =~= stmts_view(b.stmts@));
    }
    BlockStatment { stmts }
}

/// Clones an identifier; the clone has the same image.
pub fn clone_ident(id: &Identifier) -> (r: Identifier)
    ensures
        r@ == id@,
{
    Identifier { value: id.value.clone() }
}

/// Clones a function literal; the clone has the same image.
#[verifier::loop_isolation(false)]
pub fn clone_func_literal(f: &FunctionLiteral) -> (r: FunctionLiteral)
    ensures
        r@ == f@,
        idents_view(r.params@) == idents_view(f.params@),
        stmts_view(r.body.stmts@) == stmts_view(f.body.stmts@),
    decreases *f, 1int, 0int,
{
    let mut params: Vec<Identifier> = Vec::new();
    let mut i: usize = 0;
    while i < f.params.len()
        invariant
            i <= f.params.len(),
            params@.len() == i as int,
            forall|j: int| 0 <= j < i as int ==> params@[j]@ == #[trigger] f.params@[j]@,
        decreases f.params.len() - i,
    {
        params.push(clone_ident(&f.params[i]));
        i = i + 1;
    }
    proof {
        assert forall|j: int|
            0 <= j < params@.len() implies idents_view(params@)[j] == idents_view(
            f.params@,
        )[j] by {
            assert(params@[j]@ == f.params@[j]@);
        }
        assert(idents_view(params@) =~= idents_view(f.params@));
    }
    FunctionLiteral { params, body: clone_block(&f.body) }
}


/// Decides equality of identifier lists by image.
#[verifier::loop_isolation(false)]
pub fn idents_eq(a: &Vec<Identifier>, b: &Vec<Identifier>) -> (r: bool)
    ensures
        r == (idents_view(a@) == idents_view(b@)),
{
    if a.len() != b.len() {
        proof {
            assert(idents_view(a@).len() != idents_view(b@).len());
        }
        return false;
    }
    let mut i: usize = 0;
    while i < a.len()
        invariant
            i <= a.len(),
            a@.len() == b@.len(),
            forall|j: int| 0 <= j < i as int ==> a@[j].value@ == #[trigger] b@[j].value@,
        decreases a.len() - i,
    {
        if !(a[i].value == b[i].value) {
            proof {
                assert(idents_view(a@)[i as int] != idents_view(b@)[i as int]);
            }
            return false;
        }
        i = i + 1;
    }
    proof {
        assert(idents_view(a@) =~= idents_view(b@));
    }
    true
}

/// Decides equality of statement lists by image.
#[verifier::loop_isolation(false)]
pub fn stmts_eq(a: &Vec<Statment>, b: &Vec<Statment>) -> (r: bool)
    ensures
        r == (stmts_view(a@) == stmts_view(b@)),
    decreases a@, 1int, 0int,
{
    proof {
        lemma_stmts_view(a@);
        lemma_stmts_view(b@);
    }
    if a.len() != b.len() {
        proof {
            assert(stmts_view(a@).len() != stmts_view(b@).len());
        }
        return false;
    }
    let mut i: usize = 0;
    while i < a.len()
        invariant
            i <= a.len(),
            a@.len() == b@.len(),
            forall|j: int| 0 <= j < i as int ==> stmt_view(a@[j]) == stmt_view(#[trigger] b@[j]),
        decreases a.len() - i,
    {
        if !stmt_eq(&a[i], &b[i]) {
            proof {
                assert(stmts_view(a@)[i as int] != stmts_view(b@)[i as int]);
            }
            return false;
        }
        i = i + 1;
    }
    proof {
        assert(stmts_view(a@) =~= stmts_view(b@));
    }
    true
}

/// Decides equality of expression lists by image.
#[verifier::loop_isolation(false)]
pub fn exprs_eq(a: &Vec<Expression>, b: &Vec<Expression>) -> (r: bool)
    ensures
        r == (exprs_view(a@) == exprs_view(b@)),
    decreases a@, 1int, 0int,
{
    proof {
        lemma_exprs_view(a@);
        lemma_exprs_view(b@);
    }
    if a.len() != b.len() {
        proof {
            assert(exprs_view(a@).len() != exprs_view(b@).len());
        }
        return false;
    }
    let mut i: usize = 0;
    while i < a.len()
        invariant
            i <= a.len(),
            a@.len() == b@.len(),
            forall|j: int| 0 <= j < i as int ==> expr_view(a@[j]) == expr_view(#[trigger] b@[j]),
        decreases a.len() - i,
    {
        if !expr_eq(&a[i], &b[i]) {
            proof {
                assert(exprs_view(a@)[i as int] != exprs_view(b@)[i as int]);
            }
            return false;
        }
        i = i + 1;
    }
    proof {
        assert(exprs_view(a@) =~= exprs_view(b@));
    }
    true
}

/// Decides equality of statements by image.
pub fn stmt_eq(a: &Statment, b: &Statment) -> (r: bool)
    ensures
        r == (a@ == b@),
    decreases *a, 0int, 0int,
{
    match (a, b) {
        (Statment::Let(x), Statment::Let(y)) => x.ident.value == y.ident.value && expr_eq(
            &x.value,
            &y.value,
        ),
        (Statment::Return(x), Statment::Return(y)) => expr_eq(&x.return_value, &y.return_value),
        (Statment::Expr(x), Statment::Expr(y)) => expr_eq(x, y),
        _ => false,
    }
}

/// Decides equality of expressions by image.
pub fn expr_eq(a: &Expression, b: &Expression) -> (r: bool)
    ensures
        r == (a@ == b@),
    decreases *a, 0int, 1int,
{
    match (a, b) {
        (Expression::Identifier(x), Expression::Identifier(y)) => x.value == y.value,
        (Expression::Literal(x), Expression::Literal(y)) => x.value == y.value,
        (Expression::Int(x), Expression::Int(y)) => x.value == y.value,
        (Expression::Prefix(x), Expression::Prefix(y)) => x.tok_type == y.tok_type && x.operator
            == y.operator && expr_eq(&x.rhs, &y.rhs),
        (Expression::Infix(x), Expression::Infix(y)) => x.tok_type == y.tok_type && x.operator
            == y.operator && expr_eq(&x.lhs, &y.lhs) && expr_eq(&x.rhs, &y.rhs),
        (Expression::BoolenExpr(x), Expression::BoolenExpr(y)) => x.value == y.value && x.tok_type
            == y.tok_type,
        (Expression::If(x), Expression::If(y)) => {
            let heads = expr_eq(&x.condition, &y.condition) && stmts_eq(
                &x.consequence.stmts,
                &y.consequence.stmts,
            );
            match (&x.alternative, &y.alternative) {
                (Some(xa), Some(ya)) => heads && stmts_eq(&xa.stmts, &ya.stmts),
                (None, None) => heads,
                _ => false,
            }
        },
        (Expression::Func(x), Expression::Func(y)) => idents_eq(&x.params, &y.params) && stmts_eq(
            &x.body.stmts,
            &y.body.stmts,
        ),
        (Expression::Call(x), Expression::Call(y)) => expr_eq(&x.function, &y.function) && exprs_eq(
            &x.arguments,
            &y.arguments,
        ),
        (Expression::Blank, Expression::Blank) => true,
        _ => false,
    }
}

} // verus!
