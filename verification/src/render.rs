//! The canonical, fully parenthesized textual form of syntax trees and
//! runtime values, used for diagnostics and round-trip tests.  `render_expr`
//! and its companions define the form mathematically; the `to_string`
//! methods are proved to produce exactly it.

use vstd::prelude::*;
use vstd::string::StringExecFns;

use crate::ast::BlockStatment;
use crate::ast::Expression;
use crate::ast::ExprV;
use crate::ast::Identifier;
use crate::ast::Program;
use crate::ast::Statment;
use crate::ast::StmtV;
use crate::ast::exprs_view;
use crate::ast::idents_view;
use crate::ast::lemma_exprs_view;
use crate::ast::lemma_stmts_view;
use crate::ast::stmts_view;
use crate::digits::dec_str;
use crate::digits::int_to_string;
use crate::object::Object;
use crate::object::ObjV;
use crate::token::Token;
use crate::token::TokenType;
use crate::token::spec_token_type_name;
use crate::token::token_type_name;

verus! {

/// Parameter names joined by a comma and a blank, from index `i` on.
pub open spec fn join_names_from(s: Seq<Seq<char>>, i: int) -> Seq<char>
    decreases s.len() - i,
{
    if i < 0 || i >= s.len() {
        Seq::<char>::empty()
    } else if i == s.len() - 1 {
        s[i]
    } else {
        s[i] + ", "@ + join_names_from(s, i + 1)
    }
}

/// Renderings of statements, concatenated, from index `i` on.
pub open spec fn render_stmts_from(s: Seq<StmtV>, i: int) -> Seq<char>
    decreases s, s.len() - i, 1int,
{
    if i < 0 || i >= s.len() {
        Seq::<char>::empty()
    } else {
        render_stmt(s[i]) + render_stmts_from(s, i + 1)
    }
}

/// Renderings of argument expressions joined by a comma and a blank, from
/// index `i` on.
pub open spec fn render_args_from(s: Seq<ExprV>, i: int) -> Seq<char>
    decreases s, s.len() - i, 1int,
{
    if i < 0 || i >= s.len() {
        Seq::<char>::empty()
    } else if i == s.len() - 1 {
        render_expr(s[i])
    } else {
        render_expr(s[i]) + ", "@ + render_args_from(s, i + 1)
    }
}

/// The canonical text of an expression: operator applications are fully
/// parenthesized, blocks concatenate their statements.
pub open spec fn render_expr(e: ExprV) -> Seq<char>
    decreases e, 0int, 0int,
{
    match e {
        ExprV::Ident(name) => name,
        ExprV::Lit(text) => text,
        ExprV::Int(i) => dec_str(i as int),
        ExprV::Bool { value, .. } => if value {
            "true"@
        } else {
            "false"@
        },
        ExprV::Prefix { op, rhs, .. } => "("@ + op + render_expr(*rhs) + ")"@,
        ExprV::Infix { op, lhs, rhs, .. } => "("@ + render_expr(*lhs) + " "@ + op + " "@
            + render_expr(*rhs) + ")"@,
        ExprV::If { cond, cons, alt } => {
            let head = "if "@ + render_expr(*cond) + " "@ + render_stmts_from(cons, 0);
            match alt {
                Some(a) => head + " else "@ + render_stmts_from(a, 0),
                None => head,
            }
        },
        ExprV::Func { params, body } => "fn("@ + join_names_from(params, 0) + ") { "@
            + render_stmts_from(body, 0) + " }"@,
        ExprV::Call { func, args } => render_expr(*func) + "("@ + render_args_from(args, 0)
            + " )"@,
        ExprV::Blank => Seq::<char>::empty(),
    }
}

/// The canonical text of a statement.
pub open spec fn render_stmt(st: StmtV) -> Seq<char>
    decreases st, 0int, 0int,
{
    match st {
        StmtV::Let { name, value } => "let "@ + name + " = "@ + render_expr(value) + ";"@,
        StmtV::Return(value) => "return "@ + render_expr(value) + ";"@,
        StmtV::Expr(e) => render_expr(e),
    }
}

/// The canonical text of a statement sequence.
pub open spec fn render_stmts(s: Seq<StmtV>) -> Seq<char> {
    render_stmts_from(s, 0)
}

/// The printed form of a runtime value.
pub open spec fn render_obj(o: ObjV) -> Seq<char>
    decreases o, 1int, 0int,
{
    match o {
        ObjV::Int(i) => dec_str(i as int),
        ObjV::Bool(b) => if b {
            "true"@
        } else {
            "false"@
        },
        ObjV::Null => "null"@,
        ObjV::Ret(inner) => render_obj(*inner),
        ObjV::Error(m) => "Error: "@ + m,
        ObjV::Func { params, body, .. } => "fn("@ + join_names_from(params, 0) + "){\n"@
            + render_stmts_from(body, 0) + "\n}"@,
    }
}

fn params_join(params: &Vec<Identifier>, i: usize) -> (s: String)
    requires
        i <= params@.len(),
    ensures
        s@ == join_names_from(idents_view(params@), i as int),
    decreases params@.len() - i,
{
    if i >= params.len() {
        let s = String::new();
        proof {
            assert(s@ =~= join_names_from(idents_view(params@), i as int));
        }
        s
    } else if i == params.len() - 1 {
        params[i].value.clone()
    } else {
        let mut s = params[i].value.clone();
        s.append(", ");
        let rest = params_join(params, i + 1);
        s.append(rest.as_str());
        proof {
            assert(s@ =~= join_names_from(idents_view(params@), i as int));
        }
        s
    }
}

fn stmts_join(stmts: &Vec<Statment>, i: usize) -> (s: String)
    requires
        i <= stmts@.len(),
    ensures
        s@ == render_stmts_from(stmts_view(stmts@), i as int),
    decreases stmts@, stmts@.len() - i, 2int,
{
    proof {
        lemma_stmts_view(stmts@);
    }
    if i >= stmts.len() {
        let s = String::new();
        proof {
            assert(s@ =~= render_stmts_from(stmts_view(stmts@), i as int));
        }
        s
    } else {
        let mut s = stmts[i].to_string();
        let rest = stmts_join(stmts, i + 1);
        s.append(rest.as_str());
        proof {
            assert(s@ =~= render_stmts_from(stmts_view(stmts@), i as int));
        }
        s
    }
}

fn args_join(args: &Vec<Expression>, i: usize) -> (s: String)
    requires
        i <= args@.len(),
    ensures
        s@ == render_args_from(exprs_view(args@), i as int),
    decreases args@, args@.len() - i, 2int,
{
    proof {
        lemma_exprs_view(args@);
    }
    if i >= args.len() {
        let s = String::new();
        proof {
            assert(s@ =~= render_args_from(exprs_view(args@), i as int));
        }
        s
    } else if i == args.len() - 1 {
        args[i].to_string()
    } else {
        let mut s = args[i].to_string();
        s.append(", ");
        let rest = args_join(args, i + 1);
        s.append(rest.as_str());
        proof {
            assert(s@ =~= render_args_from(exprs_view(args@), i as int));
        }
        s
    }
}

impl Identifier {
    /// The identifier's text.
    pub fn to_string(&self) -> (s: String)
        ensures
            s@ == self@,
    {
        self.value.clone()
    }
}

impl Expression {
    /// The canonical text of the expression, as `render_expr` says.
    pub fn to_string(&self) -> (s: String)
        ensures
            s@ == render_expr(self@),
        decreases *self, 0int, 0int,
    {
        match self {
            Expression::Identifier(id) => id.value.clone(),
            Expression::Literal(l) => l.value.clone(),
            Expression::Int(n) => int_to_string(n.value),
            Expression::BoolenExpr(b) => {
                if b.value {
                    String::from_str("true")
                } else {
                    String::from_str("false")
                }
            },
            Expression::Prefix(p) => {
                let mut s = String::from_str("(");
                s.append(p.operator.as_str());
                let rhs = p.rhs.to_string();
                s.append(rhs.as_str());
                s.append(")");
                proof {
                    assert(s@ =~= render_expr(self@));
                }
                s
            },
            Expression::Infix(ie) => {
                let mut s = String::from_str("(");
                let lhs = ie.lhs.to_string();
                s.append(lhs.as_str());
                s.append(" ");
                s.append(ie.operator.as_str());
                s.append(" ");
                let rhs = ie.rhs.to_string();
                s.append(rhs.as_str());
                s.append(")");
                proof {
                    assert(s@ =~= render_expr(self@));
                }
                s
            },
            Expression::If(st) => {
                let mut s = String::from_str("if ");
                let cond = st.condition.to_string();
                s.append(cond.as_str());
                s.append(" ");
                let cons = stmts_join(&st.consequence.stmts, 0);
                s.append(cons.as_str());
                match &st.alternative {
                    Some(a) => {
                        s.append(" else ");
                        let alt = stmts_join(&a.stmts, 0);
                        s.append(alt.as_str());
                    },
                    None => {},
                }
                proof {
                    assert(s@ =~= render_expr(self@));
                }
                s
            },
            Expression::Func(f) => {
                let mut s = String::from_str("fn(");
                let ps = params_join(&f.params, 0);
                s.append(ps.as_str());
                s.append(") { ");
                let body = stmts_join(&f.body.stmts, 0);
                s.append(body.as_str());
                s.append(" }");
                proof {
                    assert(s@ =~= render_expr(self@));
                }
                s
            },
            Expression::Call(c) => {
                let mut s = c.function.to_string();
                s.append("(");
                let argtext = args_join(&c.arguments, 0);
                s.append(argtext.as_str());
                s.append(" )");
                proof {
                    assert(s@ =~= render_expr(self@));
                }
                s
            },
            Expression::Blank => {
                let s = String::new();
                proof {
                    assert(s@ =~= render_expr(self@));
                }
                s
            },
        }
    }
}

impl Statment {
    /// The canonical text of the statement, as `render_stmt` says.
    pub fn to_string(&self) -> (s: String)
        ensures
            s@ == render_stmt(self@),
        decreases *self, 0int, 1int,
    {
        match self {
            Statment::Let(l) => {
                let mut s = String::from_str("let ");
                s.append(l.ident.value.as_str());
                s.append(" = ");
                let v = l.value.to_string();
                s.append(v.as_str());
                s.append(";");
                proof {
                    assert(s@ =~= render_stmt(self@));
                }
                s
            },
            Statment::Return(rt) => {
                let mut s = String::from_str("return ");
                let v = rt.return_value.to_string();
                s.append(v.as_str());
                s.append(";");
                proof {
                    assert(s@ =~= render_stmt(self@));
                }
                s
            },
            Statment::Expr(e) => e.to_string(),
        }
    }
}

impl BlockStatment {
    /// The concatenated canonical text of the block's statements.
    pub fn to_string(&self) -> (s: String)
        ensures
            s@ == render_stmts(self@),
        decreases *self, 1int, 0int,
    {
        stmts_join(&self.stmts, 0)
    }
}

impl Program {
    /// The concatenated canonical text of the program's statements.
    pub fn to_string(&self) -> (s: String)
        ensures
            s@ == render_stmts(self@),
        decreases *self, 1int, 0int,
    {
        stmts_join(&self.statments, 0)
    }
}

impl Object {
    /// The printed form of the value, as `render_obj` says.
    pub fn to_string(&self) -> (s: String)
        ensures
            s@ == render_obj(self@),
        decreases *self, 2int, 0int,
    {
        match self {
            Object::Integer(i) => int_to_string(*i),
            Object::Boolean(b) => {
                if *b {
                    String::from_str("true")
                } else {
                    String::from_str("false")
                }
            },
            Object::Null => String::from_str("null"),
            Object::ReturnValue(inner) => inner.to_string(),
            Object::Error(m) => {
                let mut s = String::from_str("Error: ");
                s.append(m.as_str());
                proof {
                    assert(s@ =~= render_obj(self@));
                }
                s
            },
            Object::Function(f, _) => {
                let mut s = String::from_str("fn(");
                let ps = params_join(&f.params, 0);
                s.append(ps.as_str());
                s.append("){\n");
                let body = stmts_join(&f.body.stmts, 0);
                s.append(body.as_str());
                s.append("\n}");
                proof {
                    assert(s@ =~= render_obj(self@));
                }
                s
            },
        }
    }
}

impl Token {
    /// The diagnostic text of the token.
    pub fn to_string(&self) -> (s: String)
        ensures
            s@ == (match self.tok_type {
                TokenType::Ident => "Ident["@ + self.literal@ + "]"@,
                TokenType::Int(num) => "Int["@ + dec_str(num as int) + "]"@,
                _ => spec_token_type_name(self.tok_type),
            }),
    {
        match self.tok_type {
            TokenType::Ident => {
                let mut s = String::from_str("Ident[");
                s.append(self.literal.as_str());
                s.append("]");
                s
            },
            TokenType::Int(num) => {
                let mut s = String::from_str("Int[");
                let n = int_to_string(num);
                s.append(n.as_str());
                s.append("]");
                s
            },
            _ => token_type_name(&self.tok_type),
        }
    }
}

} // verus!
