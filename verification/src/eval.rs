//! The evaluator: walks the syntax tree under an environment arena and
//! produces a runtime value.  Errors are ordinary values that short-circuit
//! statement sequences; `return` wraps its value in `ReturnValue`, which a
//! call boundary unwraps.
//!
//! `eval_stmt_s`, `eval_expr_s` and their companions form the specification
//! interpreter: a total, fuel-indexed function from the images of the syntax
//! tree and the arena to the image of the result.  The executable evaluator
//! is proved to agree with it exactly.  The language allows non-terminating
//! programs (a closure may call itself through a binding made after its
//! creation), so the budget is what makes evaluation total: when it runs out,
//! the result is an error value, which propagates like any other error.

use vstd::prelude::*;
use vstd::string::StringExecFns;

use crate::ast::Expression;
use crate::ast::ExprV;
use crate::ast::FunctionLiteral;
use crate::ast::Identifier;
use crate::ast::IfStatment;
use crate::ast::LetStatment;
use crate::ast::Statment;
use crate::ast::StmtV;
use crate::ast::clone_func_literal;
use crate::ast::expr_view;
use crate::ast::exprs_view;
use crate::ast::idents_view;
use crate::ast::lemma_stmts_view;
use crate::ast::lemma_exprs_view;
use crate::ast::stmts_view;
use crate::digits::udec_str;
use crate::digits::udec_string;
use crate::object::Enviornment;
use crate::object::EnvRecV;
use crate::object::Obj;
use crate::object::Object;
use crate::object::ObjV;
use crate::object::lemma_objs_view;
use crate::object::lemma_objs_view_push;
use crate::object::lookup_s;
use crate::object::obj_eq;
use crate::object::objs_view;
use crate::object::push_rec_s;
use crate::object::set_s;
use crate::object::type_label;
use crate::token::str_eq;

verus! {

/// The budget the public `eval` hands to one statement's evaluation.
pub const DEFAULT_EVAL_FUEL: u64 = 1000000;

/// The message of the error produced when the evaluation budget runs out.
pub open spec fn budget_msg() -> Seq<char> {
    "evaluation depth limit reached"@
}

/// The message of a type-mismatch error.
pub open spec fn mismatch_msg(lt: Seq<char>, op: Seq<char>, rt: Seq<char>) -> Seq<char> {
    "type mismatch: "@ + lt + " "@ + op + " "@ + rt
}

/// The message of an unknown infix operator error.
pub open spec fn unknown_infix_msg(lt: Seq<char>, op: Seq<char>, rt: Seq<char>) -> Seq<char> {
    "unknown operator: "@ + lt + " "@ + op + " "@ + rt
}

/// The message of an unknown prefix operator error.
pub open spec fn unknown_prefix_msg(op: Seq<char>, t: Seq<char>) -> Seq<char> {
    "unknown operator: "@ + op + " "@ + t
}

/// The message of a call whose argument count does not match the function's
/// parameter count.
pub open spec fn arity_msg(nparams: int, nargs: int) -> Seq<char> {
    "wrong number of arguments. Expected:"@ + udec_str(nparams) + ", Got:"@ + udec_str(nargs)
}

/// The message of a call whose callee is no function.
pub open spec fn not_a_function_msg(t: Seq<char>) -> Seq<char> {
    "object is not a function. Got:"@ + t
}

/// The message an expression the evaluator does not know produces.
pub open spec fn unknown_expr_msg() -> Seq<char> {
    "unknown expression, @eval_expr"@
}

/// Truthiness: a boolean is truthy iff `true`; an integer is truthy iff
/// strictly positive (zero and negative integers are falsy); every other
/// value is falsy.
pub open spec fn is_truthy_s(o: ObjV) -> bool {
    match o {
        ObjV::Bool(b) => b,
        ObjV::Int(i) => i > 0,
        _ => false,
    }
}

/// What `!` yields: negation on booleans; on integers, the negation of their
/// truthiness; an error on anything else.
pub open spec fn eval_bang_s(o: ObjV) -> ObjV {
    match o {
        ObjV::Bool(b) => ObjV::Bool(!b),
        ObjV::Int(i) => ObjV::Bool(!(i > 0)),
        _ => ObjV::Error(unknown_prefix_msg("!"@, type_label(o))),
    }
}

/// What prefix `-` yields: integer negation, wrapping at the type's bounds;
/// an error on anything else.
pub open spec fn eval_minus_s(o: ObjV) -> ObjV {
    match o {
        ObjV::Int(i) => ObjV::Int(
            if i == i32::MIN {
                i32::MIN
            } else {
                (-i) as i32
            },
        ),
        _ => ObjV::Error(unknown_prefix_msg("-"@, type_label(o))),
    }
}

/// What a prefix operator yields.
pub open spec fn eval_prefix_s(op: Seq<char>, o: ObjV) -> ObjV {
    if op == "!"@ {
        eval_bang_s(o)
    } else if op == "-"@ {
        eval_minus_s(o)
    } else {
        ObjV::Error(unknown_prefix_msg(op, type_label(o)))
    }
}

/// Division truncated toward zero, as the machine divides.
pub open spec fn tdiv(a: int, b: int) -> int {
    let m = (if a < 0 {
        -a
    } else {
        a
    }) / (if b < 0 {
        -b
    } else {
        b
    });
    if (a < 0) != (b < 0) {
        -m
    } else {
        m
    }
}

/// What an infix operator on two integers yields.  `+ - *` wrap at the
/// type's bounds; division by zero is an error.
pub open spec fn eval_int_infix_s(l: i32, r: i32, op: Seq<char>) -> ObjV {
    if op == "+"@ {
        ObjV::Int(vstd::wrapping::i32_specs::wrapping_add(l, r))
    } else if op == "-"@ {
        ObjV::Int(vstd::wrapping::i32_specs::wrapping_sub(l, r))
    } else if op == "/"@ {
        if r == 0 {
            ObjV::Error("Division by zero is not allowed."@)
        } else if l == i32::MIN && r == -1 {
            ObjV::Int(i32::MIN)
        } else {
            ObjV::Int(tdiv(l as int, r as int) as i32)
        }
    } else if op == "*"@ {
        ObjV::Int(vstd::wrapping::i32_specs::wrapping_mul(l, r))
    } else if op == "<"@ {
        ObjV::Bool(l < r)
    } else if op == ">"@ {
        ObjV::Bool(l > r)
    } else if op == "=="@ {
        ObjV::Bool(l == r)
    } else if op == "!="@ {
        ObjV::Bool(l != r)
    } else {
        ObjV::Error(unknown_infix_msg("INTEGER"@, op, "INTEGER"@))
    }
}

/// What an infix operator yields: integer arithmetic on two integers; a
/// type-mismatch error on operands of different runtime types; value
/// equality and inequality on any matching type; anything else is an unknown
/// operator.
pub open spec fn eval_infix_s(l: ObjV, r: ObjV, op: Seq<char>) -> ObjV {
    if l is Int && r is Int {
        eval_int_infix_s(l->Int_0, r->Int_0, op)
    } else if type_label(l) != type_label(r) {
        ObjV::Error(mismatch_msg(type_label(l), op, type_label(r)))
    } else if op == "=="@ {
        ObjV::Bool(l == r)
    } else if op == "!="@ {
        ObjV::Bool(l != r)
    } else {
        ObjV::Error(unknown_infix_msg(type_label(l), op, type_label(r)))
    }
}

/// A `ReturnValue` gives up its payload; anything else passes through.
pub open spec fn unwrap_ret_s(o: ObjV) -> ObjV {
    match o {
        ObjV::Ret(inner) => *inner,
        _ => o,
    }
}

/// What one statement evaluates to, and the arena it leaves behind.
pub open spec fn eval_stmt_s(st: StmtV, envs: Seq<EnvRecV>, h: int, fuel: nat) -> (
    ObjV,
    Seq<EnvRecV>,
)
    decreases fuel,
{
    if fuel == 0 {
        (ObjV::Error(budget_msg()), envs)
    } else {
        match st {
            StmtV::Expr(e) => eval_expr_s(e, envs, h, (fuel - 1) as nat),
            StmtV::Let { name, value } => {
                let (v, envs1) = eval_expr_s(value, envs, h, (fuel - 1) as nat);
                if v is Error {
                    (v, envs1)
                } else {
                    (v, set_s(envs1, h, name, v))
                }
            },
            StmtV::Return(e) => {
                let (v, envs1) = eval_expr_s(e, envs, h, (fuel - 1) as nat);
                (ObjV::Ret(Box::new(v)), envs1)
            },
        }
    }
}

/// What one expression evaluates to, and the arena it leaves behind.
pub open spec fn eval_expr_s(e: ExprV, envs: Seq<EnvRecV>, h: int, fuel: nat) -> (
    ObjV,
    Seq<EnvRecV>,
)
    decreases fuel,
{
    if fuel == 0 {
        (ObjV::Error(budget_msg()), envs)
    } else {
        let f1 = (fuel - 1) as nat;
        match e {
            ExprV::Int(i) => (ObjV::Int(i), envs),
            ExprV::Bool { value, .. } => (ObjV::Bool(value), envs),
            ExprV::Ident(name) => (lookup_s(envs, h, name), envs),
            ExprV::Prefix { op, rhs, .. } => {
                let (r, envs1) = eval_expr_s(*rhs, envs, h, f1);
                if r is Error {
                    (r, envs1)
                } else {
                    (eval_prefix_s(op, r), envs1)
                }
            },
            ExprV::Infix { op, lhs, rhs, .. } => {
                let (l, envs1) = eval_expr_s(*lhs, envs, h, f1);
                if l is Error {
                    (l, envs1)
                } else {
                    let (r, envs2) = eval_expr_s(*rhs, envs1, h, f1);
                    if r is Error {
                        (r, envs2)
                    } else {
                        (eval_infix_s(l, r, op), envs2)
                    }
                }
            },
            ExprV::If { cond, cons, alt } => {
                let (c, envs1) = eval_expr_s(*cond, envs, h, f1);
                if is_truthy_s(c) {
                    eval_block_s(cons, 0, envs1, h, f1)
                } else {
                    match alt {
                        Some(a) => eval_block_s(a, 0, envs1, h, f1),
                        None => (ObjV::Null, envs1),
                    }
                }
            },
            ExprV::Func { params, body } => (ObjV::Func { params, body, env: h }, envs),
            ExprV::Call { func, args } => {
                let (fv, envs1) = eval_expr_s(*func, envs, h, f1);
                let (envs2, res) = eval_args_s(args, 0, Seq::<ObjV>::empty(), envs1, h, f1);
                match res {
                    Result::Err(ev) => (ev, envs2),
                    Result::Ok(vals) => apply_func_s(fv, vals, envs2, f1),
                }
            },
            _ => (ObjV::Error(unknown_expr_msg()), envs),
        }
    }
}

/// The statements of a block from index `i` on, in order; a `ReturnValue` or
/// an error stops evaluation at once and is the block's result; otherwise
/// the last statement's value is, and an empty block yields `Null`.
pub open spec fn eval_block_s(stmts: Seq<StmtV>, i: int, envs: Seq<EnvRecV>, h: int, fuel: nat) -> (
    ObjV,
    Seq<EnvRecV>,
)
    decreases fuel,
{
    if fuel == 0 {
        (ObjV::Error(budget_msg()), envs)
    } else if i < 0 || i >= stmts.len() {
        (ObjV::Null, envs)
    } else {
        let (v, envs1) = eval_stmt_s(stmts[i], envs, h, (fuel - 1) as nat);
        if v is Ret || v is Error {
            (v, envs1)
        } else if i == stmts.len() - 1 {
            (v, envs1)
        } else {
            eval_block_s(stmts, i + 1, envs1, h, (fuel - 1) as nat)
        }
    }
}

/// Call arguments from index `i` on, left to right, short-circuiting on the
/// first one that evaluates to an error.
pub open spec fn eval_args_s(
    args: Seq<ExprV>,
    i: int,
    acc: Seq<ObjV>,
    envs: Seq<EnvRecV>,
    h: int,
    fuel: nat,
) -> (Seq<EnvRecV>, Result<Seq<ObjV>, ObjV>)
    decreases fuel,
{
    if fuel == 0 {
        (envs, Result::Err(ObjV::Error(budget_msg())))
    } else if i < 0 || i >= args.len() {
        (envs, Result::Ok(acc))
    } else {
        let (v, envs1) = eval_expr_s(args[i], envs, h, (fuel - 1) as nat);
        if v is Error {
            (envs1, Result::Err(v))
        } else {
            eval_args_s(args, i + 1, acc.push(v), envs1, h, (fuel - 1) as nat)
        }
    }
}

/// Parameters bound to arguments, positionally, in a fresh record `h`.
pub open spec fn bind_args_s(
    envs: Seq<EnvRecV>,
    h: int,
    params: Seq<Seq<char>>,
    args: Seq<ObjV>,
    i: int,
) -> Seq<EnvRecV>
    decreases params.len() - i,
{
    if i < 0 || i >= params.len() || i >= args.len() {
        envs
    } else {
        bind_args_s(set_s(envs, h, params[i], args[i]), h, params, args, i + 1)
    }
}

/// What a call yields: a fresh record enclosed by the function's captured
/// environment, the parameters bound to the arguments (their counts must
/// match), the body run as a block, and a `ReturnValue` unwrapped.  Calling
/// anything but a function is an error.
pub open spec fn apply_func_s(fv: ObjV, args: Seq<ObjV>, envs: Seq<EnvRecV>, fuel: nat) -> (
    ObjV,
    Seq<EnvRecV>,
)
    decreases fuel,
{
    if fuel == 0 {
        (ObjV::Error(budget_msg()), envs)
    } else {
        match fv {
            ObjV::Func { params, body, env } => {
                if args.len() != params.len() {
                    (ObjV::Error(arity_msg(params.len() as int, args.len() as int)), envs)
                } else {
                    let h2 = envs.len() as int;
                    let envs2 = bind_args_s(push_rec_s(envs, Some(env)), h2, params, args, 0);
                    let (res, envs3) = eval_block_s(body, 0, envs2, h2, (fuel - 1) as nat);
                    (unwrap_ret_s(res), envs3)
                }
            },
            _ => (ObjV::Error(not_a_function_msg(type_label(fv))), envs),
        }
    }
}

fn budget_error() -> (r: Object)
    ensures
        r@ == ObjV::Error(budget_msg()),
{
    Object::Error(String::from_str("evaluation depth limit reached"))
}

/// Wraps a message in an error value.
pub fn create_new_error(message: String) -> (r: Object)
    ensures
        r@ == ObjV::Error(message@),
{
    Object::Error(message)
}

fn is_error(o: &Object) -> (r: bool)
    ensures
        r == (o@ is Error),
{
    match o {
        Object::Error(_) => true,
        _ => false,
    }
}

fn is_return(o: &Object) -> (r: bool)
    ensures
        r == (o@ is Ret),
{
    match o {
        Object::ReturnValue(_) => true,
        _ => false,
    }
}

/// Decides truthiness, as `is_truthy_s` says.
pub fn is_truthy(obj: &Object) -> (r: bool)
    ensures
        r == is_truthy_s(obj@),
{
    match obj {
        Object::Boolean(b) => *b,
        Object::Integer(i) => *i > 0,
        _ => false,
    }
}

fn unknown_prefix_error(op: &str, rhs: &Object) -> (r: Object)
    ensures
        r@ == ObjV::Error(unknown_prefix_msg(op@, type_label(rhs@))),
{
    let mut m = String::from_str("unknown operator: ");
    m.append(op);
    m.append(" ");
    let t = rhs.Type();
    m.append(t.as_str());
    Object::Error(m)
}

/// Applies `!`, as `eval_bang_s` says.
pub fn eval_bang_expr(rhs: &Object) -> (r: Object)
    ensures
        r@ == eval_bang_s(rhs@),
{
    match rhs {
        Object::Boolean(b) => Object::Boolean(!*b),
        Object::Integer(val) => Object::Boolean(
            if *val > 0 {
                false
            } else {
                true
            },
        ),
        _ => unknown_prefix_error("!", rhs),
    }
}

/// Applies prefix `-`, as `eval_minus_s` says.
pub fn eval_minus_prefix(rhs: &Object) -> (r: Object)
    ensures
        r@ == eval_minus_s(rhs@),
{
    match rhs {
        Object::Integer(i) => {
            if *i == i32::MIN {
                Object::Integer(i32::MIN)
            } else {
                Object::Integer(-*i)
            }
        },
        _ => unknown_prefix_error("-", rhs),
    }
}

/// Applies a prefix operator, as `eval_prefix_s` says.
pub fn eval_prefix_expr(op: &String, rhs: &Object) -> (r: Object)
    ensures
        r@ == eval_prefix_s(op@, rhs@),
{
    if str_eq(op.as_str(), "!") {
        eval_bang_expr(rhs)
    } else if str_eq(op.as_str(), "-") {
        eval_minus_prefix(rhs)
    } else {
        unknown_prefix_error(op.as_str(), rhs)
    }
}

fn div_i32(a: i32, b: i32) -> (r: i32)
    requires
        b != 0,
        !(a == i32::MIN && b == -1),
    ensures
        r as int == tdiv(a as int, b as int),
{
    let au: u64 = if a < 0 {
        (-(a as i64)) as u64
    } else {
        a as u64
    };
    let bu: u64 = if b < 0 {
        (-(b as i64)) as u64
    } else {
        b as u64
    };
    let q = au / bu;
    proof {
        assert(au / bu <= au) by (nonlinear_arith)
            requires
                bu >= 1,
        ;
        if a == i32::MIN && b < 0 {
            assert(bu >= 2);
            assert(au / bu <= au / 2) by (nonlinear_arith)
                requires
                    bu >= 2,
                    au >= 0,
            ;
        }
    }
    if (a < 0) != (b < 0) {
        -(q as i64) as i32
    } else {
        q as i32
    }
}

/// Applies an infix operator to two integers, as `eval_int_infix_s` says.
pub fn eval_int_infix_expr(lhs: i32, rhs: i32, op: &String) -> (r: Object)
    ensures
        r@ == eval_int_infix_s(lhs, rhs, op@),
{
    if str_eq(op.as_str(), "+") {
        Object::Integer(lhs.wrapping_add(rhs))
    } else if str_eq(op.as_str(), "-") {
        Object::Integer(lhs.wrapping_sub(rhs))
    } else if str_eq(op.as_str(), "/") {
        if rhs == 0 {
            Object::Error(String::from_str("Division by zero is not allowed."))
        } else if lhs == i32::MIN && rhs == -1 {
            Object::Integer(i32::MIN)
        } else {
            Object::Integer(div_i32(lhs, rhs))
        }
    } else if str_eq(op.as_str(), "*") {
        Object::Integer(lhs.wrapping_mul(rhs))
    } else if str_eq(op.as_str(), "<") {
        Object::Boolean(lhs < rhs)
    } else if str_eq(op.as_str(), ">") {
        Object::Boolean(lhs > rhs)
    } else if str_eq(op.as_str(), "==") {
        Object::Boolean(lhs == rhs)
    } else if str_eq(op.as_str(), "!=") {
        Object::Boolean(lhs != rhs)
    } else {
        let mut m = String::from_str("unknown operator: ");
        m.append("INTEGER");
        m.append(" ");
        m.append(op.as_str());
        m.append(" ");
        m.append("INTEGER");
        Object::Error(m)
    }
}

/// Applies an infix operator, as `eval_infix_s` says.
pub fn eval_infix_expr(lhs: &Object, rhs: &Object, op: &String) -> (r: Object)
    ensures
        r@ == eval_infix_s(lhs@, rhs@, op@),
{
    match (lhs, rhs) {
        (Object::Integer(a), Object::Integer(b)) => eval_int_infix_expr(*a, *b, op),
        _ => {
            let lt = lhs.Type();
            let rt = rhs.Type();
            if !(lt == rt) {
                let mut m = String::from_str("type mismatch: ");
                m.append(lt.as_str());
                m.append(" ");
                m.append(op.as_str());
                m.append(" ");
                m.append(rt.as_str());
                Object::Error(m)
            } else if str_eq(op.as_str(), "==") {
                Object::Boolean(obj_eq(lhs, rhs))
            } else if str_eq(op.as_str(), "!=") {
                Object::Boolean(!obj_eq(lhs, rhs))
            } else {
                let mut m = String::from_str("unknown operator: ");
                m.append(lt.as_str());
                m.append(" ");
                m.append(op.as_str());
                m.append(" ");
                m.append(rt.as_str());
                Object::Error(m)
            }
        },
    }
}

/// A `ReturnValue` gives up its payload, as `unwrap_ret_s` says.
pub fn unwrap_return_value(obj: Object) -> (r: Object)
    ensures
        r@ == unwrap_ret_s(obj@),
{
    match obj {
        Object::ReturnValue(inner) => *inner,
        other => other,
    }
}

/// Looks an identifier up in the environment chain from record `h` outward.
pub fn eval_ident(ident: &Identifier, env: &Enviornment, h: usize) -> (r: Object)
    ensures
        r@ == lookup_s(env@, h as int, ident.value@),
{
    env.get_at(h, &ident.value)
}

/// Evaluates one statement against record `h`, as `eval_stmt_s` says.
pub fn eval_stmt(stmt: &Statment, env: &mut Enviornment, h: usize, fuel: u64) -> (r: Object)
    ensures
        (r@, final(env)@) == eval_stmt_s(stmt@, old(env)@, h as int, fuel as nat),
    decreases fuel, 0int,
{
    if fuel == 0 {
        return budget_error();
    }
    match stmt {
        Statment::Expr(e) => eval_expr(e, env, h, fuel - 1),
        Statment::Let(l) => eval_let_stmt(l, env, h, fuel - 1),
        Statment::Return(rt) => {
            let v = eval_expr(&rt.return_value, env, h, fuel - 1);
            Object::ReturnValue(Box::new(v))
        },
    }
}

/// Evaluates a `let`: the value is computed first; an error propagates
/// without binding; otherwise the name is bound in record `h` and the value
/// is also the statement's result.
pub fn eval_let_stmt(l: &LetStatment, env: &mut Enviornment, h: usize, fuel: u64) -> (r: Object)
    ensures
        ({
            let (v, envs1) = eval_expr_s(expr_view(l.value), old(env)@, h as int, fuel as nat);
            if v is Error {
                r@ == v && final(env)@ == envs1
            } else {
                r@ == v && final(env)@ == set_s(envs1, h as int, l.ident.value@, v)
            }
        }),
    decreases fuel, 1int,
{
    let value = eval_expr(&l.value, env, h, fuel);
    if is_error(&value) {
        return value;
    }
    env.set_at(h, l.ident.value.clone(), &value);
    value
}

/// Evaluates one expression against record `h`, as `eval_expr_s` says.
pub fn eval_expr(e: &Expression, env: &mut Enviornment, h: usize, fuel: u64) -> (r: Object)
    ensures
        (r@, final(env)@) == eval_expr_s(e@, old(env)@, h as int, fuel as nat),
    decreases fuel, 0int,
{
    if fuel == 0 {
        return budget_error();
    }
    match e {
        Expression::Int(i) => Object::Integer(i.value),
        Expression::BoolenExpr(b) => Object::Boolean(b.value),
        Expression::Identifier(id) => eval_ident(id, env, h),
        Expression::Prefix(p) => {
            let rv = eval_expr(&p.rhs, env, h, fuel - 1);
            if is_error(&rv) {
                return rv;
            }
            eval_prefix_expr(&p.operator, &rv)
        },
        Expression::Infix(ie) => {
            let l = eval_expr(&ie.lhs, env, h, fuel - 1);
            if is_error(&l) {
                return l;
            }
            let r2 = eval_expr(&ie.rhs, env, h, fuel - 1);
            if is_error(&r2) {
                return r2;
            }
            eval_infix_expr(&l, &r2, &ie.operator)
        },
        Expression::If(st) => eval_if_expr(st, env, h, fuel - 1),
        Expression::Func(f) => Object::Function(clone_func_literal(f), h),
        Expression::Call(c) => {
            let fv = eval_expr(&c.function, env, h, fuel - 1);
            match eval_expressions(&c.arguments, env, h, fuel - 1) {
                Result::Err(ev) => ev,
                Result::Ok(args) => apply_func(&fv, args, env, fuel - 1),
            }
        },
        _ => Object::Error(String::from_str("unknown expression, @eval_expr")),
    }
}

/// Evaluates an `if`: the condition decides by truthiness which block runs;
/// with neither branch to run the result is `Null`.  An error value as the
/// condition is falsy.
pub fn eval_if_expr(stmt: &IfStatment, env: &mut Enviornment, h: usize, fuel: u64) -> (r: Object)
    ensures
        ({
            let (c, envs1) = eval_expr_s(expr_view(stmt.condition), old(env)@, h as int,
                fuel as nat);
            (r@, final(env)@) == if is_truthy_s(c) {
                eval_block_s(stmts_view(stmt.consequence.stmts@), 0, envs1, h as int, fuel as nat)
            } else {
                match stmt.alternative {
                    Some(a) => eval_block_s(stmts_view(a.stmts@), 0, envs1, h as int, fuel as nat),
                    None => (ObjV::Null, envs1),
                }
            }
        }),
    decreases fuel, 2int,
{
    let cond = eval_expr(&stmt.condition, env, h, fuel);
    if is_truthy(&cond) {
        eval_statments(&stmt.consequence.stmts, env, h, fuel)
    } else {
        match &stmt.alternative {
            Some(alt) => eval_statments(&alt.stmts, env, h, fuel),
            None => Object::Null,
        }
    }
}

/// Evaluates the statements of a block in order, as `eval_block_s` says.
pub fn eval_statments(stmts: &Vec<Statment>, env: &mut Enviornment, h: usize, fuel: u64) -> (r:
    Object)
    ensures
        (r@, final(env)@) == eval_block_s(stmts_view(stmts@), 0, old(env)@, h as int, fuel as nat),
    decreases fuel, 1int,
{
    eval_stmts_from(stmts, 0, env, h, fuel)
}

fn eval_stmts_from(stmts: &Vec<Statment>, i: usize, env: &mut Enviornment, h: usize, fuel: u64)
    -> (r: Object)
    requires
        i <= stmts@.len(),
    ensures
        (r@, final(env)@) == eval_block_s(
            stmts_view(stmts@),
            i as int,
            old(env)@,
            h as int,
            fuel as nat,
        ),
    decreases fuel, 0int,
{
    proof {
        lemma_stmts_view(stmts@);
    }
    if fuel == 0 {
        return budget_error();
    }
    if i >= stmts.len() {
        return Object::Null;
    }
    let v = eval_stmt(&stmts[i], env, h, fuel - 1);
    if is_return(&v) || is_error(&v) {
        return v;
    }
    if i == stmts.len() - 1 {
        return v;
    }
    eval_stmts_from(stmts, i + 1, env, h, fuel - 1)
}

/// Evaluates call arguments left to right; the first error value comes back
/// as `Err` at once, as `eval_args_s` says.
pub fn eval_expressions(
    exprs: &Vec<Expression>,
    env: &mut Enviornment,
    h: usize,
    fuel: u64,
) -> (r: Result<Vec<Object>, Object>)
    ensures
        ({
            let (envs2, res) = eval_args_s(
                exprs_view(exprs@),
                0,
                Seq::<ObjV>::empty(),
                old(env)@,
                h as int,
                fuel as nat,
            );
            final(env)@ == envs2 && (match (r, res) {
                (Result::Ok(v), Result::Ok(vs)) => objs_view(v@) == vs,
                (Result::Err(e), Result::Err(ev)) => e@ == ev,
                _ => false,
            })
        }),
    decreases fuel, 1int,
{
    let mut acc: Vec<Object> = Vec::new();
    proof {
        assert(objs_view(acc@) =~= Seq::<ObjV>::empty());
    }
    match eval_args_from(exprs, 0, &mut acc, env, h, fuel) {
        Some(err) => Result::Err(err),
        None => Result::Ok(acc),
    }
}

fn eval_args_from(
    exprs: &Vec<Expression>,
    i: usize,
    acc: &mut Vec<Object>,
    env: &mut Enviornment,
    h: usize,
    fuel: u64,
) -> (r: Option<Object>)
    requires
        i <= exprs@.len(),
    ensures
        ({
            let (envs2, res) = eval_args_s(
                exprs_view(exprs@),
                i as int,
                objs_view(old(acc)@),
                old(env)@,
                h as int,
                fuel as nat,
            );
            final(env)@ == envs2 && (match (r, res) {
                (None, Result::Ok(vs)) => objs_view(final(acc)@) == vs,
                (Some(e), Result::Err(ev)) => e@ == ev,
                _ => false,
            })
        }),
    decreases fuel, 0int,
{
    proof {
        lemma_exprs_view(exprs@);
    }
    if fuel == 0 {
        return Some(budget_error());
    }
    if i >= exprs.len() {
        return None;
    }
    let v = eval_expr(&exprs[i], env, h, fuel - 1);
    if is_error(&v) {
        return Some(v);
    }
    proof {
        lemma_objs_view_push(acc@, v);
    }
    acc.push(v);
    eval_args_from(exprs, i + 1, acc, env, h, fuel - 1)
}

/// Builds the call's environment: a fresh record enclosed by `captured`,
/// with each parameter bound to its argument.
pub fn extened_func_env(
    f: &FunctionLiteral,
    captured: usize,
    args: &Vec<Object>,
    env: &mut Enviornment,
) -> (h2: usize)
    requires
        f.params@.len() == args@.len(),
    ensures
        h2 == old(env)@.len(),
        final(env)@ == bind_args_s(
            push_rec_s(old(env)@, Some(captured as int)),
            old(env)@.len() as int,
            idents_view(f.params@),
            objs_view(args@),
            0,
        ),
{
    let h2 = env.new_enclosed_env(captured);
    let ghost params = idents_view(f.params@);
    let ghost argsv = objs_view(args@);
    let ghost envs0 = env@;
    proof {
        lemma_objs_view(args@);
    }
    let mut i: usize = 0;
    while i < f.params.len()
        invariant
            i <= f.params.len(),
            f.params@.len() == args@.len(),
            params == idents_view(f.params@),
            argsv == objs_view(args@),
            argsv.len() == args@.len(),
            forall|j: int| 0 <= j < args@.len() ==> (#[trigger] argsv[j]) == args@[j]@,
            h2 < env@.len(),
            bind_args_s(envs0, h2 as int, params, argsv, 0) == bind_args_s(
                env@,
                h2 as int,
                params,
                argsv,
                i as int,
            ),
        decreases f.params.len() - i,
    {
        env.set_at(h2, f.params[i].value.clone(), &args[i]);
        i = i + 1;
    }
    proof {
        assert(bind_args_s(env@, h2 as int, params, argsv, i as int) == env@);
    }
    h2
}

/// Applies a function value to argument values, as `apply_func_s` says.
pub fn apply_func(func: &Object, args: Vec<Object>, env: &mut Enviornment, fuel: u64) -> (r:
    Object)
    ensures
        (r@, final(env)@) == apply_func_s(func@, objs_view(args@), old(env)@, fuel as nat),
    decreases fuel, 1int,
{
    if fuel == 0 {
        return budget_error();
    }
    match func {
        Object::Function(f, captured) => {
            proof {
                lemma_objs_view(args@);
            }
            if args.len() != f.params.len() {
                let mut m = String::from_str("wrong number of arguments. Expected:");
                let en = udec_string(f.params.len() as u64);
                m.append(en.as_str());
                m.append(", Got:");
                let gn = udec_string(args.len() as u64);
                m.append(gn.as_str());
                return Object::Error(m);
            }
            let h2 = extened_func_env(f, *captured, &args, env);
            let res = eval_statments(&f.body.stmts, env, h2, fuel - 1);
            unwrap_return_value(res)
        },
        _ => {
            let mut m = String::from_str("object is not a function. Got:");
            let t = func.Type();
            m.append(t.as_str());
            Object::Error(m)
        },
    }
}

/// Evaluates one statement in the global scope under a fixed budget.  The
/// result is never `None`; the `Option` is part of the interface the REPL
/// consumes.
pub fn eval(stmt: &Statment, env: &mut Enviornment) -> (r: Option<Object>)
    ensures
        ({
            let (v, envs2) = eval_stmt_s(stmt@, old(env)@, 0, DEFAULT_EVAL_FUEL as nat);
            final(env)@ == envs2 && (match r {
                Some(o) => o@ == v,
                None => false,
            })
        }),
{
    Some(eval_stmt(stmt, env, 0, DEFAULT_EVAL_FUEL))
}


proof fn lemma_bind_args_len(envs: Seq<EnvRecV>, h: int, params: Seq<Seq<char>>, args: Seq<ObjV>, i: int)
    ensures
        bind_args_s(envs, h, params, args, i).len() == envs.len(),
    decreases params.len() - i,
{
    if !(i < 0 || i >= params.len() || i >= args.len()) {
        lemma_bind_args_len(set_s(envs, h, params[i], args[i]), h, params, args, i + 1);
    }
}

proof fn lemma_stmt_grows(st: StmtV, envs: Seq<EnvRecV>, h: int, fuel: nat)
    ensures
        eval_stmt_s(st, envs, h, fuel).1.len() >= envs.len(),
    decreases fuel, 1int,
{
    if fuel > 0 {
        match st {
            StmtV::Expr(e) => lemma_expr_grows(e, envs, h, (fuel - 1) as nat),
            StmtV::Let { name, value } => lemma_expr_grows(value, envs, h, (fuel - 1) as nat),
            StmtV::Return(e) => lemma_expr_grows(e, envs, h, (fuel - 1) as nat),
        }
    }
}

proof fn lemma_expr_grows(e: ExprV, envs: Seq<EnvRecV>, h: int, fuel: nat)
    ensures
        eval_expr_s(e, envs, h, fuel).1.len() >= envs.len(),
    decreases fuel, 0int,
{
    if fuel > 0 {
        let f1 = (fuel - 1) as nat;
        match e {
            ExprV::Prefix { op, rhs, .. } => lemma_expr_grows(*rhs, envs, h, f1),
            ExprV::Infix { op, lhs, rhs, .. } => {
                let (l, envs1) = eval_expr_s(*lhs, envs, h, f1);
                lemma_expr_grows(*lhs, envs, h, f1);
                lemma_expr_grows(*rhs, envs1, h, f1);
            },
            ExprV::If { cond, cons, alt } => {
                let (c, envs1) = eval_expr_s(*cond, envs, h, f1);
                lemma_expr_grows(*cond, envs, h, f1);
                lemma_block_grows(cons, 0, envs1, h, f1);
                match alt {
                    Some(a) => lemma_block_grows(a, 0, envs1, h, f1),
                    None => {},
                }
            },
            ExprV::Call { func, args } => {
                let (fv, envs1) = eval_expr_s(*func, envs, h, f1);
                lemma_expr_grows(*func, envs, h, f1);
                let (envs2, res) = eval_args_s(args, 0, Seq::<ObjV>::empty(), envs1, h, f1);
                lemma_args_grows(args, 0, Seq::<ObjV>::empty(), envs1, h, f1);
                match res {
                    Result::Ok(vals) => lemma_apply_grows(fv, vals, envs2, f1),
                    Result::Err(_) => {},
                }
            },
            _ => {},
        }
    }
}

proof fn lemma_block_grows(stmts: Seq<StmtV>, i: int, envs: Seq<EnvRecV>, h: int, fuel: nat)
    ensures
        eval_block_s(stmts, i, envs, h, fuel).1.len() >= envs.len(),
    decreases fuel, 1int,
{
    if fuel > 0 && 0 <= i < stmts.len() {
        let (v, envs1) = eval_stmt_s(stmts[i], envs, h, (fuel - 1) as nat);
        lemma_stmt_grows(stmts[i], envs, h, (fuel - 1) as nat);
        if !(v is Ret || v is Error) && i != stmts.len() - 1 {
            lemma_block_grows(stmts, i + 1, envs1, h, (fuel - 1) as nat);
        }
    }
}

proof fn lemma_args_grows(
    args: Seq<ExprV>,
    i: int,
    acc: Seq<ObjV>,
    envs: Seq<EnvRecV>,
    h: int,
    fuel: nat,
)
    ensures
        eval_args_s(args, i, acc, envs, h, fuel).0.len() >= envs.len(),
    decreases fuel, 1int,
{
    if fuel > 0 && 0 <= i < args.len() {
        let (v, envs1) = eval_expr_s(args[i], envs, h, (fuel - 1) as nat);
        lemma_expr_grows(args[i], envs, h, (fuel - 1) as nat);
        if !(v is Error) {
            lemma_args_grows(args, i + 1, acc.push(v), envs1, h, (fuel - 1) as nat);
        }
    }
}

proof fn lemma_apply_grows(fv: ObjV, args: Seq<ObjV>, envs: Seq<EnvRecV>, fuel: nat)
    ensures
        apply_func_s(fv, args, envs, fuel).1.len() >= envs.len(),
    decreases fuel, 2int,
{
    if fuel > 0 {
        match fv {
            ObjV::Func { params, body, env } => {
                if args.len() == params.len() {
                    let h2 = envs.len() as int;
                    let envs2 = bind_args_s(push_rec_s(envs, Some(env)), h2, params, args, 0);
                    lemma_bind_args_len(push_rec_s(envs, Some(env)), h2, params, args, 0);
                    lemma_block_grows(body, 0, envs2, h2, (fuel - 1) as nat);
                }
            },
            _ => {},
        }
    }
}

/// Evaluation never removes an environment record: the arena only grows.
pub proof fn lemma_eval_stmt_grows_arena(st: StmtV, envs: Seq<EnvRecV>, h: int, fuel: nat)
    ensures
        eval_stmt_s(st, envs, h, fuel).1.len() >= envs.len(),
{
    lemma_stmt_grows(st, envs, h, fuel);
}

/// A `let` statement binds its name: when the value expression does not
/// produce an error, the statement's result is that value, and looking the
/// name up afterwards in the same scope yields it.  Whether the name was
/// already bound makes no difference: binding rebinds and never errs.
pub proof fn lemma_let_binds(
    name: Seq<char>,
    value: ExprV,
    envs: Seq<EnvRecV>,
    h: int,
    fuel: nat,
)
    requires
        0 <= h < envs.len(),
        fuel > 0,
    ensures
        ({
            let (v, envs2) = eval_stmt_s(StmtV::Let { name, value }, envs, h, fuel);
            &&& (v is Error <==> eval_expr_s(value, envs, h, (fuel - 1) as nat).0 is Error)
            &&& (!(v is Error) ==> v == eval_expr_s(value, envs, h, (fuel - 1) as nat).0
                && lookup_s(envs2, h, name) == v)
        }),
{
    let (v, envs1) = eval_expr_s(value, envs, h, (fuel - 1) as nat);
    lemma_expr_grows(value, envs, h, (fuel - 1) as nat);
    if !(v is Error) {
        let envs2 = set_s(envs1, h, name, v);
        assert(envs2[h].bindings.contains_key(name));
        assert(envs2[h].bindings[name] == v);
    }
}

/// Rebinding a name overwrites: after two bindings in the same record, the
/// later value is what a lookup finds.
pub proof fn lemma_rebind_last_wins(
    envs: Seq<EnvRecV>,
    h: int,
    name: Seq<char>,
    v1: ObjV,
    v2: ObjV,
)
    requires
        0 <= h < envs.len(),
    ensures
        lookup_s(set_s(set_s(envs, h, name, v1), h, name, v2), h, name) == v2,
{
    let e2 = set_s(set_s(envs, h, name, v1), h, name, v2);
    assert(e2[h].bindings.contains_key(name));
}

/// Evaluating the same `let` statement twice rebinds: neither run errs
/// unless its value expression errs, and after the second run the lookup
/// yields the second run's value.
pub proof fn lemma_let_twice(
    name: Seq<char>,
    value: ExprV,
    envs: Seq<EnvRecV>,
    h: int,
    fuel: nat,
)
    requires
        0 <= h < envs.len(),
        fuel > 0,
    ensures
        ({
            let (v1, e1) = eval_stmt_s(StmtV::Let { name, value }, envs, h, fuel);
            let (v2, e2) = eval_stmt_s(StmtV::Let { name, value }, e1, h, fuel);
            !(v1 is Error) && !(v2 is Error) ==> lookup_s(e2, h, name) == v2
        }),
{
    let (v1, e1) = eval_stmt_s(StmtV::Let { name, value }, envs, h, fuel);
    lemma_stmt_grows(StmtV::Let { name, value }, envs, h, fuel);
    if 0 <= h < e1.len() {
        lemma_let_binds(name, value, e1, h, fuel);
    }
}

/// An error value short-circuits a statement sequence: when statement `i`
/// evaluates to an error, that error is the whole block's result and the
/// statements after `i` are never evaluated.
pub proof fn lemma_block_error_short_circuit(
    stmts: Seq<StmtV>,
    i: int,
    envs: Seq<EnvRecV>,
    h: int,
    fuel: nat,
)
    requires
        fuel > 0,
        0 <= i < stmts.len(),
        eval_stmt_s(stmts[i], envs, h, (fuel - 1) as nat).0 is Error,
    ensures
        eval_block_s(stmts, i, envs, h, fuel) == eval_stmt_s(stmts[i], envs, h, (fuel - 1) as nat),
{
}

/// A `ReturnValue` short-circuits a statement sequence the same way, which
/// is how `return` escapes nested blocks; the call boundary then unwraps it.
pub proof fn lemma_block_return_short_circuit(
    stmts: Seq<StmtV>,
    i: int,
    envs: Seq<EnvRecV>,
    h: int,
    fuel: nat,
)
    requires
        fuel > 0,
        0 <= i < stmts.len(),
        eval_stmt_s(stmts[i], envs, h, (fuel - 1) as nat).0 is Ret,
    ensures
        eval_block_s(stmts, i, envs, h, fuel) == eval_stmt_s(stmts[i], envs, h, (fuel - 1) as nat),
{
}


proof fn lemma_bind_args_frame(
    envs: Seq<EnvRecV>,
    h: int,
    params: Seq<Seq<char>>,
    args: Seq<ObjV>,
    i: int,
)
    ensures
        bind_args_s(envs, h, params, args, i).len() == envs.len(),
        forall|j: int|
            0 <= j < envs.len() && j != h ==> bind_args_s(envs, h, params, args, i)[j] == envs[j],
    decreases params.len() - i,
{
    if !(i < 0 || i >= params.len() || i >= args.len()) {
        let stepped = set_s(envs, h, params[i], args[i]);
        lemma_bind_args_frame(stepped, h, params, args, i + 1);
        assert forall|j: int|
            0 <= j < envs.len() && j != h implies bind_args_s(envs, h, params, args, i)[j]
            == envs[j] by {
            assert(stepped[j] == envs[j]);
            assert(bind_args_s(stepped, h, params, args, i + 1)[j] == stepped[j]);
        }
    }
}

proof fn lemma_stmt_frame(st: StmtV, envs: Seq<EnvRecV>, h: int, fuel: nat)
    ensures
        ({
            let (v, e2) = eval_stmt_s(st, envs, h, fuel);
            &&& e2.len() >= envs.len()
            &&& forall|j: int| 0 <= j < envs.len() && j != h ==> e2[j] == envs[j]
        }),
    decreases fuel, 1int,
{
    if fuel > 0 {
        match st {
            StmtV::Expr(e) => lemma_expr_frame(e, envs, h, (fuel - 1) as nat),
            StmtV::Let { name, value } => lemma_expr_frame(value, envs, h, (fuel - 1) as nat),
            StmtV::Return(e) => lemma_expr_frame(e, envs, h, (fuel - 1) as nat),
        }
    }
}

proof fn lemma_expr_frame(e: ExprV, envs: Seq<EnvRecV>, h: int, fuel: nat)
    ensures
        ({
            let (v, e2) = eval_expr_s(e, envs, h, fuel);
            &&& e2.len() >= envs.len()
            &&& forall|j: int| 0 <= j < envs.len() && j != h ==> e2[j] == envs[j]
        }),
    decreases fuel, 0int,
{
    if fuel > 0 {
        let f1 = (fuel - 1) as nat;
        match e {
            ExprV::Prefix { op, rhs, .. } => lemma_expr_frame(*rhs, envs, h, f1),
            ExprV::Infix { op, lhs, rhs, .. } => {
                let (l, envs1) = eval_expr_s(*lhs, envs, h, f1);
                lemma_expr_frame(*lhs, envs, h, f1);
                lemma_expr_frame(*rhs, envs1, h, f1);
            },
            ExprV::If { cond, cons, alt } => {
                let (c, envs1) = eval_expr_s(*cond, envs, h, f1);
                lemma_expr_frame(*cond, envs, h, f1);
                lemma_block_frame(cons, 0, envs1, h, f1);
                match alt {
                    Some(a) => lemma_block_frame(a, 0, envs1, h, f1),
                    None => {},
                }
            },
            ExprV::Call { func, args } => {
                let (fv, envs1) = eval_expr_s(*func, envs, h, f1);
                lemma_expr_frame(*func, envs, h, f1);
                let (envs2, res) = eval_args_s(args, 0, Seq::<ObjV>::empty(), envs1, h, f1);
                lemma_args_frame(args, 0, Seq::<ObjV>::empty(), envs1, h, f1);
                match res {
                    Result::Ok(vals) => lemma_apply_frame(fv, vals, envs2, f1),
                    Result::Err(_) => {},
                }
            },
            _ => {},
        }
    }
}

proof fn lemma_block_frame(stmts: Seq<StmtV>, i: int, envs: Seq<EnvRecV>, h: int, fuel: nat)
    ensures
        ({
            let (v, e2) = eval_block_s(stmts, i, envs, h, fuel);
            &&& e2.len() >= envs.len()
            &&& forall|j: int| 0 <= j < envs.len() && j != h ==> e2[j] == envs[j]
        }),
    decreases fuel, 1int,
{
    if fuel > 0 && 0 <= i < stmts.len() {
        let (v, envs1) = eval_stmt_s(stmts[i], envs, h, (fuel - 1) as nat);
        lemma_stmt_frame(stmts[i], envs, h, (fuel - 1) as nat);
        if !(v is Ret || v is Error) && i != stmts.len() - 1 {
            lemma_block_frame(stmts, i + 1, envs1, h, (fuel - 1) as nat);
        }
    }
}

proof fn lemma_args_frame(
    args: Seq<ExprV>,
    i: int,
    acc: Seq<ObjV>,
    envs: Seq<EnvRecV>,
    h: int,
    fuel: nat,
)
    ensures
        ({
            let (e2, res) = eval_args_s(args, i, acc, envs, h, fuel);
            &&& e2.len() >= envs.len()
            &&& forall|j: int| 0 <= j < envs.len() && j != h ==> e2[j] == envs[j]
        }),
    decreases fuel, 1int,
{
    if fuel > 0 && 0 <= i < args.len() {
        let (v, envs1) = eval_expr_s(args[i], envs, h, (fuel - 1) as nat);
        lemma_expr_frame(args[i], envs, h, (fuel - 1) as nat);
        if !(v is Error) {
            lemma_args_frame(args, i + 1, acc.push(v), envs1, h, (fuel - 1) as nat);
        }
    }
}

proof fn lemma_apply_frame(fv: ObjV, args: Seq<ObjV>, envs: Seq<EnvRecV>, fuel: nat)
    ensures
        ({
            let (res, e2) = apply_func_s(fv, args, envs, fuel);
            &&& e2.len() >= envs.len()
            &&& forall|j: int| 0 <= j < envs.len() ==> e2[j] == envs[j]
        }),
    decreases fuel, 2int,
{
    if fuel > 0 {
        match fv {
            ObjV::Func { params, body, env } => {
                if args.len() == params.len() {
                    let h2 = envs.len() as int;
                    let pushed = push_rec_s(envs, Some(env));
                    let envs2 = bind_args_s(pushed, h2, params, args, 0);
                    lemma_bind_args_frame(pushed, h2, params, args, 0);
                    lemma_block_frame(body, 0, envs2, h2, (fuel - 1) as nat);
                    let (res, e3) = eval_block_s(body, 0, envs2, h2, (fuel - 1) as nat);
                    assert forall|j: int| 0 <= j < envs.len() implies e3[j] == envs[j] by {
                        assert(pushed[j] == envs[j]);
                        assert(envs2[j] == pushed[j]);
                        assert(e3[j] == envs2[j]);
                    }
                }
            },
            _ => {},
        }
    }
}

/// Evaluation is local to its scope: running a statement against record `h`
/// leaves every other record that already existed exactly as it was.  In
/// particular the environment a closure captured survives any amount of
/// unrelated evaluation unchanged, which is what lets a closure still read
/// its bindings after the call that made them has returned.
pub proof fn lemma_eval_touches_only_its_scope(
    st: StmtV,
    envs: Seq<EnvRecV>,
    h: int,
    fuel: nat,
)
    ensures
        ({
            let (v, e2) = eval_stmt_s(st, envs, h, fuel);
            forall|j: int| 0 <= j < envs.len() && j != h ==> e2[j] == envs[j]
        }),
{
    lemma_stmt_frame(st, envs, h, fuel);
}

} // verus!
