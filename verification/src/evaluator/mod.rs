//! The tree-walking evaluator: interprets the abstract syntax tree against a
//! chain of lexical environments. Return and error propagation travel as
//! ordinary values, never as host-language exceptions.
//!
//! Every executable function is proved to return exactly what the fueled
//! specification interpreter (`eval_stmt_v`, `eval_expr_v`, ...) describes.
//! The fuel bounds only the nesting depth of function calls: it is spent
//! solely when a closure body is entered, and the public entry point
//! supplies the largest possible budget.

pub mod builtins;
pub mod object;

use crate::parser::ast::Args;
use crate::parser::ast::Block;
use crate::parser::ast::Expr;
use crate::parser::ast::ExprV;
use crate::parser::ast::Ident;
use crate::parser::ast::Infix;
use crate::parser::ast::Literal;
use crate::parser::ast::LiteralV;
use crate::parser::ast::Params;
use crate::parser::ast::Prefix;
use crate::parser::ast::Program;
use crate::parser::ast::Stmt;
use crate::parser::ast::StmtV;
use crate::parser::ast::block_view;
use crate::parser::ast::block_size;
use crate::parser::ast::clone_block;
use crate::parser::ast::clone_params;
use crate::parser::ast::expr_size;
use crate::parser::ast::expr_views;
use crate::parser::ast::exprs_size;
use crate::parser::ast::lemma_block_view_index;
use crate::parser::ast::lemma_block_view_len;
use crate::parser::ast::lemma_expr_views_index;
use crate::parser::ast::lemma_expr_views_len;
use crate::parser::ast::lemma_exprs_size_at;
use crate::parser::ast::lemma_pair_views_index;
use crate::parser::ast::lemma_pairs_size_at;
use crate::parser::ast::lemma_pair_views_len;
use crate::parser::ast::literal_size;
use crate::parser::ast::pair_views;
use crate::parser::ast::pairs_size;
use crate::parser::ast::param_views;
use crate::parser::ast::stmt_size;
use builtins::apply_builtin;
use builtins::builtin_apply;
pub use object::Environment;
use object::Builtin;
use object::EnvV;
use object::ObjV;
use object::Object;
use object::env_lookup;
use object::hash_get;
use object::hash_get_v;
use object::hash_insert;
use object::hash_insert_v;
use object::is_hashable;
use object::obj_display;
use object::lemma_objs_view_index;
use object::lemma_objs_view_len;
use object::obj_pairs_view;
use object::objs_view;
use vstd::prelude::*;

verus! {

broadcast use vstd::seq::group_seq_axioms, vstd::std_specs::vec::group_vec_axioms, crate::parser::ast::group_ast_sizes;

/// Truthiness: the null value and false are falsy, every other value is
/// truthy.
pub open spec fn is_truthy_v(o: ObjV) -> bool {
    match o {
        ObjV::Null => false,
        ObjV::Boolean(x) => x,
        _ => true,
    }
}

/// Whether a value is an error value.
pub open spec fn is_error_v(o: ObjV) -> bool {
    o matches ObjV::Error(_)
}

/// What an integer infix operation yields: arithmetic (with truncating
/// division) where the result fits the 64-bit range, comparisons as
/// booleans, and error values for division by zero or overflow.
pub open spec fn integer_infix_v(x: i64, op: Infix, y: i64) -> ObjV {
    match op {
        Infix::Plus => match x.checked_add(y) {
            Some(v) => ObjV::Integer(v),
            None => ObjV::Error("integer overflow"@),
        },
        Infix::Minus => match x.checked_sub(y) {
            Some(v) => ObjV::Integer(v),
            None => ObjV::Error("integer overflow"@),
        },
        Infix::Multiply => match x.checked_mul(y) {
            Some(v) => ObjV::Integer(v),
            None => ObjV::Error("integer overflow"@),
        },
        Infix::Divide => if y == 0 {
            ObjV::Error("division by zero"@)
        } else {
            match x.checked_div(y) {
                Some(v) => ObjV::Integer(v),
                None => ObjV::Error("integer overflow"@),
            }
        },
        Infix::Equal => ObjV::Boolean(x == y),
        Infix::NotEqual => ObjV::Boolean(x != y),
        Infix::LT => ObjV::Boolean(x < y),
        Infix::GT => ObjV::Boolean(x > y),
        _ => ObjV::Null,
    }
}

/// What a boolean infix operation yields: only equality and inequality are
/// defined, every arithmetic or ordering operator is an unknown operator.
pub open spec fn boolean_infix_v(x: bool, op: Infix, y: bool) -> ObjV {
    match op {
        Infix::Equal => ObjV::Boolean(x == y),
        Infix::NotEqual => ObjV::Boolean(x != y),
        Infix::Call => ObjV::Error("uncallable"@),
        Infix::Index => ObjV::Error("not indexable"@),
        _ => ObjV::Error("unknown operator"@),
    }
}

/// What a string infix operation yields: concatenation, equality and
/// inequality; everything else is an unknown operator.
pub open spec fn string_infix_v(x: Seq<char>, op: Infix, y: Seq<char>) -> ObjV {
    match op {
        Infix::Equal => ObjV::Boolean(x == y),
        Infix::NotEqual => ObjV::Boolean(x != y),
        Infix::Plus => ObjV::Str(x + y),
        Infix::Call => ObjV::Error("uncallable"@),
        _ => ObjV::Error("unknown operator"@),
    }
}

/// Infix dispatch over the runtime types of the two operands: integer,
/// boolean and string pairs are each defined; any other pairing is a type
/// mismatch.
pub open spec fn infix_result_v(l: ObjV, op: Infix, r: ObjV) -> ObjV {
    match (l, r) {
        (ObjV::Integer(x), ObjV::Integer(y)) => integer_infix_v(x, op, y),
        (ObjV::Boolean(x), ObjV::Boolean(y)) => boolean_infix_v(x, op, y),
        (ObjV::Str(x), ObjV::Str(y)) => string_infix_v(x, op, y),
        _ => ObjV::Error("type mismatch"@),
    }
}

/// Array indexing: an index outside the bounds (negative or at least the
/// length) yields the null value, not an error.
pub open spec fn array_index_v(es: Seq<ObjV>, idx: i64) -> ObjV {
    if 0 <= idx < es.len() {
        es[idx as int]
    } else {
        ObjV::Null
    }
}

/// The built-in function a name refers to, if any. Built-in names take
/// precedence over environment bindings.
pub open spec fn builtin_lookup(name: Seq<char>) -> Option<Builtin> {
    if name == "len"@ {
        Some(Builtin::Len)
    } else if name == "first"@ {
        Some(Builtin::First)
    } else if name == "last"@ {
        Some(Builtin::Last)
    } else if name == "rest"@ {
        Some(Builtin::Rest)
    } else if name == "push"@ {
        Some(Builtin::Push)
    } else if name == "puts"@ {
        Some(Builtin::Puts)
    } else {
        None
    }
}

/// What an identifier evaluates to: a built-in where the name is one, else
/// the bound value, else an unknown-identifier error.
pub open spec fn ident_value_v(name: Seq<char>, env: EnvV) -> ObjV {
    match builtin_lookup(name) {
        Some(k) => ObjV::Builtin(k),
        None => match env_lookup(env, name) {
            Some(o) => o,
            None => ObjV::Error("unknown identifier: "@ + name),
        },
    }
}

/// The captured environment extended by binding each parameter to the
/// corresponding argument, left to right.
pub open spec fn bind_params(cenv: EnvV, ps: Seq<Seq<char>>, vals: Seq<ObjV>) -> EnvV
    decreases ps.len(),
{
    if ps.len() == 0 || vals.len() == 0 {
        cenv
    } else {
        bind_params(cenv.push((ps.first(), vals.first())), ps.drop_first(), vals.drop_first())
    }
}

/// Extending the bound lists on the right extends the result on the right.
pub proof fn lemma_bind_params_push(cenv: EnvV, ps: Seq<Seq<char>>, vals: Seq<ObjV>, p: Seq<char>, v: ObjV)
    requires
        ps.len() == vals.len(),
    ensures
        bind_params(cenv, ps.push(p), vals.push(v)) == bind_params(cenv, ps, vals).push((p, v)),
    decreases ps.len(),
{
    if ps.len() == 0 {
        assert(ps.push(p).drop_first() =~= ps);
        assert(vals.push(v).drop_first() =~= vals);
        assert(bind_params(cenv, ps.push(p), vals.push(v)) == bind_params(
            cenv.push((p, v)),
            ps,
            vals,
        ));
    } else {
        assert(ps.push(p).drop_first() =~= ps.drop_first().push(p));
        assert(vals.push(v).drop_first() =~= vals.drop_first().push(v));
        assert(ps.push(p).first() == ps.first());
        assert(vals.push(v).first() == vals.first());
        lemma_bind_params_push(
            cenv.push((ps.first(), vals.first())),
            ps.drop_first(),
            vals.drop_first(),
            p,
            v,
        );
    }
}

/// What a statement evaluates to, with the environment it leaves behind.
pub open spec fn eval_stmt_v(s: StmtV, env: EnvV, fuel: nat) -> (ObjV, EnvV)
    decreases fuel, stmt_size(s), 2int,
{
    match s {
        StmtV::LetStmt(name, e) => eval_let_v(name, e, env, fuel),
        StmtV::ReturnStmt(e) => eval_return_v(e, env, fuel),
        StmtV::ExprStmt(e) => eval_expr_v(e, env, fuel),
    }
}

/// A let statement binds the evaluated value and itself yields null; an
/// error in the bound expression propagates without binding.
pub open spec fn eval_let_v(name: Seq<char>, e: ExprV, env: EnvV, fuel: nat) -> (ObjV, EnvV)
    decreases fuel, expr_size(e), 1int,
{
    let (v, env1) = eval_expr_v(e, env, fuel);
    if is_error_v(v) {
        (v, env1)
    } else {
        (ObjV::Null, env1.push((name, v)))
    }
}

/// A return statement wraps its value in the returning marker; an error
/// propagates unwrapped.
pub open spec fn eval_return_v(e: ExprV, env: EnvV, fuel: nat) -> (ObjV, EnvV)
    decreases fuel, expr_size(e), 1int,
{
    let (v, env1) = eval_expr_v(e, env, fuel);
    if is_error_v(v) {
        (v, env1)
    } else {
        (ObjV::Ret(Box::new(v)), env1)
    }
}

/// What an expression evaluates to, with the environment it leaves behind.
pub open spec fn eval_expr_v(e: ExprV, env: EnvV, fuel: nat) -> (ObjV, EnvV)
    decreases fuel, expr_size(e), 0int,
{
    match e {
        ExprV::LiteralExpr(l) => eval_literal_v(l, env, fuel),
        ExprV::Prefix(p, inner) => eval_prefix_v(p, *inner, env, fuel),
        ExprV::Infix(l, op, r) => eval_infix_v(*l, op, *r, env, fuel),
        ExprV::If(c, cons, alt) => eval_if_v(*c, cons, alt, env, fuel),
        ExprV::IdentExpr(name) => (ident_value_v(name, env), env),
        ExprV::Fn(ps, b) => (ObjV::Closure(ps, b, env), env),
        ExprV::Call(f, args) => eval_call_v(*f, args, env, fuel),
        ExprV::Array(es) => eval_array_v(es, env, fuel),
        ExprV::IndexExpr(a, i) => eval_index_v(*a, *i, env, fuel),
    }
}

/// Literals evaluate to the corresponding value; a hash literal evaluates
/// its pairs in order.
pub open spec fn eval_literal_v(l: LiteralV, env: EnvV, fuel: nat) -> (ObjV, EnvV)
    decreases fuel, literal_size(l), 1int,
{
    match l {
        LiteralV::Int(x) => (ObjV::Integer(x), env),
        LiteralV::Bool(b) => (ObjV::Boolean(b), env),
        LiteralV::Str(s) => (ObjV::Str(s), env),
        LiteralV::Hash(ps) => eval_hash_pairs_v(ps, 0, Seq::empty(), env, fuel),
    }
}

/// Evaluates the key/value pairs of a hash literal from position `i` on:
/// each key must evaluate to a hashable value; a later duplicate key
/// overwrites the earlier entry; errors propagate immediately.
pub open spec fn eval_hash_pairs_v(
    ps: Seq<(ExprV, ExprV)>,
    i: int,
    acc: Seq<(ObjV, ObjV)>,
    env: EnvV,
    fuel: nat,
) -> (ObjV, EnvV)
    decreases fuel, pairs_size(ps, i), 1int,
{
    if i < 0 || i >= ps.len() {
        (ObjV::Hash(acc), env)
    } else {
        let (k, env1) = eval_expr_v(ps[i].0, env, fuel);
        if is_error_v(k) {
            (k, env1)
        } else if !is_hashable(k) {
            (ObjV::Error("invalid key object for hash"@), env1)
        } else {
            let (v, env2) = eval_expr_v(ps[i].1, env1, fuel);
            if is_error_v(v) {
                (v, env2)
            } else {
                eval_hash_pairs_v(ps, i + 1, hash_insert_v(acc, k, v), env2, fuel)
            }
        }
    }
}

/// Prefix operators: minus negates integers only, bang negates truthiness,
/// plus is the identity; an error in the operand propagates.
pub open spec fn eval_prefix_v(p: Prefix, e: ExprV, env: EnvV, fuel: nat) -> (ObjV, EnvV)
    decreases fuel, expr_size(e), 1int,
{
    let (v, env1) = eval_expr_v(e, env, fuel);
    if is_error_v(v) {
        (v, env1)
    } else {
        match p {
            Prefix::Minus => (
                match v {
                    ObjV::Integer(x) => if x == i64::MIN {
                        ObjV::Error("integer overflow"@)
                    } else {
                        ObjV::Integer((-x) as i64)
                    },
                    _ => ObjV::Error("unknown operator"@),
                },
                env1,
            ),
            Prefix::Plus => (v, env1),
            Prefix::Not => (
                ObjV::Boolean(
                    match v {
                        ObjV::Boolean(b) => !b,
                        ObjV::Null => true,
                        _ => false,
                    },
                ),
                env1,
            ),
        }
    }
}

/// Infix expressions evaluate the left operand, then the right, propagating
/// the first error, then dispatch on the runtime type pair.
pub open spec fn eval_infix_v(l: ExprV, op: Infix, r: ExprV, env: EnvV, fuel: nat) -> (ObjV, EnvV)
    decreases fuel, expr_size(l) + expr_size(r), 1int,
{
    let (lv, env1) = eval_expr_v(l, env, fuel);
    if is_error_v(lv) {
        (lv, env1)
    } else {
        let (rv, env2) = eval_expr_v(r, env1, fuel);
        if is_error_v(rv) {
            (rv, env2)
        } else {
            (infix_result_v(lv, op, rv), env2)
        }
    }
}

/// Conditionals: a truthy condition selects the consequence block, else the
/// alternative if present, else null; an error in the condition propagates.
pub open spec fn eval_if_v(
    c: ExprV,
    cons: Seq<StmtV>,
    alt: Option<Seq<StmtV>>,
    env: EnvV,
    fuel: nat,
) -> (ObjV, EnvV)
    decreases fuel, expr_size(c) + block_size(cons, 0) + (match alt {
        Some(a) => block_size(a, 0),
        None => 0,
    }), 1int,
{
    let (cv, env1) = eval_expr_v(c, env, fuel);
    if is_error_v(cv) {
        (cv, env1)
    } else if is_truthy_v(cv) {
        eval_block_v(cons, 0, ObjV::Null, env1, fuel)
    } else {
        match alt {
            Some(a) => eval_block_v(a, 0, ObjV::Null, env1, fuel),
            None => (ObjV::Null, env1),
        }
    }
}

/// Block evaluation from position `i` on: statements run in order; a
/// returning or error value stops the block at once and propagates.
pub open spec fn eval_block_v(b: Seq<StmtV>, i: int, acc: ObjV, env: EnvV, fuel: nat) -> (
    ObjV,
    EnvV,
)
    decreases fuel, block_size(b, i), 3int,
    via eval_block_v_dec
{
    if i < 0 || i >= b.len() {
        (acc, env)
    } else {
        let (v, env1) = eval_stmt_v(b[i], env, fuel);
        match v {
            ObjV::Ret(_) => (v, env1),
            ObjV::Error(_) => (v, env1),
            _ => eval_block_v(b, i + 1, v, env1, fuel),
        }
    }
}

#[via_fn]
proof fn eval_block_v_dec(b: Seq<StmtV>, i: int, acc: ObjV, env: EnvV, fuel: nat) {
    if 0 <= i < b.len() {
        crate::parser::ast::lemma_stmt_size_pos(b[i]);
    }
}

/// A returning wrapper stripped to its inner value; any other value is
/// left alone. This is what a call site does to its body's result.
pub open spec fn unwrap_return_v(o: ObjV) -> ObjV {
    match o {
        ObjV::Ret(x) => *x,
        _ => o,
    }
}

/// Call evaluation: the callee evaluates first, then the arguments left to
/// right (stopping at the first error). A built-in dispatches natively; a
/// closure requires the argument count to equal the parameter count and
/// runs its body in a fresh scope extending the captured environment; one
/// unit of fuel is spent entering the body, and the call site strips the
/// returning wrapper from the body's result, yielding the value the call
/// expression evaluates to. Anything else is not callable.
pub open spec fn eval_call_v(f: ExprV, args: Seq<ExprV>, env: EnvV, fuel: nat) -> (ObjV, EnvV)
    decreases fuel, expr_size(f) + exprs_size(args, 0), 1int,
{
    let (fv, env1) = eval_expr_v(f, env, fuel);
    if is_error_v(fv) {
        (fv, env1)
    } else {
        match fv {
            ObjV::Builtin(k) => {
                let (argsr, env2) = eval_exprs_v(args, 0, Seq::empty(), env1, fuel);
                match argsr {
                    Ok(vals) => (builtin_apply(k, vals), env2),
                    Err(e) => (e, env2),
                }
            },
            ObjV::Closure(ps, body, cenv) => {
                let (argsr, env2) = eval_exprs_v(args, 0, Seq::empty(), env1, fuel);
                match argsr {
                    Ok(vals) => if vals.len() != ps.len() {
                        (ObjV::Error("wrong number of arguments"@), env2)
                    } else if fuel == 0 {
                        (ObjV::Error("evaluation depth limit reached"@), env2)
                    } else {
                        (
                            unwrap_return_v(
                                eval_block_v(
                                    body,
                                    0,
                                    ObjV::Null,
                                    bind_params(cenv, ps, vals),
                                    (fuel - 1) as nat,
                                ).0,
                            ),
                            env2,
                        )
                    },
                    Err(e) => (e, env2),
                }
            },
            _ => (ObjV::Error("Not callable: "@ + obj_display(fv)), env1),
        }
    }
}

/// Evaluates a list of expressions from position `i` on, stopping at the
/// first error.
pub open spec fn eval_exprs_v(
    es: Seq<ExprV>,
    i: int,
    acc: Seq<ObjV>,
    env: EnvV,
    fuel: nat,
) -> (Result<Seq<ObjV>, ObjV>, EnvV)
    decreases fuel, exprs_size(es, i), 2int,
    via eval_exprs_v_dec
{
    if i < 0 || i >= es.len() {
        (Ok(acc), env)
    } else {
        let (v, env1) = eval_expr_v(es[i], env, fuel);
        if is_error_v(v) {
            (Err(v), env1)
        } else {
            eval_exprs_v(es, i + 1, acc.push(v), env1, fuel)
        }
    }
}

#[via_fn]
proof fn eval_exprs_v_dec(es: Seq<ExprV>, i: int, acc: Seq<ObjV>, env: EnvV, fuel: nat) {
    if 0 <= i < es.len() {
        crate::parser::ast::lemma_expr_size_pos(es[i]);
    }
}

/// Array literals evaluate each element in order, stopping at the first
/// error.
pub open spec fn eval_array_v(es: Seq<ExprV>, env: EnvV, fuel: nat) -> (ObjV, EnvV)
    decreases fuel, exprs_size(es, 0), 3int,
{
    let (r, env1) = eval_exprs_v(es, 0, Seq::empty(), env, fuel);
    match r {
        Ok(vals) => (ObjV::Array(vals), env1),
        Err(e) => (e, env1),
    }
}

/// Index expressions: array indexing requires an integer index and yields
/// null out of range; hash indexing requires a hashable key and yields an
/// error for an unusable or absent key; anything else is not indexable.
pub open spec fn eval_index_v(a: ExprV, idx: ExprV, env: EnvV, fuel: nat) -> (ObjV, EnvV)
    decreases fuel, expr_size(a) + expr_size(idx), 1int,
{
    let (av, env1) = eval_expr_v(a, env, fuel);
    if is_error_v(av) {
        (av, env1)
    } else {
        match av {
            ObjV::Array(es) => {
                let (iv, env2) = eval_expr_v(idx, env1, fuel);
                if is_error_v(iv) {
                    (iv, env2)
                } else {
                    match iv {
                        ObjV::Integer(x) => (array_index_v(es, x), env2),
                        _ => (ObjV::Error("Index is not an integer"@), env2),
                    }
                }
            },
            ObjV::Hash(ps) => {
                let (iv, env2) = eval_expr_v(idx, env1, fuel);
                if is_error_v(iv) {
                    (iv, env2)
                } else if !is_hashable(iv) {
                    (ObjV::Error("unusable as hash key"@), env2)
                } else {
                    match hash_get_v(ps, iv) {
                        Some(o) => (o, env2),
                        None => (ObjV::Error("Not found in map"@), env2),
                    }
                }
            },
            _ => (ObjV::Error("Object is not indexable"@), env1),
        }
    }
}

/// Program evaluation: statements run in order; an error stops the program;
/// a returning value stops it and is unwrapped to its inner value.
pub open spec fn eval_program_v(b: Seq<StmtV>, i: int, acc: ObjV, env: EnvV, fuel: nat) -> (
    ObjV,
    EnvV,
)
    decreases fuel, block_size(b, i), 3int,
    via eval_program_v_dec
{
    if i < 0 || i >= b.len() {
        (acc, env)
    } else {
        let (v, env1) = eval_stmt_v(b[i], env, fuel);
        match v {
            ObjV::Ret(inner) => (*inner, env1),
            ObjV::Error(_) => (v, env1),
            _ => eval_program_v(b, i + 1, v, env1, fuel),
        }
    }
}

#[via_fn]
proof fn eval_program_v_dec(b: Seq<StmtV>, i: int, acc: ObjV, env: EnvV, fuel: nat) {
    if 0 <= i < b.len() {
        crate::parser::ast::lemma_stmt_size_pos(b[i]);
    }
}

/// Evaluates one statement.
pub fn evaluate_statement(statement: &Stmt, env: &mut Environment, fuel: u64) -> (r: Object)
    ensures
        ({
            let (v, e2) = eval_stmt_v(statement.deep_view(), old(env).deep_view(), fuel as nat);
            r.deep_view() == v && final(env).deep_view() == e2
        }),
    decreases fuel, stmt_size(statement.deep_view()), 2int,
{
    match statement {
        Stmt::LetStmt(ident, expr) => evaluate_let(ident, expr, env, fuel),
        Stmt::ReturnStmt(expr) => evaluate_return(expr, env, fuel),
        Stmt::ExprStmt(expr) => evaluate_expression(expr, env, fuel),
    }
}

/// Evaluates a let statement: binds the value and yields null, or
/// propagates an error without binding.
pub fn evaluate_let(ident: &Ident, expr: &Expr, env: &mut Environment, fuel: u64) -> (r: Object)
    ensures
        ({
            let (v, e2) = eval_let_v(
                ident.deep_view(),
                expr.deep_view(),
                old(env).deep_view(),
                fuel as nat,
            );
            r.deep_view() == v && final(env).deep_view() == e2
        }),
    decreases fuel, expr_size(expr.deep_view()), 1int,
{
    let r = evaluate_expression(expr, env, fuel);
    if is_error(&r) {
        return r;
    }
    env.insert(ident.clone(), r);
    Object::Null
}

/// Evaluates a return statement: wraps the value in the returning marker,
/// or propagates an error unwrapped.
pub fn evaluate_return(expr: &Expr, env: &mut Environment, fuel: u64) -> (r: Object)
    ensures
        ({
            let (v, e2) = eval_return_v(expr.deep_view(), old(env).deep_view(), fuel as nat);
            r.deep_view() == v && final(env).deep_view() == e2
        }),
    decreases fuel, expr_size(expr.deep_view()), 1int,
{
    let r = evaluate_expression(expr, env, fuel);
    if is_error(&r) {
        return r;
    }
    Object::Ret(Box::new(r))
}

/// Evaluates one expression.
pub fn evaluate_expression(expression: &Expr, env: &mut Environment, fuel: u64) -> (r: Object)
    ensures
        ({
            let (v, e2) = eval_expr_v(expression.deep_view(), old(env).deep_view(), fuel as nat);
            r.deep_view() == v && final(env).deep_view() == e2
        }),
    decreases fuel, expr_size(expression.deep_view()), 0int,
{
    match expression {
        Expr::LiteralExpr(literal) => evaluate_literal(literal, env, fuel),
        Expr::Prefix(prefix, expr) => evaluate_prefix(prefix, expr, env, fuel),
        Expr::Infix(left, infix, right) => evaluate_infix(left, infix, right, env, fuel),
        Expr::If(condition, consequence, alternative) => evaluate_if(
            condition,
            consequence,
            alternative,
            env,
            fuel,
        ),
        Expr::IdentExpr(ident) => evaluate_ident(ident, env),
        Expr::Fn(params, block) => evaluate_closure(params, block, env),
        Expr::Call(ident, args) => evaluate_call(ident, args, env, fuel),
        Expr::Array(exprs) => evaluate_array(exprs, env, fuel),
        Expr::IndexExpr(arr, index) => evaluate_index(arr, index, env, fuel),
    }
}

/// Evaluates an index expression.
fn evaluate_index(arr: &Expr, index: &Expr, env: &mut Environment, fuel: u64) -> (r: Object)
    ensures
        ({
            let (v, e2) = eval_index_v(
                arr.deep_view(),
                index.deep_view(),
                old(env).deep_view(),
                fuel as nat,
            );
            r.deep_view() == v && final(env).deep_view() == e2
        }),
    decreases fuel, expr_size(arr.deep_view()) + expr_size(index.deep_view()), 1int,
{
    let base = evaluate_expression(arr, env, fuel);
    if is_error(&base) {
        return base;
    }
    match base {
        Object::Array(a) => {
            let idx = evaluate_expression(index, env, fuel);
            if is_error(&idx) {
                return idx;
            }
            match idx {
                Object::Integer(x) => evaluate_array_index(&a, x),
                _ => Object::Error("Index is not an integer".to_owned()),
            }
        },
        Object::Hash(h) => {
            let idx = evaluate_expression(index, env, fuel);
            if is_error(&idx) {
                return idx;
            }
            if !idx.hashable() {
                return Object::Error("unusable as hash key".to_owned());
            }
            match hash_get(&h, &idx) {
                Some(o) => o.clone(),
                None => Object::Error("Not found in map".to_owned()),
            }
        },
        _ => Object::Error("Object is not indexable".to_owned()),
    }
}

/// Fetches one array element: a negative or too-large index yields null,
/// not an error.
fn evaluate_array_index(arr: &Vec<Object>, idx: i64) -> (r: Object)
    ensures
        r.deep_view() == array_index_v(objs_view(arr@), idx),
{
    proof {
        lemma_objs_view_len(arr@);
    }
    if idx < 0 || idx as u64 >= arr.len() as u64 {
        Object::Null
    } else {
        proof {
            lemma_objs_view_index(arr@, idx as int);
        }
        arr[idx as usize].clone()
    }
}

/// Evaluates an array literal.
fn evaluate_array(exprs: &Vec<Expr>, env: &mut Environment, fuel: u64) -> (r: Object)
    ensures
        ({
            let (v, e2) = eval_array_v(expr_views(exprs@), old(env).deep_view(), fuel as nat);
            r.deep_view() == v && final(env).deep_view() == e2
        }),
    decreases fuel, exprs_size(expr_views(exprs@), 0), 3int,
{
    let mut vals = evaluate_expressions(exprs, env, fuel);
    if vals.len() == 1 {
        let head_is_error = is_error(&vals[0]);
        if head_is_error {
            match vals.pop() {
                Some(e) => {
                    return e;
                },
                None => {},
            }
        }
    }
    proof {
        lemma_objs_view_len(vals@);
        assert forall|j: int| 0 <= j < vals@.len() implies objs_view(vals@)[j]
            == vals.deep_view()[j] by {
            lemma_objs_view_index(vals@, j);
        }
        assert(objs_view(vals@) =~= vals.deep_view());
    }
    Object::Array(vals)
}

/// Truthiness of a value: null and false are falsy, all else truthy.
pub fn is_truthy(obj: Object) -> (r: bool)
    ensures
        r == is_truthy_v(obj.deep_view()),
{
    match obj {
        Object::Null => false,
        Object::Boolean(x) => x,
        _ => true,
    }
}

/// Whether a value is an error value.
fn is_error(obj: &Object) -> (r: bool)
    ensures
        r == is_error_v(obj.deep_view()),
{
    match obj {
        Object::Error(_) => true,
        _ => false,
    }
}

/// Evaluates a call expression.
pub fn evaluate_call(expr: &Expr, args: &Args, env: &mut Environment, fuel: u64) -> (r: Object)
    ensures
        ({
            let (v, e2) = eval_call_v(
                expr.deep_view(),
                expr_views(args@),
                old(env).deep_view(),
                fuel as nat,
            );
            r.deep_view() == v && final(env).deep_view() == e2
        }),
    decreases fuel, expr_size(expr.deep_view()) + exprs_size(expr_views(args@), 0), 1int,
{
    let function = evaluate_expression(expr, env, fuel);
    if is_error(&function) {
        return function;
    }
    match function {
        Object::Builtin(name) => {
            let mut argvals = evaluate_expressions(args, env, fuel);
            if argvals.len() == 1 {
                let head_is_error = is_error(&argvals[0]);
                if head_is_error {
                    match argvals.pop() {
                        Some(e) => {
                            return e;
                        },
                        None => {},
                    }
                }
            }
            proof {
                lemma_objs_view_len(argvals@);
                assert forall|j: int| 0 <= j < argvals@.len() implies objs_view(argvals@)[j]
                    == argvals.deep_view()[j] by {
                    lemma_objs_view_index(argvals@, j);
                }
                assert(argvals.deep_view() =~= objs_view(argvals@));
            }
            apply_builtin(name, argvals)
        },
        Object::Closure(params, block, cenv) => {
            let mut argvals = evaluate_expressions(args, env, fuel);
            if argvals.len() == 1 {
                let head_is_error = is_error(&argvals[0]);
                if head_is_error {
                    match argvals.pop() {
                        Some(e) => {
                            return e;
                        },
                        None => {},
                    }
                }
            }
            if argvals.len() != params.len() {
                return Object::Error("wrong number of arguments".to_owned());
            }
            if fuel == 0 {
                return Object::Error("evaluation depth limit reached".to_owned());
            }
            let ghost cenvv = cenv.deep_view();
            let ghost psv = param_views(params@);
            let ghost valsv = argvals.deep_view();
            let mut enclosed = cenv;
            let mut param_idx: usize = 0;
            while param_idx < params.len()
                invariant
                    param_idx <= params@.len(),
                    params@.len() == argvals@.len(),
                    psv == param_views(params@),
                    valsv == argvals.deep_view(),
                    psv.len() == params@.len(),
                    valsv.len() == argvals@.len(),
                    enclosed.deep_view() == bind_params(
                        cenvv,
                        psv.take(param_idx as int),
                        valsv.take(param_idx as int),
                    ),
                decreases params@.len() - param_idx,
            {
                let name = params[param_idx].clone();
                let value = argvals[param_idx].clone();
                proof {
                    assert(psv.take(param_idx + 1) =~= psv.take(param_idx as int).push(
                        psv[param_idx as int],
                    ));
                    assert(valsv.take(param_idx + 1) =~= valsv.take(param_idx as int).push(
                        valsv[param_idx as int],
                    ));
                    lemma_bind_params_push(
                        cenvv,
                        psv.take(param_idx as int),
                        valsv.take(param_idx as int),
                        psv[param_idx as int],
                        valsv[param_idx as int],
                    );
                    assert(name.deep_view() == psv[param_idx as int]);
                    assert(value.deep_view() == valsv[param_idx as int]);
                }
                enclosed.insert(name, value);
                param_idx = param_idx + 1;
            }
            proof {
                assert(psv.take(psv.len() as int) =~= psv);
                assert(valsv.take(valsv.len() as int) =~= valsv);
            }
            let body_result = evaluate_block(&block, &mut enclosed, fuel - 1);
            match body_result {
                Object::Ret(x) => *x,
                other => other,
            }
        },
        _ => {
            let text = function.display_text();
            let mut msg = String::from_str("Not callable: ");
            msg.append(text.as_str());
            Object::Error(msg)
        },
    }
}

/// Evaluates a list of expressions left to right. On the first error the
/// result collapses to a list holding only that error value.
pub fn evaluate_expressions(expressions: &Vec<Expr>, env: &mut Environment, fuel: u64) -> (r: Vec<
    Object,
>)
    ensures
        ({
            let (res, e2) = eval_exprs_v(
                expr_views(expressions@),
                0,
                Seq::empty(),
                old(env).deep_view(),
                fuel as nat,
            );
            final(env).deep_view() == e2 && match res {
                Ok(vals) => r@.len() == vals.len() && r.deep_view() == vals && (vals.len() > 0
                    ==> !is_error_v(r@[0].deep_view())),
                Err(e) => r@.len() == 1 && r.deep_view() == seq![e] && is_error_v(e) && r@[
                    0
                ].deep_view() == e,
            }
        }),
    decreases fuel, exprs_size(expr_views(expressions@), 0), 2int,
{
    let ghost esv = expr_views(expressions@);
    proof {
        lemma_expr_views_len(expressions@);
    }
    let mut output: Vec<Object> = Vec::new();
    proof {
        assert(output.deep_view() =~= Seq::<ObjV>::empty());
    }
    let mut i: usize = 0;
    while i < expressions.len()
        invariant
            i <= expressions@.len(),
            esv == expr_views(expressions@),
            esv.len() == expressions@.len(),
            output.deep_view().len() == i,
            output@.len() == i,
            forall|j: int| 0 <= j < i ==> !is_error_v(#[trigger] output.deep_view()[j]),
            eval_exprs_v(esv, 0, Seq::empty(), old(env).deep_view(), fuel as nat) == eval_exprs_v(
                esv,
                i as int,
                output.deep_view(),
                env.deep_view(),
                fuel as nat,
            ),
        decreases expressions@.len() - i,
    {
        proof {
            lemma_expr_views_index(expressions@, i as int);
            lemma_exprs_size_at(esv, 0, i as int);
        }
        let exp = evaluate_expression(&expressions[i], env, fuel);
        if is_error(&exp) {
            let mut only: Vec<Object> = Vec::new();
            only.push(exp);
            proof {
                assert(only.deep_view() =~= seq![only@[0].deep_view()]);
                assert(only@[0].deep_view() == only.deep_view()[0]);
            }
            return only;
        }
        let ghost pre = output.deep_view();
        output.push(exp);
        proof {
            assert(output.deep_view() =~= pre.push(output@.last().deep_view()));
        }
        i = i + 1;
    }
    proof {
        if i > 0 {
            assert(!is_error_v(output.deep_view()[0]));
            assert(output@[0].deep_view() == output.deep_view()[0]);
        }
    }
    output
}

/// Builds a closure value capturing the current environment by value: later
/// changes to the scope are not observed by the closure.
pub fn evaluate_closure(params: &Params, block: &Block, env: &Environment) -> (r: Object)
    ensures
        r.deep_view() == ObjV::Closure(param_views(params@), block_view(block@), env.deep_view()),
{
    Object::Closure(clone_params(params), clone_block(block), env.clone())
}

/// Evaluates a conditional.
pub fn evaluate_if(
    condition: &Expr,
    consequence: &Block,
    alternative: &Option<Block>,
    env: &mut Environment,
    fuel: u64,
) -> (r: Object)
    ensures
        ({
            let (v, e2) = eval_if_v(
                condition.deep_view(),
                block_view(consequence@),
                match alternative {
                    Some(a) => Some(block_view(a@)),
                    None => None,
                },
                old(env).deep_view(),
                fuel as nat,
            );
            r.deep_view() == v && final(env).deep_view() == e2
        }),
    decreases fuel, expr_size(condition.deep_view()) + block_size(block_view(consequence@), 0) + (
    match alternative {
        Some(a) => block_size(block_view(a@), 0),
        None => 0,
    }), 1int,
{
    let c = evaluate_expression(condition, env, fuel);
    if is_error(&c) {
        return c;
    }
    if is_truthy(c) {
        evaluate_block(consequence, env, fuel)
    } else {
        match alternative {
            Some(alt) => evaluate_block(alt, env, fuel),
            None => Object::Null,
        }
    }
}

/// Evaluates an infix expression: both operands evaluate eagerly, left
/// before right, the first error propagates, then the operation dispatches
/// on the runtime type pair.
pub fn evaluate_infix(left: &Expr, infix: &Infix, right: &Expr, env: &mut Environment, fuel: u64) -> (r: Object)
    ensures
        ({
            let (v, e2) = eval_infix_v(
                left.deep_view(),
                *infix,
                right.deep_view(),
                old(env).deep_view(),
                fuel as nat,
            );
            r.deep_view() == v && final(env).deep_view() == e2
        }),
    decreases fuel, expr_size(left.deep_view()) + expr_size(right.deep_view()), 1int,
{
    let leftobj = evaluate_expression(left, env, fuel);
    if is_error(&leftobj) {
        return leftobj;
    }
    let rightobj = evaluate_expression(right, env, fuel);
    if is_error(&rightobj) {
        return rightobj;
    }
    match (leftobj, rightobj) {
        (Object::Integer(x), Object::Integer(y)) => evaluate_integer_infix(x, infix, y),
        (Object::Boolean(x), Object::Boolean(y)) => evaluate_boolean_infix(x, infix, y),
        (Object::Str(x), Object::Str(y)) => evaluate_string_infix(&x, infix, &y),
        _ => Object::Error("type mismatch".to_owned()),
    }
}

/// The boolean infix operations.
pub fn evaluate_boolean_infix(left: bool, infix: &Infix, right: bool) -> (r: Object)
    ensures
        r.deep_view() == boolean_infix_v(left, *infix, right),
{
    match infix {
        Infix::Equal => Object::Boolean(left == right),
        Infix::NotEqual => Object::Boolean(left != right),
        Infix::Call => Object::Error("uncallable".to_owned()),
        Infix::Index => Object::Error("not indexable".to_owned()),
        _ => Object::Error("unknown operator".to_owned()),
    }
}

/// The string infix operations: concatenation and (in)equality.
pub fn evaluate_string_infix(left: &String, infix: &Infix, right: &String) -> (r: Object)
    ensures
        r.deep_view() == string_infix_v(left@, *infix, right@),
{
    match infix {
        Infix::Equal => Object::Boolean(*left == *right),
        Infix::NotEqual => Object::Boolean(!(*left == *right)),
        Infix::Plus => {
            let mut s = left.clone();
            s.append(right.as_str());
            Object::Str(s)
        },
        Infix::Call => Object::Error("uncallable".to_owned()),
        _ => Object::Error("unknown operator".to_owned()),
    }
}

/// The integer infix operations: truncating arithmetic with overflow and
/// division-by-zero errors, and comparisons.
pub fn evaluate_integer_infix(left: i64, infix: &Infix, right: i64) -> (r: Object)
    ensures
        r.deep_view() == integer_infix_v(left, *infix, right),
{
    match infix {
        Infix::Plus => match left.checked_add(right) {
            Some(v) => Object::Integer(v),
            None => Object::Error("integer overflow".to_owned()),
        },
        Infix::Minus => match left.checked_sub(right) {
            Some(v) => Object::Integer(v),
            None => Object::Error("integer overflow".to_owned()),
        },
        Infix::Multiply => match left.checked_mul(right) {
            Some(v) => Object::Integer(v),
            None => Object::Error("integer overflow".to_owned()),
        },
        Infix::Divide => {
            if right == 0 {
                Object::Error("division by zero".to_owned())
            } else {
                match left.checked_div(right) {
                    Some(v) => Object::Integer(v),
                    None => Object::Error("integer overflow".to_owned()),
                }
            }
        },
        Infix::Equal => Object::Boolean(left == right),
        Infix::NotEqual => Object::Boolean(left != right),
        Infix::LT => Object::Boolean(left < right),
        Infix::GT => Object::Boolean(left > right),
        _ => Object::Null,
    }
}

/// Evaluates a literal.
pub fn evaluate_literal(literal: &Literal, env: &mut Environment, fuel: u64) -> (r: Object)
    ensures
        ({
            let (v, e2) = eval_literal_v(literal.deep_view(), old(env).deep_view(), fuel as nat);
            r.deep_view() == v && final(env).deep_view() == e2
        }),
    decreases fuel, literal_size(literal.deep_view()), 1int,
{
    match literal {
        Literal::Bool(x) => Object::Boolean(*x),
        Literal::Int(x) => Object::Integer(*x),
        Literal::Str(x) => Object::Str(x.clone()),
        Literal::Hash(x) => {
            let ghost psv = pair_views(x@);
            proof {
                lemma_pair_views_len(x@);
            }
            let mut m: Vec<(Object, Object)> = Vec::new();
            let mut i: usize = 0;
            while i < x.len()
                invariant
                    i <= x@.len(),
                    psv == pair_views(x@),
                    psv.len() == x@.len(),
                    literal.deep_view() == LiteralV::Hash(psv),
                    eval_hash_pairs_v(
                        psv,
                        0,
                        Seq::empty(),
                        old(env).deep_view(),
                        fuel as nat,
                    ) == eval_hash_pairs_v(
                        psv,
                        i as int,
                        obj_pairs_view(m@),
                        env.deep_view(),
                        fuel as nat,
                    ),
                decreases x@.len() - i,
            {
                proof {
                    lemma_pair_views_index(x@, i as int);
                    lemma_pairs_size_at(psv, 0, i as int);
                }
                let key_obj = evaluate_expression(&x[i].0, env, fuel);
                if is_error(&key_obj) {
                    return key_obj;
                }
                if !key_obj.hashable() {
                    return Object::Error("invalid key object for hash".to_owned());
                }
                let val_obj = evaluate_expression(&x[i].1, env, fuel);
                if is_error(&val_obj) {
                    return val_obj;
                }
                hash_insert(&mut m, key_obj, val_obj);
                i = i + 1;
            }
            Object::Hash(m)
        },
    }
}

/// Evaluates an identifier: built-in names first, then the environment; an
/// unresolved identifier is a runtime error.
pub fn evaluate_ident(ident: &Ident, env: &Environment) -> (r: Object)
    ensures
        r.deep_view() == ident_value_v(ident.deep_view(), env.deep_view()),
{
    if ident.0 == String::from_str("len") {
        return Object::Builtin(Builtin::Len);
    }
    if ident.0 == String::from_str("first") {
        return Object::Builtin(Builtin::First);
    }
    if ident.0 == String::from_str("last") {
        return Object::Builtin(Builtin::Last);
    }
    if ident.0 == String::from_str("rest") {
        return Object::Builtin(Builtin::Rest);
    }
    if ident.0 == String::from_str("push") {
        return Object::Builtin(Builtin::Push);
    }
    if ident.0 == String::from_str("puts") {
        return Object::Builtin(Builtin::Puts);
    }
    match env.get(ident) {
        Some(obj) => obj.clone(),
        None => {
            let mut msg = String::from_str("unknown identifier: ");
            msg.append(ident.0.as_str());
            Object::Error(msg)
        },
    }
}

/// Evaluates a prefix expression.
fn evaluate_prefix(prefix: &Prefix, expr: &Expr, env: &mut Environment, fuel: u64) -> (r: Object)
    ensures
        ({
            let (v, e2) = eval_prefix_v(
                *prefix,
                expr.deep_view(),
                old(env).deep_view(),
                fuel as nat,
            );
            r.deep_view() == v && final(env).deep_view() == e2
        }),
    decreases fuel, expr_size(expr.deep_view()), 1int,
{
    let obj = evaluate_expression(expr, env, fuel);
    if is_error(&obj) {
        return obj;
    }
    match prefix {
        Prefix::Minus => {
            match obj {
                Object::Integer(x) => {
                    if x == i64::MIN {
                        Object::Error("integer overflow".to_owned())
                    } else {
                        Object::Integer(-x)
                    }
                },
                _ => Object::Error("unknown operator".to_owned()),
            }
        },
        Prefix::Plus => obj,
        Prefix::Not => {
            match obj {
                Object::Boolean(b) => Object::Boolean(!b),
                Object::Null => Object::Boolean(true),
                _ => Object::Boolean(false),
            }
        },
    }
}

/// Evaluates a block of statements, stopping at the first returning or
/// error value and propagating it unchanged.
pub fn evaluate_block(block: &Block, env: &mut Environment, fuel: u64) -> (r: Object)
    ensures
        ({
            let (v, e2) = eval_block_v(
                block_view(block@),
                0,
                ObjV::Null,
                old(env).deep_view(),
                fuel as nat,
            );
            r.deep_view() == v && final(env).deep_view() == e2
        }),
    decreases fuel, block_size(block_view(block@), 0), 3int,
{
    let ghost bv = block_view(block@);
    proof {
        lemma_block_view_len(block@);
    }
    let mut result = Object::Null;
    let mut i: usize = 0;
    while i < block.len()
        invariant
            i <= block@.len(),
            bv == block_view(block@),
            bv.len() == block@.len(),
            !is_error_v(result.deep_view()),
            !(result.deep_view() matches ObjV::Ret(_)),
            eval_block_v(bv, 0, ObjV::Null, old(env).deep_view(), fuel as nat) == eval_block_v(
                bv,
                i as int,
                result.deep_view(),
                env.deep_view(),
                fuel as nat,
            ),
        decreases block@.len() - i,
    {
        proof {
            lemma_block_view_index(block@, i as int);
            crate::parser::ast::lemma_block_size_at(bv, 0, i as int);
        }
        let r = evaluate_statement(&block[i], env, fuel);
        match r {
            Object::Ret(x) => {
                return Object::Ret(x);
            },
            Object::Error(s) => {
                return Object::Error(s);
            },
            _ => {
                result = r;
            },
        }
        i = i + 1;
    }
    result
}

/// Evaluates a whole program: statements run in order, an error stops the
/// run, and a top-level returning value is unwrapped to its inner value.
/// The evaluator's call-depth budget is the largest representable one.
pub fn evaluate(program: Program, env: &mut Environment) -> (r: Object)
    ensures
        ({
            let (v, e2) = eval_program_v(
                block_view(program@),
                0,
                ObjV::Null,
                old(env).deep_view(),
                u64::MAX as nat,
            );
            r.deep_view() == v && final(env).deep_view() == e2
        }),
{
    let fuel: u64 = u64::MAX;
    let ghost bv = block_view(program@);
    proof {
        lemma_block_view_len(program@);
    }
    let mut result = Object::Null;
    let mut i: usize = 0;
    while i < program.len()
        invariant
            i <= program@.len(),
            bv == block_view(program@),
            bv.len() == program@.len(),
            fuel == u64::MAX,
            !is_error_v(result.deep_view()),
            !(result.deep_view() matches ObjV::Ret(_)),
            eval_program_v(bv, 0, ObjV::Null, old(env).deep_view(), fuel as nat)
                == eval_program_v(bv, i as int, result.deep_view(), env.deep_view(), fuel as nat),
        decreases program@.len() - i,
    {
        proof {
            lemma_block_view_index(program@, i as int);
        }
        let r = evaluate_statement(&program[i], env, fuel);
        match r {
            Object::Ret(x) => {
                return *x;
            },
            Object::Error(s) => {
                return Object::Error(s);
            },
            _ => {
                result = r;
            },
        }
        i = i + 1;
    }
    result
}


/// A function literal evaluates to a closure that captures the environment
/// standing at its definition, by value, and leaves that environment
/// unchanged.
pub proof fn lemma_closure_capture(ps: Seq<Seq<char>>, b: Seq<StmtV>, env: EnvV, fuel: nat)
    ensures
        eval_expr_v(ExprV::Fn(ps, b), env, fuel) == (ObjV::Closure(ps, b, env), env),
{
}

/// The closure snapshot law: a call of a closure runs its body against the
/// environment captured at the closure's definition, so a name bound after
/// the definition — including a rebinding of a name the body uses — is
/// never observed by the call. Stated for a closure without parameters,
/// reached through a binding `f` that the later binding does not shadow.
pub proof fn lemma_closure_snapshot(
    f: Seq<char>,
    ps: Seq<Seq<char>>,
    body: Seq<StmtV>,
    cenv: EnvV,
    env: EnvV,
    name: Seq<char>,
    v: ObjV,
    fuel: nat,
)
    requires
        fuel >= 1,
        ps.len() == 0,
        builtin_lookup(f) is None,
        name != f,
        env_lookup(env, f) == Some(ObjV::Closure(ps, body, cenv)),
    ensures
        ({
            let call = ExprV::Call(Box::new(ExprV::IdentExpr(f)), Seq::empty());
            &&& eval_expr_v(call, env.push((name, v)), fuel).0 == eval_expr_v(call, env, fuel).0
            &&& eval_expr_v(call, env, fuel).0 == unwrap_return_v(
                eval_block_v(body, 0, ObjV::Null, cenv, (fuel - 1) as nat).0,
            )
        }),
{
    let call = ExprV::Call(Box::new(ExprV::IdentExpr(f)), Seq::empty());
    let env2 = env.push((name, v));
    let c = ObjV::Closure(ps, body, cenv);
    assert(env2.last() == (name, v));
    assert(env2.drop_last() =~= env);
    assert(env_lookup(env2, f) == env_lookup(env, f));
    assert(ident_value_v(f, env) == c);
    assert(ident_value_v(f, env2) == c);
    assert(eval_expr_v(ExprV::IdentExpr(f), env, fuel) == (c, env));
    assert(eval_expr_v(ExprV::IdentExpr(f), env2, fuel) == (c, env2));
    assert(eval_exprs_v(Seq::empty(), 0, Seq::empty(), env, fuel) == (
        Ok::<Seq<ObjV>, ObjV>(Seq::empty()),
        env,
    ));
    assert(eval_exprs_v(Seq::empty(), 0, Seq::empty(), env2, fuel) == (
        Ok::<Seq<ObjV>, ObjV>(Seq::empty()),
        env2,
    ));
    assert(bind_params(cenv, ps, Seq::empty()) == cenv);
    let inner = unwrap_return_v(eval_block_v(body, 0, ObjV::Null, cenv, (fuel - 1) as nat).0);
    assert(eval_call_v(ExprV::IdentExpr(f), Seq::empty(), env, fuel) == (inner, env));
    assert(eval_call_v(ExprV::IdentExpr(f), Seq::empty(), env2, fuel) == (inner, env2));
    assert(eval_expr_v(call, env, fuel) == eval_call_v(
        ExprV::IdentExpr(f),
        Seq::empty(),
        env,
        fuel,
    ));
    assert(eval_expr_v(call, env2, fuel) == eval_call_v(
        ExprV::IdentExpr(f),
        Seq::empty(),
        env2,
        fuel,
    ));
}

} // verus!
