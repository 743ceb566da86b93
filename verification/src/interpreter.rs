use crate::enviornment::EnvM;
use crate::enviornment::Enviornment;
use crate::enviornment::env_assign_m;
use crate::enviornment::env_contains;
use crate::enviornment::env_get_m;
use crate::enviornment::env_set_m;
use crate::expression::ExprM;
use crate::expression::Expression;
use crate::expression::Operator;
use crate::expression::Prefix;
use crate::expression::lemma_exprs_model_index;
use crate::expression::lemma_exprs_model_len;
use crate::object::ChaiObject;
use crate::object::Function;
use crate::object::ValM;
use crate::object::lemma_vals_model_index;
use crate::object::lemma_vals_model_len;
use crate::object::vals_model;
use crate::statement::Statement;
use crate::statement::StmtM;
use crate::statement::lemma_stmts_model_index;
use crate::statement::lemma_stmts_model_len;
use crate::stdchai::Std;
use crate::stdchai::apply_buildin;
use crate::stdchai::buildin_apply_m;
use crate::stdchai::builtin_lookup;
use crate::stdchai::dec_digits;
use crate::stdchai::display_m;
use crate::stdchai::display_chai_object;
use crate::stdchai::u64_to_string;
use vstd::prelude::*;
use vstd::string::StringExecFns;

verus! {

broadcast use
    lemma_vals_model_len,
    lemma_vals_model_index,
    lemma_exprs_model_len,
    lemma_exprs_model_index,
    lemma_stmts_model_len,
    lemma_stmts_model_index,
;

/// What one evaluation step leaves behind: a value, the environment after
/// any bindings and reassignments, and the lines written by `print`.
pub struct EvalOut {
    pub v: ValM,
    pub env: EnvM,
    pub out: Seq<Seq<char>>,
}

/// The lines of standard output, as sequences of characters.
pub open spec fn out_model(out: Seq<String>) -> Seq<Seq<char>> {
    out.map(|i: int, s: String| s@)
}

/// Whether a value is the error sentinel that short-circuits evaluation.
pub open spec fn is_error_m(v: ValM) -> bool {
    v is Error
}

/// Truthiness: `false` and `Null` are falsy; every other value, including
/// integer zero, is truthy.
pub open spec fn is_truthy_m(v: ValM) -> bool {
    match v {
        ValM::Boolean(b) => b,
        ValM::Null => false,
        _ => true,
    }
}

/// `!x`: negation of a boolean, `true` on `Null`, `false` on anything else.
pub open spec fn bang_m(v: ValM) -> ValM {
    match v {
        ValM::Boolean(b) => ValM::Boolean(!b),
        ValM::Null => ValM::Boolean(true),
        _ => ValM::Boolean(false),
    }
}

/// `-x`: integer negation, wrapping on the minimum value; an error on any
/// other operand.
pub open spec fn minus_m(v: ValM) -> ValM {
    match v {
        ValM::Integer(i) => ValM::Integer((0i32).wrapping_sub(i)),
        _ => ValM::Error("Unknown operation : -"@ + display_m(v)),
    }
}

/// How an operator shows in diagnostics.
pub open spec fn op_display_m(op: Operator) -> Seq<char> {
    match op {
        Operator::Plus => "+"@,
        Operator::Minus => "-"@,
        Operator::Multiply => "x"@,
        Operator::Divide => "x"@,
        Operator::Greaterthan => ">"@,
        Operator::Lessthan => "<"@,
        Operator::Equals => "=="@,
        Operator::Notequals => "!="@,
        Operator::Assign => "="@,
    }
}

/// Truncating 32-bit division, with the one overflowing quotient wrapping:
/// the minimum value divided by minus one is the minimum value again.
pub open spec fn div_m(l: i32, r: i32) -> i32 {
    if l == i32::MIN && r == -1 {
        i32::MIN
    } else {
        let q = vstd::math::abs(l as int) / vstd::math::abs(r as int);
        if (l < 0) != (r < 0) {
            (-q) as i32
        } else {
            q as i32
        }
    }
}

/// Arithmetic and comparisons on two integers. Arithmetic wraps around on
/// overflow; division by zero is an error; `Assign` on two values is the
/// evaluator telling the user the left side was no variable.
pub open spec fn int_infix_m(l: i32, op: Operator, r: i32) -> ValM {
    match op {
        Operator::Multiply => ValM::Integer(l.wrapping_mul(r)),
        Operator::Divide => if r == 0 {
            ValM::Error("division by zero"@)
        } else {
            ValM::Integer(div_m(l, r))
        },
        Operator::Plus => ValM::Integer(l.wrapping_add(r)),
        Operator::Minus => ValM::Integer(l.wrapping_sub(r)),
        Operator::Lessthan => ValM::Boolean(l < r),
        Operator::Greaterthan => ValM::Boolean(l > r),
        Operator::Equals => ValM::Boolean(l == r),
        Operator::Notequals => ValM::Boolean(l != r),
        Operator::Assign => ValM::Error("Need LHS to be a variable"@),
    }
}

/// Booleans support equality and inequality only.
pub open spec fn bool_infix_m(l: bool, op: Operator, r: bool) -> ValM {
    match op {
        Operator::Equals => ValM::Boolean(l == r),
        Operator::Notequals => ValM::Boolean(l != r),
        _ => ValM::Error("Unknown operator for boolean : "@ + op_display_m(op)),
    }
}

/// Strings support equality, inequality, and `+` as concatenation.
pub open spec fn string_infix_m(l: Seq<char>, op: Operator, r: Seq<char>) -> ValM {
    match op {
        Operator::Equals => ValM::Boolean(l == r),
        Operator::Notequals => ValM::Boolean(l != r),
        Operator::Plus => ValM::String(l + r),
        _ => ValM::Error("Unknown operator for string : "@ + op_display_m(op)),
    }
}

/// Dispatch of an infix operator on the operand types; mismatched pairs are
/// an error.
pub open spec fn infix_m(l: ValM, op: Operator, r: ValM) -> ValM {
    match (l, r) {
        (ValM::Integer(a), ValM::Integer(b)) => int_infix_m(a, op, b),
        (ValM::Boolean(a), ValM::Boolean(b)) => bool_infix_m(a, op, b),
        (ValM::String(a), ValM::String(b)) => string_infix_m(a, op, b),
        _ => ValM::Error(
            "Type mismatch : "@ + display_m(l) + " "@ + op_display_m(op) + " "@ + display_m(r),
        ),
    }
}

/// Prefix operator dispatch.
pub open spec fn prefix_m(op: Prefix, v: ValM) -> ValM {
    match op {
        Prefix::Minus => minus_m(v),
        Prefix::Bang => bang_m(v),
    }
}

/// Indexing: an array and an integer index inside the bounds give the
/// element; anything out of bounds, negative included, is an error.
pub open spec fn index_m(a: ValM, i: ValM) -> ValM {
    match (a, i) {
        (ValM::Array(vs), ValM::Integer(idx)) => if 0 <= idx < vs.len() {
            vs[idx as int]
        } else {
            ValM::Error("Array out of bound"@)
        },
        _ => ValM::Error("Index operator not supported"@),
    }
}

/// The `Return` sentinel unwraps when it reaches a function call boundary
/// or the program root.
pub open spec fn unwrap_return_m(v: ValM) -> ValM {
    match v {
        ValM::Return(inner) => *inner,
        _ => v,
    }
}

/// The result of running out of evaluation fuel: an error value, the
/// environment as it stood.
pub open spec fn oof_m(env: EnvM) -> EvalOut {
    EvalOut { v: ValM::Error("evaluation fuel exhausted"@), env, out: Seq::empty() }
}

/// Parameter binding for a call: each parameter name bound positionally in
/// the innermost scope.
pub open spec fn bind_params_m(env: EnvM, ps: Seq<Seq<char>>, vs: Seq<ValM>, i: int) -> EnvM
    decreases ps.len() - i,
{
    if i < 0 || i >= ps.len() || i >= vs.len() {
        env
    } else {
        bind_params_m(env_set_m(env, ps[i], vs[i]), ps, vs, i + 1)
    }
}

/// The arity-mismatch diagnostic for a call with the wrong argument count.
pub open spec fn arity_error_m(expected: nat, got: nat) -> ValM {
    ValM::Error("arity mismatch: expected "@ + dec_digits(expected) + ", got "@ + dec_digits(got))
}

/// Reassignment of an evaluated right-hand side. The left side must be an
/// identifier; the name must already be bound somewhere in the chain, and
/// the write goes to the scope that owns it. The whole expression's value
/// is the right-hand side.
pub open spec fn reassign_m(le: ExprM, rv: ValM, env: EnvM) -> EvalOut {
    match le {
        ExprM::Ident(name) => if env_contains(env, name) {
            EvalOut { v: rv, env: env_assign_m(env, name, rv), out: Seq::empty() }
        } else {
            EvalOut {
                v: ValM::Error("Variable "@ + name + " not found"@),
                env,
                out: Seq::empty(),
            }
        },
        _ => EvalOut { v: ValM::Error("Need LHS to be a variable"@), env, out: Seq::empty() },
    }
}

/// The evaluation of one statement.
///
/// Every recursive step burns one unit of fuel, so the evaluator is total;
/// a program that needs more steps than the fuel allows ends in the
/// fuel-exhaustion error.
pub open spec fn eval_stmt_m(s: StmtM, env: EnvM, fuel: nat) -> EvalOut
    decreases fuel,
{
    if fuel == 0 {
        oof_m(env)
    } else {
        let f = (fuel - 1) as nat;
        match s {
            StmtM::Program(ss) => eval_prog_stmts_m(ss, 0, ValM::Null, env, f),
            StmtM::BlockStatement(ss) => eval_block_stmts_m(ss, 0, ValM::Null, env, f),
            StmtM::ExpressionStatement(e) => eval_expr_m(*e, env, f),
            StmtM::Return(e) => {
                let r = eval_expr_m(*e, env, f);
                if is_error_m(r.v) {
                    r
                } else {
                    EvalOut { v: ValM::Return(Box::new(r.v)), env: r.env, out: r.out }
                }
            },
            StmtM::Let(name, e) => {
                let r = eval_expr_m(*e, env, f);
                if is_error_m(r.v) {
                    r
                } else {
                    EvalOut { v: r.v, env: env_set_m(r.env, name, r.v), out: r.out }
                }
            },
            StmtM::Reassignment(name, e) => {
                let r = eval_expr_m(*e, env, f);
                if is_error_m(r.v) {
                    r
                } else {
                    EvalOut { v: r.v, env: env_set_m(r.env, name, r.v), out: r.out }
                }
            },
        }
    }
}

/// Block evaluation from statement `i` on, with `last` the value so far.
/// `Return` and `Error` stop the block and propagate unchanged; a `Print`
/// sentinel writes its line and is consumed, the block going on with
/// `Null` as the value so far; the block's value is the last statement's.
pub open spec fn eval_block_stmts_m(
    ss: Seq<StmtM>,
    i: int,
    last: ValM,
    env: EnvM,
    fuel: nat,
) -> EvalOut
    decreases fuel,
{
    if fuel == 0 {
        oof_m(env)
    } else if i < 0 || i >= ss.len() {
        EvalOut { v: last, env, out: Seq::empty() }
    } else {
        let f = (fuel - 1) as nat;
        let r = eval_stmt_m(ss[i], env, f);
        match r.v {
            ValM::Return(_) => r,
            ValM::Error(_) => r,
            ValM::Print(p) => {
                let rest = eval_block_stmts_m(ss, i + 1, ValM::Null, r.env, f);
                EvalOut { v: rest.v, env: rest.env, out: r.out + seq![p] + rest.out }
            },
            _ => {
                let rest = eval_block_stmts_m(ss, i + 1, r.v, r.env, f);
                EvalOut { v: rest.v, env: rest.env, out: r.out + rest.out }
            },
        }
    }
}

/// Program evaluation: as a block, except that a `Return` unwraps to its
/// inner value at the top, and an `Error` still stops everything.
pub open spec fn eval_prog_stmts_m(
    ss: Seq<StmtM>,
    i: int,
    last: ValM,
    env: EnvM,
    fuel: nat,
) -> EvalOut
    decreases fuel,
{
    if fuel == 0 {
        oof_m(env)
    } else if i < 0 || i >= ss.len() {
        EvalOut { v: last, env, out: Seq::empty() }
    } else {
        let f = (fuel - 1) as nat;
        let r = eval_stmt_m(ss[i], env, f);
        match r.v {
            ValM::Return(inner) => EvalOut { v: *inner, env: r.env, out: r.out },
            ValM::Error(_) => r,
            ValM::Print(p) => {
                let rest = eval_prog_stmts_m(ss, i + 1, ValM::Null, r.env, f);
                EvalOut { v: rest.v, env: rest.env, out: r.out + seq![p] + rest.out }
            },
            _ => {
                let rest = eval_prog_stmts_m(ss, i + 1, r.v, r.env, f);
                EvalOut { v: rest.v, env: rest.env, out: r.out + rest.out }
            },
        }
    }
}

/// Argument lists and array elements, evaluated left to right with
/// short-circuit on the first error.
pub struct EvalsOut {
    pub r: Result<Seq<ValM>, ValM>,
    pub env: EnvM,
    pub out: Seq<Seq<char>>,
}

pub open spec fn eval_exprs_m(
    es: Seq<ExprM>,
    i: int,
    acc: Seq<ValM>,
    env: EnvM,
    fuel: nat,
) -> EvalsOut
    decreases fuel,
{
    if fuel == 0 {
        EvalsOut { r: Err(oof_m(env).v), env, out: Seq::empty() }
    } else if i < 0 || i >= es.len() {
        EvalsOut { r: Ok(acc), env, out: Seq::empty() }
    } else {
        let f = (fuel - 1) as nat;
        let r = eval_expr_m(es[i], env, f);
        if is_error_m(r.v) {
            EvalsOut { r: Err(r.v), env: r.env, out: r.out }
        } else {
            let rest = eval_exprs_m(es, i + 1, acc.push(r.v), r.env, f);
            EvalsOut { r: rest.r, env: rest.env, out: r.out + rest.out }
        }
    }
}

/// A call applied to evaluated arguments. A user function runs its body in
/// a fresh scope over its captured environment, parameters bound
/// positionally after an exact arity check, and its `Return` unwraps; the
/// caller's environment is untouched. A built-in computes directly. Any
/// other callee is an error.
pub open spec fn apply_function_m(fv: ValM, args: Seq<ValM>, env: EnvM, fuel: nat) -> EvalOut
    decreases fuel,
{
    if fuel == 0 {
        oof_m(env)
    } else {
        let f = (fuel - 1) as nat;
        match fv {
            ValM::Function(ps, body, fenv) => if ps.len() != args.len() {
                EvalOut { v: arity_error_m(ps.len(), args.len()), env, out: Seq::empty() }
            } else {
                let callee_env = bind_params_m((*fenv).push(Map::empty()), ps, args, 0);
                let r = eval_stmt_m(*body, callee_env, f);
                EvalOut { v: unwrap_return_m(r.v), env, out: r.out }
            },
            ValM::BuildinFunction(b) => EvalOut {
                v: buildin_apply_m(b, args),
                env,
                out: Seq::empty(),
            },
            _ => EvalOut {
                v: ValM::Error("Not a function : "@ + display_m(fv)),
                env,
                out: Seq::empty(),
            },
        }
    }
}

/// A `while` loop: re-evaluate the condition each iteration, run the body
/// while it is truthy, and propagate a `Return` or `Error` from the body
/// out of the loop. The loop itself evaluates to `Null`.
pub open spec fn eval_while_m(cond: ExprM, body: StmtM, env: EnvM, fuel: nat) -> EvalOut
    decreases fuel,
{
    if fuel == 0 {
        oof_m(env)
    } else {
        let f = (fuel - 1) as nat;
        let cv = eval_expr_m(cond, env, f);
        if is_error_m(cv.v) {
            cv
        } else if !is_truthy_m(cv.v) {
            EvalOut { v: ValM::Null, env: cv.env, out: cv.out }
        } else {
            let bv = eval_stmt_m(body, cv.env, f);
            match bv.v {
                ValM::Return(_) => EvalOut { v: bv.v, env: bv.env, out: cv.out + bv.out },
                ValM::Error(_) => EvalOut { v: bv.v, env: bv.env, out: cv.out + bv.out },
                _ => {
                    let rest = eval_while_m(cond, body, bv.env, f);
                    EvalOut { v: rest.v, env: rest.env, out: cv.out + bv.out + rest.out }
                },
            }
        }
    }
}

/// The evaluation of one expression. After every subexpression, an `Error`
/// result short-circuits. Evaluation order is left to right throughout.
pub open spec fn eval_expr_m(e: ExprM, env: EnvM, fuel: nat) -> EvalOut
    decreases fuel,
{
    if fuel == 0 {
        oof_m(env)
    } else {
        let f = (fuel - 1) as nat;
        match e {
            ExprM::Null => EvalOut { v: ValM::Null, env, out: Seq::empty() },
            ExprM::Integer(i) => EvalOut { v: ValM::Integer(i), env, out: Seq::empty() },
            ExprM::Boolean(b) => EvalOut { v: ValM::Boolean(b), env, out: Seq::empty() },
            ExprM::String(s) => EvalOut { v: ValM::String(s), env, out: Seq::empty() },
            ExprM::Prefix(op, x) => {
                let r = eval_expr_m(*x, env, f);
                if is_error_m(r.v) {
                    r
                } else {
                    EvalOut { v: prefix_m(op, r.v), env: r.env, out: r.out }
                }
            },
            ExprM::Infix(l, op, r) => {
                if op == Operator::Assign {
                    let rv = eval_expr_m(*r, env, f);
                    if is_error_m(rv.v) {
                        rv
                    } else {
                        let rr = reassign_m(*l, rv.v, rv.env);
                        EvalOut { v: rr.v, env: rr.env, out: rv.out }
                    }
                } else {
                    let lv = eval_expr_m(*l, env, f);
                    if is_error_m(lv.v) {
                        lv
                    } else {
                        let rv = eval_expr_m(*r, lv.env, f);
                        if is_error_m(rv.v) {
                            EvalOut { v: rv.v, env: rv.env, out: lv.out + rv.out }
                        } else {
                            EvalOut {
                                v: infix_m(lv.v, op, rv.v),
                                env: rv.env,
                                out: lv.out + rv.out,
                            }
                        }
                    }
                }
            },
            ExprM::If(c, t, e2) => {
                let cv = eval_expr_m(*c, env, f);
                if is_error_m(cv.v) {
                    cv
                } else if is_truthy_m(cv.v) {
                    let r = eval_stmt_m(*t, cv.env, f);
                    EvalOut { v: r.v, env: r.env, out: cv.out + r.out }
                } else {
                    match e2 {
                        Some(s) => {
                            let r = eval_stmt_m(*s, cv.env, f);
                            EvalOut { v: r.v, env: r.env, out: cv.out + r.out }
                        },
                        None => EvalOut { v: ValM::Null, env: cv.env, out: cv.out },
                    }
                }
            },
            ExprM::While(c, body) => eval_while_m(*c, *body, env, f),
            ExprM::Ident(name) => {
                match env_get_m(env, name) {
                    Some(v) => EvalOut { v, env, out: Seq::empty() },
                    None => match builtin_lookup(name) {
                        Some(b) => EvalOut { v: ValM::BuildinFunction(b), env, out: Seq::empty() },
                        None => EvalOut {
                            v: ValM::Error("Variable : "@ + name + " not found"@),
                            env,
                            out: Seq::empty(),
                        },
                    },
                }
            },
            ExprM::Function(ps, body) => EvalOut {
                v: ValM::Function(ps, body, Box::new(env)),
                env,
                out: Seq::empty(),
            },
            ExprM::FunctionCall(callee, args) => {
                let fv = eval_expr_m(*callee, env, f);
                if is_error_m(fv.v) {
                    fv
                } else {
                    let ar = eval_exprs_m(args, 0, Seq::empty(), fv.env, f);
                    match ar.r {
                        Err(err) => EvalOut { v: err, env: ar.env, out: fv.out + ar.out },
                        Ok(vs) => {
                            let res = apply_function_m(fv.v, vs, ar.env, f);
                            EvalOut { v: res.v, env: res.env, out: fv.out + ar.out + res.out }
                        },
                    }
                }
            },
            ExprM::Array(elems) => {
                let ar = eval_exprs_m(elems, 0, Seq::empty(), env, f);
                match ar.r {
                    Err(err) => EvalOut { v: err, env: ar.env, out: ar.out },
                    Ok(vs) => EvalOut { v: ValM::Array(vs), env: ar.env, out: ar.out },
                }
            },
            ExprM::ArrayIndex(a, ix) => {
                let av = eval_expr_m(*a, env, f);
                if is_error_m(av.v) {
                    av
                } else {
                    let iv = eval_expr_m(*ix, av.env, f);
                    if is_error_m(iv.v) {
                        EvalOut { v: iv.v, env: iv.env, out: av.out + iv.out }
                    } else {
                        EvalOut { v: index_m(av.v, iv.v), env: iv.env, out: av.out + iv.out }
                    }
                }
            },
        }
    }
}

/// The error value carrying a diagnostic message.
pub fn error(message: &str) -> (r: ChaiObject)
    ensures
        r.model() == ValM::Error(message@),
{
    ChaiObject::Error(message.to_owned())
}

/// Whether a value is the error sentinel.
pub fn is_error(object: &ChaiObject) -> (r: bool)
    ensures
        r == is_error_m(object.model()),
{
    match object {
        ChaiObject::Error(_) => true,
        _ => false,
    }
}

/// Truthiness of a condition value.
pub fn is_truthy(object: &ChaiObject) -> (r: bool)
    ensures
        r == is_truthy_m(object.model()),
{
    match object {
        ChaiObject::Boolean(b) => *b,
        ChaiObject::Null => false,
        _ => true,
    }
}

/// `!x`.
pub fn eval_bang_operator_expression(object: ChaiObject) -> (r: ChaiObject)
    ensures
        r.model() == bang_m(object.model()),
{
    match object {
        ChaiObject::Boolean(b) => ChaiObject::Boolean(!b),
        ChaiObject::Null => ChaiObject::Boolean(true),
        _ => ChaiObject::Boolean(false),
    }
}

/// `-x`.
pub fn eval_minus_operator_expression(object: ChaiObject) -> (r: ChaiObject)
    ensures
        r.model() == minus_m(object.model()),
{
    match &object {
        ChaiObject::Integer(i) => ChaiObject::Integer(0i32.wrapping_sub(*i)),
        _ => {
            let mut msg = "Unknown operation : -".to_owned();
            let shown = display_chai_object(&object);
            msg.append(shown.as_str());
            ChaiObject::Error(msg)
        },
    }
}

/// How an operator shows in diagnostics.
fn op_display(operator: Operator) -> (r: String)
    ensures
        r@ == op_display_m(operator),
{
    match operator {
        Operator::Plus => "+".to_owned(),
        Operator::Minus => "-".to_owned(),
        Operator::Multiply => "x".to_owned(),
        Operator::Divide => "x".to_owned(),
        Operator::Greaterthan => ">".to_owned(),
        Operator::Lessthan => "<".to_owned(),
        Operator::Equals => "==".to_owned(),
        Operator::Notequals => "!=".to_owned(),
        Operator::Assign => "=".to_owned(),
    }
}

/// Truncating division on magnitudes, with the one overflowing quotient
/// wrapping around.
fn div_i32(l: i32, r: i32) -> (q: i32)
    requires
        r != 0,
    ensures
        q == div_m(l, r),
{
    broadcast use vstd::arithmetic::div_mod::group_div_basics;

    if l == i32::MIN && r == -1 {
        return i32::MIN;
    }
    let ln: u32 = if l < 0 {
        (-(l as i64)) as u32
    } else {
        l as u32
    };
    let rn: u32 = if r < 0 {
        (-(r as i64)) as u32
    } else {
        r as u32
    };
    let qn: u32 = ln / rn;
    proof {
        assert(ln as int == vstd::math::abs(l as int));
        assert(rn as int == vstd::math::abs(r as int));
        assert(0 <= qn as int <= ln as int);
    }
    if (l < 0) != (r < 0) {
        let qq: i64 = -(qn as i64);
        qq as i32
    } else {
        proof {
            if l < 0 && r < 0 {
                if rn == 1 {
                    assert(l != i32::MIN);
                    assert(ln <= 0x7fff_ffff);
                } else {
                    vstd::arithmetic::div_mod::lemma_div_is_ordered_by_denominator(
                        ln as int,
                        2,
                        rn as int,
                    );
                    assert(qn as int <= ln as int / 2);
                }
            }
        }
        qn as i32
    }
}

/// Arithmetic and comparisons on two integers.
pub fn eval_integer_infix_expression(left: i32, operator: Operator, right: i32) -> (r: ChaiObject)
    ensures
        r.model() == int_infix_m(left, operator, right),
{
    match operator {
        Operator::Multiply => ChaiObject::Integer(left.wrapping_mul(right)),
        Operator::Divide => {
            if right == 0 {
                error("division by zero")
            } else {
                ChaiObject::Integer(div_i32(left, right))
            }
        },
        Operator::Plus => ChaiObject::Integer(left.wrapping_add(right)),
        Operator::Minus => ChaiObject::Integer(left.wrapping_sub(right)),
        Operator::Lessthan => ChaiObject::Boolean(left < right),
        Operator::Greaterthan => ChaiObject::Boolean(left > right),
        Operator::Equals => ChaiObject::Boolean(left == right),
        Operator::Notequals => ChaiObject::Boolean(left != right),
        Operator::Assign => error("Need LHS to be a variable"),
    }
}

/// Equality and inequality on two booleans.
pub fn eval_boolean_infix_expression(left: bool, operator: Operator, right: bool) -> (r: ChaiObject)
    ensures
        r.model() == bool_infix_m(left, operator, right),
{
    match operator {
        Operator::Equals => ChaiObject::Boolean(left == right),
        Operator::Notequals => ChaiObject::Boolean(left != right),
        _ => {
            let mut msg = "Unknown operator for boolean : ".to_owned();
            let shown = op_display(operator);
            msg.append(shown.as_str());
            ChaiObject::Error(msg)
        },
    }
}

/// Equality, inequality and concatenation on two strings.
pub fn eval_string_infix_expression(left: String, operator: Operator, right: String) -> (r:
    ChaiObject)
    ensures
        r.model() == string_infix_m(left@, operator, right@),
{
    match operator {
        Operator::Equals => ChaiObject::Boolean(left == right),
        Operator::Notequals => ChaiObject::Boolean(!(left == right)),
        Operator::Plus => ChaiObject::String(left.concat(right.as_str())),
        _ => {
            let mut msg = "Unknown operator for string : ".to_owned();
            let shown = op_display(operator);
            msg.append(shown.as_str());
            ChaiObject::Error(msg)
        },
    }
}

/// Prefix operator dispatch.
pub fn eval_prefix_expression(prefix: Prefix, object: ChaiObject) -> (r: ChaiObject)
    ensures
        r.model() == prefix_m(prefix, object.model()),
{
    match prefix {
        Prefix::Minus => eval_minus_operator_expression(object),
        Prefix::Bang => eval_bang_operator_expression(object),
    }
}

/// Infix operator dispatch on the operand types.
pub fn eval_infix_expression(left: ChaiObject, operator: Operator, right: ChaiObject) -> (r:
    ChaiObject)
    ensures
        r.model() == infix_m(left.model(), operator, right.model()),
{
    match (left, right) {
        (ChaiObject::Integer(l), ChaiObject::Integer(r)) => eval_integer_infix_expression(
            l,
            operator,
            r,
        ),
        (ChaiObject::Boolean(l), ChaiObject::Boolean(r)) => eval_boolean_infix_expression(
            l,
            operator,
            r,
        ),
        (ChaiObject::String(l), ChaiObject::String(r)) => eval_string_infix_expression(
            l,
            operator,
            r,
        ),
        (l, r) => {
            let mut msg = "Type mismatch : ".to_owned();
            let lshown = display_chai_object(&l);
            msg.append(lshown.as_str());
            msg.append(" ");
            let opshown = op_display(operator);
            msg.append(opshown.as_str());
            msg.append(" ");
            let rshown = display_chai_object(&r);
            msg.append(rshown.as_str());
            ChaiObject::Error(msg)
        },
    }
}

/// Indexing an array with an integer; out of bounds, negative included, is
/// an error.
pub fn eval_array_index_expression(array: ChaiObject, index: ChaiObject) -> (r: ChaiObject)
    ensures
        r.model() == index_m(array.model(), index.model()),
{
    match (array, index) {
        (ChaiObject::Array(arr), ChaiObject::Integer(i)) => {
            if i < 0 {
                error("Array out of bound")
            } else {
                let idx = i as usize;
                if idx < arr.len() {
                    proof {
                        assert(vals_model(arr@)[idx as int] == arr@[idx as int].model());
                    }
                    arr[idx].duplicate()
                } else {
                    proof {
                        assert(vals_model(arr@).len() == arr@.len());
                    }
                    error("Array out of bound")
                }
            }
        },
        _ => error("Index operator not supported"),
    }
}

/// Reassignment of an evaluated right-hand side to an identifier; the write
/// goes to the scope that owns the name.
pub fn eval_reassign_expression(
    expression: &Expression,
    right: ChaiObject,
    env: &mut Enviornment,
) -> (r: ChaiObject)
    ensures
        ({
            let m = reassign_m(expression.model(), right.model(), old(env).model());
            &&& r.model() == m.v
            &&& final(env).model() == m.env
        }),
{
    match expression {
        Expression::Ident(variable) => {
            let found = env.assign(variable.as_str(), right.duplicate());
            if found {
                right
            } else {
                let mut msg = "Variable ".to_owned();
                msg.append(variable.as_str());
                msg.append(" not found");
                ChaiObject::Error(msg)
            }
        },
        _ => error("Need LHS to be a variable"),
    }
}

/// The scope a call runs in: a fresh scope over the captured environment,
/// parameters bound positionally.
pub fn create_function_env(function: &Function, arguments: Vec<ChaiObject>) -> (r: Enviornment)
    requires
        function.0@.len() == arguments@.len(),
    ensures
        r.model() == bind_params_m(
            function.2.model().push(Map::empty()),
            crate::expression::params_model(function.0@),
            vals_model(arguments@),
            0,
        ),
{
    let ghost ps = crate::expression::params_model(function.0@);
    let ghost vs = vals_model(arguments@);
    let mut env = Enviornment::enclosed(function.2.duplicate());
    let n = function.0.len();
    let mut i: usize = 0;
    while i < n
        invariant
            n == function.0@.len(),
            n == arguments@.len(),
            i <= n,
            ps == crate::expression::params_model(function.0@),
            vs == vals_model(arguments@),
            bind_params_m(env.model(), ps, vs, i as int) == bind_params_m(
                function.2.model().push(Map::empty()),
                ps,
                vs,
                0,
            ),
        decreases n - i,
    {
        env.set(function.0[i].as_str(), arguments[i].duplicate());
        i = i + 1;
    }
    env
}

/// Unwrap the `Return` sentinel at a call boundary.
pub fn function_return_value(object: ChaiObject) -> (r: ChaiObject)
    ensures
        r.model() == unwrap_return_m(object.model()),
{
    match object {
        ChaiObject::Return(return_value) => *return_value,
        _ => object,
    }
}

/// Apply a callee to evaluated arguments. The caller's environment is
/// untouched; a user function runs in its own scope over its captured
/// environment.
pub fn apply_function(
    function: ChaiObject,
    arguments: Vec<ChaiObject>,
    env: &mut Enviornment,
    lib: &Std,
    out: &mut Vec<String>,
    fuel: u64,
) -> (r: ChaiObject)
    ensures
        ({
            let m = apply_function_m(
                function.model(),
                vals_model(arguments@),
                old(env).model(),
                fuel as nat,
            );
            &&& r.model() == m.v
            &&& final(env).model() == m.env
            &&& out_model(final(out)@) == out_model(old(out)@) + m.out
        }),
    decreases fuel,
{
    let ghost out0 = out_model(out@);
    if fuel == 0 {
        proof {
            assert(out_model(out@) =~= out0 + Seq::<Seq<char>>::empty());
        }
        return error("evaluation fuel exhausted");
    }
    let f = fuel - 1;
    match function {
        ChaiObject::Function(func) => {
            if func.0.len() != arguments.len() {
                let mut msg = "arity mismatch: expected ".to_owned();
                let expected = u64_to_string(func.0.len() as u64);
                msg.append(expected.as_str());
                msg.append(", got ");
                let got = u64_to_string(arguments.len() as u64);
                msg.append(got.as_str());
                proof {
                    assert(out_model(out@) =~= out0 + Seq::<Seq<char>>::empty());
                }
                ChaiObject::Error(msg)
            } else {
                let mut function_env = create_function_env(&func, arguments);
                let output = eval(&func.1, &mut function_env, lib, out, f);
                function_return_value(output)
            }
        },
        ChaiObject::BuildinFunction(b) => {
            proof {
                assert(out_model(out@) =~= out0 + Seq::<Seq<char>>::empty());
            }
            apply_buildin(b, arguments)
        },
        _ => {
            let mut msg = "Not a function : ".to_owned();
            let shown = display_chai_object(&function);
            msg.append(shown.as_str());
            proof {
                assert(out_model(out@) =~= out0 + Seq::<Seq<char>>::empty());
            }
            ChaiObject::Error(msg)
        },
    }
}

/// Evaluate a list of expressions left to right, short-circuiting on the
/// first error.
pub fn eval_expressions(
    expressions: &Vec<Expression>,
    i: usize,
    accumulated: Vec<ChaiObject>,
    env: &mut Enviornment,
    lib: &Std,
    out: &mut Vec<String>,
    fuel: u64,
) -> (r: Result<Vec<ChaiObject>, ChaiObject>)
    requires
        i <= expressions@.len(),
    ensures
        ({
            let m = eval_exprs_m(
                crate::expression::exprs_model(expressions@),
                i as int,
                vals_model(accumulated@),
                old(env).model(),
                fuel as nat,
            );
            &&& (match r {
                Ok(vs) => m.r is Ok && vals_model(vs@) == m.r->Ok_0,
                Err(e) => m.r is Err && e.model() == m.r->Err_0,
            })
            &&& final(env).model() == m.env
            &&& out_model(final(out)@) == out_model(old(out)@) + m.out
        }),
    decreases fuel,
{
    let ghost out0 = out_model(out@);
    let ghost acc0 = vals_model(accumulated@);
    if fuel == 0 {
        proof {
            assert(out_model(out@) =~= out0 + Seq::<Seq<char>>::empty());
        }
        return Err(error("evaluation fuel exhausted"));
    }
    if i >= expressions.len() {
        proof {
            assert(out_model(out@) =~= out0 + Seq::<Seq<char>>::empty());
        }
        return Ok(accumulated);
    }
    let f = fuel - 1;
    proof {
        assert(crate::expression::exprs_model(expressions@)[i as int] == expressions@[
            i as int
        ].model());
    }
    let v = eval_expression(&expressions[i], env, lib, out, f);
    if is_error(&v) {
        proof {
            let m = eval_exprs_m(
                crate::expression::exprs_model(expressions@),
                i as int,
                acc0,
                old(env).model(),
                fuel as nat,
            );
            assert(out_model(out@) =~= out0 + m.out);
        }
        return Err(v);
    }
    let mut acc = accumulated;
    acc.push(v);
    proof {
        assert(vals_model(acc@) =~= vals_model(acc@.drop_last()).push(acc@.last().model()));
    }
    let ghost out1 = out_model(out@);
    let ghost mid_env = env.model();
    let rest = eval_expressions(expressions, i + 1, acc, env, lib, out, f);
    proof {
        let es = crate::expression::exprs_model(expressions@);
        let env0 = old(env).model();
        let r1 = eval_expr_m(es[i as int], env0, f as nat);
        let rest_m = eval_exprs_m(es, i as int + 1, acc0.push(r1.v), r1.env, f as nat);
        let m = eval_exprs_m(es, i as int, acc0, env0, fuel as nat);
        assert(vals_model(acc@) =~= acc0.push(r1.v));
        assert(out1 =~= out0 + r1.out);
        assert(m.out == r1.out + rest_m.out);
        assert(out_model(out@) =~= out1 + rest_m.out);
        assert(out_model(out@) =~= out0 + m.out);
    }
    rest
}

/// Evaluate one expression against an environment and the built-in table.
#[verifier::rlimit(100)]
pub fn eval_expression(
    expression: &Expression,
    env: &mut Enviornment,
    lib: &Std,
    out: &mut Vec<String>,
    fuel: u64,
) -> (r: ChaiObject)
    ensures
        ({
            let m = eval_expr_m(expression.model(), old(env).model(), fuel as nat);
            &&& r.model() == m.v
            &&& final(env).model() == m.env
            &&& out_model(final(out)@) == out_model(old(out)@) + m.out
        }),
    decreases fuel,
{
    let ghost out0 = out_model(out@);
    if fuel == 0 {
        proof {
            assert(out_model(out@) =~= out0 + Seq::<Seq<char>>::empty());
        }
        return error("evaluation fuel exhausted");
    }
    let f = fuel - 1;
    match expression {
        Expression::Null => {
            proof {
                assert(out_model(out@) =~= out0 + Seq::<Seq<char>>::empty());
            }
            ChaiObject::Null
        },
        Expression::Integer(integer) => {
            proof {
                assert(out_model(out@) =~= out0 + Seq::<Seq<char>>::empty());
            }
            ChaiObject::Integer(*integer)
        },
        Expression::Boolean(boolean) => {
            proof {
                assert(out_model(out@) =~= out0 + Seq::<Seq<char>>::empty());
            }
            ChaiObject::Boolean(*boolean)
        },
        Expression::String(string) => {
            proof {
                assert(out_model(out@) =~= out0 + Seq::<Seq<char>>::empty());
            }
            ChaiObject::String(string.clone())
        },
        Expression::Prefix(prefix, inner) => {
            let object = eval_expression(inner, env, lib, out, f);
            if is_error(&object) {
                return object;
            }
            eval_prefix_expression(*prefix, object)
        },
        Expression::Infix(l, operator, rr) => {
            if *operator == Operator::Assign {
                let right = eval_expression(rr, env, lib, out, f);
                if is_error(&right) {
                    return right;
                }
                return eval_reassign_expression(l, right, env);
            }
            let left = eval_expression(l, env, lib, out, f);
            if is_error(&left) {
                return left;
            }
            let ghost out1 = out_model(out@);
            let right = eval_expression(rr, env, lib, out, f);
            proof {
                let m = eval_expr_m(expression.model(), old(env).model(), fuel as nat);
                assert(out_model(out@) =~= out0 + m.out);
            }
            if is_error(&right) {
                return right;
            }
            eval_infix_expression(left, *operator, right)
        },
        Expression::If(condition, then_stmt, otherwise) => {
            let cond = eval_expression(condition, env, lib, out, f);
            if is_error(&cond) {
                return cond;
            }
            if is_truthy(&cond) {
                let r = eval(then_stmt, env, lib, out, f);
                proof {
                    let m = eval_expr_m(expression.model(), old(env).model(), fuel as nat);
                    assert(out_model(out@) =~= out0 + m.out);
                }
                r
            } else {
                match otherwise {
                    Some(other_stmt) => {
                        let r = eval(other_stmt, env, lib, out, f);
                        proof {
                            let m = eval_expr_m(expression.model(), old(env).model(), fuel as nat);
                            assert(out_model(out@) =~= out0 + m.out);
                        }
                        r
                    },
                    None => ChaiObject::Null,
                }
            }
        },
        Expression::While(condition, body) => eval_while(condition, body, env, lib, out, f),
        Expression::Ident(name) => {
            proof {
                assert(out_model(out@) =~= out0 + Seq::<Seq<char>>::empty());
            }
            match env.get(name.as_str()) {
                Some(value) => value,
                None => {
                    match lib.get(name.as_str()) {
                        Some(buildin) => ChaiObject::BuildinFunction(buildin),
                        None => {
                            let mut msg = "Variable : ".to_owned();
                            msg.append(name.as_str());
                            msg.append(" not found");
                            ChaiObject::Error(msg)
                        },
                    }
                },
            }
        },
        Expression::Function(parameters, body) => {
            proof {
                assert(out_model(out@) =~= out0 + Seq::<Seq<char>>::empty());
            }
            ChaiObject::Function(
                Function(
                    crate::expression::duplicate_params(parameters),
                    body.duplicate(),
                    Box::new(env.duplicate()),
                ),
            )
        },
        Expression::FunctionCall(callee, args) => {
            let function = eval_expression(callee, env, lib, out, f);
            if is_error(&function) {
                return function;
            }
            match eval_expressions(args, 0, Vec::new(), env, lib, out, f) {
                Err(e) => {
                    proof {
                        let m = eval_expr_m(expression.model(), old(env).model(), fuel as nat);
                        assert(out_model(out@) =~= out0 + m.out);
                    }
                    e
                },
                Ok(values) => {
                    let r = apply_function(function, values, env, lib, out, f);
                    proof {
                        let m = eval_expr_m(expression.model(), old(env).model(), fuel as nat);
                        assert(out_model(out@) =~= out0 + m.out);
                    }
                    r
                },
            }
        },
        Expression::Array(elements) => {
            match eval_expressions(elements, 0, Vec::new(), env, lib, out, f) {
                Err(e) => e,
                Ok(values) => ChaiObject::Array(values),
            }
        },
        Expression::ArrayIndex(array_expr, index_expr) => {
            let array = eval_expression(array_expr, env, lib, out, f);
            if is_error(&array) {
                return array;
            }
            let index = eval_expression(index_expr, env, lib, out, f);
            proof {
                let m = eval_expr_m(expression.model(), old(env).model(), fuel as nat);
                assert(out_model(out@) =~= out0 + m.out);
            }
            if is_error(&index) {
                return index;
            }
            eval_array_index_expression(array, index)
        },
    }
}

/// A `while` loop, condition re-evaluated each iteration; `Return` and
/// `Error` from the body propagate out.
fn eval_while(
    condition: &Expression,
    body: &Statement,
    env: &mut Enviornment,
    lib: &Std,
    out: &mut Vec<String>,
    fuel: u64,
) -> (r: ChaiObject)
    ensures
        ({
            let m = eval_while_m(condition.model(), body.model(), old(env).model(), fuel as nat);
            &&& r.model() == m.v
            &&& final(env).model() == m.env
            &&& out_model(final(out)@) == out_model(old(out)@) + m.out
        }),
    decreases fuel,
{
    let ghost out0 = out_model(out@);
    if fuel == 0 {
        proof {
            assert(out_model(out@) =~= out0 + Seq::<Seq<char>>::empty());
        }
        return error("evaluation fuel exhausted");
    }
    let f = fuel - 1;
    let cond = eval_expression(condition, env, lib, out, f);
    if is_error(&cond) {
        return cond;
    }
    if !is_truthy(&cond) {
        return ChaiObject::Null;
    }
    let body_value = eval(body, env, lib, out, f);
    let stop = match &body_value {
        ChaiObject::Return(_) => true,
        ChaiObject::Error(_) => true,
        _ => false,
    };
    if stop {
        proof {
            let m = eval_while_m(condition.model(), body.model(), old(env).model(), fuel as nat);
            assert(out_model(out@) =~= out0 + m.out);
        }
        return body_value;
    }
    let r = eval_while(condition, body, env, lib, out, f);
    proof {
        let m = eval_while_m(condition.model(), body.model(), old(env).model(), fuel as nat);
        assert(out_model(out@) =~= out0 + m.out);
    }
    r
}

/// Evaluate one statement against an environment and the built-in table.
/// The result is exactly what the specification-level evaluator gives: the
/// same value, the same environment afterwards, and the same lines of
/// output appended.
pub fn eval(
    statement: &Statement,
    env: &mut Enviornment,
    lib: &Std,
    out: &mut Vec<String>,
    fuel: u64,
) -> (r: ChaiObject)
    ensures
        ({
            let m = eval_stmt_m(statement.model(), old(env).model(), fuel as nat);
            &&& r.model() == m.v
            &&& final(env).model() == m.env
            &&& out_model(final(out)@) == out_model(old(out)@) + m.out
        }),
    decreases fuel,
{
    let ghost out0 = out_model(out@);
    if fuel == 0 {
        proof {
            assert(out_model(out@) =~= out0 + Seq::<Seq<char>>::empty());
        }
        return error("evaluation fuel exhausted");
    }
    let f = fuel - 1;
    match statement {
        Statement::Program(statements) => eval_program(statements, 0, ChaiObject::Null, env, lib, out, f),
        Statement::BlockStatement(statements) => eval_block_statment(
            statements,
            0,
            ChaiObject::Null,
            env,
            lib,
            out,
            f,
        ),
        Statement::ExpressionStatement(inner) => eval_expression(inner, env, lib, out, f),
        Statement::Return(inner) => {
            let value = eval_expression(inner, env, lib, out, f);
            if is_error(&value) {
                return value;
            }
            ChaiObject::Return(Box::new(value))
        },
        Statement::Let(name, inner) => {
            let value = eval_expression(inner, env, lib, out, f);
            if is_error(&value) {
                return value;
            }
            env.set(name.as_str(), value.duplicate());
            value
        },
        Statement::Reassignment(name, inner) => {
            let value = eval_expression(inner, env, lib, out, f);
            if is_error(&value) {
                return value;
            }
            env.set(name.as_str(), value.duplicate());
            value
        },
    }
}

/// Block evaluation from statement `i` on: `Return` and `Error` stop and
/// propagate; a `Print` line is written and consumed.
fn eval_block_statment(
    statements: &Vec<Statement>,
    i: usize,
    last: ChaiObject,
    env: &mut Enviornment,
    lib: &Std,
    out: &mut Vec<String>,
    fuel: u64,
) -> (r: ChaiObject)
    ensures
        ({
            let m = eval_block_stmts_m(
                crate::statement::stmts_model(statements@),
                i as int,
                last.model(),
                old(env).model(),
                fuel as nat,
            );
            &&& r.model() == m.v
            &&& final(env).model() == m.env
            &&& out_model(final(out)@) == out_model(old(out)@) + m.out
        }),
    decreases fuel,
{
    let ghost out0 = out_model(out@);
    if fuel == 0 {
        proof {
            assert(out_model(out@) =~= out0 + Seq::<Seq<char>>::empty());
        }
        return error("evaluation fuel exhausted");
    }
    if i >= statements.len() {
        proof {
            assert(out_model(out@) =~= out0 + Seq::<Seq<char>>::empty());
        }
        return last;
    }
    let f = fuel - 1;
    proof {
        assert(crate::statement::stmts_model(statements@)[i as int] == statements@[
            i as int
        ].model());
    }
    let result = eval(&statements[i], env, lib, out, f);
    match result {
        ChaiObject::Return(v) => ChaiObject::Return(v),
        ChaiObject::Error(e) => ChaiObject::Error(e),
        ChaiObject::Print(p) => {
            let ghost pm = p@;
            let ghost out1 = out_model(out@);
            out.push(p);
            proof {
                assert(out_model(out@) =~= out1.push(pm));
            }
            let ghost out2 = out_model(out@);
            let r = eval_block_statment(statements, i + 1, ChaiObject::Null, env, lib, out, f);
            proof {
                let ss = crate::statement::stmts_model(statements@);
                let env0 = old(env).model();
                let r1 = eval_stmt_m(ss[i as int], env0, f as nat);
                let rest_m = eval_block_stmts_m(ss, i as int + 1, ValM::Null, r1.env, f as nat);
                let m = eval_block_stmts_m(ss, i as int, last.model(), env0, fuel as nat);
                assert(m.out == r1.out + seq![pm] + rest_m.out);
                assert(out2 =~= (out0 + r1.out).push(pm));
                assert(out2 =~= out0 + r1.out + seq![pm]);
                assert(out_model(out@) =~= out2 + rest_m.out);
                assert(out_model(out@) =~= out0 + m.out);
            }
            r
        },
        other => {
            let r = eval_block_statment(statements, i + 1, other, env, lib, out, f);
            proof {
                let ss = crate::statement::stmts_model(statements@);
                let env0 = old(env).model();
                let r1 = eval_stmt_m(ss[i as int], env0, f as nat);
                let rest_m = eval_block_stmts_m(ss, i as int + 1, r1.v, r1.env, f as nat);
                let m = eval_block_stmts_m(ss, i as int, last.model(), env0, fuel as nat);
                assert(m.out == r1.out + rest_m.out);
                assert(out_model(out@) =~= out0 + m.out);
            }
            r
        },
    }
}

/// Program evaluation: as a block, except that a `Return` unwraps to its
/// inner value at the top.
fn eval_program(
    statements: &Vec<Statement>,
    i: usize,
    last: ChaiObject,
    env: &mut Enviornment,
    lib: &Std,
    out: &mut Vec<String>,
    fuel: u64,
) -> (r: ChaiObject)
    ensures
        ({
            let m = eval_prog_stmts_m(
                crate::statement::stmts_model(statements@),
                i as int,
                last.model(),
                old(env).model(),
                fuel as nat,
            );
            &&& r.model() == m.v
            &&& final(env).model() == m.env
            &&& out_model(final(out)@) == out_model(old(out)@) + m.out
        }),
    decreases fuel,
{
    let ghost out0 = out_model(out@);
    if fuel == 0 {
        proof {
            assert(out_model(out@) =~= out0 + Seq::<Seq<char>>::empty());
        }
        return error("evaluation fuel exhausted");
    }
    if i >= statements.len() {
        proof {
            assert(out_model(out@) =~= out0 + Seq::<Seq<char>>::empty());
        }
        return last;
    }
    let f = fuel - 1;
    proof {
        assert(crate::statement::stmts_model(statements@)[i as int] == statements@[
            i as int
        ].model());
    }
    let result = eval(&statements[i], env, lib, out, f);
    match result {
        ChaiObject::Return(v) => *v,
        ChaiObject::Error(e) => ChaiObject::Error(e),
        ChaiObject::Print(p) => {
            let ghost pm = p@;
            let ghost out1 = out_model(out@);
            out.push(p);
            proof {
                assert(out_model(out@) =~= out1.push(pm));
            }
            let ghost out2 = out_model(out@);
            let r = eval_program(statements, i + 1, ChaiObject::Null, env, lib, out, f);
            proof {
                let ss = crate::statement::stmts_model(statements@);
                let env0 = old(env).model();
                let r1 = eval_stmt_m(ss[i as int], env0, f as nat);
                let rest_m = eval_prog_stmts_m(ss, i as int + 1, ValM::Null, r1.env, f as nat);
                let m = eval_prog_stmts_m(ss, i as int, last.model(), env0, fuel as nat);
                assert(m.out == r1.out + seq![pm] + rest_m.out);
                assert(out2 =~= (out0 + r1.out).push(pm));
                assert(out2 =~= out0 + r1.out + seq![pm]);
                assert(out_model(out@) =~= out2 + rest_m.out);
                assert(out_model(out@) =~= out0 + m.out);
            }
            r
        },
        other => {
            let r = eval_program(statements, i + 1, other, env, lib, out, f);
            proof {
                let ss = crate::statement::stmts_model(statements@);
                let env0 = old(env).model();
                let r1 = eval_stmt_m(ss[i as int], env0, f as nat);
                let rest_m = eval_prog_stmts_m(ss, i as int + 1, r1.v, r1.env, f as nat);
                let m = eval_prog_stmts_m(ss, i as int, last.model(), env0, fuel as nat);
                assert(m.out == r1.out + rest_m.out);
                assert(out_model(out@) =~= out0 + m.out);
            }
            r
        },
    }
}


} // verus!
