//! What evaluation means: environments as sequences of frames, and
//! evaluation as a function from syntax and environment to a result.

use vstd::prelude::*;
use vstd::math::max;
use crate::error::ErrorModel;
use crate::expr::Op;
use crate::model::{ExprModel, StatementModel, expr_size, exprs_size, statement_size, statements_size};
use crate::val::Val;

verus! {

/// What a name is bound to.
pub enum BindingModel {
    Value(Val),
    Function(Seq<Seq<char>>, StatementModel),
}

/// One scope: names with their bindings. Lookups find the last entry of a
/// name.
pub type Frame = Seq<(Seq<char>, BindingModel)>;

/// Index of the last entry of `name` in `f`, or -1.
pub open spec fn find_last(f: Frame, name: Seq<char>) -> int
    decreases f.len(),
{
    if f.len() == 0 {
        -1
    } else if f.last().0 == name {
        f.len() - 1
    } else {
        find_last(f.drop_last(), name)
    }
}

pub open spec fn frame_get(f: Frame, name: Seq<char>) -> Option<BindingModel> {
    let i = find_last(f, name);
    if 0 <= i < f.len() {
        Some(f[i].1)
    } else {
        None
    }
}

/// `f` with `name` bound to `b`, replacing its last entry if it has one.
pub open spec fn frame_insert(f: Frame, name: Seq<char>, b: BindingModel) -> Frame {
    let i = find_last(f, name);
    if 0 <= i < f.len() {
        f.update(i, (name, b))
    } else {
        f.push((name, b))
    }
}

/// The binding of `name` in the innermost frame (the first) that has one.
pub open spec fn lookup(env: Seq<Frame>, name: Seq<char>) -> Option<BindingModel>
    decreases env.len(),
{
    if env.len() == 0 {
        None
    } else {
        match frame_get(env[0], name) {
            Some(b) => Some(b),
            None => lookup(env.drop_first(), name),
        }
    }
}

/// `env` with `name` bound to `b` in its innermost frame.
pub open spec fn env_insert(env: Seq<Frame>, name: Seq<char>, b: BindingModel) -> Seq<Frame> {
    if env.len() == 0 {
        seq![frame_insert(Seq::empty(), name, b)]
    } else {
        env.update(0, frame_insert(env[0], name, b))
    }
}

/// The frame of a call: each parameter bound to its argument, in order.
pub open spec fn params_frame(params: Seq<Seq<char>>, vals: Seq<Val>, n: int) -> Frame
    decreases n,
{
    if n <= 0 || n > params.len() || n > vals.len() {
        Seq::empty()
    } else {
        frame_insert(params_frame(params, vals, n - 1), params[n - 1], BindingModel::Value(vals[n - 1]))
    }
}

pub open spec fn binding_bound(b: BindingModel) -> nat {
    match b {
        BindingModel::Value(_) => 0,
        BindingModel::Function(_, body) => statement_size(body) + 1,
    }
}

/// Exceeds the size of every function body bound in `f`.
pub open spec fn frame_bound(f: Frame) -> nat
    decreases f.len(),
{
    if f.len() == 0 {
        0
    } else {
        max(frame_bound(f.drop_last()) as int, binding_bound(f.last().1) as int) as nat
    }
}

/// Exceeds the size of every function body bound in `env`. A call runs its
/// body in a frame that holds values only, so this bounds how deep calls nest.
pub open spec fn env_bound(env: Seq<Frame>) -> nat
    decreases env.len(),
{
    if env.len() == 0 {
        0
    } else {
        max(frame_bound(env[0]) as int, env_bound(env.drop_first()) as int) as nat
    }
}

/// Division that truncates toward zero.
pub open spec fn trunc_div(a: int, b: int) -> int {
    let q: int = vstd::math::abs(a) as int / vstd::math::abs(b) as int;
    if (a < 0) == (b < 0) {
        q
    } else {
        -q
    }
}

pub open spec fn number_in_range(x: int) -> Result<Val, ErrorModel> {
    if i32::MIN <= x <= i32::MAX {
        Ok(Val::Number(x as i32))
    } else {
        Err(ErrorModel::Overflow)
    }
}

/// `a op b` on 32-bit integers: a result outside `i32` is an overflow, and
/// a division by zero is an error of its own.
pub open spec fn arith(op: Op, a: i32, b: i32) -> Result<Val, ErrorModel> {
    match op {
        Op::Addition => number_in_range(a + b),
        Op::Substraction => number_in_range(a - b),
        Op::Multiplication => number_in_range(a * b),
        Op::Division => if b == 0 {
            Err(ErrorModel::DivisionByZero)
        } else {
            number_in_range(trunc_div(a as int, b as int))
        },
    }
}

/// The value a statement yields, given the value of the expression inside it.
pub open spec fn statement_result(s: StatementModel, v: Val) -> Val {
    match s {
        StatementModel::Expr(_) => v,
        _ => Val::Empty,
    }
}

/// The environment after a statement, given the value of the expression
/// inside it.
pub open spec fn statement_effect(s: StatementModel, env: Seq<Frame>, v: Val) -> Seq<Frame> {
    match s {
        StatementModel::Expr(_) => env,
        StatementModel::BindingDef(name, _) => env_insert(env, name, BindingModel::Value(v)),
        StatementModel::FuncDef(name, params, body) => env_insert(
            env,
            name,
            BindingModel::Function(params, *body),
        ),
    }
}

pub open spec fn eval_expr(e: ExprModel, env: Seq<Frame>) -> Result<Val, ErrorModel>
    decreases max(env_bound(env) as int, expr_size(e) as int), expr_size(e), 0nat,
{
    match e {
        ExprModel::Number(n) => Ok(Val::Number(n)),
        ExprModel::Operation { lhs, rhs, op } => match eval_expr(*lhs, env) {
            Err(x) => Err(x),
            Ok(l) => match eval_expr(*rhs, env) {
                Err(x) => Err(x),
                Ok(r) => match (l, r) {
                    (Val::Number(a), Val::Number(b)) => arith(op, a, b),
                    _ => Err(ErrorModel::TypeMismatch),
                },
            },
        },
        ExprModel::Block(ss) => {
            proof {
                lemma_push_frame_bound(env);
            }
            eval_block(ss, 0, seq![Seq::empty()] + env, Val::Empty)
        },
        ExprModel::BindingUsage(name) => match lookup(env, name) {
            None => Err(ErrorModel::UnknownBinding(name)),
            Some(BindingModel::Value(v)) => Ok(v),
            Some(BindingModel::Function(_, _)) => Err(ErrorModel::NotAValue),
        },
        ExprModel::FuncCall(name, args) => match lookup(env, name) {
            None => Err(ErrorModel::UnknownBinding(name)),
            Some(BindingModel::Value(_)) => Err(ErrorModel::NotAFunction),
            Some(BindingModel::Function(params, body)) => if params.len() != args.len() {
                Err(
                    ErrorModel::ArityMismatch {
                        name,
                        expected: params.len(),
                        found: args.len(),
                    },
                )
            } else {
                match eval_args(args, 0, env) {
                    Err(x) => Err(x),
                    Ok(vals) => {
                        let call_env = seq![params_frame(params, vals, params.len() as int)];
                        proof {
                            lemma_lookup_bound(env, name);
                            lemma_params_frame_bound(params, vals, params.len() as int);
                        }
                        match eval_statement_inner(body, call_env) {
                            Err(x) => Err(x),
                            Ok(v) => Ok(statement_result(body, v)),
                        }
                    },
                }
            },
        },
    }
}

/// The values of the arguments from index `i` on, left to right.
pub open spec fn eval_args(args: Seq<ExprModel>, i: int, env: Seq<Frame>) -> Result<
    Seq<Val>,
    ErrorModel,
>
    decreases max(env_bound(env) as int, exprs_size(args, i) as int), exprs_size(args, i), 1nat,
{
    if 0 <= i < args.len() {
        match eval_expr(args[i], env) {
            Err(x) => Err(x),
            Ok(v) => {
                proof {
                    assert(expr_size(args[i]) >= 1) by {
                        reveal_with_fuel(expr_size, 1);
                    }
                }
                match eval_args(args, i + 1, env) {
                    Err(x) => Err(x),
                    Ok(vs) => Ok(seq![v] + vs),
                }
            },
        }
    } else {
        Ok(Seq::empty())
    }
}

/// The value of the expression inside a statement (`Empty` for a function
/// definition).
pub open spec fn eval_statement_inner(s: StatementModel, env: Seq<Frame>) -> Result<Val, ErrorModel>
    decreases max(env_bound(env) as int, statement_size(s) as int), statement_size(s), 0nat,
{
    match s {
        StatementModel::Expr(e) => eval_expr(e, env),
        StatementModel::BindingDef(_, e) => eval_expr(e, env),
        StatementModel::FuncDef(_, _, _) => Ok(Val::Empty),
    }
}

/// Runs the statements of a block from index `i` on; `last` is the value of
/// the statement before. The result is the value of the last statement.
pub open spec fn eval_block(ss: Seq<StatementModel>, i: int, env: Seq<Frame>, last: Val) -> Result<
    Val,
    ErrorModel,
>
    decreases max(env_bound(env) as int, statements_size(ss, i) as int), statements_size(ss, i),
        1nat,
{
    if 0 <= i < ss.len() {
        match eval_statement_inner(ss[i], env) {
            Err(x) => Err(x),
            Ok(v) => {
                proof {
                    lemma_effect_bound(ss[i], env, v);
                }
                eval_block(ss, i + 1, statement_effect(ss[i], env, v), statement_result(ss[i], v))
            },
        }
    } else {
        Ok(last)
    }
}

/// A statement's result and the environment after it; on an error the
/// environment is left as it was.
pub open spec fn eval_statement(s: StatementModel, env: Seq<Frame>) -> (Result<Val, ErrorModel>, Seq<Frame>) {
    match eval_statement_inner(s, env) {
        Ok(v) => (Ok(statement_result(s, v)), statement_effect(s, env, v)),
        Err(x) => (Err(x), env),
    }
}

pub proof fn lemma_frame_get_bound(f: Frame, name: Seq<char>)
    ensures
        frame_get(f, name) matches Some(b) ==> binding_bound(b) <= frame_bound(f),
        -1 <= find_last(f, name) < f.len(),
        0 <= find_last(f, name) ==> f[find_last(f, name)].0 == name,
    decreases f.len(),
{
    if f.len() > 0 && f.last().0 != name {
        lemma_frame_get_bound(f.drop_last(), name);
        let i = find_last(f, name);
        if 0 <= i {
            assert(f[i] == f.drop_last()[i]);
        }
    }
}

pub proof fn lemma_lookup_bound(env: Seq<Frame>, name: Seq<char>)
    ensures
        lookup(env, name) matches Some(b) ==> binding_bound(b) <= env_bound(env),
    decreases env.len(),
{
    if env.len() > 0 {
        lemma_frame_get_bound(env[0], name);
        lemma_lookup_bound(env.drop_first(), name);
    }
}

pub proof fn lemma_frame_insert_bound(f: Frame, name: Seq<char>, b: BindingModel)
    ensures
        frame_bound(frame_insert(f, name, b)) <= max(frame_bound(f) as int, binding_bound(b) as int),
    decreases f.len(),
{
    lemma_frame_get_bound(f, name);
    let i = find_last(f, name);
    if 0 <= i {
        if i == f.len() - 1 {
            assert(frame_insert(f, name, b).drop_last() =~= f.drop_last());
        } else {
            lemma_frame_insert_bound(f.drop_last(), name, b);
            assert(find_last(f.drop_last(), name) == i);
            assert(frame_insert(f, name, b).drop_last() =~= frame_insert(f.drop_last(), name, b));
        }
    } else {
        assert(frame_insert(f, name, b).drop_last() =~= f);
    }
}

pub proof fn lemma_env_insert_bound(env: Seq<Frame>, name: Seq<char>, b: BindingModel)
    ensures
        env_bound(env_insert(env, name, b)) <= max(env_bound(env) as int, binding_bound(b) as int),
{
    let e2 = env_insert(env, name, b);
    assert(env_bound(Seq::<Frame>::empty()) == 0);
    if env.len() == 0 {
        lemma_frame_insert_bound(Seq::empty(), name, b);
        assert(e2.drop_first() =~= Seq::<Frame>::empty());
        assert(frame_bound(Seq::<(Seq<char>, BindingModel)>::empty()) == 0);
    } else {
        lemma_frame_insert_bound(env[0], name, b);
        assert(e2.drop_first() =~= env.drop_first());
        assert(e2[0] == frame_insert(env[0], name, b));
    }
    assert(env_bound(e2) == max(frame_bound(e2[0]) as int, env_bound(e2.drop_first()) as int));
}

pub proof fn lemma_effect_bound(s: StatementModel, env: Seq<Frame>, v: Val)
    ensures
        env_bound(statement_effect(s, env, v)) <= max(env_bound(env) as int, statement_size(s) as int),
{
    match s {
        StatementModel::Expr(_) => {},
        StatementModel::BindingDef(name, _) => {
            lemma_env_insert_bound(env, name, BindingModel::Value(v));
        },
        StatementModel::FuncDef(name, params, body) => {
            lemma_env_insert_bound(env, name, BindingModel::Function(params, *body));
        },
    }
}

pub proof fn lemma_statement_bound(s: StatementModel, env: Seq<Frame>)
    ensures
        env_bound(eval_statement(s, env).1) <= max(env_bound(env) as int, statement_size(s) as int),
{
    if let Ok(v) = eval_statement_inner(s, env) {
        lemma_effect_bound(s, env, v);
    }
}

pub proof fn lemma_params_frame_bound(params: Seq<Seq<char>>, vals: Seq<Val>, n: int)
    ensures
        frame_bound(params_frame(params, vals, n)) == 0,
        env_bound(seq![params_frame(params, vals, n)]) == 0,
    decreases n,
{
    if !(n <= 0 || n > params.len() || n > vals.len()) {
        lemma_params_frame_bound(params, vals, n - 1);
        lemma_frame_insert_bound(params_frame(params, vals, n - 1), params[n - 1], BindingModel::Value(vals[n - 1]));
    }
    assert(seq![params_frame(params, vals, n)].drop_first() =~= Seq::<Frame>::empty());
    assert(env_bound(Seq::<Frame>::empty()) == 0);
}

pub proof fn lemma_push_frame_bound(env: Seq<Frame>)
    ensures
        env_bound(seq![Seq::empty()] + env) == env_bound(env),
{
    let e2 = seq![Seq::<(Seq<char>, BindingModel)>::empty()] + env;
    assert(e2.drop_first() =~= env);
    assert(frame_bound(Seq::<(Seq<char>, BindingModel)>::empty()) == 0);
}

} // verus!
