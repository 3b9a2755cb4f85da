//! Properties that hold of every program and every environment.

use vstd::prelude::*;
use crate::error::ErrorModel;
use crate::model::{ExprModel, StatementModel};
use crate::semantics::{
    BindingModel, Frame, env_insert, eval_args, eval_expr, eval_statement, eval_statement_inner,
    find_last, frame_get, frame_insert, lemma_frame_get_bound, lookup, params_frame,
    statement_result,
};
use crate::val::Val;

verus! {

pub proof fn lemma_frame_insert_get(f: Frame, name: Seq<char>, b: BindingModel)
    ensures
        frame_get(frame_insert(f, name, b), name) == Some(b),
    decreases f.len(),
{
    lemma_frame_get_bound(f, name);
    let g = frame_insert(f, name, b);
    let i = find_last(f, name);
    if 0 <= i {
        assert(g.len() == f.len());
        if i == f.len() - 1 {
            assert(g.last().0 == name);
        } else {
            assert(g.last() == f.last());
            assert(find_last(f.drop_last(), name) == i);
            assert(g.drop_last() =~= frame_insert(f.drop_last(), name, b));
            lemma_frame_insert_get(f.drop_last(), name, b);
        }
    } else {
        assert(g.last() == (name, b));
        assert(g.drop_last() =~= f);
    }
}

/// No name has two entries in `f`.
pub open spec fn names_unique(f: Frame) -> bool {
    forall|i: int, j: int| 0 <= i < j < f.len() ==> #[trigger] f[i].0 != #[trigger] f[j].0
}

pub proof fn lemma_find_last_absent(f: Frame, name: Seq<char>)
    requires
        find_last(f, name) == -1,
    ensures
        forall|j: int| 0 <= j < f.len() ==> #[trigger] f[j].0 != name,
    decreases f.len(),
{
    if f.len() > 0 {
        lemma_find_last_absent(f.drop_last(), name);
        assert forall|j: int| 0 <= j < f.len() implies #[trigger] f[j].0 != name by {
            if j < f.len() - 1 {
                assert(f[j] == f.drop_last()[j]);
            }
        }
    }
}

/// Binding a name in a scope keeps the names of the scope unique: binding a
/// name again replaces its entry, and the name then yields the new binding.
pub proof fn law_insert_keeps_names_unique(f: Frame, name: Seq<char>, b: BindingModel)
    requires
        names_unique(f),
    ensures
        names_unique(frame_insert(f, name, b)),
        frame_get(frame_insert(f, name, b), name) == Some(b),
{
    lemma_frame_get_bound(f, name);
    lemma_frame_insert_get(f, name, b);
    let g = frame_insert(f, name, b);
    let k = find_last(f, name);
    if k < 0 {
        lemma_find_last_absent(f, name);
        assert forall|i: int, j: int| 0 <= i < j < g.len() implies #[trigger] g[i].0
            != #[trigger] g[j].0 by {
            if j == f.len() {
                assert(g[i] == f[i]);
            } else {
                assert(g[i] == f[i] && g[j] == f[j]);
            }
        }
    } else {
        assert forall|i: int, j: int| 0 <= i < j < g.len() implies #[trigger] g[i].0
            != #[trigger] g[j].0 by {
            assert(g[i].0 == f[i].0 && g[j].0 == f[j].0);
        }
    }
}

/// After `let name = e` in an environment, `name` evaluates to the value of
/// `e` there and in every nested scope that does not bind `name` again.
pub proof fn law_binding_visible(name: Seq<char>, e: ExprModel, env: Seq<Frame>, nested: Frame)
    requires
        env.len() >= 1,
        eval_expr(e, env) is Ok,
        frame_get(nested, name) is None,
    ensures
        eval_statement(StatementModel::BindingDef(name, e), env).0 == Ok::<Val, ErrorModel>(
            Val::Empty,
        ),
        eval_expr(ExprModel::BindingUsage(name), eval_statement(StatementModel::BindingDef(name, e), env).1)
            == eval_expr(e, env),
        eval_expr(
            ExprModel::BindingUsage(name),
            seq![nested] + eval_statement(StatementModel::BindingDef(name, e), env).1,
        ) == eval_expr(e, env),
{
    let v = eval_expr(e, env)->Ok_0;
    let after = env_insert(env, name, BindingModel::Value(v));
    lemma_frame_insert_get(env[0], name, BindingModel::Value(v));
    assert(after[0] == frame_insert(env[0], name, BindingModel::Value(v)));
    let child = seq![nested] + after;
    assert(child.drop_first() =~= after);
}

/// A binding made in a nested scope is seen neither by the scope that
/// encloses it nor by a sibling scope that does not bind the name itself:
/// there the name is unknown.
pub proof fn law_binding_not_outside(
    name: Seq<char>,
    e: ExprModel,
    frame: Frame,
    parent: Seq<Frame>,
    sibling: Frame,
)
    requires
        lookup(parent, name) is None,
        frame_get(sibling, name) is None,
    ensures
        eval_statement(StatementModel::BindingDef(name, e), seq![frame] + parent).1.drop_first()
            == parent,
        eval_expr(ExprModel::BindingUsage(name), parent) == Err::<Val, ErrorModel>(
            ErrorModel::UnknownBinding(name),
        ),
        eval_expr(ExprModel::BindingUsage(name), seq![sibling] + parent) == Err::<Val, ErrorModel>(
            ErrorModel::UnknownBinding(name),
        ),
{
    let env = seq![frame] + parent;
    assert(env.drop_first() =~= parent);
    if let Ok(v) = eval_expr(e, env) {
        let after = env_insert(env, name, BindingModel::Value(v));
        assert(after.drop_first() =~= parent);
    }
    assert((seq![sibling] + parent).drop_first() =~= parent);
}

/// An expression statement, a block among them, leaves the environment it
/// runs in as it was: names bound inside a block are gone after it.
pub proof fn law_expression_keeps_env(e: ExprModel, env: Seq<Frame>, name: Seq<char>)
    requires
        lookup(env, name) is None,
    ensures
        eval_statement(StatementModel::Expr(e), env).1 == env,
        eval_expr(ExprModel::BindingUsage(name), eval_statement(StatementModel::Expr(e), env).1)
            == Err::<Val, ErrorModel>(ErrorModel::UnknownBinding(name)),
{
}

/// A call with more or fewer arguments than the function has parameters
/// fails with an arity mismatch naming both counts.
pub proof fn law_arity_mismatch(
    name: Seq<char>,
    params: Seq<Seq<char>>,
    body: StatementModel,
    args: Seq<ExprModel>,
    env: Seq<Frame>,
)
    requires
        lookup(env, name) == Some(BindingModel::Function(params, body)),
        params.len() != args.len(),
    ensures
        eval_expr(ExprModel::FuncCall(name, args), env) == Err::<Val, ErrorModel>(
            ErrorModel::ArityMismatch { name, expected: params.len(), found: args.len() },
        ),
{
}

/// A call with as many arguments as parameters, whose arguments evaluate,
/// runs the body with each parameter bound to its argument, and nothing else.
pub proof fn law_arity_match(
    name: Seq<char>,
    params: Seq<Seq<char>>,
    body: StatementModel,
    args: Seq<ExprModel>,
    env: Seq<Frame>,
    vals: Seq<Val>,
)
    requires
        lookup(env, name) == Some(BindingModel::Function(params, body)),
        params.len() == args.len(),
        eval_args(args, 0, env) == Ok::<Seq<Val>, ErrorModel>(vals),
    ensures
        eval_expr(ExprModel::FuncCall(name, args), env) == match eval_statement_inner(
            body,
            seq![params_frame(params, vals, params.len() as int)],
        ) {
            Ok(v) => Ok(statement_result(body, v)),
            Err(x) => Err(x),
        },
{
}

} // verus!
