use vstd::math::max;
use vstd::prelude::*;

use crate::env::Env;
use crate::error::{Error, ErrorModel, outcome};
use crate::expr::Expr;
use crate::grammar::{read_args, read_call, read_expr};
use crate::model::{ExprModel, expr_size, expr_view, exprs_view, lemma_exprs_size, lemma_exprs_view, names_view};
use crate::semantics::{
    BindingModel, env_bound, eval_args, eval_expr, lemma_lookup_bound, lemma_params_frame_bound,
    lookup, params_frame,
};
use crate::utils::{CharClass, extract_iden, take_while};
use crate::val::Val;

verus! {

/// A call of a named function on argument expressions.
#[derive(Debug, PartialEq)]
pub struct FuncCall {
    pub name: String,
    pub args: Vec<Expr>,
}

impl View for FuncCall {
    type V = ExprModel;

    open spec fn view(&self) -> ExprModel {
        ExprModel::FuncCall(self.name@, exprs_view(self.args@, self.args@.len() as int))
    }
}

/// A copy of each expression of `v`.
pub fn clone_exprs(v: &Vec<Expr>) -> (r: Vec<Expr>)
    ensures
        exprs_view(r@, r@.len() as int) == exprs_view(v@, v@.len() as int),
    decreases v,
{
    let mut r: Vec<Expr> = Vec::new();
    let mut i: usize = 0;
    while i < v.len()
        invariant
            i <= v@.len(),
            r@.len() == i,
            forall|j: int| 0 <= j < i ==> expr_view(#[trigger] r@[j]) == expr_view(v@[j]),
        decreases v@.len() - i,
    {
        assert(decreases_to!(v => v@[i as int]));
        r.push(v[i].clone());
        i = i + 1;
    }
    proof {
        lemma_exprs_view(r@, r@.len() as int);
        lemma_exprs_view(v@, v@.len() as int);
        assert(exprs_view(r@, r@.len() as int) =~= exprs_view(v@, v@.len() as int));
    }
    r
}

impl FuncCall {
    /// Calls the function: looks it up in `env`, checks the number of
    /// arguments, evaluates them in `env` from left to right, and runs the body
    /// in a fresh environment that binds each parameter to its argument and
    /// nothing else.
    pub fn eval(&self, env: &Env) -> (r: Result<Val, Error>)
        ensures
            outcome(r) == eval_expr(self@, env@),
        decreases max(env_bound(env@) as int, expr_size(self@) as int), expr_size(self@), 0nat,
    {
        let ghost args = exprs_view(self.args@, self.args@.len() as int);
        let (params, body) = match env.get_binding_function(self.name.as_str()) {
            Ok(p) => p,
            Err(e) => return Err(e),
        };
        proof {
            lemma_exprs_view(self.args@, self.args@.len() as int);
            lemma_lookup_bound(env@, self.name@);
        }
        if params.len() != self.args.len() {
            return Err(
                Error::ArityMismatch {
                    name: self.name.clone(),
                    expected: params.len(),
                    found: self.args.len(),
                },
            );
        }
        let mut input_values: Vec<Val> = Vec::new();
        let mut i: usize = 0;
        while i < self.args.len()
            invariant
                args == exprs_view(self.args@, self.args@.len() as int),
                args.len() == self.args@.len(),
                forall|j: int| 0 <= j < args.len() ==> #[trigger] args[j] == self.args@[j]@,
                lookup(env@, self.name@) == Some(
                    BindingModel::Function(names_view(params@), body@),
                ),
                params@.len() == args.len(),
                i <= args.len(),
                input_values@.len() == i,
                eval_args(args, 0, env@) == match eval_args(args, i as int, env@) {
                    Ok(vs) => Ok(input_values@ + vs),
                    Err(x) => Err(x),
                },
            decreases args.len() - i,
        {
            proof {
                lemma_exprs_size(args, 0, i as int);
            }
            let ghost before = input_values@;
            match self.args[i].eval(env) {
                Ok(v) => {
                    input_values.push(v);
                    proof {
                        match eval_args(args, i + 1, env@) {
                            Ok(vs) => {
                                assert(before + (seq![v] + vs) =~= input_values@ + vs);
                            },
                            Err(_) => {},
                        }
                    }
                },
                Err(e) => {
                    assert(eval_args(args, i as int, env@) == Err::<Seq<Val>, ErrorModel>(e@));
                    return Err(e);
                },
            }
            i = i + 1;
        }
        assert(input_values@ + Seq::<Val>::empty() =~= input_values@);
        let ghost pnames = names_view(params@);
        let mut function_env = Env::new();
        let mut j: usize = 0;
        while j < params.len()
            invariant
                pnames == names_view(params@),
                j <= params@.len(),
                params@.len() == input_values@.len(),
                function_env@ == seq![params_frame(pnames, input_values@, j as int)],
            decreases params@.len() - j,
        {
            function_env.insert_binding(params[j].clone(), input_values[j]);
            j = j + 1;
        }
        proof {
            lemma_params_frame_bound(pnames, input_values@, params@.len() as int);
        }
        body.eval(&mut function_env)
    }
    /// Reads a name followed by one or more space-separated argument
    /// expressions.
    pub fn new(s: &str) -> (r: Result<(&str, FuncCall), Error>)
        ensures
            match r {
                Ok((rest, c)) => read_call(s@) == Some((rest@, c@)) && rest@.len() < s@.len(),
                Err(err) => read_call(s@) is None && err == Error::Syntax,
            },
        decreases s@.len(), 6nat,
    {
        let (s1, name) = match extract_iden(s) {
            Ok(p) => p,
            Err(e) => return Err(e),
        };
        let (start, _) = take_while(s1, CharClass::Space);
        let mut cur = start;
        let mut args: Vec<Expr> = Vec::new();
        loop
            invariant
                cur@.len() <= start@.len(),
                start@.len() < s@.len(),
                read_args(start@) == (
                    exprs_view(args@, args@.len() as int) + read_args(cur@).0,
                    read_args(cur@).1,
                ),
            ensures
                read_expr(cur@) is None,
            decreases cur@.len(),
        {
            match Expr::new(cur) {
                Ok((rest, arg)) => {
                    let ghost old_args = args@;
                    let ghost old_cur = cur@;
                    args.push(arg);
                    let (next, _) = take_while(rest, CharClass::Space);
                    cur = next;
                    proof {
                        lemma_exprs_view(old_args, old_args.len() as int);
                        lemma_exprs_view(args@, args@.len() as int);
                        assert(args@[old_args.len() as int] == arg);
                        assert(exprs_view(args@, args@.len() as int) =~= exprs_view(
                            old_args,
                            old_args.len() as int,
                        ).push(arg@));
                        assert(read_expr(old_cur) == Some((rest@, arg@)));
                        assert(read_args(old_cur).0 =~= seq![arg@] + read_args(cur@).0);
                        assert(exprs_view(args@, args@.len() as int) + read_args(cur@).0
                            =~= exprs_view(old_args, old_args.len() as int) + read_args(
                            old_cur,
                        ).0);
                    }
                },
                Err(_) => {
                    assert(read_args(cur@).0 =~= Seq::<ExprModel>::empty());
                    assert(exprs_view(args@, args@.len() as int) + read_args(cur@).0
                        =~= exprs_view(args@, args@.len() as int));
                    break;
                },
            }
        }
        proof {
            lemma_exprs_view(args@, args@.len() as int);
        }
        if args.len() == 0 {
            return Err(Error::Syntax);
        }
        Ok((cur, FuncCall { name: name.to_string(), args }))
    }
}

} // verus!
