use vstd::math::max;
use vstd::prelude::*;

use crate::env::Env;
use crate::error::{Error, outcome};
use crate::grammar::{read_block, read_statement, read_statements};
use crate::model::{
    ExprModel, StatementModel, expr_size, lemma_statements_size, lemma_statements_view,
    statement_view, statements_view,
};
use crate::semantics::{env_bound, eval_block, lemma_push_frame_bound, lemma_statement_bound};
use crate::statement::Statement;
use crate::utils::{extract_whitespace, lemma_strip_char, strip_literal, tag};
use crate::val::Val;

verus! {

/// A brace-delimited sequence of statements, evaluated in a scope of its own.
#[derive(Debug, PartialEq)]
pub struct Block {
    pub exprs: Vec<Statement>,
}

impl View for Block {
    type V = Seq<StatementModel>;

    open spec fn view(&self) -> Seq<StatementModel> {
        statements_view(self.exprs@, self.exprs@.len() as int)
    }
}

/// A copy of each statement of `v`.
pub fn clone_statements(v: &Vec<Statement>) -> (r: Vec<Statement>)
    ensures
        statements_view(r@, r@.len() as int) == statements_view(v@, v@.len() as int),
    decreases v,
{
    let mut r: Vec<Statement> = Vec::new();
    let mut i: usize = 0;
    while i < v.len()
        invariant
            i <= v@.len(),
            r@.len() == i,
            forall|j: int| 0 <= j < i ==> statement_view(#[trigger] r@[j]) == statement_view(v@[j]),
        decreases v@.len() - i,
    {
        assert(decreases_to!(v => v@[i as int]));
        r.push(v[i].clone());
        i = i + 1;
    }
    proof {
        lemma_statements_view(r@, r@.len() as int);
        lemma_statements_view(v@, v@.len() as int);
        assert(statements_view(r@, r@.len() as int) =~= statements_view(v@, v@.len() as int));
    }
    r
}

impl Block {
    /// Runs the statements in order in a fresh scope enclosed by `env`, and
    /// yields the value of the last one (`Empty` when there is none).
    pub fn eval(&self, env: &Env) -> (r: Result<Val, Error>)
        ensures
            outcome(r) == eval_block(self@, 0, seq![Seq::empty()] + env@, Val::Empty),
        decreases max(env_bound(env@) as int, expr_size(ExprModel::Block(self@)) as int), expr_size(
            ExprModel::Block(self@),
        ), 0nat,
    {
        let ghost ss = self@;
        let mut block_env = Env::new().with_parent(env);
        let mut last = Val::Empty;
        let mut i: usize = 0;
        proof {
            lemma_statements_view(self.exprs@, self.exprs@.len() as int);
            lemma_push_frame_bound(env@);
            assert(block_env@ =~= seq![Seq::empty()] + env@);
        }
        while i < self.exprs.len()
            invariant
                ss == self@,
                ss.len() == self.exprs@.len(),
                forall|j: int| 0 <= j < ss.len() ==> #[trigger] ss[j] == self.exprs@[j]@,
                i <= ss.len(),
                eval_block(ss, 0, seq![Seq::empty()] + env@, Val::Empty) == eval_block(
                    ss,
                    i as int,
                    block_env@,
                    last,
                ),
                env_bound(block_env@) <= max(env_bound(env@) as int, expr_size(ExprModel::Block(ss)) as int),
            decreases ss.len() - i,
        {
            proof {
                lemma_statements_size(ss, 0, i as int);
                lemma_statement_bound(ss[i as int], block_env@);
            }
            match self.exprs[i].eval(&mut block_env) {
                Ok(v) => {
                    last = v;
                },
                Err(e) => {
                    return Err(e);
                },
            }
            i = i + 1;
        }
        Ok(last)
    }
    /// Reads `{`, whitespace-separated statements, and `}`.
    pub fn new(s: &str) -> (r: Result<(&str, Block), Error>)
        ensures
            match r {
                Ok((rest, b)) => read_block(s@) == Some((rest@, b@)) && rest@.len() < s@.len(),
                Err(err) => read_block(s@) is None && err == Error::Syntax,
            },
        decreases s@.len(), 3nat,
    {
        proof {
            reveal_strlit("{");
            reveal_strlit("}");
            assert("{"@ =~= seq!['{']);
            assert("}"@ =~= seq!['}']);
            lemma_strip_char(s@, '{');
        }
        let s1 = match tag(s, "{") {
            Ok(rest) => rest,
            Err(e) => return Err(e),
        };
        let (start, _) = extract_whitespace(s1);
        let mut cur = start;
        let mut exprs: Vec<Statement> = Vec::new();
        loop
            invariant
                cur@.len() <= start@.len(),
                start@.len() < s@.len(),
                read_statements(start@) == (
                    statements_view(exprs@, exprs@.len() as int) + read_statements(cur@).0,
                    read_statements(cur@).1,
                ),
            ensures
                read_statement(cur@) is None,
            decreases cur@.len(),
        {
            match Statement::new(cur) {
                Ok((rest, statement)) => {
                    let ghost old_exprs = exprs@;
                    let ghost old_cur = cur@;
                    exprs.push(statement);
                    let (next, _) = extract_whitespace(rest);
                    cur = next;
                    proof {
                        lemma_statements_view(old_exprs, old_exprs.len() as int);
                        lemma_statements_view(exprs@, exprs@.len() as int);
                        assert(exprs@[old_exprs.len() as int] == statement);
                        assert(statements_view(exprs@, exprs@.len() as int) =~= statements_view(
                            old_exprs,
                            old_exprs.len() as int,
                        ).push(statement@));
                        assert(read_statement(old_cur) == Some((rest@, statement@)));
                        assert(read_statements(old_cur).0 =~= seq![statement@] + read_statements(
                            cur@,
                        ).0);
                        assert(statements_view(exprs@, exprs@.len() as int) + read_statements(
                            cur@,
                        ).0 =~= statements_view(old_exprs, old_exprs.len() as int)
                            + read_statements(old_cur).0);
                    }
                },
                Err(_) => {
                    assert(read_statements(cur@).0 =~= Seq::<StatementModel>::empty());
                    assert(statements_view(exprs@, exprs@.len() as int) + read_statements(
                        cur@,
                    ).0 =~= statements_view(exprs@, exprs@.len() as int));
                    break;
                },
            }
        }
        proof {
            lemma_strip_char(cur@, '}');
            assert(read_statements(start@) == (statements_view(exprs@, exprs@.len() as int), cur@));
            assert(strip_literal(s@, seq!['{']) == Some(s1@));
        }
        match tag(cur, "}") {
            Ok(rest) => Ok((rest, Block { exprs })),
            Err(e) => Err(e),
        }
    }
}

} // verus!
