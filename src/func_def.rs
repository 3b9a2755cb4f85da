use vstd::prelude::*;

use crate::env::Env;
use crate::error::Error;
use crate::grammar::{arrow, fn_keyword, read_func_def, read_ident, read_params};
use crate::model::{StatementModel, names_view};
use crate::semantics::{BindingModel, env_insert};
use crate::statement::Statement;
use crate::utils::{extract_iden, extract_whitespace, extract_whitespace1, tag};
use crate::val::Val;

verus! {

/// `fn name params => body`.
#[derive(Debug, PartialEq)]
pub struct FuncDef {
    pub name: String,
    pub params: Vec<String>,
    pub body: Box<Statement>,
}

impl View for FuncDef {
    type V = StatementModel;

    open spec fn view(&self) -> StatementModel {
        StatementModel::FuncDef(self.name@, names_view(self.params@), Box::new(self.body@))
    }
}

impl Clone for FuncDef {
    fn clone(&self) -> (r: Self)
        ensures
            r@ == self@,
            r.name@ == self.name@,
            names_view(r.params@) == names_view(self.params@),
            r.body@ == self.body@,
        decreases self,
    {
        let mut params: Vec<String> = Vec::new();
        let mut i: usize = 0;
        while i < self.params.len()
            invariant
                i <= self.params@.len(),
                params@.len() == i,
                forall|j: int| 0 <= j < i ==> #[trigger] params@[j]@ == self.params@[j]@,
            decreases self.params@.len() - i,
        {
            params.push(self.params[i].clone());
            i = i + 1;
        }
        assert(names_view(params@) =~= names_view(self.params@));
        FuncDef { name: self.name.clone(), params, body: Box::new((*self.body).clone()) }
    }
}

impl FuncDef {
    /// Binds the name to this function in the innermost scope of `env`.
    pub fn eval(&self, env: &mut Env) -> (r: Result<Val, Error>)
        ensures
            r == Ok::<Val, Error>(Val::Empty),
            final(env)@ == env_insert(
                old(env)@,
                self.name@,
                BindingModel::Function(names_view(self.params@), self.body@),
            ),
    {
        env.insert_function(self.clone());
        Ok(Val::Empty)
    }

    /// Reads `fn`, a name, whitespace-separated parameter names, `=>` and a
    /// body statement.
    pub fn new(s: &str) -> (r: Result<(&str, FuncDef), Error>)
        ensures
            match r {
                Ok((rest, d)) => read_func_def(s@) == Some((rest@, d@)) && rest@.len() < s@.len(),
                Err(err) => read_func_def(s@) is None && err == Error::Syntax,
            },
        decreases s@.len(), 9nat,
    {
        proof {
            reveal_strlit("fn");
            reveal_strlit("=>");
            assert("fn"@ =~= fn_keyword());
            assert("=>"@ =~= arrow());
        }
        let s0 = s;
        let s = match tag(s, "fn") {
            Ok(rest) => rest,
            Err(e) => return Err(e),
        };
        let (s, _) = match extract_whitespace1(s) {
            Ok(p) => p,
            Err(e) => return Err(e),
        };
        let (s, name) = match extract_iden(s) {
            Ok(p) => p,
            Err(e) => return Err(e),
        };
        let (s, _) = match extract_whitespace1(s) {
            Ok(p) => p,
            Err(e) => return Err(e),
        };
        let start = s;
        let mut cur = s;
        let mut params: Vec<String> = Vec::new();
        loop
            invariant
                cur@.len() <= start@.len(),
                start@.len() < s0@.len(),
                read_params(start@) == (names_view(params@) + read_params(cur@).0, read_params(
                    cur@,
                ).1),
            ensures
                read_ident(cur@) is None,
            decreases cur@.len(),
        {
            match extract_iden(cur) {
                Ok((rest, param)) => {
                    let ghost old_params = params@;
                    let ghost old_cur = cur@;
                    let param = param.to_string();
                    params.push(param);
                    let (next, _) = extract_whitespace(rest);
                    cur = next;
                    proof {
                        assert(names_view(params@) =~= names_view(old_params).push(param@));
                        assert(read_ident(old_cur) == Some((rest@, param@)));
                        assert(read_params(old_cur).0 =~= seq![param@] + read_params(cur@).0);
                        assert(names_view(params@) + read_params(cur@).0 =~= names_view(old_params)
                            + read_params(old_cur).0);
                    }
                },
                Err(_) => {
                    assert(read_params(cur@).0 =~= Seq::<Seq<char>>::empty());
                    assert(names_view(params@) + read_params(cur@).0 =~= names_view(params@));
                    break;
                },
            }
        }
        let s = match tag(cur, "=>") {
            Ok(rest) => rest,
            Err(e) => return Err(e),
        };
        let (s, _) = match extract_whitespace1(s) {
            Ok(p) => p,
            Err(e) => return Err(e),
        };
        let (s, body) = match Statement::new(s) {
            Ok(p) => p,
            Err(e) => return Err(e),
        };
        Ok((s, FuncDef { name: name.to_string(), params, body: Box::new(body) }))
    }
}

} // verus!
