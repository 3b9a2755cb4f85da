use vstd::prelude::*;

use crate::error::{Error, ErrorModel, outcome};
use crate::func_def::FuncDef;
use crate::model::names_view;
use crate::semantics::{BindingModel, Frame, env_insert, find_last, frame_get, frame_insert, lookup};
use crate::statement::Statement;
use crate::val::Val;

verus! {

/// What a name is bound to in an environment.
pub enum EnvBinding {
    Function { params: Vec<String>, body: Statement },
    Value(Val),
}

impl View for EnvBinding {
    type V = BindingModel;

    open spec fn view(&self) -> BindingModel {
        match self {
            EnvBinding::Function { params, body } => BindingModel::Function(names_view(params@), body@),
            EnvBinding::Value(v) => BindingModel::Value(*v),
        }
    }
}

impl EnvBinding {
    /// The value bound; fails on a function.
    pub fn to_value(&self) -> (r: Result<Val, Error>)
        ensures
            outcome(r) == match self@ {
                BindingModel::Value(v) => Ok::<Val, ErrorModel>(v),
                BindingModel::Function(_, _) => Err(ErrorModel::NotAValue),
            },
    {
        match self {
            EnvBinding::Function { .. } => Err(Error::NotAValue),
            EnvBinding::Value(val) => Ok(*val),
        }
    }

    /// The parameters and body of the function bound; fails on a value.
    pub fn to_function(&self) -> (r: Result<(&Vec<String>, &Statement), Error>)
        ensures
            match r {
                Ok((params, body)) => self@ == BindingModel::Function(names_view(params@), body@),
                Err(e) => self@ is Value && e == Error::NotAFunction,
            },
    {
        match self {
            EnvBinding::Value(_) => Err(Error::NotAFunction),
            EnvBinding::Function { params, body } => Ok((params, body)),
        }
    }
}

pub open spec fn frame_view(bindings: Seq<(String, EnvBinding)>) -> Frame {
    Seq::new(bindings.len(), |i: int| (bindings[i].0@, bindings[i].1@))
}

/// One scope of bindings, with read access to the scope that encloses it.
/// Writes go to this scope only.
pub struct Env<'parent> {
    bindings: Vec<(String, EnvBinding)>,
    parent_env: Option<&'parent Env<'parent>>,
}

impl<'parent> View for Env<'parent> {
    type V = Seq<Frame>;

    /// The frames of the chain, innermost first.
    closed spec fn view(&self) -> Seq<Frame> {
        self.frames()
    }
}

pub proof fn lemma_find_last(f: Frame, name: Seq<char>, k: int)
    requires
        -1 <= k < f.len(),
        0 <= k ==> f[k].0 == name,
        forall|j: int| k < j < f.len() ==> #[trigger] f[j].0 != name,
    ensures
        find_last(f, name) == k,
    decreases f.len(),
{
    if f.len() > 0 && k < f.len() - 1 {
        assert(f.last().0 != name);
        assert forall|j: int| k < j < f.drop_last().len() implies #[trigger] f.drop_last()[j].0
            != name by {
            assert(f.drop_last()[j] == f[j]);
        }
        if 0 <= k {
            assert(f.drop_last()[k] == f[k]);
        }
        lemma_find_last(f.drop_last(), name, k);
    }
}

impl<'parent> Env<'parent> {
    pub closed spec fn frames(&self) -> Seq<Frame>
        decreases self,
    {
        match self.parent_env {
            Some(p) => seq![frame_view(self.bindings@)] + p.frames(),
            None => seq![frame_view(self.bindings@)],
        }
    }

    /// A root environment with no bindings.
    pub fn new() -> (r: Self)
        ensures
            r@ == seq![Seq::<(Seq<char>, BindingModel)>::empty()],
    {
        let r = Env { bindings: Vec::new(), parent_env: None };
        assert(frame_view(r.bindings@) =~= Seq::empty());
        r
    }

    /// This scope, enclosed by `parent_env`.
    pub fn with_parent(self, parent_env: &'parent Env<'parent>) -> (r: Self)
        ensures
            r@ == seq![self@[0]] + parent_env@,
    {
        Env { bindings: self.bindings, parent_env: Some(parent_env) }
    }

    /// Index of the last binding of `name` in this scope.
    fn find(&self, name: &String) -> (r: Option<usize>)
        ensures
            match r {
                Some(i) => i < self.bindings@.len() && find_last(self@[0], name@) == i,
                None => find_last(self@[0], name@) == -1,
            },
    {
        let ghost f = frame_view(self.bindings@);
        assert(self@[0] == f);
        let mut i = self.bindings.len();
        while i > 0
            invariant
                f == frame_view(self.bindings@),
                i <= self.bindings@.len(),
                forall|j: int| i <= j < f.len() ==> #[trigger] f[j].0 != name@,
            decreases i,
        {
            if self.bindings[i - 1].0 == *name {
                proof {
                    lemma_find_last(f, name@, i - 1);
                }
                return Some(i - 1);
            }
            i = i - 1;
        }
        proof {
            lemma_find_last(f, name@, -1);
        }
        None
    }

    /// Binds `name` to `binding` in this scope, replacing what it was bound to
    /// here.
    fn insert(&mut self, name: String, binding: EnvBinding)
        ensures
            final(self)@ == env_insert(old(self)@, name@, binding@),
    {
        let ghost f = frame_view(self.bindings@);
        let ghost b = binding@;
        let ghost n = name@;
        match self.find(&name) {
            Some(i) => {
                self.bindings.set(i, (name, binding));
                assert(frame_view(self.bindings@) =~= f.update(i as int, (n, b)));
            },
            None => {
                self.bindings.push((name, binding));
                assert(frame_view(self.bindings@) =~= f.push((n, b)));
            },
        }
        assert(self@ =~= old(self)@.update(0, frame_insert(f, n, b)));
    }

    /// Binds `name` to `value` in this scope.
    pub fn insert_binding(&mut self, name: String, value: Val)
        ensures
            final(self)@ == env_insert(old(self)@, name@, BindingModel::Value(value)),
    {
        self.insert(name, EnvBinding::Value(value));
    }

    /// Binds the name of `func_def` to its parameters and body in this scope.
    pub fn insert_function(&mut self, func_def: FuncDef)
        ensures
            final(self)@ == env_insert(
                old(self)@,
                func_def.name@,
                BindingModel::Function(names_view(func_def.params@), func_def.body@),
            ),
    {
        let FuncDef { name, params, body } = func_def;
        self.insert(name, EnvBinding::Function { params, body: *body });
    }

    fn get(&self, name: &String) -> (r: Option<&EnvBinding>)
        ensures
            match r {
                Some(b) => lookup(self@, name@) == Some(b@),
                None => lookup(self@, name@) is None,
            },
        decreases self@.len(),
    {
        match self.find(name) {
            Some(i) => {
                assert(self@[0] == frame_view(self.bindings@));
                assert(self@[0][i as int] == (self.bindings@[i as int].0@, self.bindings@[i as int].1@));
                assert(lookup(self@, name@) == Some(self.bindings@[i as int].1@));
                Some(&self.bindings[i].1)
            },
            None => match self.parent_env {
                Some(p) => {
                    assert(self@.drop_first() =~= p@);
                    let r = p.get(name);
                    assert(frame_get(self@[0], name@) is None);
                    r
                },
                None => {
                    assert(self@.drop_first() =~= Seq::<Frame>::empty());
                    assert(lookup(Seq::<Frame>::empty(), name@) is None);
                    None
                },
            },
        }
    }

    /// What `name` is bound to here or in an enclosing scope, the innermost
    /// binding first.
    pub fn get_binding(&self, name: &str) -> (r: Result<&EnvBinding, Error>)
        ensures
            match r {
                Ok(b) => lookup(self@, name@) == Some(b@),
                Err(e) => lookup(self@, name@) is None && e@ == ErrorModel::UnknownBinding(name@),
            },
    {
        let key = name.to_string();
        match self.get(&key) {
            Some(b) => Ok(b),
            None => Err(Error::UnknownBinding(key)),
        }
    }

    /// The value `name` is bound to.
    pub fn get_binding_value(&self, name: &str) -> (r: Result<Val, Error>)
        ensures
            outcome(r) == match lookup(self@, name@) {
                None => Err(ErrorModel::UnknownBinding(name@)),
                Some(BindingModel::Value(v)) => Ok(v),
                Some(BindingModel::Function(_, _)) => Err(ErrorModel::NotAValue),
            },
    {
        match self.get_binding(name) {
            Ok(binding) => binding.to_value(),
            Err(e) => Err(e),
        }
    }

    /// The parameters and body of the function `name` is bound to.
    pub fn get_binding_function(&self, name: &str) -> (r: Result<(&Vec<String>, &Statement), Error>)
        ensures
            match r {
                Ok((params, body)) => lookup(self@, name@) == Some(
                    BindingModel::Function(names_view(params@), body@),
                ),
                Err(e) => match lookup(self@, name@) {
                    None => e@ == ErrorModel::UnknownBinding(name@),
                    Some(BindingModel::Value(_)) => e == Error::NotAFunction,
                    Some(BindingModel::Function(_, _)) => false,
                },
            },
    {
        match self.get_binding(name) {
            Ok(binding) => binding.to_function(),
            Err(e) => Err(e),
        }
    }
}

} // verus!
