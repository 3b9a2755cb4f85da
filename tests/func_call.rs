use eldiro::expr::{BindingUsage, Expr, Number, Op};
use eldiro::func_call::FuncCall;
use eldiro::func_def::FuncDef;
use eldiro::statement::Statement;
use eldiro::{Env, Error, Val};

#[test]
fn eval_two_arg_func_call() {
    let mut env = Env::new();
    env.insert_function(FuncDef {
        name: "double".to_string(),
        body: Box::new(Statement::Expr(Expr::Operation {
            lhs: Box::new(Expr::BindingUsage(BindingUsage {
                name: "x".to_string(),
            })),
            rhs: Box::new(Expr::Number(Number(2))),
            op: Op::Multiplication,
        })),
        params: vec!["x".to_string()],
    });
    assert_eq!(
        Expr::FuncCall(FuncCall {
            name: "double".to_string(),
            args: vec![Expr::Number(Number(21))],
        })
        .eval(&env),
        Ok(Val::Number(42))
    )
}

#[test]
fn eval_call_unknown_args() {
    let mut env = Env::new();
    env.insert_function(FuncDef {
        name: "identity".to_string(),
        body: Box::new(Statement::Expr(Expr::BindingUsage(BindingUsage {
            name: "x".to_string(),
        }))),
        params: vec!["x".to_string()],
    });
    assert!(FuncCall {
        name: "identity".to_string(),
        args: vec![Expr::BindingUsage(BindingUsage {
            name: "x".to_string()
        })],
    }
    .eval(&env)
    .is_err());
}

#[test]
fn eval_call_too_many_args() {
    let mut env = Env::new();
    env.insert_function(FuncDef {
        name: "constant_one".to_string(),
        body: Box::new(Statement::Expr(Expr::Number(Number(1)))),
        params: vec!["first".to_string()],
    });
    assert!(FuncCall {
        name: "constant_one".to_string(),
        args: vec![Expr::Number(Number(1)), Expr::Number(Number(1))],
    }
    .eval(&env)
    .is_err(),)
}

#[test]
fn eval_call_too_few_args() {
    let mut env = Env::new();
    env.insert_function(FuncDef {
        name: "constant_one".to_string(),
        body: Box::new(Statement::Expr(Expr::Number(Number(1)))),
        params: vec!["first".to_string(), "second".to_string()],
    });
    assert!(FuncCall {
        name: "constant_one".to_string(),
        args: vec![Expr::Number(Number(1))],
    }
    .eval(&env)
    .is_err(),)
}

#[test]
fn eval_call_not_in_env() {
    assert!(FuncCall {
        name: "constant_one".to_string(),
        args: vec![Expr::Number(Number(23))],
    }
    .eval(&Env::new())
    .is_err())
}

#[test]
fn eval_call_valid() {
    let mut env = Env::new();
    env.insert_function(FuncDef {
        name: "constant_one".to_string(),
        body: Box::new(Statement::Expr(Expr::Number(Number(1)))),
        params: vec!["unused".to_string()],
    });
    assert_eq!(
        FuncCall {
            name: "constant_one".to_string(),
            args: vec![Expr::Number(Number(23))],
        }
        .eval(&env),
        Ok(Val::Number(1))
    )
}

#[test]
fn parse_call() {
    let mut env = Env::new();
    env.insert_function(FuncDef {
        name: "constant_one".to_string(),
        body: Box::new(Statement::Expr(Expr::Number(Number(1)))),
        params: vec!["unused".to_string()],
    });
    assert_eq!(
        FuncCall::new("constant_one 23"),
        Ok((
            "",
            FuncCall {
                name: "constant_one".to_string(),
                args: vec![Expr::Number(Number(23))],
            }
        ))
    )
}

#[test]
fn eval_call_arity_mismatch_counts() {
    let mut env = Env::new();
    env.insert_function(FuncDef {
        name: "id".to_string(),
        body: Box::new(Statement::Expr(Expr::BindingUsage(BindingUsage {
            name: "x".to_string(),
        }))),
        params: vec!["x".to_string()],
    });
    let call = |n: i32| FuncCall {
        name: "id".to_string(),
        args: (0..n).map(|i| Expr::Number(Number(i))).collect(),
    };
    assert_eq!(
        call(2).eval(&env),
        Err(Error::ArityMismatch {
            name: "id".to_string(),
            expected: 1,
            found: 2
        })
    );
    assert_eq!(call(1).eval(&env), Ok(Val::Number(0)));
}

#[test]
fn eval_call_of_a_value() {
    let mut env = Env::new();
    env.insert_binding("v".to_string(), Val::Number(3));
    let call = FuncCall {
        name: "v".to_string(),
        args: vec![Expr::Number(Number(1))],
    };
    assert_eq!(call.eval(&env), Err(Error::NotAFunction));
}

#[test]
fn eval_call_body_sees_only_parameters() {
    let mut env = Env::new();
    env.insert_binding("outer".to_string(), Val::Number(3));
    env.insert_function(FuncDef {
        name: "peek".to_string(),
        body: Box::new(Statement::Expr(Expr::BindingUsage(BindingUsage {
            name: "outer".to_string(),
        }))),
        params: vec!["x".to_string()],
    });
    let call = FuncCall {
        name: "peek".to_string(),
        args: vec![Expr::Number(Number(1))],
    };
    assert_eq!(
        call.eval(&env),
        Err(Error::UnknownBinding("outer".to_string()))
    );
}

#[test]
fn parse_call_needs_an_argument() {
    assert!(FuncCall::new("f").is_err());
    assert!(FuncCall::new("f }").is_err());
    assert_eq!(
        FuncCall::new("add 1  2 }"),
        Ok((
            "}",
            FuncCall {
                name: "add".to_string(),
                args: vec![Expr::Number(Number(1)), Expr::Number(Number(2))],
            }
        ))
    );
}
