use eldiro::binding_def::BindingDef;
use eldiro::expr::{BindingUsage, Expr, Number, Op};
use eldiro::func_def::FuncDef;
use eldiro::statement::Statement;
use eldiro::{Env, Val};

#[test]
fn statement_eval_expr() {
    assert_eq!(
        Statement::Expr(Expr::Number(Number(1))).eval(&mut Env::new()),
        Ok(Val::Number(1))
    )
}

#[test]
fn statement_eval_binding_def() {
    assert_eq!(
        Statement::BindingDef(BindingDef {
            name: "a".to_string(),
            val: Expr::Number(Number(2)),
        })
        .eval(&mut Env::new()),
        Ok(Val::Empty)
    )
}

#[test]
fn parse_function_def() {
    assert_eq!(
        Statement::new("fn identity x => x"),
        Ok((
            "",
            Statement::FuncDef(FuncDef {
                name: "identity".to_string(),
                params: vec!["x".to_string()],
                body: Box::new(Statement::Expr(Expr::BindingUsage(BindingUsage {
                    name: "x".to_string()
                })))
            })
        ))
    )
}

#[test]
fn statement_parse_expr() {
    assert_eq!(
        Statement::new("1+1"),
        Ok((
            "",
            Statement::Expr(Expr::Operation {
                lhs: Box::new(Expr::Number(Number(1))),
                rhs: Box::new(Expr::Number(Number(1))),
                op: Op::Addition,
            })
        ))
    )
}

#[test]
fn statement_parse_binding_def() {
    assert_eq!(
        Statement::new("let a = 2"),
        Ok((
            "",
            Statement::BindingDef(BindingDef {
                name: "a".to_string(),
                val: Expr::Number(Number(2)),
            })
        ))
    )
}

#[test]
fn statement_eval_func_def_registers_function() {
    let mut env = Env::new();
    let def = Statement::FuncDef(FuncDef {
        name: "identity".to_string(),
        params: vec!["x".to_string()],
        body: Box::new(Statement::Expr(Expr::BindingUsage(BindingUsage {
            name: "x".to_string(),
        }))),
    });
    assert_eq!(def.eval(&mut env), Ok(Val::Empty));
    let (params, _) = env.get_binding_function("identity").unwrap();
    assert_eq!(params, &vec!["x".to_string()]);
}

#[test]
fn statement_keywords_need_whitespace() {
    assert_eq!(
        Statement::new("letter"),
        Ok((
            "",
            Statement::Expr(Expr::BindingUsage(BindingUsage {
                name: "letter".to_string()
            }))
        ))
    );
    assert_eq!(
        Statement::new("fnord"),
        Ok((
            "",
            Statement::Expr(Expr::BindingUsage(BindingUsage {
                name: "fnord".to_string()
            }))
        ))
    );
}

#[test]
fn statement_binding_def_failure_leaves_env() {
    let mut env = Env::new();
    let def = Statement::BindingDef(BindingDef {
        name: "a".to_string(),
        val: Expr::BindingUsage(BindingUsage {
            name: "missing".to_string(),
        }),
    });
    assert!(def.eval(&mut env).is_err());
    assert!(env.get_binding("a").is_err());
}
