use eldiro::binding_def::BindingDef;
use eldiro::expr::{BindingUsage, Block, Expr, Number};
use eldiro::statement::Statement;
use eldiro::{Env, Val};

#[test]
fn eval_empty_block() {
    assert_eq!(Block { exprs: vec![] }.eval(&Env::new()), Ok(Val::Empty))
}

#[test]
fn eval_binding_block() {
    assert_eq!(
        Block {
            exprs: vec![
                Statement::BindingDef(BindingDef {
                    name: "a".to_string(),
                    val: Expr::Number(Number(10)),
                }),
                Statement::Expr(Expr::BindingUsage(BindingUsage {
                    name: "a".to_string()
                })),
            ]
        }
        .eval(&Env::new()),
        Ok(Val::Number(10))
    )
}

#[test]
fn parse_block_many_statements() {
    assert_eq!(
        Block::new(
            "{
                let a = 10
                let b = a
                b
            }"
        ),
        Ok((
            "",
            Block {
                exprs: vec![
                    Statement::BindingDef(BindingDef {
                        name: "a".to_string(),
                        val: Expr::Number(Number(10)),
                    }),
                    Statement::BindingDef(BindingDef {
                        name: "b".to_string(),
                        val: Expr::BindingUsage(BindingUsage {
                            name: "a".to_string()
                        }),
                    }),
                    Statement::Expr(Expr::BindingUsage(BindingUsage {
                        name: "b".to_string()
                    })),
                ]
            }
        ))
    )
}

#[test]
fn eval_block_try_use_block_defined_var() {
    let env = Env::new();
    Block {
        exprs: vec![Statement::BindingDef(BindingDef {
            name: "one".to_string(),
            val: Expr::Number(Number(1)),
        })],
    }
    .eval(&env)
    .unwrap();
    assert!(Block {
        exprs: vec![Statement::Expr(Expr::BindingUsage(BindingUsage {
            name: "one".to_string()
        }))]
    }
    .eval(&env)
    .is_err())
}

#[test]
fn eval_block_with_missing_var() {
    let env = Env::new();
    assert!(Block {
        exprs: vec![Statement::Expr(Expr::BindingUsage(BindingUsage {
            name: "one".to_string()
        }))]
    }
    .eval(&env)
    .is_err())
}

#[test]
fn eval_block_non_empty_env() {
    let mut env = Env::new();
    env.insert_binding("one".to_string(), Val::Number(1));
    assert_eq!(
        Block {
            exprs: vec![Statement::Expr(Expr::BindingUsage(BindingUsage {
                name: "one".to_string()
            }))]
        }
        .eval(&env),
        Ok(Val::Number(1))
    )
}

#[test]
fn parse_block_number() {
    assert_eq!(
        Block::new("{ 5 }"),
        Ok((
            "",
            Block {
                exprs: vec![Statement::Expr(Expr::Number(Number(5)))]
            }
        ))
    )
}

#[test]
fn parse_block_whitespace() {
    assert_eq!(Block::new("{   }"), Ok(("", Block { exprs: Vec::new() })))
}

#[test]
fn parse_block_empty() {
    assert_eq!(Block::new("{}"), Ok(("", Block { exprs: Vec::new() })))
}

#[test]
fn parse_block_unclosed() {
    assert!(Block::new("{ 5").is_err());
    assert!(Block::new("5 }").is_err());
}

#[test]
fn eval_block_shadows_outer_binding() {
    let mut env = Env::new();
    env.insert_binding("a".to_string(), Val::Number(1));
    let block = Block {
        exprs: vec![
            Statement::BindingDef(BindingDef {
                name: "a".to_string(),
                val: Expr::Number(Number(2)),
            }),
            Statement::Expr(Expr::BindingUsage(BindingUsage {
                name: "a".to_string(),
            })),
        ],
    };
    assert_eq!(block.eval(&env), Ok(Val::Number(2)));
    assert_eq!(env.get_binding_value("a"), Ok(Val::Number(1)));
}

#[test]
fn eval_block_last_binding_yields_empty() {
    let block = Block {
        exprs: vec![
            Statement::Expr(Expr::Number(Number(3))),
            Statement::BindingDef(BindingDef {
                name: "a".to_string(),
                val: Expr::Number(Number(2)),
            }),
        ],
    };
    assert_eq!(block.eval(&Env::new()), Ok(Val::Empty));
}
