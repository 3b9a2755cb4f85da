use eldiro::expr::BindingUsage;
use eldiro::func_def::FuncDef;
use eldiro::statement::Statement;
use eldiro::expr::{Expr, Number};
use eldiro::{Env, Error, Val};

#[test]
fn binding_usage_new() {
    assert_eq!(
        BindingUsage::new("abc"),
        Ok((
            "",
            BindingUsage {
                name: "abc".to_string()
            }
        ))
    )
}

#[test]
fn eval_non_existing_usage() {
    let name = "test".to_string();
    let env = Env::new();
    let binding_usage = BindingUsage::new(&name).unwrap().1;
    assert!(binding_usage.eval(&env).is_err())
}

#[test]
fn eval_existing_usage() {
    let name = "test".to_string();
    let mut env = Env::new();
    let val = Val::Number(10);
    env.insert_binding(name.clone(), val.clone());
    let binding_usage = BindingUsage::new(&name).unwrap().1;
    assert_eq!(binding_usage.eval(&env), Ok(val))
}

#[test]
fn eval_usage_errors() {
    let mut env = Env::new();
    env.insert_function(FuncDef {
        name: "f".to_string(),
        params: vec![],
        body: Box::new(Statement::Expr(Expr::Number(Number(1)))),
    });
    let usage = BindingUsage { name: "f".to_string() };
    assert_eq!(usage.eval(&env), Err(Error::NotAValue));
    let unknown = BindingUsage { name: "g".to_string() };
    assert_eq!(unknown.eval(&env), Err(Error::UnknownBinding("g".to_string())));
}

#[test]
fn reinsert_overwrites() {
    let mut env = Env::new();
    env.insert_binding("a".to_string(), Val::Number(1));
    env.insert_binding("a".to_string(), Val::Number(5));
    assert_eq!(env.get_binding_value("a"), Ok(Val::Number(5)));
}
