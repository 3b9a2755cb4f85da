use eldiro::binding_def::BindingDef;
use eldiro::expr::{Expr, Number, Op};

#[test]
fn binding_def_binding_wrong_spacing() {
    assert!(BindingDef::new("letaa=2*3").is_err())
}

#[test]
fn binding_def_binding_different_spacing() {
    assert_eq!(
        BindingDef::new("let aa=2*3"),
        Ok((
            "",
            BindingDef {
                name: "aa".to_string(),
                val: Expr::Operation {
                    lhs: Box::new(Expr::Number(Number(2))),
                    rhs: Box::new(Expr::Number(Number(3))),
                    op: Op::Multiplication,
                }
            }
        ))
    );
}

#[test]
fn binding_def_parse_binding_def() {
    assert_eq!(
        BindingDef::new("let a = 2 * 3"),
        Ok((
            "",
            BindingDef {
                name: "a".to_string(),
                val: Expr::Operation {
                    lhs: Box::new(Expr::Number(Number(2))),
                    rhs: Box::new(Expr::Number(Number(3))),
                    op: Op::Multiplication,
                }
            }
        ))
    );
}

#[test]
fn binding_def_newline_around_equals() {
    assert_eq!(
        BindingDef::new("let\nx\n=\n7 rest"),
        Ok((
            " rest",
            BindingDef {
                name: "x".to_string(),
                val: Expr::Number(Number(7)),
            }
        ))
    );
}

#[test]
fn binding_def_missing_expression() {
    assert!(BindingDef::new("let a = ").is_err());
    assert!(BindingDef::new("let a 2").is_err());
}
