use eldiro::expr::{BindingUsage, Block, Expr, Number, Op};
use eldiro::func_call::FuncCall;
use eldiro::statement::Statement;
use eldiro::{Env, Error, Val};

fn operation(lhs: i32, rhs: i32, op: Op) -> Expr {
    Expr::Operation {
        lhs: Box::new(Expr::Number(Number(lhs))),
        rhs: Box::new(Expr::Number(Number(rhs))),
        op,
    }
}

#[test]
fn evaluate_mul() {
    assert_eq!(operation(4, 2, Op::Multiplication).eval(&Env::new()), Ok(Val::Number(8)));
}

#[test]
fn evaluate_div() {
    assert_eq!(operation(5, 2, Op::Division).eval(&Env::new()), Ok(Val::Number(2)));
}

#[test]
fn evaluate_add() {
    assert_eq!(operation(8, 15, Op::Addition).eval(&Env::new()), Ok(Val::Number(23)));
}

#[test]
fn evaluate_sub() {
    assert_eq!(operation(5, 23, Op::Substraction).eval(&Env::new()), Ok(Val::Number(-18)));
}

#[test]
fn parse_binding_usage() {
    assert_eq!(
        Expr::new("value"),
        Ok((
            "",
            Expr::BindingUsage(BindingUsage {
                name: "value".to_string()
            })
        ))
    );
}

#[test]
fn parse_block() {
    assert_eq!(
        Expr::new("{ 6 }"),
        Ok((
            "",
            Expr::Block(Block {
                exprs: vec![Statement::Expr(Expr::Number(Number(6)))]
            })
        ))
    );
}

#[test]
fn parse_expression() {
    assert_eq!(Expr::new("1+2"), Ok(("", operation(1, 2, Op::Addition))));
}

#[test]
fn parse_expression_number() {
    assert_eq!(Expr::new("1"), Ok(("", Expr::Number(Number(1)))))
}

#[test]
fn parse_expression_space() {
    assert_eq!(Expr::new("1 + 2"), Ok(("", operation(1, 2, Op::Addition))));
}

#[test]
fn expr_parse_number() {
    assert_eq!(Number::new("1234"), Ok(("", Number(1234))));
}

#[test]
fn parse_add() {
    assert_eq!(Op::new("+"), Ok(("", Op::Addition)));
}

#[test]
fn parse_sub() {
    assert_eq!(Op::new("-"), Ok(("", Op::Substraction)));
}

#[test]
fn expr_parse_mul() {
    assert_eq!(Op::new("*"), Ok(("", Op::Multiplication)));
}

#[test]
fn expr_parse_div() {
    assert_eq!(Op::new("/"), Ok(("", Op::Division)));
}

#[test]
fn evaluate_div_truncates_toward_zero() {
    assert_eq!(operation(-7, 2, Op::Division).eval(&Env::new()), Ok(Val::Number(-3)));
    assert_eq!(operation(7, -2, Op::Division).eval(&Env::new()), Ok(Val::Number(-3)));
    assert_eq!(operation(-7, -2, Op::Division).eval(&Env::new()), Ok(Val::Number(3)));
}

#[test]
fn evaluate_div_by_zero() {
    assert_eq!(operation(5, 0, Op::Division).eval(&Env::new()), Err(Error::DivisionByZero));
}

#[test]
fn evaluate_overflow() {
    assert_eq!(
        operation(2147483647, 1, Op::Addition).eval(&Env::new()),
        Err(Error::Overflow)
    );
    assert_eq!(
        operation(-2147483647, 2, Op::Substraction).eval(&Env::new()),
        Err(Error::Overflow)
    );
    assert_eq!(
        operation(65536, 65536, Op::Multiplication).eval(&Env::new()),
        Err(Error::Overflow)
    );
    let min_over_minus_one = Expr::Operation {
        lhs: Box::new(Expr::Operation {
            lhs: Box::new(Expr::Number(Number(0))),
            rhs: Box::new(Expr::Number(Number(2147483647))),
            op: Op::Substraction,
        }),
        rhs: Box::new(Expr::Number(Number(1))),
        op: Op::Substraction,
    };
    assert_eq!(min_over_minus_one.eval(&Env::new()), Ok(Val::Number(i32::MIN)));
}

#[test]
fn evaluate_operand_not_a_number() {
    let empty_block = Expr::Block(Block { exprs: vec![] });
    let op = Expr::Operation {
        lhs: Box::new(empty_block),
        rhs: Box::new(Expr::Number(Number(1))),
        op: Op::Addition,
    };
    assert_eq!(op.eval(&Env::new()), Err(Error::TypeMismatch));
}

#[test]
fn evaluate_operands_left_then_right() {
    let op = Expr::Operation {
        lhs: Box::new(Expr::Block(Block { exprs: vec![] })),
        rhs: Box::new(Expr::BindingUsage(BindingUsage {
            name: "missing".to_string(),
        })),
        op: Op::Addition,
    };
    assert_eq!(
        op.eval(&Env::new()),
        Err(Error::UnknownBinding("missing".to_string()))
    );
}

#[test]
fn parse_number_too_large() {
    assert_eq!(Number::new("2147483647"), Ok(("", Number(2147483647))));
    assert!(Number::new("2147483648").is_err());
    assert!(Number::new("").is_err());
}

#[test]
fn parse_operation_with_names_and_blocks() {
    assert_eq!(
        Expr::new("x *{ 2 } rest"),
        Ok((
            " rest",
            Expr::Operation {
                lhs: Box::new(Expr::BindingUsage(BindingUsage {
                    name: "x".to_string()
                })),
                rhs: Box::new(Expr::Block(Block {
                    exprs: vec![Statement::Expr(Expr::Number(Number(2)))]
                })),
                op: Op::Multiplication,
            }
        ))
    );
}

#[test]
fn parse_only_one_operator() {
    assert_eq!(Expr::new("1+2+3"), Ok(("+3", operation(1, 2, Op::Addition))));
}

#[test]
fn parse_call_before_name() {
    assert_eq!(
        Expr::new("double 21"),
        Ok((
            "",
            Expr::FuncCall(FuncCall {
                name: "double".to_string(),
                args: vec![Expr::Number(Number(21))],
            })
        ))
    );
    assert_eq!(
        Expr::new("double\n21"),
        Ok((
            "\n21",
            Expr::BindingUsage(BindingUsage {
                name: "double".to_string()
            })
        ))
    );
}

#[test]
fn parse_op_rejects_other_text() {
    assert!(Op::new("%").is_err());
    assert!(Op::new("").is_err());
    assert!(Expr::new("+1").is_err());
}
