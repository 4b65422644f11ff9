use risp::ast::Expression;
use risp::error::{ErrorKind, RispError};
use risp::operations::{eval_expression, EvalError, Operation};
use risp::parser::ParseError;

fn num(value: f64) -> Expression {
    Expression::Number(value.to_bits())
}

#[test]
fn operation_on_lists_truncates_at_the_shorter_list() {
    let lhs = Expression::List(vec![num(1.0), num(2.0), num(3.0)]);
    let rhs = Expression::List(vec![num(10.0), num(20.0)]);
    assert_eq!(
        Operation::Add.eval(lhs, rhs),
        Ok(Expression::List(vec![num(11.0), num(22.0)]))
    );
}

#[test]
fn operands_of_different_variants_are_a_type_mismatch() {
    assert_eq!(
        Operation::Add.eval(num(1.0), Expression::Ident("x".to_string())),
        Err(EvalError::TypeMismatch)
    );
    assert_eq!(
        Operation::Subtract.eval(Expression::List(vec![]), num(1.0)),
        Err(EvalError::TypeMismatch)
    );
}

#[test]
fn identifier_operands_cannot_be_evaluated() {
    assert_eq!(
        Operation::Add.eval(
            Expression::Ident("x".to_string()),
            Expression::Ident("y".to_string())
        ),
        Err(EvalError::IdentOp)
    );
}

#[test]
fn operation_values_are_not_combinable_operands() {
    assert_eq!(
        Operation::Add.eval(
            Expression::Op(Operation::Add),
            Expression::Op(Operation::Add)
        ),
        Err(EvalError::TypeMismatch)
    );
}

#[test]
fn scalar_arithmetic_follows_ieee_binary64() {
    assert_eq!(Operation::Add.eval(num(0.1), num(0.2)), Ok(num(0.1 + 0.2)));
    assert_eq!(Operation::Divide.eval(num(1.0), num(3.0)), Ok(num(1.0 / 3.0)));
    assert_eq!(
        Operation::Multiply.eval(num(f64::MAX), num(2.0)),
        Ok(num(f64::INFINITY))
    );
}

#[test]
fn errors_inside_list_operands_propagate() {
    let lhs = Expression::List(vec![Expression::Ident("x".to_string())]);
    let rhs = Expression::List(vec![Expression::Ident("y".to_string())]);
    assert_eq!(Operation::Add.eval(lhs, rhs), Err(EvalError::IdentOp));
}

#[test]
fn evaluation_is_a_fixed_point_on_reduced_values() {
    assert_eq!(eval_expression(&num(4.25)), Ok(num(4.25)));
    assert_eq!(
        eval_expression(&Expression::List(vec![])),
        Ok(Expression::List(vec![]))
    );
    assert_eq!(
        eval_expression(&Expression::Ident("free".to_string())),
        Ok(Expression::Ident("free".to_string()))
    );
}

#[test]
fn errors_wrap_into_a_unified_error_value() {
    let parse = RispError::from_parse(ParseError::UnexpectedEof);
    assert_eq!(parse.kind, ErrorKind::ParseError);
    assert_eq!(parse.msg, "unexpected end of input");

    let mismatch = RispError::from_eval(EvalError::TypeMismatch);
    assert_eq!(mismatch.kind, ErrorKind::EvalError);
    assert_eq!(mismatch.msg, "type mismatch between operands");

    let ident = RispError::from_eval(EvalError::IdentOp);
    assert_eq!(ident.kind, ErrorKind::EvalError);
    assert_eq!(ident.msg, "an identifier cannot be evaluated");
}
