use risp::ast::{match_grammar, Ast, Expression};
use risp::operations::{eval_expression, EvalError, Operation};
use risp::parser::{ParseError, Parser};

fn build(input: &str) -> Result<Vec<Expression>, ParseError> {
    let mut parser = Parser::new();
    parser.parse(input)?;
    parser.emit_expressions()
}

fn num(value: f64) -> Expression {
    Expression::Number(value.to_bits())
}

#[test]
fn parses_simple_addition() {
    let exprs = build("(+ 1 2)").unwrap();
    assert_eq!(
        exprs,
        vec![Expression::List(vec![
            Expression::Op(Operation::Add),
            num(1.0),
            num(2.0),
        ])]
    );
}

#[test]
fn evaluates_simple_addition() {
    let exprs = build("(+ 1 2)").unwrap();
    assert_eq!(eval_expression(&exprs[0]), Ok(num(3.0)));
}

#[test]
fn evaluates_element_wise_addition() {
    let exprs = build("(+ (1 2) (3 4))").unwrap();
    assert_eq!(
        eval_expression(&exprs[0]),
        Ok(Expression::List(vec![num(4.0), num(6.0)]))
    );
}

#[test]
fn unterminated_list_fails_with_unexpected_eof() {
    // The final identifier run is cut off together with the list.
    assert_eq!(build("(+ 1 2"), Err(ParseError::UnexpectedEof));
    // The tokens are all complete, but the list never closes.
    let mut parser = Parser::new();
    parser.parse("(+ 1 2 ").unwrap();
    assert_eq!(parser.emit_expressions(), Err(ParseError::UnexpectedEof));
}

#[test]
fn close_paren_without_open_is_a_structural_error() {
    assert_eq!(build(") "), Err(ParseError::UnexpectedEof));
}

#[test]
fn reserved_symbols_are_structural_errors_where_expressions_go() {
    assert_eq!(build("^ "), Err(ParseError::UnexpectedEof));
    assert_eq!(build("\" "), Err(ParseError::UnexpectedEof));
}

#[test]
fn separators_never_become_tree_nodes() {
    let exprs = build("(+ 1,2)\r ").unwrap();
    assert_eq!(
        exprs,
        vec![Expression::List(vec![
            Expression::Op(Operation::Add),
            num(1.0),
            num(2.0),
        ])]
    );
}

#[test]
fn operator_symbols_resolve_to_operations() {
    let exprs = build("(+ - * /)").unwrap();
    assert_eq!(
        exprs,
        vec![Expression::List(vec![
            Expression::Op(Operation::Add),
            Expression::Op(Operation::Subtract),
            Expression::Op(Operation::Multiply),
            Expression::Op(Operation::Divide),
        ])]
    );
}

#[test]
fn non_numeric_identifiers_stay_identifiers() {
    let exprs = build("(x 1.5e2)").unwrap();
    assert_eq!(
        exprs,
        vec![Expression::List(vec![
            Expression::Ident("x".to_string()),
            num(150.0),
        ])]
    );
}

#[test]
fn builder_takes_ownership_of_the_token_sequence() {
    let mut parser = Parser::new();
    parser.parse("(* 2 3)").unwrap();
    let token_count = parser.parsed.len();
    let mut ast = Ast::new();
    ast.emit(parser).unwrap();
    assert_eq!(ast.tokens.len(), token_count);
    assert_eq!(
        ast.inner,
        vec![Expression::List(vec![
            Expression::Op(Operation::Multiply),
            num(2.0),
            num(3.0),
        ])]
    );
}

#[test]
fn match_grammar_of_no_tokens_is_no_expressions() {
    assert_eq!(match_grammar(&vec![]), Ok(vec![]));
}

#[test]
fn evaluates_each_arithmetic_operation_exactly() {
    let cases = [
        ("(+ 1 2)", 3.0),
        ("(- 5 2)", 3.0),
        ("(* 2 3)", 6.0),
        ("(/ 1 2)", 0.5),
        ("(+ 1.5 2e1)", 21.5),
    ];
    for (source, expected) in cases {
        let exprs = build(source).unwrap();
        assert_eq!(eval_expression(&exprs[0]), Ok(num(expected)), "{source}");
    }
}

#[test]
fn division_by_zero_follows_ieee_semantics() {
    let exprs = build("(/ 1 0)").unwrap();
    assert_eq!(eval_expression(&exprs[0]), Ok(num(f64::INFINITY)));
}

#[test]
fn list_not_headed_by_an_operation_keeps_its_shape() {
    let exprs = build("(1 (2 3))").unwrap();
    assert_eq!(
        eval_expression(&exprs[0]),
        Ok(Expression::List(vec![
            num(1.0),
            Expression::List(vec![num(2.0), num(3.0)]),
        ]))
    );
}

#[test]
fn wrong_operand_count_is_a_type_mismatch() {
    let exprs = build("(+ 1 2 3)").unwrap();
    assert_eq!(eval_expression(&exprs[0]), Err(EvalError::TypeMismatch));
    let exprs = build("(+ 1)").unwrap();
    assert_eq!(eval_expression(&exprs[0]), Err(EvalError::TypeMismatch));
}
