use risp::parser::{ParseError, Parser};
use risp::token::{Symbol, Token, TokenType};

fn lex(input: &str) -> Result<Vec<Token>, ParseError> {
    let mut parser = Parser::new();
    parser.parse(input)?;
    Ok(parser.parsed)
}

fn sym(s: Symbol, row: isize, column: isize) -> Token {
    Token::new(TokenType::Symbol(s), row, column)
}

fn ident(name: &str, row: isize, column: isize) -> Token {
    Token::new(TokenType::Ident(name.to_string()), row, column)
}

#[test]
fn lexes_simple_addition_with_positions() {
    let tokens = lex("(+ 1 2)").unwrap();
    assert_eq!(
        tokens,
        vec![
            sym(Symbol::OpenParen, 0, 0),
            sym(Symbol::Add, 0, 1),
            sym(Symbol::WhiteSpace, 0, 2),
            ident("1", 0, 3),
            sym(Symbol::WhiteSpace, 0, 4),
            ident("2", 0, 5),
            sym(Symbol::CloseParen, 0, 6),
        ]
    );
    for pair in tokens.windows(2) {
        assert!(pair[0].row <= pair[1].row);
    }
}

#[test]
fn newline_moves_to_next_row_and_resets_column() {
    let tokens = lex("(\n()").unwrap();
    assert_eq!(
        tokens,
        vec![
            sym(Symbol::OpenParen, 0, 0),
            sym(Symbol::NewLine, 0, 1),
            sym(Symbol::OpenParen, 1, 0),
            sym(Symbol::CloseParen, 1, 1),
        ]
    );
}

#[test]
fn rows_increment_once_per_newline_across_identifiers() {
    let tokens = lex("ab \ncd \n ").unwrap();
    assert_eq!(
        tokens,
        vec![
            ident("ab", 0, 0),
            sym(Symbol::WhiteSpace, 0, 2),
            sym(Symbol::NewLine, 0, 3),
            ident("cd", 1, 0),
            sym(Symbol::WhiteSpace, 1, 2),
            sym(Symbol::NewLine, 1, 3),
            sym(Symbol::WhiteSpace, 2, 0),
        ]
    );
}

#[test]
fn identifier_run_cut_off_by_end_of_input_fails() {
    assert_eq!(lex("abc"), Err(ParseError::UnexpectedEof));
    assert_eq!(lex("(+ 1 2)tail"), Err(ParseError::UnexpectedEof));
}

#[test]
fn cursor_and_lookahead_fold_together() {
    let mut parser = Parser::new();
    parser.parsing = Parser::chars("ab(");
    assert_eq!(parser.read(), Some('a'));
    assert_eq!(parser.peek(), Some('b'));
    assert_eq!(parser.peek(), Some('('));
    parser.advance_cursor_to_peek();
    assert_eq!(parser.read(), Some('('));
    assert_eq!(parser.read(), None);
}

#[test]
fn columns_count_characters_not_bytes() {
    let tokens = lex("é(").unwrap();
    assert_eq!(
        tokens,
        vec![ident("é", 0, 0), sym(Symbol::OpenParen, 0, 1)]
    );
}

#[test]
fn empty_input_lexes_to_no_tokens() {
    assert_eq!(lex(""), Ok(vec![]));
}

#[test]
fn every_symbol_character_lexes_alone() {
    for sym_char in ['(', ')', ',', '+', '-', '*', '/', '^', '\\', '"', '\r', ' '] {
        let mut buffer = [0u8; 4];
        let source: &str = sym_char.encode_utf8(&mut buffer);
        let tokens = lex(source).unwrap();
        assert_eq!(tokens.len(), 1);
        assert_eq!(tokens[0].row, 0);
        assert_eq!(tokens[0].column, 0);
    }
}
