use vstd::prelude::*;

use crate::numeric::{float_of_decimal, parse_number};
use crate::operations::Operation;
use crate::parser::{ParseError, Parser};
use crate::token::{tokens_view, Symbol, Token, TokenKindModel, TokenModel, TokenType};

verus! {

/// An expression tree: a free identifier, a number (an IEEE-754 binary64
/// value carried as its bit pattern), an ordered list of child expressions,
/// or a first-class reference to one of the built-in binary operations.
#[derive(Debug, PartialEq)]
pub enum Expression {
    Ident(String),
    Number(u64),
    List(Vec<Expression>),
    Op(Operation),
}

/// The mathematical value of an expression tree.
pub ghost enum ExprModel {
    Ident(Seq<char>),
    Number(u64),
    List(Seq<ExprModel>),
    Op(Operation),
}

impl View for Expression {
    type V = ExprModel;

    open spec fn view(&self) -> ExprModel
        decreases self,
    {
        match self {
            Expression::Ident(s) => ExprModel::Ident(s@),
            Expression::Number(bits) => ExprModel::Number(*bits),
            Expression::List(v) => ExprModel::List(exprs_view(v@)),
            Expression::Op(op) => ExprModel::Op(*op),
        }
    }
}

/// The models of an expression sequence.
pub open spec fn exprs_view(es: Seq<Expression>) -> Seq<ExprModel>
    decreases es,
{
    if es.len() == 0 {
        Seq::empty()
    } else {
        seq![es[0]@] + exprs_view(es.subrange(1, es.len() as int))
    }
}

/// `exprs_view` is the element-wise model map.
pub proof fn lemma_exprs_view(es: Seq<Expression>)
    ensures
        exprs_view(es).len() == es.len(),
        forall|k: int| 0 <= k < es.len() ==> exprs_view(es)[k] == es[k]@,
    decreases es.len(),
{
    if es.len() > 0 {
        let t = es.subrange(1, es.len() as int);
        lemma_exprs_view(t);
        assert(exprs_view(es) == seq![es[0]@] + exprs_view(t));
        assert forall|k: int| 0 <= k < es.len() implies exprs_view(es)[k] == es[k]@ by {
            if k >= 1 {
                assert(exprs_view(es)[k] == exprs_view(t)[k - 1]);
                assert(t[k - 1] == es[k]);
            }
        }
    }
}

/// Tokens that merely separate expressions and never become tree nodes.
pub open spec fn is_separator(kind: TokenKindModel) -> bool {
    ||| kind == TokenKindModel::Symbol(Symbol::WhiteSpace)
    ||| kind == TokenKindModel::Symbol(Symbol::CarriageReturn)
    ||| kind == TokenKindModel::Symbol(Symbol::Comma)
}

/// The index of the first token at or after `i` that is not a separator, or
/// the length of the sequence when only separators remain.
pub open spec fn skip_separators(ts: Seq<TokenModel>, i: int) -> int
    decreases ts.len() - i,
{
    if i < 0 || i >= ts.len() {
        ts.len() as int
    } else if is_separator(ts[i].kind) {
        skip_separators(ts, i + 1)
    } else {
        i
    }
}

/// `skip_separators` lands on the first non-separator token at or after `i`.
pub proof fn lemma_skip_separators(ts: Seq<TokenModel>, i: int)
    ensures
        ({
            let k = skip_separators(ts, i);
            &&& k <= ts.len()
            &&& i <= ts.len() ==> i <= k
            &&& i > ts.len() ==> k == ts.len()
            &&& k < ts.len() ==> !is_separator(ts[k].kind)
            &&& 0 <= i ==> forall|m: int| i <= m < k ==> is_separator(ts[m].kind)
        }),
    decreases ts.len() - i,
{
    if 0 <= i && i < ts.len() && is_separator(ts[i].kind) {
        lemma_skip_separators(ts, i + 1);
    }
}

/// The operation named by an arithmetic-operator symbol, if any.
pub open spec fn operator_of(sym: Symbol) -> Option<Operation> {
    match sym {
        Symbol::Add => Some(Operation::Add),
        Symbol::Subtract => Some(Operation::Subtract),
        Symbol::Multiply => Some(Operation::Multiply),
        Symbol::Divide => Some(Operation::Divide),
        _ => None,
    }
}

/// The expression beginning at the (non-separator) token at `i`, and the
/// index just past it. An open parenthesis begins a list; an
/// arithmetic-operator symbol resolves to its operation value; an identifier
/// that reads as a numeric literal becomes a number and otherwise stays an
/// identifier; any other token where an expression is expected is a
/// structural error.
pub open spec fn parse_expr_spec(ts: Seq<TokenModel>, i: int) -> Result<
    (ExprModel, int),
    ParseError,
>
    decreases ts.len() - i, 0int,
{
    if i < 0 || i >= ts.len() {
        Err(ParseError::UnexpectedEof)
    } else {
        match ts[i].kind {
            TokenKindModel::Symbol(sym) => {
                if sym == Symbol::OpenParen {
                    match parse_list_spec(ts, i + 1) {
                        Ok((children, j)) => Ok((ExprModel::List(children), j)),
                        Err(e) => Err(e),
                    }
                } else {
                    match operator_of(sym) {
                        Some(op) => Ok((ExprModel::Op(op), i + 1)),
                        None => Err(ParseError::UnexpectedEof),
                    }
                }
            },
            TokenKindModel::Ident(name) => {
                if name.len() < 0x8000_0000 {
                    match float_of_decimal(name) {
                        Some(bits) => Ok((ExprModel::Number(bits), i + 1)),
                        None => Ok((ExprModel::Ident(name), i + 1)),
                    }
                } else {
                    // Literals beyond the numeric front end's length limit
                    // stay identifiers; no such input fits in memory.
                    Ok((ExprModel::Ident(name), i + 1))
                }
            },
            TokenKindModel::Unexpected(_) => Err(ParseError::UnexpectedEof),
        }
    }
}

/// The children of a parenthesized list whose opening parenthesis sits just
/// before `i`, and the index just past the matching closing parenthesis; an
/// unmatched opening parenthesis is `UnexpectedEof`.
pub open spec fn parse_list_spec(ts: Seq<TokenModel>, i: int) -> Result<
    (Seq<ExprModel>, int),
    ParseError,
>
    decreases ts.len() - i, 1int,
        via parse_list_spec_decreases
{
    let k = skip_separators(ts, i);
    if k >= ts.len() {
        Err(ParseError::UnexpectedEof)
    } else if ts[k].kind == TokenKindModel::Symbol(Symbol::CloseParen) {
        Ok((Seq::empty(), k + 1))
    } else {
        match parse_expr_spec(ts, k) {
            Ok((e, j)) => {
                if k < j <= ts.len() {
                    match parse_list_spec(ts, j) {
                        Ok((rest, j2)) => Ok((seq![e] + rest, j2)),
                        Err(err) => Err(err),
                    }
                } else {
                    // Unreachable: an expression always moves past its tokens.
                    Err(ParseError::UnexpectedEof)
                }
            },
            Err(err) => Err(err),
        }
    }
}

#[via_fn]
proof fn parse_list_spec_decreases(ts: Seq<TokenModel>, i: int) {
    lemma_skip_separators(ts, i);
}

/// The sequence of top-level expressions of a whole token sequence.
pub open spec fn match_grammar_spec(ts: Seq<TokenModel>, i: int) -> Result<
    Seq<ExprModel>,
    ParseError,
>
    decreases ts.len() - i, 2int,
        via match_grammar_spec_decreases
{
    let k = skip_separators(ts, i);
    if k >= ts.len() {
        Ok(Seq::empty())
    } else {
        match parse_expr_spec(ts, k) {
            Ok((e, j)) => {
                if k < j <= ts.len() {
                    match match_grammar_spec(ts, j) {
                        Ok(rest) => Ok(seq![e] + rest),
                        Err(err) => Err(err),
                    }
                } else {
                    // Unreachable: an expression always moves past its tokens.
                    Err(ParseError::UnexpectedEof)
                }
            },
            Err(err) => Err(err),
        }
    }
}

#[via_fn]
proof fn match_grammar_spec_decreases(ts: Seq<TokenModel>, i: int) {
    lemma_skip_separators(ts, i);
}

/// True when the token only separates expressions.
fn separator(t: &Token) -> (b: bool)
    ensures
        b == is_separator(t@.kind),
{
    match &t.inner {
        TokenType::Symbol(Symbol::WhiteSpace) => true,
        TokenType::Symbol(Symbol::CarriageReturn) => true,
        TokenType::Symbol(Symbol::Comma) => true,
        _ => false,
    }
}

/// Moves past separator tokens, to the first token at or after `i` that can
/// begin or end an expression.
fn skip_to_token(ts: &Vec<Token>, i: usize) -> (k: usize)
    requires
        i <= ts@.len(),
    ensures
        k == skip_separators(tokens_view(ts@), i as int),
        i <= k <= ts@.len(),
    decreases ts@.len() - i,
{
    if i < ts.len() && separator(&ts[i]) {
        skip_to_token(ts, i + 1)
    } else {
        i
    }
}

/// One expression from the token at `i`, which is not a separator, and the
/// index just past it.
fn parse_expr(ts: &Vec<Token>, i: usize) -> (r: Result<(Expression, usize), ParseError>)
    requires
        i < ts@.len(),
    ensures
        ({
            let tv = tokens_view(ts@);
            match r {
                Ok(p) => {
                    &&& parse_expr_spec(tv, i as int) matches Ok(m) && m.0 == p.0@ && m.1
                        == p.1 as int
                    &&& i < p.1 <= ts@.len()
                },
                Err(e) => parse_expr_spec(tv, i as int) == Err::<(ExprModel, int), ParseError>(e),
            }
        }),
    decreases ts@.len() - i, 0int,
{
    proof {
        assert(ts.len() == ts@.len());
    }
    let t = &ts[i];
    match &t.inner {
        TokenType::Symbol(sym) => {
            if *sym == Symbol::OpenParen {
                match parse_list(ts, i + 1) {
                    Ok((children, j)) => Ok((Expression::List(children), j)),
                    Err(e) => Err(e),
                }
            } else {
                match sym {
                    Symbol::Add => Ok((Expression::Op(Operation::Add), i + 1)),
                    Symbol::Subtract => Ok((Expression::Op(Operation::Subtract), i + 1)),
                    Symbol::Multiply => Ok((Expression::Op(Operation::Multiply), i + 1)),
                    Symbol::Divide => Ok((Expression::Op(Operation::Divide), i + 1)),
                    _ => Err(ParseError::UnexpectedEof),
                }
            }
        },
        TokenType::Ident(name) => {
            if name.as_str().unicode_len() < 0x8000_0000 {
                match parse_number(name.as_str()) {
                    Some(bits) => Ok((Expression::Number(bits), i + 1)),
                    None => Ok((Expression::Ident(name.clone()), i + 1)),
                }
            } else {
                Ok((Expression::Ident(name.clone()), i + 1))
            }
        },
        TokenType::Unexpected(_) => Err(ParseError::UnexpectedEof),
    }
}

/// The children of a list opened just before `i`, up to and past the
/// matching closing parenthesis.
fn parse_list(ts: &Vec<Token>, i: usize) -> (r: Result<(Vec<Expression>, usize), ParseError>)
    requires
        i <= ts@.len(),
    ensures
        ({
            let tv = tokens_view(ts@);
            match r {
                Ok(p) => {
                    &&& parse_list_spec(tv, i as int) matches Ok(m) && m.0 == exprs_view(p.0@)
                        && m.1 == p.1 as int
                    &&& i < p.1 <= ts@.len()
                },
                Err(e) => parse_list_spec(tv, i as int) == Err::<
                    (Seq<ExprModel>, int),
                    ParseError,
                >(e),
            }
        }),
    decreases ts@.len() - i, 1int,
{
    let k = skip_to_token(ts, i);
    if k == ts.len() {
        return Err(ParseError::UnexpectedEof);
    }
    let close = match &ts[k].inner {
        TokenType::Symbol(Symbol::CloseParen) => true,
        _ => false,
    };
    if close {
        let empty: Vec<Expression> = Vec::new();
        proof {
            assert(exprs_view(empty@) =~= Seq::<ExprModel>::empty());
        }
        return Ok((empty, k + 1));
    }
    match parse_expr(ts, k) {
        Ok((e, j)) => {
            match parse_list(ts, j) {
                Ok((mut rest, j2)) => {
                    let ghost e0 = e;
                    let ghost r0 = rest@;
                    rest.insert(0, e);
                    proof {
                        assert(rest@ =~= seq![e0] + r0);
                        lemma_exprs_view_cons(e0, r0);
                    }
                    Ok((rest, j2))
                },
                Err(err) => Err(err),
            }
        },
        Err(err) => Err(err),
    }
}

/// Prepending an expression models as prepending its model.
proof fn lemma_exprs_view_cons(e: Expression, rest: Seq<Expression>)
    ensures
        exprs_view(seq![e] + rest) == seq![e@] + exprs_view(rest),
{
    let es = seq![e] + rest;
    assert(es[0] == e);
    assert(es.subrange(1, es.len() as int) =~= rest);
    assert(exprs_view(es) == seq![e@] + exprs_view(rest));
}

/// The whole sequence of top-level expressions starting at `i`.
fn parse_all(ts: &Vec<Token>, i: usize) -> (r: Result<Vec<Expression>, ParseError>)
    requires
        i <= ts@.len(),
    ensures
        ({
            let tv = tokens_view(ts@);
            match r {
                Ok(es) => match_grammar_spec(tv, i as int) matches Ok(ms) && ms == exprs_view(
                    es@,
                ),
                Err(e) => match_grammar_spec(tv, i as int) == Err::<Seq<ExprModel>, ParseError>(e),
            }
        }),
    decreases ts@.len() - i, 2int,
{
    let k = skip_to_token(ts, i);
    if k == ts.len() {
        let empty: Vec<Expression> = Vec::new();
        proof {
            assert(exprs_view(empty@) =~= Seq::<ExprModel>::empty());
        }
        return Ok(empty);
    }
    match parse_expr(ts, k) {
        Ok((e, j)) => {
            match parse_all(ts, j) {
                Ok(mut rest) => {
                    let ghost e0 = e;
                    let ghost r0 = rest@;
                    rest.insert(0, e);
                    proof {
                        assert(rest@ =~= seq![e0] + r0);
                        lemma_exprs_view_cons(e0, r0);
                    }
                    Ok(rest)
                },
                Err(err) => Err(err),
            }
        },
        Err(err) => Err(err),
    }
}

/// Builds the nested expression trees of a whole token sequence: separators
/// are skipped, parenthesized lists nest, operator symbols become operation
/// values, numeric identifiers become numbers; an unterminated list fails
/// with `UnexpectedEof`.
pub fn match_grammar(tokens: &Vec<Token>) -> (r: Result<Vec<Expression>, ParseError>)
    ensures
        ({
            let tv = tokens_view(tokens@);
            match r {
                Ok(es) => match_grammar_spec(tv, 0) matches Ok(ms) && ms == exprs_view(es@),
                Err(e) => match_grammar_spec(tv, 0) == Err::<Seq<ExprModel>, ParseError>(e),
            }
        }),
{
    parse_all(tokens, 0)
}

/// The tree builder: it takes ownership of a scanner's tokens and keeps the
/// expression trees built from them.
#[derive(Debug)]
pub struct Ast {
    pub inner: Vec<Expression>,
    pub tokens: Vec<Token>,
}

impl Ast {
    /// A builder with no tokens and no trees.
    pub fn new() -> (r: Self)
        ensures
            r.inner@ == Seq::<Expression>::empty(),
            r.tokens@ == Seq::<Token>::empty(),
    {
        Ast { inner: Vec::new(), tokens: Vec::new() }
    }

    /// Consumes the scanner and builds the trees of its tokens into `inner`.
    pub fn emit(&mut self, parser: Parser) -> (r: Result<(), ParseError>)
        ensures
            final(self).tokens@ == parser.parsed@,
            (match r {
                Ok(_) => match_grammar_spec(tokens_view(parser.parsed@), 0) matches Ok(ms) && ms
                    == exprs_view(final(self).inner@),
                Err(e) => match_grammar_spec(tokens_view(parser.parsed@), 0) == Err::<
                    Seq<ExprModel>,
                    ParseError,
                >(e),
            }),
    {
        self.tokens = parser.parsed;
        match match_grammar(&self.tokens) {
            Ok(es) => {
                self.inner = es;
                Ok(())
            },
            Err(e) => Err(e),
        }
    }
}

impl Parser {
    /// The expression trees of the tokens this scanner has produced.
    pub fn emit_expressions(&mut self) -> (r: Result<Vec<Expression>, ParseError>)
        ensures
            *final(self) == *old(self),
            ({
                let tv = tokens_view(old(self).parsed@);
                match r {
                    Ok(es) => match_grammar_spec(tv, 0) matches Ok(ms) && ms == exprs_view(es@),
                    Err(e) => match_grammar_spec(tv, 0) == Err::<Seq<ExprModel>, ParseError>(e),
                }
            }),
    {
        match_grammar(&self.parsed)
    }
}

} // verus!
