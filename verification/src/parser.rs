use vstd::prelude::*;

use crate::token::{tokens_view, Symbol, Token, TokenKindModel, TokenModel, TokenType};

verus! {

/// Failure of lexing or tree building: the input ended before a token or a
/// structural form was complete.
#[derive(Clone, Copy, Debug, PartialEq, Eq, Structural)]
pub enum ParseError {
    UnexpectedEof,
}

/// True when `c` belongs to the fixed symbol set.
pub open spec fn is_symbol_char(c: char) -> bool {
    Symbol::spec_try_from(c) is Some
}

/// The index of the first symbol character at or after `k`, if any: an
/// identifier run starting before `k` extends up to exactly this index.
pub open spec fn ident_end(s: Seq<char>, k: int) -> Option<int>
    decreases s.len() - k,
{
    if k < 0 || k >= s.len() {
        None
    } else if is_symbol_char(s[k]) {
        Some(k)
    } else {
        ident_end(s, k + 1)
    }
}

/// Where `ident_end` points: at the first symbol character at or after `k`,
/// with only non-symbol characters before it; `None` exactly when no symbol
/// character follows.
pub proof fn lemma_ident_end(s: Seq<char>, k: int)
    requires
        0 <= k,
    ensures
        match ident_end(s, k) {
            Some(j) => k <= j < s.len() && is_symbol_char(s[j]) && (forall|m: int|
                k <= m < j ==> !is_symbol_char(s[m])),
            None => forall|m: int| k <= m < s.len() ==> !is_symbol_char(s[m]),
        },
    decreases s.len() - k,
{
    if k < s.len() && !is_symbol_char(s[k]) {
        lemma_ident_end(s, k + 1);
    }
}

/// The positioned tokens of `s` scanned from index `i` onward, starting at
/// row `row` and column `col`; or the lexing failure. Each symbol character
/// is one token; a newline starts the next row at column zero; every other
/// character starts an identifier run that must be ended by a later symbol
/// character, otherwise the input is incomplete.
pub open spec fn lex_from(s: Seq<char>, i: int, row: int, col: int) -> Result<
    Seq<TokenModel>,
    ParseError,
>
    decreases s.len() - i,
        via lex_from_decreases
{
    if i < 0 || i >= s.len() {
        Ok(Seq::empty())
    } else {
        match Symbol::spec_try_from(s[i]) {
            Some(sym) => {
                let tok = TokenModel { kind: TokenKindModel::Symbol(sym), row, col };
                let rest = if sym == Symbol::NewLine {
                    lex_from(s, i + 1, row + 1, 0)
                } else {
                    lex_from(s, i + 1, row, col + 1)
                };
                match rest {
                    Ok(ts) => Ok(seq![tok] + ts),
                    Err(e) => Err(e),
                }
            },
            None => match ident_end(s, i + 1) {
                None => Err(ParseError::UnexpectedEof),
                Some(j) => {
                    let tok = TokenModel {
                        kind: TokenKindModel::Ident(s.subrange(i, j)),
                        row,
                        col,
                    };
                    match lex_from(s, j, row, col + (j - i)) {
                        Ok(ts) => Ok(seq![tok] + ts),
                        Err(e) => Err(e),
                    }
                },
            },
        }
    }
}

#[via_fn]
proof fn lex_from_decreases(s: Seq<char>, i: int, row: int, col: int) {
    if 0 <= i && i < s.len() && Symbol::spec_try_from(s[i]) is None {
        lemma_ident_end(s, i + 1);
    }
}

/// The scanner: it turns a source string into the ordered token sequence in
/// `parsed`, tracking a read cursor, a one-step-ahead lookahead extent, and
/// the current zero-based row and column.
#[derive(Debug)]
pub struct Parser {
    pub parsed: Vec<Token>,
    pub parsing: Vec<char>,
    pub cursor: usize,
    pub peek: usize,
    pub row: isize,
    pub column: isize,
}

impl Parser {
    /// A scanner with no input, no tokens, and all counters at zero.
    pub fn new() -> (r: Self)
        ensures
            r.parsed@ == Seq::<Token>::empty(),
            r.parsing@ == Seq::<char>::empty(),
            r.cursor == 0,
            r.peek == 0,
            r.row == 0,
            r.column == 0,
    {
        Parser {
            parsed: Vec::new(),
            parsing: Vec::new(),
            cursor: 0,
            peek: 0,
            row: 0,
            column: 0,
        }
    }

    /// The characters of `input`, in order.
    pub fn chars(input: &str) -> (r: Vec<char>)
        ensures
            r@ == input@,
    {
        let n = input.unicode_len();
        let mut v: Vec<char> = Vec::new();
        let mut i: usize = 0;
        while i < n
            invariant
                n == input@.len(),
                i <= n,
                v@ == input@.subrange(0, i as int),
            decreases n - i,
        {
            v.push(input.get_char(i));
            i = i + 1;
            proof {
                assert(v@ =~= input@.subrange(0, i as int));
            }
        }
        proof {
            assert(v@ =~= input@);
        }
        v
    }

    /// Hands back the character under the cursor, if any, and moves the
    /// cursor one step forward.
    pub fn read(&mut self) -> (r: Option<char>)
        requires
            old(self).cursor <= old(self).parsing@.len(),
            old(self).parsing@.len() < usize::MAX,
        ensures
            final(self).parsing == old(self).parsing,
            final(self).parsed == old(self).parsed,
            final(self).peek == old(self).peek,
            final(self).row == old(self).row,
            final(self).column == old(self).column,
            final(self).cursor == old(self).cursor + 1,
            r == (if old(self).cursor < old(self).parsing@.len() {
                Some(old(self).parsing@[old(self).cursor as int])
            } else {
                None::<char>
            }),
    {
        let c = if self.cursor < self.parsing.len() {
            Some(self.parsing[self.cursor])
        } else {
            None
        };
        self.cursor = self.cursor + 1;
        c
    }

    /// Looks one further step ahead of the cursor, growing the lookahead
    /// extent by one, and hands back the character there, if any.
    pub fn peek(&mut self) -> (r: Option<char>)
        requires
            old(self).cursor + old(self).peek < usize::MAX,
        ensures
            final(self).parsing == old(self).parsing,
            final(self).parsed == old(self).parsed,
            final(self).cursor == old(self).cursor,
            final(self).row == old(self).row,
            final(self).column == old(self).column,
            final(self).peek == old(self).peek + 1,
            r == (if old(self).cursor + old(self).peek < old(self).parsing@.len() {
                Some(old(self).parsing@[old(self).cursor + old(self).peek])
            } else {
                None::<char>
            }),
    {
        self.peek = self.peek + 1;
        if self.cursor + self.peek - 1 < self.parsing.len() {
            Some(self.parsing[self.cursor + self.peek - 1])
        } else {
            None
        }
    }

    /// Folds the lookahead extent into the read cursor. Lookahead stops one
    /// character past the end of a token, so the cursor moves to the last
    /// peeked position, ready to read the character that ended the token.
    pub fn advance_cursor_to_peek(&mut self)
        requires
            old(self).peek >= 1,
            old(self).cursor + old(self).peek <= usize::MAX,
        ensures
            final(self).parsing == old(self).parsing,
            final(self).parsed == old(self).parsed,
            final(self).row == old(self).row,
            final(self).column == old(self).column,
            final(self).cursor == old(self).cursor + old(self).peek - 1,
            final(self).peek == 0,
    {
        self.cursor = self.cursor + self.peek - 1;
        self.peek = 0;
    }

    /// Turns the character just read (still under `cursor - 1`) into one
    /// token: a symbol character becomes a symbol token and, for a newline,
    /// moves the position to the next row; any other character starts an
    /// identifier run gathered by lookahead, which fails with `UnexpectedEof`
    /// when the input ends before a symbol character does the run.
    pub fn tokenize(&mut self, c: char) -> (r: Result<Token, ParseError>)
        requires
            old(self).peek == 0,
            1 <= old(self).cursor <= old(self).parsing@.len(),
            old(self).parsing@.len() <= isize::MAX as int,
            old(self).parsing@[old(self).cursor - 1] == c,
            0 <= old(self).row as int <= old(self).cursor - 1,
            0 <= old(self).column as int <= old(self).cursor - 1,
        ensures
            final(self).parsing == old(self).parsing,
            final(self).parsed == old(self).parsed,
            ({
                let s = old(self).parsing@;
                let i = old(self).cursor - 1;
                let row0 = old(self).row as int;
                let col0 = old(self).column as int;
                match Symbol::spec_try_from(s[i]) {
                    Some(sym) => {
                        &&& r matches Ok(t) && t@ == (TokenModel {
                            kind: TokenKindModel::Symbol(sym),
                            row: row0,
                            col: col0,
                        })
                        &&& final(self).cursor == old(self).cursor
                        &&& final(self).peek == 0
                        &&& if sym == Symbol::NewLine {
                            final(self).row as int == row0 + 1 && final(self).column as int == -1
                        } else {
                            final(self).row == old(self).row && final(self).column == old(
                                self,
                            ).column
                        }
                    },
                    None => match ident_end(s, i + 1) {
                        Some(j) => {
                            &&& r matches Ok(t) && t@ == (TokenModel {
                                kind: TokenKindModel::Ident(s.subrange(i, j)),
                                row: row0,
                                col: col0,
                            })
                            &&& i + 1 <= j < s.len()
                            &&& final(self).cursor == j
                            &&& final(self).peek == 0
                            &&& final(self).row == old(self).row
                            &&& final(self).column as int == col0 + (j - i) - 1
                        },
                        None => r == Err::<Token, ParseError>(ParseError::UnexpectedEof),
                    },
                }
            }),
    {
        let ghost s = self.parsing@;
        let ghost i = self.cursor - 1;
        match Symbol::try_from(c) {
            Ok(sym) => {
                let token = Token::new(TokenType::Symbol(sym), self.row, self.column);
                if sym == Symbol::NewLine {
                    self.row = self.row + 1;
                    self.column = -1;
                }
                Ok(token)
            },
            Err(start) => {
                let mut ident = String::new();
                crate::numeric::push_char(&mut ident, start);
                proof {
                    assert(ident@ =~= s.subrange(i, i + 1));
                }
                loop
                    invariant_except_break
                        ident@ == s.subrange(i, i + 1 + self.peek),
                        ident_end(s, i + 1) == ident_end(s, i + 1 + self.peek),
                        forall|m: int| i + 1 <= m <= i + self.peek ==> !is_symbol_char(s[m]),
                    invariant
                        self.parsing == old(self).parsing,
                        self.parsed == old(self).parsed,
                        self.cursor == old(self).cursor,
                        self.row == old(self).row,
                        self.column == old(self).column,
                        self.parsing@ == s,
                        1 <= self.cursor <= s.len() <= isize::MAX as int,
                        i == self.cursor - 1,
                        Symbol::spec_try_from(s[i]) is None,
                        i + 1 + self.peek <= s.len(),
                    ensures
                        1 <= self.peek,
                        i + self.peek < s.len(),
                        ident_end(s, i + 1) == Some(i + self.peek as int),
                        ident@ == s.subrange(i, i + self.peek as int),
                    decreases s.len() - (i + 1 + self.peek),
                {
                    let ghost p = self.peek as int;
                    match self.peek() {
                        None => {
                            // The lookahead ran past the end of the input:
                            // no symbol character ends the identifier run.
                            proof {
                                assert(i + 1 + p >= s.len());
                                assert(ident_end(s, i + 1 + p) is None);
                            }
                            return Err(ParseError::UnexpectedEof);
                        },
                        Some(next) => {
                            match Symbol::try_from(next) {
                                Ok(_) => {
                                    proof {
                                        assert(is_symbol_char(s[i + 1 + p]));
                                        assert(ident_end(s, i + 1 + p) == Some(i + 1 + p));
                                    }
                                    break;
                                },
                                Err(nonsym) => {
                                    crate::numeric::push_char(&mut ident, nonsym);
                                    proof {
                                        assert(ident@ =~= s.subrange(i, i + 1 + self.peek as int));
                                        assert(ident_end(s, i + 1 + p) == ident_end(
                                            s,
                                            i + 1 + p + 1,
                                        ));
                                    }
                                },
                            }
                        },
                    }
                }
                let ghost j = i + self.peek as int;
                let token = Token::new(TokenType::Ident(ident), self.row, self.column);
                self.column = self.column + (self.peek as isize) - 1;
                self.advance_cursor_to_peek();
                Ok(token)
            },
        }
    }

    /// Scans the whole input, gathering one token per step into `parsed` and
    /// advancing the column by one after each token; on success the input
    /// buffer is dropped.
    pub fn parse_to_end(&mut self) -> (r: Result<(), ParseError>)
        requires
            old(self).cursor == 0,
            old(self).peek == 0,
            old(self).row == 0,
            old(self).column == 0,
            old(self).parsed@ == Seq::<Token>::empty(),
            old(self).parsing@.len() <= isize::MAX as int,
        ensures
            match r {
                Ok(_) => {
                    &&& lex_from(old(self).parsing@, 0, 0, 0) matches Ok(ts) && tokens_view(
                        final(self).parsed@,
                    ) == ts
                    &&& final(self).parsing@ == Seq::<char>::empty()
                },
                Err(e) => lex_from(old(self).parsing@, 0, 0, 0) == Err::<
                    Seq<TokenModel>,
                    ParseError,
                >(e),
            },
    {
        let ghost s = self.parsing@;
        while self.cursor < self.parsing.len()
            invariant
                s == old(self).parsing@,
                self.parsing@ == s,
                self.peek == 0,
                self.cursor <= s.len() <= isize::MAX as int,
                0 <= self.row as int <= self.cursor as int,
                0 <= self.column as int <= self.cursor as int,
                match (lex_from(s, 0, 0, 0), lex_from(
                    s,
                    self.cursor as int,
                    self.row as int,
                    self.column as int,
                )) {
                    (Ok(all), Ok(rest)) => all == tokens_view(self.parsed@) + rest,
                    (Err(e1), Err(e2)) => e1 == e2,
                    _ => false,
                },
            decreases s.len() - self.cursor,
        {
            let ghost cur0 = self.cursor as int;
            let ghost row0 = self.row as int;
            let ghost col0 = self.column as int;
            let ghost parsed0 = self.parsed@;
            let copied = self.read();
            let ch = copied.unwrap();
            let token = match self.tokenize(ch) {
                Ok(token) => token,
                Err(e) => {
                    proof {
                        assert(lex_from(s, cur0, row0, col0) == Err::<
                            Seq<TokenModel>,
                            ParseError,
                        >(ParseError::UnexpectedEof));
                    }
                    return Err(e);
                },
            };
            self.parsed.push(token);
            self.column = self.column + 1;
            proof {
                assert(tokens_view(parsed0.push(token)) =~= tokens_view(parsed0) + seq![token@]);
                let step = lex_from(s, cur0, row0, col0);
                let rest = lex_from(
                    s,
                    self.cursor as int,
                    self.row as int,
                    self.column as int,
                );
                match rest {
                    Ok(ts) => {
                        assert(step == Ok::<Seq<TokenModel>, ParseError>(seq![token@] + ts));
                        assert(tokens_view(parsed0) + (seq![token@] + ts) =~= tokens_view(
                            self.parsed@,
                        ) + ts);
                    },
                    Err(_) => {
                        assert(step == rest);
                    },
                }
            }
        }
        proof {
            assert(lex_from(s, self.cursor as int, self.row as int, self.column as int) == Ok::<
                Seq<TokenModel>,
                ParseError,
            >(Seq::empty()));
            assert(tokens_view(self.parsed@) + Seq::<TokenModel>::empty() =~= tokens_view(
                self.parsed@,
            ));
        }
        self.parsing = Vec::new();
        Ok(())
    }

    /// Lexes `input` from a fresh scanning state: on success `parsed` holds
    /// exactly the tokens of `input` with their positions; the only failure
    /// is an identifier run cut off by the end of the input.
    pub fn parse(&mut self, input: &str) -> (r: Result<(), ParseError>)
        requires
            input@.len() <= isize::MAX as int,
        ensures
            match r {
                Ok(_) => lex_from(input@, 0, 0, 0) matches Ok(ts) && tokens_view(
                    final(self).parsed@,
                ) == ts,
                Err(e) => e == ParseError::UnexpectedEof && lex_from(input@, 0, 0, 0) == Err::<
                    Seq<TokenModel>,
                    ParseError,
                >(e),
            },
    {
        self.parsing = Parser::chars(input);
        self.parsed = Vec::new();
        self.cursor = 0;
        self.peek = 0;
        self.row = 0;
        self.column = 0;
        self.parse_to_end()
    }
}

/// The width of a token in source characters.
pub open spec fn token_width(kind: TokenKindModel) -> int {
    match kind {
        TokenKindModel::Ident(cs) => cs.len() as int,
        _ => 1,
    }
}

/// Position bookkeeping of the lexer: the first token sits at the starting
/// position; each later token keeps its predecessor's row unless the
/// predecessor is a newline, which moves down exactly one row; and each later
/// token's column continues past its predecessor's width, except that the
/// token after a newline starts at column zero — the column it would get on
/// the first row of an input made of its own line.
pub proof fn lemma_lex_positions(s: Seq<char>, i: int, row: int, col: int)
    ensures
        (match lex_from(s, i, row, col) {
            Ok(ts) => {
                &&& ts.len() > 0 ==> ts[0].row == row && ts[0].col == col
                &&& forall|k: int|
                    0 <= k < ts.len() - 1 ==> (#[trigger] ts[k + 1].row) == ts[k].row + (
                    if ts[k].kind == TokenKindModel::Symbol(Symbol::NewLine) {
                        1int
                    } else {
                        0int
                    })
                &&& forall|k: int|
                    0 <= k < ts.len() - 1 ==> (#[trigger] ts[k + 1].col) == (
                    if ts[k].kind == TokenKindModel::Symbol(Symbol::NewLine) {
                        0int
                    } else {
                        ts[k].col + token_width(ts[k].kind)
                    })
            },
            Err(_) => true,
        }),
    decreases s.len() - i,
{
    if i < 0 || i >= s.len() {
    } else {
        match Symbol::spec_try_from(s[i]) {
            Some(sym) => {
                let tok = TokenModel { kind: TokenKindModel::Symbol(sym), row, col };
                if sym == Symbol::NewLine {
                    lemma_lex_positions(s, i + 1, row + 1, 0);
                } else {
                    lemma_lex_positions(s, i + 1, row, col + 1);
                }
                match lex_from(s, i, row, col) {
                    Ok(ts) => {
                        let rest = if sym == Symbol::NewLine {
                            lex_from(s, i + 1, row + 1, 0)->Ok_0
                        } else {
                            lex_from(s, i + 1, row, col + 1)->Ok_0
                        };
                        assert(ts == seq![tok] + rest);
                        lemma_lex_positions_cons(tok, rest, ts);
                    },
                    Err(_) => {},
                }
            },
            None => match ident_end(s, i + 1) {
                None => {},
                Some(j) => {
                    lemma_ident_end(s, i + 1);
                    let tok = TokenModel { kind: TokenKindModel::Ident(s.subrange(i, j)), row, col };
                    lemma_lex_positions(s, j, row, col + (j - i));
                    match lex_from(s, i, row, col) {
                        Ok(ts) => {
                            let rest = lex_from(s, j, row, col + (j - i))->Ok_0;
                            assert(ts == seq![tok] + rest);
                            assert(token_width(tok.kind) == j - i);
                            lemma_lex_positions_cons(tok, rest, ts);
                        },
                        Err(_) => {},
                    }
                },
            },
        }
    }
}

/// Prepending a token keeps the step laws, provided the first remaining
/// token sits where scanning past the new head lands.
proof fn lemma_lex_positions_cons(tok: TokenModel, rest: Seq<TokenModel>, ts: Seq<TokenModel>)
    requires
        ts == seq![tok] + rest,
        rest.len() > 0 ==> rest[0].row == tok.row + (
        if tok.kind == TokenKindModel::Symbol(Symbol::NewLine) {
            1int
        } else {
            0int
        }),
        rest.len() > 0 ==> rest[0].col == (
        if tok.kind == TokenKindModel::Symbol(Symbol::NewLine) {
            0int
        } else {
            tok.col + token_width(tok.kind)
        }),
        forall|k: int|
            0 <= k < rest.len() - 1 ==> (#[trigger] rest[k + 1].row) == rest[k].row + (
            if rest[k].kind == TokenKindModel::Symbol(Symbol::NewLine) {
                1int
            } else {
                0int
            }),
        forall|k: int|
            0 <= k < rest.len() - 1 ==> (#[trigger] rest[k + 1].col) == (
            if rest[k].kind == TokenKindModel::Symbol(Symbol::NewLine) {
                0int
            } else {
                rest[k].col + token_width(rest[k].kind)
            }),
    ensures
        forall|k: int|
            0 <= k < ts.len() - 1 ==> (#[trigger] ts[k + 1].row) == ts[k].row + (
            if ts[k].kind == TokenKindModel::Symbol(Symbol::NewLine) {
                1int
            } else {
                0int
            }),
        forall|k: int|
            0 <= k < ts.len() - 1 ==> (#[trigger] ts[k + 1].col) == (
            if ts[k].kind == TokenKindModel::Symbol(Symbol::NewLine) {
                0int
            } else {
                ts[k].col + token_width(ts[k].kind)
            }),
{
    assert forall|k: int|
        0 <= k < ts.len() - 1 implies (#[trigger] ts[k + 1].row) == ts[k].row + (
    if ts[k].kind == TokenKindModel::Symbol(Symbol::NewLine) {
        1int
    } else {
        0int
    }) by {
        if k == 0 {
            assert(ts[0] == tok);
            assert(ts[1] == rest[0]);
        } else {
            assert(ts[k] == rest[k - 1]);
            assert(ts[k + 1] == rest[k]);
            assert(rest[(k - 1) + 1] == rest[k]);
        }
    }
    assert forall|k: int|
        0 <= k < ts.len() - 1 implies (#[trigger] ts[k + 1].col) == (
    if ts[k].kind == TokenKindModel::Symbol(Symbol::NewLine) {
        0int
    } else {
        ts[k].col + token_width(ts[k].kind)
    }) by {
        if k == 0 {
            assert(ts[0] == tok);
            assert(ts[1] == rest[0]);
        } else {
            assert(ts[k] == rest[k - 1]);
            assert(ts[k + 1] == rest[k]);
            assert(rest[(k - 1) + 1] == rest[k]);
        }
    }
}

/// Lexing never produces an `Unexpected` token: every character is either a
/// symbol or part of an identifier run, and the marker kind exists only for
/// downstream diagnostics.
pub proof fn lemma_lex_no_unexpected(s: Seq<char>, i: int, row: int, col: int)
    ensures
        (match lex_from(s, i, row, col) {
            Ok(ts) => forall|k: int| 0 <= k < ts.len() ==> !((#[trigger] ts[k].kind) is Unexpected),
            Err(_) => true,
        }),
    decreases s.len() - i,
{
    if 0 <= i && i < s.len() {
        match Symbol::spec_try_from(s[i]) {
            Some(sym) => {
                if sym == Symbol::NewLine {
                    lemma_lex_no_unexpected(s, i + 1, row + 1, 0);
                } else {
                    lemma_lex_no_unexpected(s, i + 1, row, col + 1);
                }
            },
            None => {
                match ident_end(s, i + 1) {
                    None => {},
                    Some(j) => {
                        lemma_ident_end(s, i + 1);
                        lemma_lex_no_unexpected(s, j, row, col + (j - i));
                    },
                }
            },
        }
        match lex_from(s, i, row, col) {
            Ok(ts) => {
                assert forall|k: int| 0 <= k < ts.len() implies !((#[trigger] ts[k].kind)
                    is Unexpected) by {
                    if k >= 1 {
                        assert(ts[k] == ts.subrange(1, ts.len() as int)[k - 1]);
                    }
                }
            },
            Err(_) => {},
        }
    }
}

/// Rows never decrease across the token sequence of a lexed input.
pub proof fn lemma_lex_rows_monotonic(s: Seq<char>)
    ensures
        (match lex_from(s, 0, 0, 0) {
            Ok(ts) => forall|k1: int, k2: int|
                0 <= k1 <= k2 < ts.len() ==> (#[trigger] ts[k1].row) <= (#[trigger] ts[k2].row),
            Err(_) => true,
        }),
{
    lemma_lex_positions(s, 0, 0, 0);
    match lex_from(s, 0, 0, 0) {
        Ok(ts) => {
            assert forall|k1: int, k2: int|
                0 <= k1 <= k2 < ts.len() implies (#[trigger] ts[k1].row) <= (
            #[trigger] ts[k2].row) by {
                lemma_rows_chain(ts, k1, k2);
            }
        },
        Err(_) => {},
    }
}

/// Chains the single-step row law into monotonicity.
proof fn lemma_rows_chain(ts: Seq<TokenModel>, k1: int, k2: int)
    requires
        0 <= k1 <= k2 < ts.len(),
        forall|k: int|
            0 <= k < ts.len() - 1 ==> (#[trigger] ts[k + 1].row) == ts[k].row + (
            if ts[k].kind == TokenKindModel::Symbol(Symbol::NewLine) {
                1int
            } else {
                0int
            }),
    ensures
        ts[k1].row <= ts[k2].row,
    decreases k2 - k1,
{
    if k1 < k2 {
        lemma_rows_chain(ts, k1, k2 - 1);
        assert(ts[k2].row == ts[(k2 - 1) + 1].row);
    }
}

impl Default for Parser {
    /// Same as `Parser::new`.
    fn default() -> (r: Self)
        ensures
            r.parsed@ == Seq::<Token>::empty(),
            r.parsing@ == Seq::<char>::empty(),
            r.cursor == 0,
            r.peek == 0,
            r.row == 0,
            r.column == 0,
    {
        Parser::new()
    }
}

} // verus!
