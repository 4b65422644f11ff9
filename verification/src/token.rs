use vstd::prelude::*;

verus! {

/// A single-character lexical marker of the language: parentheses, the four
/// arithmetic operators, separators, quoting characters and line breaks.
///
/// The mapping from characters to symbols is total only over this fixed set;
/// any other character is not a symbol and begins an identifier instead.
#[derive(Clone, Copy, Debug, PartialEq, Eq, Structural)]
pub enum Symbol {
    OpenParen,
    CloseParen,
    Comma,
    Add,
    Subtract,
    Multiply,
    Divide,
    ToPower,
    ReduceOrEscape,
    DoubleQuote,
    NewLine,
    CarriageReturn,
    WhiteSpace,
}

impl Symbol {
    /// The canonical character of this symbol.
    pub open spec fn spec_char(self) -> char {
        match self {
            Symbol::OpenParen => '(',
            Symbol::CloseParen => ')',
            Symbol::Comma => ',',
            Symbol::Add => '+',
            Symbol::Subtract => '-',
            Symbol::Multiply => '*',
            Symbol::Divide => '/',
            Symbol::ToPower => '^',
            Symbol::ReduceOrEscape => '\\',
            Symbol::DoubleQuote => '"',
            Symbol::NewLine => '\n',
            Symbol::CarriageReturn => '\r',
            Symbol::WhiteSpace => ' ',
        }
    }

    /// The canonical one-character string representation of this symbol.
    pub open spec fn spec_str(self) -> Seq<char> {
        match self {
            Symbol::OpenParen => "("@,
            Symbol::CloseParen => ")"@,
            Symbol::Comma => ","@,
            Symbol::Add => "+"@,
            Symbol::Subtract => "-"@,
            Symbol::Multiply => "*"@,
            Symbol::Divide => "/"@,
            Symbol::ToPower => "^"@,
            Symbol::ReduceOrEscape => "\\"@,
            Symbol::DoubleQuote => "\""@,
            Symbol::NewLine => "\n"@,
            Symbol::CarriageReturn => "\r"@,
            Symbol::WhiteSpace => " "@,
        }
    }

    /// The symbol matching a raw character, if the character belongs to the
    /// fixed symbol set.
    pub open spec fn spec_try_from(c: char) -> Option<Symbol> {
        if c == '(' {
            Some(Symbol::OpenParen)
        } else if c == ')' {
            Some(Symbol::CloseParen)
        } else if c == ',' {
            Some(Symbol::Comma)
        } else if c == '+' {
            Some(Symbol::Add)
        } else if c == '-' {
            Some(Symbol::Subtract)
        } else if c == '*' {
            Some(Symbol::Multiply)
        } else if c == '/' {
            Some(Symbol::Divide)
        } else if c == '^' {
            Some(Symbol::ToPower)
        } else if c == '\\' {
            Some(Symbol::ReduceOrEscape)
        } else if c == '"' {
            Some(Symbol::DoubleQuote)
        } else if c == '\n' {
            Some(Symbol::NewLine)
        } else if c == '\r' {
            Some(Symbol::CarriageReturn)
        } else if c == ' ' {
            Some(Symbol::WhiteSpace)
        } else {
            None
        }
    }

    /// Matches a raw character against the fixed symbol set: every symbol
    /// character yields its variant, every other character is handed back.
    pub fn try_from(c: char) -> (r: Result<Symbol, char>)
        ensures
            (match r {
                Ok(s) => Self::spec_try_from(c) == Some(s),
                Err(e) => Self::spec_try_from(c) is None && e == c,
            }),
    {
        if c == '(' {
            Ok(Symbol::OpenParen)
        } else if c == ')' {
            Ok(Symbol::CloseParen)
        } else if c == ',' {
            Ok(Symbol::Comma)
        } else if c == '+' {
            Ok(Symbol::Add)
        } else if c == '-' {
            Ok(Symbol::Subtract)
        } else if c == '*' {
            Ok(Symbol::Multiply)
        } else if c == '/' {
            Ok(Symbol::Divide)
        } else if c == '^' {
            Ok(Symbol::ToPower)
        } else if c == '\\' {
            Ok(Symbol::ReduceOrEscape)
        } else if c == '"' {
            Ok(Symbol::DoubleQuote)
        } else if c == '\n' {
            Ok(Symbol::NewLine)
        } else if c == '\r' {
            Ok(Symbol::CarriageReturn)
        } else if c == ' ' {
            Ok(Symbol::WhiteSpace)
        } else {
            Err(c)
        }
    }

    /// The canonical one-character string representation, for display and for
    /// matching against raw input.
    pub fn as_str(self) -> (r: &'static str)
        ensures
            r@ == self.spec_str(),
    {
        match self {
            Symbol::OpenParen => "(",
            Symbol::CloseParen => ")",
            Symbol::Comma => ",",
            Symbol::Add => "+",
            Symbol::Subtract => "-",
            Symbol::Multiply => "*",
            Symbol::Divide => "/",
            Symbol::ToPower => "^",
            Symbol::ReduceOrEscape => "\\",
            Symbol::DoubleQuote => "\"",
            Symbol::NewLine => "\n",
            Symbol::CarriageReturn => "\r",
            Symbol::WhiteSpace => " ",
        }
    }

    /// The fixed symbol set, every variant once, in declaration order.
    pub fn symbols() -> (r: Vec<Symbol>)
        ensures
            r@ =~= seq![
                Symbol::OpenParen,
                Symbol::CloseParen,
                Symbol::Comma,
                Symbol::Add,
                Symbol::Subtract,
                Symbol::Multiply,
                Symbol::Divide,
                Symbol::ToPower,
                Symbol::ReduceOrEscape,
                Symbol::DoubleQuote,
                Symbol::NewLine,
                Symbol::CarriageReturn,
                Symbol::WhiteSpace,
            ],
    {
        let mut v: Vec<Symbol> = Vec::new();
        v.push(Symbol::OpenParen);
        v.push(Symbol::CloseParen);
        v.push(Symbol::Comma);
        v.push(Symbol::Add);
        v.push(Symbol::Subtract);
        v.push(Symbol::Multiply);
        v.push(Symbol::Divide);
        v.push(Symbol::ToPower);
        v.push(Symbol::ReduceOrEscape);
        v.push(Symbol::DoubleQuote);
        v.push(Symbol::NewLine);
        v.push(Symbol::CarriageReturn);
        v.push(Symbol::WhiteSpace);
        v
    }
}

/// The character-to-symbol table is total on the fixed symbol set: matching a
/// symbol's own character always recovers exactly that symbol, and a match can
/// only succeed on a symbol's canonical character.
pub proof fn lemma_symbol_table_total()
    ensures
        forall|s: Symbol| Symbol::spec_try_from(#[trigger] s.spec_char()) == Some(s),
        forall|c: char, s: Symbol| Symbol::spec_try_from(c) == Some(s) ==> s.spec_char() == c,
{
}

/// A symbol's one-character string representation holds exactly its canonical
/// character, so comparing a character's string form against the
/// representation agrees with the character table.
pub proof fn lemma_symbol_repr()
    ensures
        forall|s: Symbol| #[trigger] s.spec_str() == seq![s.spec_char()],
{
    assert forall|s: Symbol| #[trigger] s.spec_str() == seq![s.spec_char()] by {
        reveal_strlit("(");
        reveal_strlit(")");
        reveal_strlit(",");
        reveal_strlit("+");
        reveal_strlit("-");
        reveal_strlit("*");
        reveal_strlit("/");
        reveal_strlit("^");
        reveal_strlit("\\");
        reveal_strlit("\"");
        reveal_strlit("\n");
        reveal_strlit("\r");
        reveal_strlit(" ");
        assert(s.spec_str() =~= seq![s.spec_char()]);
    }
}

/// A positioned token: its kind together with the zero-based row and column
/// where it starts in the source text.
#[derive(Debug, Clone, PartialEq)]
pub struct Token {
    pub inner: TokenType,
    pub row: isize,
    pub column: isize,
}

impl Token {
    pub fn new(inner: TokenType, row: isize, column: isize) -> (r: Self)
        ensures
            r == (Token { inner, row, column }),
    {
        Token { inner, row, column }
    }
}

/// What a token is: a maximal identifier run, a fixed symbol, or a marker for
/// a character kept only for downstream diagnostics.
#[derive(Debug, Clone, PartialEq)]
pub enum TokenType {
    Ident(String),
    Symbol(Symbol),
    Unexpected(char),
}

/// A token that the grammar cannot place.
pub enum TokenError<'a> {
    Unexpected(&'a Token),
}

/// The mathematical value of a token kind.
pub ghost enum TokenKindModel {
    Ident(Seq<char>),
    Symbol(Symbol),
    Unexpected(char),
}

/// The mathematical value of a token: kind and unbounded position counters.
pub ghost struct TokenModel {
    pub kind: TokenKindModel,
    pub row: int,
    pub col: int,
}

impl View for TokenType {
    type V = TokenKindModel;

    open spec fn view(&self) -> TokenKindModel {
        match self {
            TokenType::Ident(s) => TokenKindModel::Ident(s@),
            TokenType::Symbol(s) => TokenKindModel::Symbol(*s),
            TokenType::Unexpected(c) => TokenKindModel::Unexpected(*c),
        }
    }
}

impl View for Token {
    type V = TokenModel;

    open spec fn view(&self) -> TokenModel {
        TokenModel { kind: self.inner@, row: self.row as int, col: self.column as int }
    }
}

/// The models of a token sequence.
pub open spec fn tokens_view(ts: Seq<Token>) -> Seq<TokenModel> {
    ts.map_values(|t: Token| t@)
}

} // verus!
