use risp::token::Symbol;

#[test]
fn test_symbol_matching() {
    let to_match = ["(", ")", "_", "*"];
    let symbols = Symbol::symbols();

    let matched = to_match.map(|s| symbols.iter().find(|sym| sym.as_str() == s));

    assert_eq!(
        matched,
        [
            Some(&Symbol::OpenParen),
            Some(&Symbol::CloseParen),
            None,
            Some(&Symbol::Multiply)
        ]
    )
}

#[test]
fn token_test_symbol_matching() {
    let to_match = ["(", ")", "_", "*"];
    let symbols = Symbol::symbols();

    let matched = to_match.map(|s| symbols.iter().find(|sym| sym.as_str() == s));

    assert_eq!(
        matched,
        [
            Some(&Symbol::OpenParen),
            Some(&Symbol::CloseParen),
            None,
            Some(&Symbol::Multiply)
        ]
    )
}

#[test]
fn symbol_try_from_covers_the_fixed_set() {
    let fixed = [
        ('(', Symbol::OpenParen),
        (')', Symbol::CloseParen),
        (',', Symbol::Comma),
        ('+', Symbol::Add),
        ('-', Symbol::Subtract),
        ('*', Symbol::Multiply),
        ('/', Symbol::Divide),
        ('^', Symbol::ToPower),
        ('\\', Symbol::ReduceOrEscape),
        ('"', Symbol::DoubleQuote),
        ('\n', Symbol::NewLine),
        ('\r', Symbol::CarriageReturn),
        (' ', Symbol::WhiteSpace),
    ];
    for (c, sym) in fixed {
        assert_eq!(Symbol::try_from(c), Ok(sym));
    }
    for c in ['a', 'Z', '1', '_', '.', '\t'] {
        assert_eq!(Symbol::try_from(c), Err(c));
    }
}

#[test]
fn symbols_lists_every_variant_once() {
    let symbols = Symbol::symbols();
    assert_eq!(symbols.len(), 13);
    assert_eq!(symbols[0], Symbol::OpenParen);
    assert_eq!(symbols[12], Symbol::WhiteSpace);
}

#[test]
fn symbol_reprs_are_single_characters() {
    for sym in Symbol::symbols() {
        assert_eq!(sym.as_str().chars().count(), 1);
    }
}
