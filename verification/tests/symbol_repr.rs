// The symbol table pattern written out for a one-variant symbol set: each
// variant carries a canonical string representation handed back by `as_ref`.

#[derive(Debug, PartialEq, Clone, Copy)]
enum Symbol {
    Wow,
}

impl Symbol {
    fn as_ref(&self) -> &'static str {
        match self {
            Symbol::Wow => "Wow!",
        }
    }
}

#[test]
fn test_symbol_enum() {
    assert_eq!("Wow!", Symbol::Wow.as_ref())
}

#[test]
fn token_test_symbol_enum() {
    assert_eq!("Wow!", Symbol::Wow.as_ref())
}
