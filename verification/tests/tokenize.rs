use lexpat::{alternate, lex, lex_pattern, lit, Alt, CharPattern, Lex, Parse, ParseIterator,
    ParseResult, ANY};

#[derive(Copy, Clone, PartialEq, Debug)]
enum Token {
    Eq,
    Plus,
    Star,
    One,
    X,
    LeftBracket,
    RightBracket,
    Semicolon,
}

type CharLex = Lex<CharPattern, Token>;
type Lexer = Alt<
    Alt<Alt<CharLex, CharLex>, Alt<CharLex, CharLex>>,
    Alt<Alt<CharLex, CharLex>, Alt<CharLex, CharLex>>,
>;

fn lexer() -> Lexer {
    alternate(
        alternate(
            alternate(lex('=', Token::Eq), lex('+', Token::Plus)),
            alternate(lex('*', Token::Star), lex('1', Token::One)),
        ),
        alternate(
            alternate(lex('x', Token::X), lex('(', Token::LeftBracket)),
            alternate(lex(')', Token::RightBracket), lex(';', Token::Semicolon)),
        ),
    )
}

#[test]
fn tokenize() {
    let lx = lexer();

    let code = "x=(1+1)*x;";
    let mut it = lx.tokenize(code);
    let mut tokens: Vec<Token> = Vec::new();
    while let Some(r) = it.next() {
        match r {
            ParseResult::Token(tok, _) => tokens.push(tok),
            ParseResult::UnexpectedAt(_) => unreachable!(),
        }
    }

    assert_eq!(
        tokens,
        [
            Token::X,
            Token::Eq,
            Token::LeftBracket,
            Token::One,
            Token::Plus,
            Token::One,
            Token::RightBracket,
            Token::Star,
            Token::X,
            Token::Semicolon,
        ]
    );
}

#[test]
fn tokenize_offsets() {
    let lx = lexer();

    let mut it = lx.tokenize("x=(1+1)*x;");
    let results = it.collect_results();
    let expected = [
        ParseResult::Token(Token::X, 0),
        ParseResult::Token(Token::Eq, 1),
        ParseResult::Token(Token::LeftBracket, 2),
        ParseResult::Token(Token::One, 3),
        ParseResult::Token(Token::Plus, 4),
        ParseResult::Token(Token::One, 5),
        ParseResult::Token(Token::RightBracket, 6),
        ParseResult::Token(Token::Star, 7),
        ParseResult::Token(Token::X, 8),
        ParseResult::Token(Token::Semicolon, 9),
    ];
    assert_eq!(results, expected);
    assert_eq!(it.next(), None);
}

#[test]
fn tokenize_stops_at_failure() {
    let lx = lexer();

    let mut it = lx.tokenize("x=1?");
    assert_eq!(it.next(), Some(ParseResult::Token(Token::X, 0)));
    assert_eq!(it.next(), Some(ParseResult::Token(Token::Eq, 1)));
    assert_eq!(it.next(), Some(ParseResult::Token(Token::One, 2)));
    assert_eq!(it.next(), Some(ParseResult::UnexpectedAt(3)));
    assert_eq!(it.next(), None);
    assert_eq!(it.next(), None);
}

#[test]
fn tokenize_failure_hides_later_matches() {
    let lx = lexer();

    // `?` never matches, but `x` after it would: the stream still ends at 1.
    let mut it = lx.tokenize("x?x");
    let results = it.collect_results();
    assert_eq!(
        results,
        [
            ParseResult::Token(Token::X, 0),
            ParseResult::UnexpectedAt(1),
        ]
    );
    assert_eq!(it.next(), None);
}

#[test]
fn tokenize_empty_input() {
    let lx = lexer();

    let mut it = lx.tokenize("");
    assert_eq!(it.next(), None);
}

#[test]
fn iterator_built_directly() {
    let lx = lexer();
    let mut it = ParseIterator::new(&lx, "1+1");
    assert_eq!(it.next(), Some(ParseResult::Token(Token::One, 0)));
    assert_eq!(it.next(), Some(ParseResult::Token(Token::Plus, 1)));
    assert_eq!(it.next(), Some(ParseResult::Token(Token::One, 2)));
    assert_eq!(it.next(), None);
}

#[test]
fn tokenize_multibyte_offsets() {
    let any_tok = lex_pattern(ANY, ());
    let mut it = any_tok.tokenize("aФ😀");
    let results = it.collect_results();
    // Offsets are byte offsets: `a` is one byte, `Ф` two, `😀` four.
    assert_eq!(
        results,
        [
            ParseResult::Token((), 0),
            ParseResult::Token((), 1),
            ParseResult::Token((), 3),
        ]
    );
    assert_eq!(it.next(), None);
}

#[test]
fn tokenize_literal_keyword() {
    let kw = lex_pattern(lit("let"), 1u8);

    let mut it = kw.tokenize("letlet");
    assert_eq!(it.next(), Some(ParseResult::Token(1u8, 0)));
    assert_eq!(it.next(), Some(ParseResult::Token(1u8, 3)));
    assert_eq!(it.next(), None);

    let mut it = kw.tokenize("lex");
    assert_eq!(it.next(), Some(ParseResult::UnexpectedAt(0)));
    assert_eq!(it.next(), None);
}

#[test]
fn tokenize_alternation_is_left_biased() {
    let first = alternate(lex('a', 1u32), lex('a', 2u32));
    let mut it = first.tokenize("a");
    assert_eq!(it.next(), Some(ParseResult::Token(1u32, 0)));
    assert_eq!(it.next(), None);

    let second = alternate(lex('b', 1u32), lex('a', 2u32));
    let mut it = second.tokenize("a");
    assert_eq!(it.next(), Some(ParseResult::Token(2u32, 0)));
    assert_eq!(it.next(), None);
}
