use bcpl_frontend::token::lexer::{is_digit, parse_decimal, Base, CharClass, Lexer};
use bcpl_frontend::source_file::{Location, SourceFile};
use bcpl_frontend::token::{Token, TokenKind};

fn lexer_of(source: &str) -> Lexer {
    let file = SourceFile::new("test.b".to_string(), source.to_string(), 3);
    Lexer::from(&file)
}

fn tokens_of(source: &str) -> Vec<Token> {
    lexer_of(source).tokenize()
}

fn kinds_of(source: &str) -> Vec<String> {
    tokens_of(source).iter().map(|t| format!("{:?}", t.kind)).collect()
}

#[test]
fn empty_input_is_one_eof() {
    let tokens = tokens_of("");
    assert_eq!(tokens.len(), 1);
    assert!(tokens[0].is_eof());
    assert_eq!(tokens[0].loc, Location { source_file_id: 3, line: 1, column: 0, width: 1 });
    assert_eq!(kinds_of("  \n\t "), vec!["Eof"]);
}

#[test]
fn symbols_of_one_character() {
    assert_eq!(
        kinds_of("( ) { } [ ] ; + * ! ? , @ | & ^ = - / : . < > ~"),
        vec![
            "LParen", "RParen", "LBrace", "RBrace", "LBracket", "RBracket", "Semicolon", "Plus",
            "Star", "Bang", "QuestionMark", "Comma", "At", "LogOr", "LogAnd", "XOr", "Eq",
            "Minus", "Slash", "Colon", "Period", "Lt", "Gt", "Not", "Eof",
        ]
    );
}

#[test]
fn symbols_of_two_characters() {
    assert_eq!(
        kinds_of("=> -> := :: .. <= <> << >= >> ~="),
        vec![
            "Arrow", "Condition", "Assign", "Of", "Range", "Le", "Compound", "LShift", "Ge",
            "RShift", "Ne", "Eof",
        ]
    );
    let tokens = tokens_of("a <= b");
    assert_eq!(tokens[1].loc, Location { source_file_id: 3, line: 1, column: 2, width: 2 });
}

#[test]
fn keywords_and_identifiers() {
    assert_eq!(
        kinds_of("let and valof resultis return next break if else unless until switchon"),
        vec![
            "Let", "And", "ValOf", "ResultIs", "Return", "Next", "Break", "If", "Else", "Unless",
            "Until", "SwitchOn", "Eof",
        ]
    );
    assert_eq!(
        kinds_of("match every while case default into do to by of be section require"),
        vec![
            "Match", "Every", "While", "Case", "Default", "Into", "Do", "To", "By", "Of", "Be",
            "Section", "Require", "Eof",
        ]
    );
    assert_eq!(
        kinds_of("global manifest static mod abs for type true false"),
        vec!["Global", "Manifest", "Static", "Mod", "Abs", "For", "Type", "True", "False", "Eof"]
    );
    assert_eq!(
        kinds_of("lets _x x_1 Type"),
        vec!["Ident(\"lets\")", "Ident(\"_x\")", "Ident(\"x_1\")", "Ident(\"Type\")", "Eof"]
    );
}

#[test]
fn places_of_tokens() {
    let tokens = tokens_of("let x\n  = 10");
    assert_eq!(tokens[0].loc, Location { source_file_id: 3, line: 1, column: 0, width: 3 });
    assert_eq!(tokens[1].loc, Location { source_file_id: 3, line: 1, column: 4, width: 1 });
    assert_eq!(tokens[2].loc, Location { source_file_id: 3, line: 2, column: 2, width: 1 });
    assert_eq!(tokens[3].loc, Location { source_file_id: 3, line: 2, column: 4, width: 2 });
    assert_eq!(tokens[4].loc, Location { source_file_id: 3, line: 2, column: 6, width: 1 });
}

#[test]
fn integer_literals() {
    assert_eq!(kinds_of("0 7 42"), vec!["IntegerLit(0)", "IntegerLit(7)", "IntegerLit(42)", "Eof"]);
    assert_eq!(kinds_of("18446744073709551615"), vec!["IntegerLit(18446744073709551615)", "Eof"]);
    // One more than fits 64 bits.
    assert_eq!(
        kinds_of("18446744073709551616"),
        vec!["Error(Some(\"could not parse integer literal\"))", "Eof"]
    );
    // The digits after a prefix are read as decimal.
    assert_eq!(kinds_of("0b101 0o17 0x10"), vec![
        "IntegerLit(101)",
        "IntegerLit(17)",
        "IntegerLit(10)",
        "Eof"
    ]);
    assert_eq!(
        kinds_of("0x1F"),
        vec!["Error(Some(\"could not parse integer literal\"))", "Eof"]
    );
    let tokens = tokens_of("0x10");
    assert_eq!(tokens[0].loc.width, 4);
}

#[test]
fn float_literals() {
    assert_eq!(kinds_of("2.0"), vec!["FloatLit(\"2.0\", None)", "Eof"]);
    assert_eq!(kinds_of("0.5"), vec!["FloatLit(\"0.5\", None)", "Eof"]);
    assert_eq!(kinds_of("1.5e+3"), vec!["FloatLit(\"1.5\", Some(\"+3\"))", "Eof"]);
    assert_eq!(kinds_of("1e-2"), vec!["FloatLit(\"1\", Some(\"-2\"))", "Eof"]);
    // The digits of an exponent are read after a sign only.
    assert_eq!(kinds_of("1e5"), vec!["FloatLit(\"1\", Some(\"\"))", "IntegerLit(5)", "Eof"]);
    assert_eq!(
        kinds_of("0x1.8"),
        vec!["Error(Some(\"float literals have to be of base 10.\"))", "Eof"]
    );
    assert_eq!(tokens_of("2.25")[0].loc.width, 4);
}

#[test]
fn string_and_character_literals() {
    assert_eq!(kinds_of("\"hello\""), vec!["StringLit(\"hello\")", "Eof"]);
    assert_eq!(kinds_of("\"\""), vec!["StringLit(\"\")", "Eof"]);
    assert_eq!(kinds_of("\"a\\\"b\" x"), vec!["StringLit(\"a\\\\\\\"b\")", "Ident(\"x\")", "Eof"]);
    assert_eq!(tokens_of("\"hello\"")[0].loc.width, 7);
    assert_eq!(
        kinds_of("\"open"),
        vec!["Error(Some(\"string literal is not closed\"))", "Eof"]
    );
    assert_eq!(
        kinds_of("\"tail\\"),
        vec!["Error(Some(\"string literal is not closed\"))", "Eof"]
    );
    // A character literal runs up to the next double quote.
    assert_eq!(kinds_of("'a\" b"), vec!["CharLit(\"a\")", "Ident(\"b\")", "Eof"]);
    assert_eq!(
        kinds_of("'a'"),
        vec!["Error(Some(\"character literal is not closed\"))", "Eof"]
    );
}

#[test]
fn a_line_feed_in_a_string_counts_twice() {
    let tokens = tokens_of("\"a\nb\" x");
    assert!(matches!(&tokens[0].kind, TokenKind::StringLit(s) if s == "a\nb"));
    assert_eq!(tokens[1].loc.line, 3);
}

#[test]
fn atoms() {
    assert_eq!(kinds_of("#red #x1"), vec!["Atom(\"red\")", "Atom(\"x1\")", "Eof"]);
    assert_eq!(tokens_of("#red")[0].loc.width, 4);
    assert_eq!(
        kinds_of("# red"),
        vec!["Error(Some(\"expect atom identifier after `#`\"))", "Ident(\"red\")", "Eof"]
    );
}

#[test]
fn comments_are_passed_over() {
    assert_eq!(kinds_of("a // b c\nd"), vec!["Ident(\"a\")", "Ident(\"d\")", "Eof"]);
    assert_eq!(kinds_of("a /* b */ c"), vec!["Ident(\"a\")", "Ident(\"c\")", "Eof"]);
    assert_eq!(kinds_of("a /* b /* c */ d */ e"), vec!["Ident(\"a\")", "Ident(\"e\")", "Eof"]);
    assert_eq!(kinds_of("a /* never closed"), vec!["Ident(\"a\")", "Eof"]);
    assert_eq!(kinds_of("a / b"), vec!["Ident(\"a\")", "Slash", "Ident(\"b\")", "Eof"]);
    assert_eq!(kinds_of("// only"), vec!["Eof"]);
}

#[test]
fn what_starts_no_token_is_an_error() {
    assert_eq!(
        kinds_of("a $ b"),
        vec!["Ident(\"a\")", "Error(Some(\"unexpected character `$`\"))", "Ident(\"b\")", "Eof"]
    );
    // A numeric character that is no decimal digit.
    assert_eq!(
        kinds_of("\u{00b2}"),
        vec!["Error(Some(\"could not parse integer literal\"))", "Eof"]
    );
}

#[test]
fn next_gives_eof_again_at_the_end() {
    let mut lexer = lexer_of("x");
    assert!(matches!(lexer.next().kind, TokenKind::Ident(_)));
    assert!(lexer.next().is_eof());
    assert!(lexer.next().is_eof());
}

#[test]
fn steps_of_the_lexer() {
    let mut lexer = lexer_of("  ab12 0017x // c\nq");
    lexer.skip_whitespace();
    assert_eq!(lexer.offset, 2);
    assert_eq!(lexer.parse_ident(), "ab12");
    lexer.next_char();
    lexer.skip_digits(Base::Octal);
    assert_eq!(lexer.offset, 11);
    assert_eq!(lexer.peek(), Some('x'));
    assert!(lexer.peek_is('x'));
    lexer.skip_while(CharClass::Word);
    lexer.skip_whitespace();
    lexer.skip_comment();
    assert_eq!(lexer.peek(), Some('\n'));
    assert_eq!(lexer.line, 1);
    lexer.next_char();
    assert_eq!((lexer.line, lexer.column), (2, 0));
    assert_eq!(lexer.current_loc(), Location { source_file_id: 3, line: 2, column: 0, width: 1 });
    lexer.next_char();
    assert_eq!(lexer.peek(), None);
}

#[test]
fn digits_of_a_base() {
    assert!(is_digit('1', Base::Binary));
    assert!(!is_digit('2', Base::Binary));
    assert!(is_digit('7', Base::Octal));
    assert!(!is_digit('8', Base::Octal));
    assert!(is_digit('9', Base::Decimal));
    assert!(!is_digit('a', Base::Decimal));
    assert!(is_digit('f', Base::Hexadecimal));
    assert!(is_digit('F', Base::Hexadecimal));
    assert!(!is_digit('g', Base::Hexadecimal));
    assert!(!is_digit(' ', Base::Hexadecimal));
}

#[test]
fn decimal_numbers() {
    let chars: Vec<char> = "x123y".chars().collect();
    assert_eq!(parse_decimal(&chars, 1, 4), Some(123));
    assert_eq!(parse_decimal(&chars, 1, 1), None);
    assert_eq!(parse_decimal(&chars, 0, 4), None);
    assert_eq!(parse_decimal(&chars, 1, 5), None);
    let zeros: Vec<char> = "007".chars().collect();
    assert_eq!(parse_decimal(&zeros, 0, 3), Some(7));
}

#[test]
fn tokens_by_hand() {
    let loc = Location { source_file_id: 0, line: 1, column: 2, width: 1 };
    assert!(matches!(Token::new(loc, TokenKind::Plus).kind(), TokenKind::Plus));
    assert_eq!(Token::with_width(loc, 5, TokenKind::Plus).location().width, 5);
    assert!(Token::eof(loc).is_eof());
    assert!(!Token::new(loc, TokenKind::Plus).is_eof());
    assert!(matches!(Token::error(loc, None).kind, TokenKind::Error(None)));
    let word = Token::ident(loc, "while".to_string());
    assert!(matches!(word.kind, TokenKind::While));
    assert_eq!(word.loc.width, 5);
    let name = Token::ident(loc, "whilst".to_string());
    assert!(matches!(&name.kind, TokenKind::Ident(n) if n == "whilst"));
    assert_eq!(Token::string_lit(loc, "abc".to_string()).loc.width, 5);
    assert_eq!(Token::char_lit(loc, "a".to_string()).loc.width, 3);
    let copy = name.duplicate();
    assert!(copy.kind.equals(&name.kind));
    assert_eq!(copy.loc, name.loc);
}

#[test]
fn token_kinds_compare_by_variant_and_text() {
    let a = TokenKind::Ident("a".to_string());
    assert!(a.equals(&TokenKind::Ident("a".to_string())));
    assert!(!a.equals(&TokenKind::Ident("b".to_string())));
    assert!(!a.equals(&TokenKind::Atom("a".to_string())));
    assert!(TokenKind::Plus.equals(&TokenKind::Plus));
    assert!(!TokenKind::Plus.equals(&TokenKind::Minus));
    assert!(TokenKind::IntegerLit(3).equals(&TokenKind::IntegerLit(3)));
    assert!(!TokenKind::IntegerLit(3).equals(&TokenKind::IntegerLit(4)));
    assert!(TokenKind::Error(None).equals(&TokenKind::Error(None)));
    assert!(!TokenKind::Error(None).equals(&TokenKind::Error(Some("x".to_string()))));
    let f = TokenKind::FloatLit("1".to_string(), Some("+2".to_string()));
    assert!(f.equals(&f.duplicate()));
    assert!(!f.equals(&TokenKind::FloatLit("1".to_string(), None)));
}

#[test]
fn token_kinds_as_text() {
    assert_eq!(TokenKind::Eof.to_string(), "end of file");
    assert_eq!(TokenKind::Error(None).to_string(), "error");
    assert_eq!(TokenKind::Error(Some("bad".to_string())).to_string(), "bad");
    assert_eq!(TokenKind::Ident("x".to_string()).to_string(), "x");
    assert_eq!(TokenKind::Atom("red".to_string()).to_string(), "#red");
    assert_eq!(TokenKind::IntegerLit(0).to_string(), "0");
    assert_eq!(TokenKind::IntegerLit(1203).to_string(), "1203");
    assert_eq!(TokenKind::IntegerLit(u64::MAX).to_string(), "18446744073709551615");
    assert_eq!(TokenKind::FloatLit("2.5".to_string(), None).to_string(), "2.5");
    assert_eq!(TokenKind::StringLit("hi".to_string()).to_string(), "\"hi\"");
    assert_eq!(TokenKind::CharLit("c".to_string()).to_string(), "'c'");
    assert_eq!(TokenKind::Of.to_string(), "::");
    assert_eq!(TokenKind::Ne.to_string(), "~=");
    assert_eq!(TokenKind::Compound.to_string(), "<>");
    assert_eq!(TokenKind::SwitchOn.to_string(), "switchon");
    assert_eq!(TokenKind::Type.to_string(), "<unexpected>");
}

#[test]
fn symbols_and_words_by_table() {
    assert!(matches!(TokenKind::try_from('('), Some(TokenKind::LParen)));
    assert!(matches!(TokenKind::try_from('^'), Some(TokenKind::XOr)));
    assert!(TokenKind::try_from('=').is_none());
    assert!(TokenKind::try_from('a').is_none());
    assert!(matches!(TokenKind::from("of".to_string()), TokenKind::Of));
    assert!(matches!(TokenKind::from("type".to_string()), TokenKind::Type));
    assert!(matches!(TokenKind::from("Of".to_string()), TokenKind::Ident(_)));
}
