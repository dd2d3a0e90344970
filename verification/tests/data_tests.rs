use tablature::data::{Literal, Token, TokenType, Watcher};

#[test]
fn compare_tokens() {
    let from_struct = Token {
        type_of: TokenType::Number,
        value: String::from("4"),
        literal: Literal::Number(4),
        line: 1,
    };
    let from_new = Token::new(TokenType::Number, String::from("4"), Literal::Number(4), 1);

    assert_eq!(from_struct, from_new);

    let diff = Token::new(TokenType::Empty, String::from("."), Literal::NoValue, 2);

    assert_ne!(from_new, diff);
}

#[test]
fn watcher_formats_entries() {
    let mut watcher = Watcher::new();
    assert!(!watcher.has_error());

    watcher.error(1, String::from("An error occurred here."));
    watcher.error(5, String::from("This was an error."));

    assert!(watcher.has_error());
    assert_eq!(
        "[1] Error: An error occurred here.\n[5] Error: This was an error.",
        watcher.error_text()
    );
}

#[test]
fn token_type_names() {
    assert_eq!("Spread Empty", TokenType::SpreadEmpty.name());
    assert_eq!("Spread Next", TokenType::SpreadNext.name());
    assert_eq!("EndOfFile", TokenType::EndOfFile.name());
}

#[test]
fn literal_equality_follows_contents() {
    assert_eq!(Literal::Number(7), Literal::Number(7));
    assert_ne!(Literal::Number(7), Literal::Number(8));
    assert_eq!(
        Literal::Options(String::from("time=4/4")),
        Literal::Options(String::from("time=4/4"))
    );
    assert_ne!(Literal::Options(String::from("a")), Literal::NoValue);
}
