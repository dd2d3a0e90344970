use tablature::data::{Literal, Token, TokenType};
use tablature::lexer::Lexer;

#[test]
fn token_output() {
    let mut lex = Lexer::new("E C# Gb\n27 . ,\n:2 ;4 [options]".to_string());
    let expected_tokens = vec![
        Token::new(TokenType::Note, String::from("E"), Literal::NoValue, 1),
        Token::new(TokenType::Note, String::from("C#"), Literal::NoValue, 1),
        Token::new(TokenType::Note, String::from("Gb"), Literal::NoValue, 1),
        Token::new(TokenType::Number, String::from("27"), Literal::Number(27), 2),
        Token::new(TokenType::Empty, String::from("."), Literal::NoValue, 2),
        Token::new(TokenType::Next, String::from(","), Literal::NoValue, 2),
        Token::new(TokenType::SpreadEmpty, String::from(":2"), Literal::Number(2), 3),
        Token::new(TokenType::SpreadNext, String::from(";4"), Literal::Number(4), 3),
        Token::new(
            TokenType::Options,
            String::from("[options]"),
            Literal::Options(String::from("options")),
            3,
        ),
        Token::new(TokenType::EndOfFile, String::new(), Literal::NoValue, 3),
    ];

    match lex.generate_tokens() {
        Ok(tokens) => {
            for (found, expected) in tokens.iter().zip(expected_tokens.iter()) {
                assert_eq!(expected, found);
            }
        },
        Err(e) => panic!("Could not generate tokens: {}", e),
    }
}

#[test]
fn recognized_source_always_tokenizes() {
    let mut lex = Lexer::new("A B C D E F G . , :3 ;4 [time=4/4]\n 0 12 99".to_string());
    let tokens = lex.generate_tokens().expect("source of recognized characters must tokenize");
    assert!(!tokens.is_empty());
    assert_eq!(TokenType::EndOfFile, tokens.last().unwrap().type_of);
}

#[test]
fn empty_source_yields_only_end_of_file() {
    let mut lex = Lexer::new(String::new());
    let tokens = lex.generate_tokens().expect("empty source must tokenize");
    assert_eq!(1, tokens.len());
    assert_eq!(TokenType::EndOfFile, tokens[0].type_of);
    assert_eq!(1, tokens[0].line);
}

#[test]
fn unterminated_options_single_error() {
    let mut lex = Lexer::new("[time=4/4".to_string());
    let err = lex.generate_tokens().expect_err("unterminated options must fail");
    assert_eq!(
        "[1] Error: Unterminated options sequence. Close options sequences with \"]\".",
        err
    );
}

#[test]
fn unknown_character_is_reported_with_the_character() {
    let mut lex = Lexer::new("x".to_string());
    let err = lex.generate_tokens().expect_err("an unknown character must fail");
    assert_eq!("[1] Error: Unknown character value: x", err);
}

#[test]
fn lowercase_letters_are_not_notes() {
    let mut lex = Lexer::new("e".to_string());
    assert!(lex.generate_tokens().is_err());
}

#[test]
fn spread_without_digits_is_an_error() {
    let mut lex = Lexer::new(":".to_string());
    let err = lex.generate_tokens().expect_err("a bare spread marker must fail");
    assert_eq!(
        "[1] Error: Could not parse amount \"\" for \"Spread Empty\": cannot parse integer from empty string",
        err
    );
}

#[test]
fn oversized_number_is_an_error() {
    let mut lex = Lexer::new("4294967296".to_string());
    let err = lex.generate_tokens().expect_err("a number over the limit must fail");
    assert_eq!(
        "[1] Error: String \"4294967296\" could not be parsed into a number: number too large to fit in target type",
        err
    );
}

#[test]
fn largest_number_still_fits() {
    let mut lex = Lexer::new("4294967295".to_string());
    let tokens = lex.generate_tokens().expect("the largest u32 must tokenize");
    assert_eq!(Literal::Number(4294967295), tokens[0].literal);
}

#[test]
fn options_across_lines_keep_line_count() {
    let mut lex = Lexer::new("[a\nb] .".to_string());
    let tokens = lex.generate_tokens().expect("a closed options block must tokenize");
    assert_eq!(TokenType::Options, tokens[0].type_of);
    assert_eq!(Literal::Options(String::from("a\nb")), tokens[0].literal);
    assert_eq!(2, tokens[0].line);
    assert_eq!(TokenType::Empty, tokens[1].type_of);
    assert_eq!(2, tokens[1].line);
}

#[test]
fn tokenization_result_is_stable_across_calls() {
    let mut lex = Lexer::new("E A D\n0 3 5".to_string());
    let first: Vec<String> = lex
        .generate_tokens()
        .expect("first call must tokenize")
        .iter()
        .map(|t| format!("{:?}", t))
        .collect();
    let second: Vec<String> = lex
        .generate_tokens()
        .expect("second call must tokenize")
        .iter()
        .map(|t| format!("{:?}", t))
        .collect();
    assert_eq!(first, second);
}
