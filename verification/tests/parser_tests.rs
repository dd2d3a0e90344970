use tablature::data::{Literal, Token, TokenType};
use tablature::parser::Parser;

#[test]
fn tab_output() {
    let tokens = vec![
        Token::new(TokenType::Note, String::from("E"), Literal::NoValue, 1),
        Token::new(TokenType::Note, String::from("A"), Literal::NoValue, 1),
        Token::new(TokenType::Note, String::from("D"), Literal::NoValue, 1),
        Token::new(TokenType::Note, String::from("G"), Literal::NoValue, 1),
        Token::new(TokenType::Note, String::from("B"), Literal::NoValue, 1),
        Token::new(TokenType::Note, String::from("E"), Literal::NoValue, 1),
        Token::new(TokenType::Number, String::from("0"), Literal::Number(0), 2),
        Token::new(TokenType::Number, String::from("3"), Literal::Number(3), 2),
        Token::new(TokenType::Number, String::from("5"), Literal::Number(5), 2),
        Token::new(TokenType::Next, String::from(","), Literal::NoValue, 2),
        Token::new(TokenType::EndOfFile, String::new(), Literal::NoValue, 2),
    ];

    let mut parser = Parser::new(&tokens);
    let expected = String::from("E  |---\nB  |---\nG  |---\nD  |-5-\nA  |-3-\nE  |-0-\n\n     1 \n\n");

    match parser.generate_tabs() {
        Ok(found) => {
            assert_eq!(expected, found);
        },
        Err(e) => panic!("Could not generate tabs: {}", e),
    }
}

#[test]
fn two_digit_frets_fill_their_cell() {
    let tokens = vec![
        Token::new(TokenType::Note, String::from("E"), Literal::NoValue, 1),
        Token::new(TokenType::Number, String::from("12"), Literal::Number(12), 1),
        Token::new(TokenType::EndOfFile, String::new(), Literal::NoValue, 1),
    ];
    let mut parser = Parser::new(&tokens);
    let found = parser.generate_tabs().expect("rendering must succeed");
    assert_eq!("E  |-12\n\n     1 \n\n", found);
}

#[test]
fn two_character_notes_are_not_padded() {
    let tokens = vec![
        Token::new(TokenType::Note, String::from("F#"), Literal::NoValue, 1),
        Token::new(TokenType::Empty, String::from("."), Literal::NoValue, 1),
        Token::new(TokenType::EndOfFile, String::new(), Literal::NoValue, 1),
    ];
    let mut parser = Parser::new(&tokens);
    let found = parser.generate_tabs().expect("rendering must succeed");
    assert_eq!("F# |---\n\n     1 \n\n", found);
}

#[test]
fn spread_empty_repeats_cells() {
    let tokens = vec![
        Token::new(TokenType::Note, String::from("E"), Literal::NoValue, 1),
        Token::new(TokenType::SpreadEmpty, String::from(":3"), Literal::Number(3), 1),
        Token::new(TokenType::EndOfFile, String::new(), Literal::NoValue, 1),
    ];
    let mut parser = Parser::new(&tokens);
    let found = parser.generate_tabs().expect("rendering must succeed");
    assert_eq!("E  |---------\n\n     1  e  & \n\n", found);
}

#[test]
fn note_after_tabs_starts_a_new_staff() {
    let tokens = vec![
        Token::new(TokenType::Note, String::from("E"), Literal::NoValue, 1),
        Token::new(TokenType::Number, String::from("0"), Literal::Number(0), 1),
        Token::new(TokenType::Note, String::from("A"), Literal::NoValue, 2),
        Token::new(TokenType::Number, String::from("2"), Literal::Number(2), 2),
        Token::new(TokenType::EndOfFile, String::new(), Literal::NoValue, 2),
    ];
    let mut parser = Parser::new(&tokens);
    let found = parser.generate_tabs().expect("rendering must succeed");
    assert_eq!("E  |-0-\n\n     1 \n\nA  |-2-\n\n     1 \n\n", found);
}

#[test]
fn bad_options_collects_error_with_token_line() {
    let tokens = vec![
        Token::new(
            TokenType::Options,
            String::from("[bogus=1]"),
            Literal::Options(String::from("bogus=1")),
            4,
        ),
        Token::new(TokenType::EndOfFile, String::new(), Literal::NoValue, 4),
    ];
    let mut parser = Parser::new(&tokens);
    let err = parser.generate_tabs().expect_err("an unknown option must fail");
    assert_eq!("[4] Error: \n\tOption \"bogus\" does not exist.\n", err);
}

#[test]
fn rendering_result_is_stable_across_calls() {
    let tokens = vec![
        Token::new(TokenType::Note, String::from("E"), Literal::NoValue, 1),
        Token::new(TokenType::Number, String::from("7"), Literal::Number(7), 1),
        Token::new(TokenType::EndOfFile, String::new(), Literal::NoValue, 1),
    ];
    let mut parser = Parser::new(&tokens);
    let first = parser.generate_tabs().expect("first call must succeed").to_string();
    let second = parser.generate_tabs().expect("second call must succeed").to_string();
    assert_eq!(first, second);
}

#[test]
fn fidelity_controls_subdivision_labels() {
    let mut tokens = vec![
        Token::new(
            TokenType::Options,
            String::from("[time=1/4; fidelity=16]"),
            Literal::Options(String::from("time=1/4; fidelity=16")),
            1,
        ),
        Token::new(TokenType::Note, String::from("E"), Literal::NoValue, 1),
    ];
    for _ in 0..4 {
        tokens.push(Token::new(TokenType::Empty, String::from("."), Literal::NoValue, 2));
    }
    tokens.push(Token::new(TokenType::EndOfFile, String::new(), Literal::NoValue, 2));
    let mut parser = Parser::new(&tokens);
    let found = parser.generate_tabs().expect("rendering must succeed");
    assert_eq!("E  |------------\n\n     1  e  &  a \n\n", found);
}

#[test]
fn measure_numbers_grow_past_one_digit() {
    let mut tokens = vec![
        Token::new(
            TokenType::Options,
            String::from("[time=12/4; fidelity=4]"),
            Literal::Options(String::from("time=12/4; fidelity=4")),
            1,
        ),
        Token::new(TokenType::Note, String::from("E"), Literal::NoValue, 1),
    ];
    for _ in 0..12 {
        tokens.push(Token::new(TokenType::Empty, String::from("."), Literal::NoValue, 2));
    }
    tokens.push(Token::new(TokenType::EndOfFile, String::new(), Literal::NoValue, 2));
    let mut parser = Parser::new(&tokens);
    let found = parser.generate_tabs().expect("rendering must succeed");
    assert_eq!(
        "E  |------------------------------------\n\n     1  2  3  4  5  6  7  8  9  10 11 12\n\n",
        found
    );
}

#[test]
fn tokens_from_the_lexer_render_directly() {
    let mut lex = tablature::lexer::Lexer::new("E A D\n0 3 5 ,".to_string());
    let tokens = lex.generate_tokens().expect("the source must tokenize");
    let mut parser = Parser::new(tokens);
    let found = parser.generate_tabs().expect("rendering must succeed");
    assert_eq!("D  |-5----\nA  |-3----\nE  |-0----\n\n     1  e \n\n", found);
}
