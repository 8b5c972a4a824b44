use lox_scanner::{scan_tokens, Literal, Token, TokenType};

/// An expected token: either exactly this token, or a number token whose
/// numeral reads as the given value.
enum Expected {
    Exact(Token),
    Number { lexeme: Vec<char>, value: f64, line: usize },
}

fn exact(token: Token) -> Expected {
    Expected::Exact(token)
}

fn compare_tokens(result: &[Token], expected: Vec<Expected>) {
    println!("found this {:?}", result);
    assert_eq!(result.len(), expected.len());
    for (index, want) in expected.into_iter().enumerate() {
        let got = result.get(index).unwrap();
        match want {
            Expected::Exact(token) => assert_eq!(*got, token),
            Expected::Number { lexeme, value, line } => {
                assert_eq!(got.token_type, TokenType::NUMBER);
                assert_eq!(got.lexeme, Some(lexeme));
                assert_eq!(got.line, line);
                match &got.literal {
                    Some(Literal::Number(text)) => {
                        assert_eq!(text.parse::<f64>().unwrap(), value)
                    }
                    other => panic!("expected a number literal, found {:?}", other),
                }
            }
        }
    }
}

fn assert_scanner_results(source: &str, mut expected_token: Vec<Expected>) {
    let result = scan_tokens(source.to_string());
    expected_token.push(exact(Token::new_token(TokenType::EOF)));
    compare_tokens(&result, expected_token);
}

#[test]
fn single_level_equals() {
    assert_scanner_results("=", vec![exact(Token::new_token(TokenType::EQUAL))]);
}

#[test]
fn single_level_greater() {
    assert_scanner_results(">", vec![exact(Token::new_token(TokenType::GREATER))]);
}

#[test]
fn single_level_left_bracket() {
    assert_scanner_results("[", vec![exact(Token::new_token(TokenType::LeftBrace))]);
}

#[test]
fn double_level_equal() {
    assert_scanner_results(">=", vec![exact(Token::new_token(TokenType::GreatEqual))]);
}

#[test]
fn comments() {
    // The comment's line terminator moves the line counter to 1.
    let result = scan_tokens("// hello i am a comment \n!=".to_string());
    compare_tokens(
        &result,
        vec![
            exact(Token::new(TokenType::BangEqual, None, None, 1)),
            exact(Token::new(TokenType::EOF, None, None, 1)),
        ],
    );
}

#[test]
fn division() {
    assert_scanner_results("/", vec![exact(Token::new_token(TokenType::SLASH))])
}

#[test]
fn identifier() {
    assert_scanner_results(
        "hello",
        vec![exact(Token {
            token_type: TokenType::IDENTIFIER,
            lexeme: Some(vec!['h', 'e', 'l', 'l', 'o']),
            line: 0,
            literal: Some(Literal::Identifier("hello".to_string())),
        })],
    )
}

#[test]
fn and() {
    assert_scanner_results(
        "and",
        vec![exact(Token {
            token_type: TokenType::AND,
            literal: None,
            lexeme: Some(vec!['a', 'n', 'd']),
            line: 0,
        })],
    )
}

#[test]
fn string() {
    assert_scanner_results(
        "\"and\"",
        vec![exact(Token {
            token_type: TokenType::STRING,
            lexeme: Some(vec!['a', 'n', 'd']),
            literal: Some(Literal::Str("and".to_string())),
            line: 0,
        })],
    )
}

#[test]
fn number() {
    assert_scanner_results(
        "123",
        vec![Expected::Number { lexeme: vec!['1', '2', '3'], value: 123_f64, line: 0 }],
    )
}

#[test]
fn number_with_decimal() {
    assert_scanner_results(
        "123.123",
        vec![Expected::Number {
            lexeme: vec!['1', '2', '3', '.', '1', '2', '3'],
            value: 123.123,
            line: 0,
        }],
    )
}

#[test]
fn number_with_multiple_decimals() {
    assert_scanner_results(
        "123.123.123",
        vec![exact(Token {
            token_type: TokenType::IDENTIFIER,
            lexeme: Some(vec!['1', '2', '3', '.', '1', '2', '3', '.', '1', '2', '3']),
            literal: Some(Literal::Str("123.123.123".to_string())),
            line: 0,
        })],
    )
}

#[test]
fn number_with_decimal_but_word() {
    assert_scanner_results(
        "123.123ffafaf",
        vec![exact(Token {
            token_type: TokenType::IDENTIFIER,
            lexeme: Some(vec![
                '1', '2', '3', '.', '1', '2', '3', 'f', 'f', 'a', 'f', 'a', 'f',
            ]),
            line: 0,
            literal: Some(Literal::Str("123.123ffafaf".to_string())),
        })],
    )
}

#[test]
fn unidentified() {
    let eof_token = vec![Token {
        token_type: TokenType::EOF,
        lexeme: None,
        literal: None,
        line: 0,
    }];
    let result = scan_tokens("@".to_string());
    assert_eq!(result.first(), eof_token.first());
    assert_eq!(result.last(), eof_token.last())
}

#[test]
fn fun() {
    assert_scanner_results(
        "fun",
        vec![exact(Token {
            token_type: TokenType::FUN,
            lexeme: Some(vec!['f', 'u', 'n']),
            line: 0,
            literal: None,
        })],
    )
}

#[test]
fn try_for() {
    assert_scanner_results(
        "for",
        vec![exact(Token {
            token_type: TokenType::FOR,
            lexeme: Some(vec!['f', 'o', 'r']),
            line: 0,
            literal: None,
        })],
    )
}

#[test]
fn try_false() {
    assert_scanner_results(
        "false",
        vec![exact(Token {
            token_type: TokenType::FALSE,
            lexeme: Some(vec!['f', 'a', 'l', 's', 'e']),
            line: 0,
            literal: None,
        })],
    )
}

#[test]
fn try_false_fun() {
    assert_scanner_results(
        "false fun",
        vec![
            exact(Token {
                token_type: TokenType::FALSE,
                lexeme: Some(vec!['f', 'a', 'l', 's', 'e']),
                line: 0,
                literal: None,
            }),
            exact(Token {
                token_type: TokenType::FUN,
                lexeme: Some(vec!['f', 'u', 'n']),
                line: 0,
                literal: None,
            }),
        ],
    )
}

#[test]
fn try_total_word() {
    assert_scanner_results(
        "funny",
        vec![exact(Token {
            token_type: TokenType::IDENTIFIER,
            lexeme: Some(vec!['f', 'u', 'n', 'n', 'y']),
            line: 0,
            literal: Some(Literal::Identifier("funny".to_string())),
        })],
    )
}

#[test]
fn try_total_word_2() {
    assert_scanner_results(
        "nile",
        vec![exact(Token {
            token_type: TokenType::IDENTIFIER,
            lexeme: Some(vec!['n', 'i', 'l', 'e']),
            line: 0,
            literal: Some(Literal::Identifier("nile".to_string())),
        })],
    )
}

#[test]
fn try_decimal_word() {
    assert_scanner_results(
        "var hello = 2.1212 fun",
        vec![
            exact(Token {
                token_type: TokenType::VAR,
                lexeme: Some(vec!['v', 'a', 'r']),
                line: 0,
                literal: None,
            }),
            exact(Token {
                token_type: TokenType::IDENTIFIER,
                lexeme: Some(vec!['h', 'e', 'l', 'l', 'o']),
                line: 0,
                literal: Some(Literal::Identifier("hello".to_string())),
            }),
            exact(Token::new_token(TokenType::EQUAL)),
            Expected::Number {
                lexeme: vec!['2', '.', '1', '2', '1', '2'],
                value: 2.1212,
                line: 0,
            },
            exact(Token {
                token_type: TokenType::FUN,
                lexeme: Some(vec!['f', 'u', 'n']),
                line: 0,
                literal: None,
            }),
        ],
    )
}
