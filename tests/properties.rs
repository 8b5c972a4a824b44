use lox_scanner::keywords::keyword_match;
use lox_scanner::numeral::is_number;
use lox_scanner::text::{chars_of, string_of};
use lox_scanner::{
    parse_chars, scan, scan_classified, scan_tokens, walk_to_next_quote, walk_to_next_whitespace,
    Diagnostic, Literal, ScanError, ScanStep, SourceCursor, Token, TokenType,
};

fn kinds(source: &str) -> Vec<TokenType> {
    scan_tokens(source.to_string()).iter().map(|t| t.token_type).collect()
}

fn assert_single_eof_last(tokens: &[Token]) {
    assert!(!tokens.is_empty());
    assert_eq!(tokens.last().unwrap().token_type, TokenType::EOF);
    let eofs = tokens.iter().filter(|t| t.token_type == TokenType::EOF).count();
    assert_eq!(eofs, 1);
}

#[test]
fn empty_source_gives_only_eof() {
    let tokens = scan_tokens(String::new());
    assert_eq!(tokens, vec![Token::new_token(TokenType::EOF)]);
}

#[test]
fn every_scan_ends_with_one_eof() {
    for source in [
        "",
        "=",
        "\"never closed",
        "// never ends",
        "@ # $",
        "var x = 1;\nprint x;\n",
        "a\n\n\nb",
    ] {
        assert_single_eof_last(&scan_tokens(source.to_string()));
    }
}

#[test]
fn scanning_twice_gives_equal_results() {
    let source = "var hello = 2.1212 fun // note\n\"text\" @";
    let first = scan(source);
    let second = scan(source);
    assert_eq!(first.tokens, second.tokens);
    assert_eq!(first.diagnostics, second.diagnostics);
}

#[test]
fn every_reserved_word_has_its_kind() {
    let table = [
        ("and", TokenType::AND),
        ("class", TokenType::CLASS),
        ("else", TokenType::ELSE),
        ("false", TokenType::FALSE),
        ("fun", TokenType::FUN),
        ("for", TokenType::FOR),
        ("if", TokenType::IF),
        ("nil", TokenType::NIL),
        ("or", TokenType::OR),
        ("print", TokenType::PRINT),
        ("return", TokenType::RETURN),
        ("super", TokenType::SUPER),
        ("this", TokenType::THIS),
        ("true", TokenType::TRUE),
        ("var", TokenType::VAR),
        ("while", TokenType::While),
    ];
    for (word, kind) in table {
        let tokens = scan_tokens(word.to_string());
        assert_eq!(tokens.len(), 2);
        assert_eq!(tokens[0].token_type, kind);
        assert_eq!(tokens[0].literal, None);
        assert_eq!(tokens[0].lexeme, Some(word.chars().collect::<Vec<char>>()));
    }
}

#[test]
fn words_near_reserved_words_are_identifiers() {
    for word in ["funny", "nile", "android", "fo", "If", "classy", "whiles", "x"] {
        let tokens = scan_tokens(word.to_string());
        assert_eq!(tokens.len(), 2);
        assert_eq!(tokens[0].token_type, TokenType::IDENTIFIER);
        assert_eq!(tokens[0].literal, Some(Literal::Identifier(word.to_string())));
    }
}

#[test]
fn a_word_runs_to_the_next_whitespace() {
    let tokens = scan_tokens("and;x fun".to_string());
    assert_eq!(tokens[0].token_type, TokenType::IDENTIFIER);
    assert_eq!(tokens[0].literal, Some(Literal::Identifier("and;x".to_string())));
    assert_eq!(tokens[1].token_type, TokenType::FUN);
}

#[test]
fn non_ascii_letters_start_identifiers() {
    let tokens = scan_tokens("été".to_string());
    assert_eq!(tokens[0].token_type, TokenType::IDENTIFIER);
    assert_eq!(tokens[0].literal, Some(Literal::Identifier("été".to_string())));
}

#[test]
fn single_character_punctuation() {
    assert_eq!(
        kinds("( ) [ ] , . - + ; *"),
        vec![
            TokenType::LeftParen,
            TokenType::RightParen,
            TokenType::LeftBrace,
            TokenType::RightBrace,
            TokenType::Comma,
            TokenType::DOT,
            TokenType::MINUS,
            TokenType::PLUS,
            TokenType::SemiColon,
            TokenType::STAR,
            TokenType::EOF,
        ]
    );
}

#[test]
fn operators_take_the_longest_match() {
    assert_eq!(
        kinds("! != = == > >= < <="),
        vec![
            TokenType::BANG,
            TokenType::BangEqual,
            TokenType::EQUAL,
            TokenType::EqualEqual,
            TokenType::GREATER,
            TokenType::GreatEqual,
            TokenType::LESS,
            TokenType::LessEqual,
            TokenType::EOF,
        ]
    );
}

#[test]
fn operator_at_end_of_input_is_kept() {
    assert_eq!(kinds("!"), vec![TokenType::BANG, TokenType::EOF]);
    assert_eq!(kinds("<"), vec![TokenType::LESS, TokenType::EOF]);
}

#[test]
fn operator_leaves_the_next_character() {
    assert_eq!(kinds("=("), vec![TokenType::EQUAL, TokenType::LeftParen, TokenType::EOF]);
    assert_eq!(kinds("!=="), vec![TokenType::BangEqual, TokenType::EQUAL, TokenType::EOF]);
    assert_eq!(kinds("/("), vec![TokenType::SLASH, TokenType::LeftParen, TokenType::EOF]);
}

#[test]
fn comment_without_newline_ends_the_input() {
    let tokens = scan_tokens("+ // to the end".to_string());
    assert_eq!(
        tokens,
        vec![Token::new_token(TokenType::PLUS), Token::new_token(TokenType::EOF)]
    );
}

#[test]
fn lines_are_counted() {
    let tokens = scan_tokens("a\nb\n\nc".to_string());
    let lines: Vec<usize> = tokens.iter().map(|t| t.line).collect();
    assert_eq!(lines, vec![0, 1, 3, 3]);
}

#[test]
fn newlines_inside_strings_are_counted() {
    let tokens = scan_tokens("\"a\nb\" x".to_string());
    assert_eq!(tokens[0].token_type, TokenType::STRING);
    assert_eq!(tokens[0].line, 0);
    assert_eq!(tokens[0].literal, Some(Literal::Str("a\nb".to_string())));
    assert_eq!(tokens[1].line, 1);
    assert_eq!(tokens[2].line, 1);
}

#[test]
fn empty_string_literal() {
    let tokens = scan_tokens("\"\"".to_string());
    assert_eq!(
        tokens[0],
        Token::new(
            TokenType::STRING,
            Some(vec![]),
            Some(Literal::Str(String::new())),
            0
        )
    );
}

#[test]
fn unterminated_string_is_reported_and_dropped() {
    let out = scan("+ \"open\nstill");
    assert_eq!(
        out.tokens,
        vec![Token::new_token(TokenType::PLUS), Token::new(TokenType::EOF, None, None, 1)]
    );
    assert_eq!(
        out.diagnostics,
        vec![Diagnostic { line: 1, error: ScanError::UnterminatedString }]
    );
}

#[test]
fn unrecognized_character_is_reported_and_skipped() {
    let out = scan("a\n@ b");
    assert_eq!(out.tokens.len(), 3);
    assert_eq!(out.tokens[1].literal, Some(Literal::Identifier("b".to_string())));
    assert_eq!(
        out.diagnostics,
        vec![Diagnostic { line: 1, error: ScanError::UnrecognizedCharacter('@') }]
    );
}

#[test]
fn numbers_with_exponents() {
    for (source, value) in [("1e5", 1e5), ("2.5E-3", 2.5e-3), ("7.", 7.0), ("0", 0.0)] {
        let tokens = scan_tokens(source.to_string());
        assert_eq!(tokens[0].token_type, TokenType::NUMBER);
        match &tokens[0].literal {
            Some(Literal::Number(text)) => {
                assert_eq!(text, source);
                assert_eq!(text.parse::<f64>().unwrap(), value);
            }
            other => panic!("expected a number, found {:?}", other),
        }
    }
}

#[test]
fn malformed_numbers_become_identifiers() {
    for source in ["12abc", "1e", "1.2.3", "1e+", "3_000"] {
        let tokens = scan_tokens(source.to_string());
        assert_eq!(tokens[0].token_type, TokenType::IDENTIFIER);
        assert_eq!(tokens[0].literal, Some(Literal::Str(source.to_string())));
        assert!(source.parse::<f64>().is_err());
    }
}

#[test]
fn numeral_syntax_agrees_with_float_parsing() {
    for text in ["0", "12", "1.", "1.5", "1e9", "1E+9", "1e-9", "1.5e3", "1..", "1e", "1x", "1-2", "9e+"] {
        let chars: Vec<char> = text.chars().collect();
        assert_eq!(is_number(&chars), text.parse::<f64>().is_ok(), "{}", text);
    }
}

fn reads_as_finite(text: &str) -> bool {
    match text.parse::<f64>() {
        Ok(v) => v.is_finite(),
        Err(_) => false,
    }
}

#[test]
fn numeral_check_agrees_with_finite_floats() {
    let long_integer = "9".repeat(400);
    let long_fraction = format!("0.{}1e400", "0".repeat(500));
    let texts = [
        "1e308",
        "1e309",
        "1e400",
        "1.7976931348623157e308",
        "1.7976931348623158e308",
        "17976931348623157e292",
        "0.00017976931348623159e312",
        "179769313486231580793728971405303415079934132710037826936173778980444968292764750946649017977587207096330286416692887910946555547851940402630657488671505820681908902000708383676273854845817711531764475730270069855571366959622842914819860834936475292719074168444365510704342711559699508093042880177904174497792",
        "179769313486231580793728971405303415079934132710037826936173778980444968292764750946649017977587207096330286416692887910946555547851940402630657488671505820681908902000708383676273854845817711531764475730270069855571366959622842914819860834936475292719074168444365510704342711559699508093042880177904174497791",
        "179769313486231580793728971405303415079934132710037826936173778980444968292764750946649017977587207096330286416692887910946555547851940402630657488671505820681908902000708383676273854845817711531764475730270069855571366959622842914819860834936475292719074168444365510704342711559699508093042880177904174497792.0000000000000000000001",
        "179769313486231580793728971405303415079934132710037826936173778980444968292764750946649017977587207096330286416692887910946555547851940402630657488671505820681908902000708383676273854845817711531764475730270069855571366959622842914819860834936475292719074168444365510704342711559699508093042880177904174497791.999999999999999999999",
        "1e99999999999999999999999999",
        "1e-99999999999999999999999999",
        "0e99999999999999999999999999",
        "000000000000000000001e308",
        "0.0",
        long_integer.as_str(),
        long_fraction.as_str(),
    ];
    for text in texts {
        let chars: Vec<char> = text.chars().collect();
        assert_eq!(is_number(&chars), reads_as_finite(text), "{}", text);
    }
}

#[test]
fn numerals_that_overflow_are_not_numbers() {
    for source in ["1e400", "179769313486231580793728971405303415079934132710037826936173778980444968292764750946649017977587207096330286416692887910946555547851940402630657488671505820681908902000708383676273854845817711531764475730270069855571366959622842914819860834936475292719074168444365510704342711559699508093042880177904174497792"] {
        let tokens = scan_tokens(source.to_string());
        assert_eq!(tokens[0].token_type, TokenType::IDENTIFIER);
        assert_eq!(tokens[0].literal, Some(Literal::Str(source.to_string())));
    }
    let tokens = scan_tokens("179769313486231580793728971405303415079934132710037826936173778980444968292764750946649017977587207096330286416692887910946555547851940402630657488671505820681908902000708383676273854845817711531764475730270069855571366959622842914819860834936475292719074168444365510704342711559699508093042880177904174497791".to_string());
    assert_eq!(tokens[0].token_type, TokenType::NUMBER);
}

#[test]
fn runs_consume_the_whitespace_that_ends_them() {
    let mut cursor = SourceCursor::new(vec!['1', '2', '\n', 'x']);
    let c = cursor.advance().unwrap();
    match parse_chars(c, &mut cursor, false) {
        ScanStep::Emit(t) => assert_eq!(t.token_type, TokenType::NUMBER),
        _ => panic!("expected a token"),
    }
    assert_eq!(cursor.position(), 3);
    assert_eq!(cursor.line(), 1);
    assert_eq!(cursor.peek(), Some('x'));

    let mut cursor = SourceCursor::new(vec!['h', 'e', 'l', 'l', 'o', ' ', '=', ' ', '2']);
    let c = cursor.advance().unwrap();
    assert_eq!(walk_to_next_whitespace(&mut cursor, c), vec!['h', 'e', 'l', 'l', 'o']);
    assert_eq!(cursor.peek(), Some('='));
    assert_eq!(cursor.position(), 6);
}

#[test]
fn parse_chars_skips_whitespace() {
    let mut cursor = SourceCursor::new(vec!['\n', 'a']);
    let c = cursor.advance().unwrap();
    assert!(matches!(parse_chars(c, &mut cursor, false), ScanStep::Skip));
    assert_eq!(cursor.line(), 1);
    assert_eq!(cursor.position(), 1);
}

#[test]
fn keyword_lookup_is_exact() {
    assert_eq!(keyword_match(&vec!['o', 'r']), Some(TokenType::OR));
    assert_eq!(keyword_match(&vec!['o']), None);
    assert_eq!(keyword_match(&vec!['o', 'r', 's']), None);
    assert_eq!(keyword_match(&vec![]), None);
}

#[test]
fn text_conversions_keep_characters() {
    assert_eq!(chars_of("añb"), vec!['a', 'ñ', 'b']);
    assert_eq!(string_of(&vec!['x', 'ÿ', 'z']), "xÿz".to_string());
}

#[test]
fn classification_is_taken_from_the_flags() {
    let out = scan_classified(vec!['a', 'b', ' ', 'c'], &vec![false, true, false, true]);
    assert_eq!(
        out.diagnostics,
        vec![Diagnostic { line: 0, error: ScanError::UnrecognizedCharacter('a') }]
    );
    assert_eq!(out.tokens.len(), 3);
    assert_eq!(out.tokens[0].literal, Some(Literal::Identifier("b".to_string())));
    assert_eq!(out.tokens[1].literal, Some(Literal::Identifier("c".to_string())));
}

#[test]
fn cursor_walks() {
    let mut cursor = SourceCursor::new(vec!['a', 'b', ' ', '"', 'x', '\n', '"', 'y']);
    assert_eq!(cursor.advance(), Some('a'));
    assert_eq!(walk_to_next_whitespace(&mut cursor, 'a'), vec!['a', 'b']);
    assert_eq!(cursor.position(), 3);
    assert_eq!(cursor.peek(), Some('"'));
    assert_eq!(cursor.advance(), Some('"'));
    assert_eq!(walk_to_next_quote(&mut cursor), Some(vec!['x', '\n']));
    assert_eq!(cursor.line(), 1);
    assert_eq!(cursor.position(), 7);
    assert_eq!(walk_to_next_quote(&mut cursor), None);
    assert_eq!(cursor.advance(), None);
}

#[test]
fn parse_chars_handles_one_token() {
    let mut cursor = SourceCursor::new(vec!['>', '=', 'x']);
    let c = cursor.advance().unwrap();
    match parse_chars(c, &mut cursor, false) {
        ScanStep::Emit(t) => assert_eq!(t, Token::new_token(TokenType::GreatEqual)),
        _ => panic!("expected a token"),
    }
    assert_eq!(cursor.position(), 2);
}
