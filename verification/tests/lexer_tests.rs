use gust::lexer::Lexer;
use gust::token::Token;

fn collect_tokens<'a>(mut lexer: Lexer<'a>) -> Vec<Token<'a>> {
    let mut v = Vec::new();
    loop {
        match lexer.next() {
            Some(t) => v.push(t),
            None => break,
        }
    }
    v
}

#[test]
fn lexer_variable_declaration_test() {
    let lexer = Lexer::new("let x = 10");
    let actual = collect_tokens(lexer);
    assert!(
        actual
            == vec![
                Token::Let,
                Token::Identifier("x"),
                Token::Equal,
                Token::Number("10")
            ]
    )
}

#[test]
fn lexer_variable_declaration_multiline_test() {
    let lexer = Lexer::new(
        r#"let x = 10
            let y = x
        "#,
    );
    let actual = collect_tokens(lexer);
    assert!(
        actual
            == vec![
                Token::Let,
                Token::Identifier("x"),
                Token::Equal,
                Token::Number("10"),
                Token::EOL,
                Token::Let,
                Token::Identifier("y"),
                Token::Equal,
                Token::Identifier("x"),
                Token::EOL
            ]
    )
}

#[test]
fn lexer_if_statement_test() {
    let lexer = Lexer::new(
        r#"if a != b {
            print(a)
        }"#,
    );
    let actual = collect_tokens(lexer);
    assert!(
        actual
            == vec![
                Token::If,
                Token::Identifier("a"),
                Token::BangEqual,
                Token::Identifier("b"),
                Token::LeftBracket,
                Token::EOL,
                Token::Print,
                Token::LeftParen,
                Token::Identifier("a"),
                Token::RightParen,
                Token::EOL,
                Token::RightBracket
            ]
    )
}

#[test]
fn lexer_if_statement_with_else_test() {
    let lexer = Lexer::new(
        r#"if a != b {
            print(a)
        } else {
            print(b)
        }"#,
    );
    let actual = collect_tokens(lexer);
    assert!(
        actual
            == vec![
                Token::If,
                Token::Identifier("a"),
                Token::BangEqual,
                Token::Identifier("b"),
                Token::LeftBracket,
                Token::EOL,
                Token::Print,
                Token::LeftParen,
                Token::Identifier("a"),
                Token::RightParen,
                Token::EOL,
                Token::RightBracket,
                Token::Else,
                Token::LeftBracket,
                Token::EOL,
                Token::Print,
                Token::LeftParen,
                Token::Identifier("b"),
                Token::RightParen,
                Token::EOL,
                Token::RightBracket
            ]
    )
}

#[test]
fn lexer_if_statement_with_multiple_conditions_test() {
    let lexer = Lexer::new(
        r#"if a != b && c == 10 || d == x {
            print(a)
        }"#,
    );
    let actual = collect_tokens(lexer);
    assert!(
        actual
            == vec![
                Token::If,
                Token::Identifier("a"),
                Token::BangEqual,
                Token::Identifier("b"),
                Token::And,
                Token::Identifier("c"),
                Token::EqualEqual,
                Token::Number("10"),
                Token::Or,
                Token::Identifier("d"),
                Token::EqualEqual,
                Token::Identifier("x"),
                Token::LeftBracket,
                Token::EOL,
                Token::Print,
                Token::LeftParen,
                Token::Identifier("a"),
                Token::RightParen,
                Token::EOL,
                Token::RightBracket
            ]
    )
}

#[test]
fn lexer_mathematic_expression_test() {
    let lexer = Lexer::new(r#"5 + a * 10_000 / 4.5 - c"#);
    let actual = collect_tokens(lexer);
    assert!(
        actual
            == vec![
                Token::Number("5"),
                Token::Plus,
                Token::Identifier("a"),
                Token::Star,
                Token::Number("10_000"),
                Token::Slash,
                Token::Number("4.5"),
                Token::Minus,
                Token::Identifier("c")
            ]
    )
}

#[test]
fn lexer_number_underdash_test() {
    let lexer = Lexer::new(r#"1_000_000"#);
    let actual = collect_tokens(lexer);
    assert!(actual == vec![Token::Number("1_000_000"),])
}

#[test]
fn lexer_decimal_number_test() {
    let lexer = Lexer::new(r#"3.14159265359"#);
    let actual = collect_tokens(lexer);
    assert!(actual == vec![Token::Number("3.14159265359"),])
}

#[test]
fn lexer_negative_number_test() {
    let lexer = Lexer::new(r#"-2412"#);
    let actual = collect_tokens(lexer);
    assert!(actual == vec![Token::Minus, Token::Number("2412"),])
}

#[test]
fn lexer_function_test() {
    let lexer = Lexer::new(
        r#"fn sum(a, b) {
            return a + b
        }"#,
    );
    let actual = collect_tokens(lexer);
    assert!(
        actual
            == vec![
                Token::Func,
                Token::Identifier("sum"),
                Token::LeftParen,
                Token::Identifier("a"),
                Token::Comma,
                Token::Identifier("b"),
                Token::RightParen,
                Token::LeftBracket,
                Token::EOL,
                Token::Return,
                Token::Identifier("a"),
                Token::Plus,
                Token::Identifier("b"),
                Token::EOL,
                Token::RightBracket
            ]
    )
}

#[test]
fn lexer_string_test() {
    let lexer = Lexer::new(r#""hello world""#);
    let actual = collect_tokens(lexer);
    assert!(actual == vec![Token::String(r#""hello world""#)])
}

#[test]
fn lexer_single_quoted_string_test() {
    let lexer = Lexer::new(r#"'hello world'"#);
    let actual = collect_tokens(lexer);
    assert!(actual == vec![Token::String("'hello world'")])
}

#[test]
fn lexer_invalid_string_test() {
    let lexer = Lexer::new(r#""hello world"#);
    let actual = collect_tokens(lexer);
    assert!(actual == vec![Token::Invalid])
}

#[test]
fn lexer_empty_string_test() {
    let lexer = Lexer::new(r#""""#);
    let actual = collect_tokens(lexer);
    assert!(actual == vec![Token::String(r#""""#)])
}

#[test]
fn lexer_empty_single_quoted_string_test() {
    let lexer = Lexer::new(r#"''"#);
    let actual = collect_tokens(lexer);
    assert!(actual == vec![Token::String(r#"''"#)])
}

#[test]
fn lexer_unicode_string_test() {
    let lexer = Lexer::new(r#"'Im a rocket 🚀'"#);
    let actual = collect_tokens(lexer);
    assert!(actual == vec![Token::String(r#"'Im a rocket 🚀'"#)])
}

#[test]
fn lexer_string_variable_definition_test() {
    let lexer = Lexer::new(r#"let s = "Tiếng Việt""#);
    let actual = collect_tokens(lexer);
    assert!(
        actual
            == vec![
                Token::Let,
                Token::Identifier("s"),
                Token::Equal,
                Token::String(r#""Tiếng Việt""#)
            ]
    )
}

#[test]
fn lexer_empty_input_test() {
    let lexer = Lexer::new("");
    let actual = collect_tokens(lexer);
    assert!(actual == Vec::<Token>::new())
}

#[test]
fn lexer_spaces_only_input_test() {
    let lexer = Lexer::new("    ");
    let actual = collect_tokens(lexer);
    assert!(actual == Vec::<Token>::new())
}

#[test]
fn lexer_identifier_with_digits_test() {
    let lexer = Lexer::new("let x1 = 2");
    let actual = collect_tokens(lexer);
    assert!(
        actual
            == vec![
                Token::Let,
                Token::Identifier("x1"),
                Token::Equal,
                Token::Number("2")
            ]
    )
}

#[test]
fn lexer_bang_consumes_peeked_letter_test() {
    // A comparison-shaped token also consumes the character peeked after it,
    // so `!ok` scans as Bang (swallowing the `o`) followed by `k`.
    let lexer = Lexer::new("!ok");
    let actual = collect_tokens(lexer);
    assert!(actual == vec![Token::Bang, Token::Identifier("k")])
}

#[test]
fn lexer_equal_consumes_peeked_letter_test() {
    // The same quirk for `=`: with no space after it, the next character is
    // swallowed.
    let lexer = Lexer::new("a=b");
    let actual = collect_tokens(lexer);
    assert!(actual == vec![Token::Identifier("a"), Token::Equal])
}

#[test]
fn lexer_lone_ampersand_ends_the_stream_test() {
    let lexer = Lexer::new("& b");
    let actual = collect_tokens(lexer);
    assert!(actual == Vec::<Token>::new())
}

#[test]
fn lexer_print_statement_with_string_test() {
    let lexer = Lexer::new(r#"print("Xin chào!!!")"#);
    let actual = collect_tokens(lexer);
    assert!(
        actual
            == vec![
                Token::Print,
                Token::LeftParen,
                Token::String(r#""Xin chào!!!""#),
                Token::RightParen
            ]
    )
}
