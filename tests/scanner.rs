use lox_scanner::diagnostic::Diagnostic;
use lox_scanner::scanner::Scanner;
use lox_scanner::token::{Literal, Token, TokenType};

fn scan(source: &str) -> (Vec<Token>, Vec<Diagnostic>) {
    let mut diagnostics = Vec::new();
    let tokens = Scanner::new(source.to_string()).scan_tokens(&mut diagnostics);
    (tokens, diagnostics)
}

fn kinds(tokens: &[Token]) -> Vec<TokenType> {
    tokens.iter().map(|t| t.kind()).collect()
}

fn num_value(t: &Token) -> f64 {
    match t.literal() {
        Literal::Num(text) => text.parse::<f64>().unwrap(),
        other => panic!("not a number literal: {:?}", other),
    }
}

#[test]
fn empty_input_is_eof_only() {
    let (tokens, diagnostics) = scan("");
    assert_eq!(kinds(&tokens), vec![TokenType::Eof]);
    assert_eq!(tokens[0].lexeme(), "");
    assert!(matches!(tokens[0].literal(), Literal::Absent));
    assert_eq!(tokens[0].line(), 1);
    assert!(diagnostics.is_empty());
}

#[test]
fn last_token_is_eof_with_empty_lexeme() {
    for source in ["var x = 1;", "\"open", "@", "a\nb\n", "// c"] {
        let (tokens, _) = scan(source);
        let last = tokens.last().unwrap();
        assert_eq!(last.kind(), TokenType::Eof);
        assert_eq!(last.lexeme(), "");
        assert_eq!(tokens.iter().filter(|t| t.kind() == TokenType::Eof).count(), 1);
    }
}

#[test]
fn eof_carries_final_line() {
    let (tokens, _) = scan("a\nb\n");
    assert_eq!(tokens.last().unwrap().line(), 3);
}

#[test]
fn whitespace_and_comments_only() {
    let (tokens, diagnostics) = scan(" \t\r\n// one\n   // two");
    assert_eq!(kinds(&tokens), vec![TokenType::Eof]);
    assert_eq!(tokens[0].line(), 3);
    assert!(diagnostics.is_empty());
}

#[test]
fn operator_lexemes_are_fixed() {
    let (tokens, diagnostics) = scan("(){},.-+;/* ! != = == < <= > >=");
    assert!(diagnostics.is_empty());
    let expected = [
        (TokenType::LeftParen, "("),
        (TokenType::RightParen, ")"),
        (TokenType::LeftBrace, "{"),
        (TokenType::RightBrace, "}"),
        (TokenType::Comma, ","),
        (TokenType::Dot, "."),
        (TokenType::Minus, "-"),
        (TokenType::Plus, "+"),
        (TokenType::Semicolon, ";"),
        (TokenType::Slash, "/"),
        (TokenType::Star, "*"),
        (TokenType::Bang, "!"),
        (TokenType::BangEqual, "!="),
        (TokenType::Equal, "="),
        (TokenType::EqualEqual, "=="),
        (TokenType::Less, "<"),
        (TokenType::LessEqual, "<="),
        (TokenType::Greater, ">"),
        (TokenType::GreaterEqual, ">="),
    ];
    assert_eq!(tokens.len(), expected.len() + 1);
    for (t, (kind, lexeme)) in tokens.iter().zip(expected.iter()) {
        assert_eq!(t.kind(), *kind);
        assert_eq!(t.lexeme(), *lexeme);
        assert!(matches!(t.literal(), Literal::Absent));
    }
}

#[test]
fn maximal_munch_less_equal() {
    let (tokens, _) = scan("<=");
    assert_eq!(kinds(&tokens), vec![TokenType::LessEqual, TokenType::Eof]);
    assert_eq!(tokens[0].lexeme(), "<=");
}

#[test]
fn equal_not_followed_by_equal() {
    let (tokens, _) = scan("=!");
    assert_eq!(kinds(&tokens), vec![TokenType::Equal, TokenType::Bang, TokenType::Eof]);
}

#[test]
fn integer_number() {
    let (tokens, _) = scan("123");
    assert_eq!(kinds(&tokens), vec![TokenType::Num, TokenType::Eof]);
    assert_eq!(tokens[0].lexeme(), "123");
    assert_eq!(num_value(&tokens[0]), 123.0);
}

#[test]
fn fractional_number() {
    let (tokens, _) = scan("12.34");
    assert_eq!(kinds(&tokens), vec![TokenType::Num, TokenType::Eof]);
    assert_eq!(tokens[0].lexeme(), "12.34");
    assert_eq!(num_value(&tokens[0]), 12.34);
}

#[test]
fn trailing_dot_is_separate() {
    let (tokens, _) = scan("12.");
    assert_eq!(kinds(&tokens), vec![TokenType::Num, TokenType::Dot, TokenType::Eof]);
    assert_eq!(tokens[0].lexeme(), "12");
    assert_eq!(num_value(&tokens[0]), 12.0);
    assert_eq!(tokens[1].lexeme(), ".");
}

#[test]
fn number_then_dot_then_letter() {
    let (tokens, _) = scan("1.a");
    assert_eq!(
        kinds(&tokens),
        vec![TokenType::Num, TokenType::Dot, TokenType::Identifier, TokenType::Eof]
    );
}

#[test]
fn string_literal_strips_quotes() {
    let (tokens, diagnostics) = scan("\"hello\"");
    assert_eq!(kinds(&tokens), vec![TokenType::Str, TokenType::Eof]);
    assert_eq!(tokens[0].lexeme(), "\"hello\"");
    match tokens[0].literal() {
        Literal::Str(s) => assert_eq!(s, "hello"),
        other => panic!("unexpected literal {:?}", other),
    }
    assert!(diagnostics.is_empty());
}

#[test]
fn empty_string_literal() {
    let (tokens, _) = scan("\"\"");
    match tokens[0].literal() {
        Literal::Str(s) => assert_eq!(s, ""),
        other => panic!("unexpected literal {:?}", other),
    }
}

#[test]
fn unterminated_string() {
    let (tokens, diagnostics) = scan("\"hello");
    assert_eq!(kinds(&tokens), vec![TokenType::Eof]);
    assert_eq!(diagnostics.len(), 1);
    assert_eq!(diagnostics[0].message, "Unterminated string.");
    assert_eq!(diagnostics[0].location, "");
    assert_eq!(diagnostics[0].line, 1);
}

#[test]
fn unterminated_string_reports_current_line() {
    let (_, diagnostics) = scan("\"a\nb\n");
    assert_eq!(diagnostics.len(), 1);
    assert_eq!(diagnostics[0].line, 3);
}

#[test]
fn multi_line_string_keeps_opening_line() {
    let (tokens, _) = scan("\"a\nb\" x");
    assert_eq!(kinds(&tokens), vec![TokenType::Str, TokenType::Identifier, TokenType::Eof]);
    assert_eq!(tokens[0].line(), 1);
    assert_eq!(tokens[1].line(), 2);
    match tokens[0].literal() {
        Literal::Str(s) => assert_eq!(s, "a\nb"),
        other => panic!("unexpected literal {:?}", other),
    }
}

#[test]
fn reserved_word_fun() {
    let (tokens, _) = scan("fun");
    assert_eq!(kinds(&tokens), vec![TokenType::Fun, TokenType::Eof]);
    assert_eq!(tokens[0].lexeme(), "fun");
}

#[test]
fn identifier_funny() {
    let (tokens, _) = scan("funny");
    assert_eq!(kinds(&tokens), vec![TokenType::Identifier, TokenType::Eof]);
    assert_eq!(tokens[0].lexeme(), "funny");
}

#[test]
fn all_reserved_words() {
    let (tokens, _) = scan(
        "and class else false for fun if nil or print return super this true var while",
    );
    assert_eq!(
        kinds(&tokens),
        vec![
            TokenType::And,
            TokenType::Class,
            TokenType::Else,
            TokenType::False,
            TokenType::For,
            TokenType::Fun,
            TokenType::If,
            TokenType::Nil,
            TokenType::Or,
            TokenType::Print,
            TokenType::Return,
            TokenType::Super,
            TokenType::This,
            TokenType::True,
            TokenType::Var,
            TokenType::While,
            TokenType::Eof,
        ]
    );
}

#[test]
fn reserved_words_are_case_sensitive() {
    let (tokens, _) = scan("And x1y2");
    assert_eq!(kinds(&tokens), vec![TokenType::Identifier, TokenType::Identifier, TokenType::Eof]);
    assert_eq!(tokens[1].lexeme(), "x1y2");
}

#[test]
fn underscore_is_not_identifier() {
    let (tokens, diagnostics) = scan("a_b");
    assert_eq!(kinds(&tokens), vec![TokenType::Identifier, TokenType::Identifier, TokenType::Eof]);
    assert_eq!(diagnostics.len(), 1);
    assert_eq!(diagnostics[0].message, "Unexpected character.");
}

#[test]
fn line_tracking() {
    let (tokens, _) = scan("1\n2");
    assert_eq!(kinds(&tokens), vec![TokenType::Num, TokenType::Num, TokenType::Eof]);
    assert_eq!(tokens[0].lexeme(), "1");
    assert_eq!(tokens[0].line(), 1);
    assert_eq!(tokens[1].lexeme(), "2");
    assert_eq!(tokens[1].line(), 2);
}

#[test]
fn comment_skipping() {
    let (tokens, diagnostics) = scan("// comment\n+");
    assert_eq!(kinds(&tokens), vec![TokenType::Plus, TokenType::Eof]);
    assert_eq!(tokens[0].line(), 2);
    assert!(diagnostics.is_empty());
}

#[test]
fn error_resynchronization() {
    let (tokens, diagnostics) = scan("@+@");
    assert_eq!(kinds(&tokens), vec![TokenType::Plus, TokenType::Eof]);
    assert_eq!(diagnostics.len(), 2);
    for d in &diagnostics {
        assert_eq!(d.message, "Unexpected character.");
        assert_eq!(d.location, "");
        assert_eq!(d.line, 1);
    }
}

#[test]
fn non_ascii_character_is_unexpected() {
    let (tokens, diagnostics) = scan("é;");
    assert_eq!(kinds(&tokens), vec![TokenType::Semicolon, TokenType::Eof]);
    assert_eq!(diagnostics.len(), 1);
}

#[test]
fn diagnostics_are_appended() {
    let mut diagnostics = vec![lox_scanner::diagnostic::error(7, "earlier")];
    let tokens = Scanner::new("#".to_string()).scan_tokens(&mut diagnostics);
    assert_eq!(tokens.len(), 1);
    assert_eq!(diagnostics.len(), 2);
    assert_eq!(diagnostics[0].message, "earlier");
    assert_eq!(diagnostics[1].message, "Unexpected character.");
}

#[test]
fn mixed_statement() {
    let (tokens, diagnostics) = scan("var answer = 42;\nprint answer >= 4.5;");
    assert!(diagnostics.is_empty());
    assert_eq!(
        kinds(&tokens),
        vec![
            TokenType::Var,
            TokenType::Identifier,
            TokenType::Equal,
            TokenType::Num,
            TokenType::Semicolon,
            TokenType::Print,
            TokenType::Identifier,
            TokenType::GreaterEqual,
            TokenType::Num,
            TokenType::Semicolon,
            TokenType::Eof,
        ]
    );
    assert_eq!(tokens[1].lexeme(), "answer");
    assert_eq!(tokens[5].line(), 2);
    assert_eq!(num_value(&tokens[8]), 4.5);
}
