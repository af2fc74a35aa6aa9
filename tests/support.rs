use lox_scanner::diagnostic::{error, report};
use lox_scanner::expr::{Binary, Expr, Grouping, Literal, Op, Unary, UnaryOp};
use lox_scanner::token::{Literal as TokenLiteral, Token, TokenType};

#[test]
fn error_has_empty_location() {
    let d = error(4, "Unexpected character.");
    assert_eq!(d.line, 4);
    assert_eq!(d.location, "");
    assert_eq!(d.message, "Unexpected character.");
}

#[test]
fn report_keeps_location() {
    let d = report(2, " at end", "Expect ';'.");
    assert_eq!(d.line, 2);
    assert_eq!(d.location, " at end");
    assert_eq!(d.message, "Expect ';'.");
}

#[test]
fn token_new_keeps_fields() {
    let t = Token::new(TokenType::Num, "3.5".to_string(), TokenLiteral::Num("3.5".to_string()), 9);
    assert_eq!(t.kind(), TokenType::Num);
    assert_eq!(t.lexeme(), "3.5");
    assert_eq!(t.line(), 9);
    assert!(matches!(t.literal(), TokenLiteral::Num(s) if s == "3.5"));
}

#[test]
fn op_symbols() {
    let all = [
        (Op::Equal, "=="),
        (Op::NotEqual, "!="),
        (Op::Less, "<"),
        (Op::LessEqual, "<="),
        (Op::Greater, ">"),
        (Op::GreaterEqual, ">="),
        (Op::Plus, "+"),
        (Op::Minus, "-"),
        (Op::Star, "*"),
        (Op::Slash, "/"),
    ];
    for (op, text) in all {
        assert_eq!(op.render(), text);
    }
    assert_eq!(UnaryOp::Minus.render(), "-");
    assert_eq!(UnaryOp::Bang.render(), "!");
}

#[test]
fn literal_rendering() {
    assert_eq!(Literal::True.render(), "true");
    assert_eq!(Literal::False.render(), "false");
    assert_eq!(Literal::Nil.render(), "nil");
    assert_eq!(Literal::Str("hi".to_string()).render(), "hi");
    assert_eq!(Literal::Num("45.67".to_string()).render(), "45.67");
}

#[test]
fn expression_rendering() {
    let e = Expr::Bin(Binary {
        l_expr: Box::new(Expr::Un(Unary {
            op: UnaryOp::Minus,
            expr: Box::new(Expr::Lit(Literal::Num("123".to_string()))),
        })),
        op: Op::Star,
        r_expr: Box::new(Expr::Grp(Grouping(Box::new(Expr::Lit(Literal::Num(
            "45.67".to_string(),
        )))))),
    });
    assert_eq!(e.render(), "(* (- 123) (group 45.67))");
}
