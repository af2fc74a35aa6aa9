use vstd::prelude::*;

verus! {

/// The closed set of token kinds.
#[derive(Clone, Copy, Debug, PartialEq, Eq, Structural)]
pub enum TokenType {
    // Single-character punctuation.
    LeftParen,
    RightParen,
    LeftBrace,
    RightBrace,
    Comma,
    Dot,
    Minus,
    Plus,
    Semicolon,
    Slash,
    Star,
    // One- or two-character operators.
    Bang,
    BangEqual,
    Equal,
    EqualEqual,
    Greater,
    GreaterEqual,
    Less,
    LessEqual,
    // Literals.
    Identifier,
    Str,
    Num,
    // Reserved words.
    And,
    Class,
    Else,
    False,
    Fun,
    For,
    If,
    Nil,
    Or,
    Print,
    Return,
    Super,
    This,
    True,
    Var,
    While,
    Eof,
}

/// The text that every token of an operator or punctuation kind is made of,
/// or `None` for the kinds whose lexeme varies.
pub open spec fn fixed_lexeme(kind: TokenType) -> Option<Seq<char>> {
    match kind {
        TokenType::LeftParen => Some(seq!['(']),
        TokenType::RightParen => Some(seq![')']),
        TokenType::LeftBrace => Some(seq!['{']),
        TokenType::RightBrace => Some(seq!['}']),
        TokenType::Comma => Some(seq![',']),
        TokenType::Dot => Some(seq!['.']),
        TokenType::Minus => Some(seq!['-']),
        TokenType::Plus => Some(seq!['+']),
        TokenType::Semicolon => Some(seq![';']),
        TokenType::Slash => Some(seq!['/']),
        TokenType::Star => Some(seq!['*']),
        TokenType::Bang => Some(seq!['!']),
        TokenType::BangEqual => Some(seq!['!', '=']),
        TokenType::Equal => Some(seq!['=']),
        TokenType::EqualEqual => Some(seq!['=', '=']),
        TokenType::Greater => Some(seq!['>']),
        TokenType::GreaterEqual => Some(seq!['>', '=']),
        TokenType::Less => Some(seq!['<']),
        TokenType::LessEqual => Some(seq!['<', '=']),
        _ => None,
    }
}

/// The decoded value carried by a token. A number keeps the digits of its
/// lexeme (`digits` or `digits.digits`); reading them as a float is left to
/// the caller.
#[derive(Clone, Debug)]
pub enum Literal {
    Absent,
    Str(String),
    Num(String),
}

/// Mathematical form of a `Literal`.
pub enum LiteralValue {
    Absent,
    Str(Seq<char>),
    Num(Seq<char>),
}

impl View for Literal {
    type V = LiteralValue;

    open spec fn view(&self) -> LiteralValue {
        match self {
            Literal::Absent => LiteralValue::Absent,
            Literal::Str(s) => LiteralValue::Str(s@),
            Literal::Num(s) => LiteralValue::Num(s@),
        }
    }
}

/// One recognized lexeme with its kind, decoded value and 1-based line.
#[derive(Clone, Debug)]
pub struct Token {
    pub type_: TokenType,
    pub lexeme: String,
    pub literal: Literal,
    pub line: usize,
}

/// Mathematical form of a `Token`.
pub struct TokenView {
    pub kind: TokenType,
    pub lexeme: Seq<char>,
    pub literal: LiteralValue,
    pub line: nat,
}

impl View for Token {
    type V = TokenView;

    open spec fn view(&self) -> TokenView {
        TokenView {
            kind: self.type_,
            lexeme: self.lexeme@,
            literal: self.literal@,
            line: self.line as nat,
        }
    }
}

impl Token {
    pub fn new(type_: TokenType, lexeme: String, literal: Literal, line: usize) -> (r: Self)
        ensures
            r@ == (TokenView { kind: type_, lexeme: lexeme@, literal: literal@, line: line as nat }),
    {
        Token { type_, lexeme, literal, line }
    }

    pub fn kind(&self) -> (r: TokenType)
        ensures
            r == self@.kind,
    {
        self.type_
    }

    pub fn lexeme(&self) -> (r: &str)
        ensures
            r@ == self@.lexeme,
    {
        self.lexeme.as_str()
    }

    pub fn literal(&self) -> (r: &Literal)
        ensures
            r@ == self@.literal,
    {
        &self.literal
    }

    pub fn line(&self) -> (r: usize)
        ensures
            r as nat == self@.line,
    {
        self.line
    }
}

/// The view of each token of a sequence.
pub open spec fn views(ts: Seq<Token>) -> Seq<TokenView> {
    ts.map_values(|t: Token| t@)
}

} // verus!
