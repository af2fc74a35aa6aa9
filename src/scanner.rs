use vstd::prelude::*;

use crate::diagnostic::{
    diagnostic_views, error, scanner_diagnostic, unexpected_character, unterminated_string,
    Diagnostic, DiagnosticView,
};
use crate::token::{fixed_lexeme, views, Literal, LiteralValue, Token, TokenType, TokenView};

verus! {

// ---------------------------------------------------------------------------
// Character classes.
pub open spec fn is_digit(c: char) -> bool {
    '0' <= c && c <= '9'
}

pub open spec fn is_alpha(c: char) -> bool {
    ('a' <= c && c <= 'z') || ('A' <= c && c <= 'Z')
}

pub open spec fn is_alnum(c: char) -> bool {
    is_digit(c) || is_alpha(c)
}

fn is_ascii_digit(c: char) -> (r: bool)
    ensures
        r == is_digit(c),
{
    '0' <= c && c <= '9'
}

fn is_ascii_alphabetic(c: char) -> (r: bool)
    ensures
        r == is_alpha(c),
{
    ('a' <= c && c <= 'z') || ('A' <= c && c <= 'Z')
}

fn is_ascii_alphanumeric(c: char) -> (r: bool)
    ensures
        r == is_alnum(c),
{
    is_ascii_digit(c) || is_ascii_alphabetic(c)
}

// ---------------------------------------------------------------------------
// The lexical grammar, over the characters of the source.
/// End of the run of digits that starts at `i`.
pub open spec fn digits_end(s: Seq<char>, i: nat) -> nat
    decreases s.len() - i,
{
    if i < s.len() && is_digit(s[i as int]) {
        digits_end(s, i + 1)
    } else {
        i
    }
}

/// End of the run of letters and digits that starts at `i`.
pub open spec fn alnum_end(s: Seq<char>, i: nat) -> nat
    decreases s.len() - i,
{
    if i < s.len() && is_alnum(s[i as int]) {
        alnum_end(s, i + 1)
    } else {
        i
    }
}

/// Position of the first `c` at or after `i`, or the length of `s`.
pub open spec fn find_from(s: Seq<char>, i: nat, c: char) -> nat
    decreases s.len() - i,
{
    if i < s.len() && s[i as int] != c {
        find_from(s, i + 1, c)
    } else {
        i
    }
}

/// End of a number whose first digit is just before `i`: the digit run, and
/// a fraction when a `.` is followed by a digit.
pub open spec fn number_end(s: Seq<char>, i: nat) -> nat {
    let e = digits_end(s, i);
    if e + 1 < s.len() && s[e as int] == '.' && is_digit(s[e + 1 as int]) {
        digits_end(s, e + 1)
    } else {
        e
    }
}

/// Number of newline characters among `s[i..j]`.
pub open spec fn newlines(s: Seq<char>, i: nat, j: nat) -> nat
    decreases j,
{
    if i < j {
        newlines(s, i, (j - 1) as nat) + if s[j - 1] == '\n' {
            1nat
        } else {
            0nat
        }
    } else {
        0
    }
}

/// The kind of an identifier-shaped lexeme: its reserved word, or `Identifier`.
pub open spec fn keyword_kind(text: Seq<char>) -> TokenType {
    if text == "and"@ {
        TokenType::And
    } else if text == "class"@ {
        TokenType::Class
    } else if text == "else"@ {
        TokenType::Else
    } else if text == "false"@ {
        TokenType::False
    } else if text == "for"@ {
        TokenType::For
    } else if text == "fun"@ {
        TokenType::Fun
    } else if text == "if"@ {
        TokenType::If
    } else if text == "nil"@ {
        TokenType::Nil
    } else if text == "or"@ {
        TokenType::Or
    } else if text == "print"@ {
        TokenType::Print
    } else if text == "return"@ {
        TokenType::Return
    } else if text == "super"@ {
        TokenType::Super
    } else if text == "this"@ {
        TokenType::This
    } else if text == "true"@ {
        TokenType::True
    } else if text == "var"@ {
        TokenType::Var
    } else if text == "while"@ {
        TokenType::While
    } else {
        TokenType::Identifier
    }
}

/// The kind of a character that is a token by itself.
pub open spec fn single_kind(c: char) -> Option<TokenType> {
    if c == '(' {
        Some(TokenType::LeftParen)
    } else if c == ')' {
        Some(TokenType::RightParen)
    } else if c == '{' {
        Some(TokenType::LeftBrace)
    } else if c == '}' {
        Some(TokenType::RightBrace)
    } else if c == ',' {
        Some(TokenType::Comma)
    } else if c == '.' {
        Some(TokenType::Dot)
    } else if c == '-' {
        Some(TokenType::Minus)
    } else if c == '+' {
        Some(TokenType::Plus)
    } else if c == ';' {
        Some(TokenType::Semicolon)
    } else if c == '*' {
        Some(TokenType::Star)
    } else {
        None
    }
}

/// The kinds of an operator character alone and followed by `=`.
pub open spec fn pair_kinds(c: char) -> Option<(TokenType, TokenType)> {
    if c == '!' {
        Some((TokenType::Bang, TokenType::BangEqual))
    } else if c == '=' {
        Some((TokenType::Equal, TokenType::EqualEqual))
    } else if c == '<' {
        Some((TokenType::Less, TokenType::LessEqual))
    } else if c == '>' {
        Some((TokenType::Greater, TokenType::GreaterEqual))
    } else {
        None
    }
}

/// What one scanning step produces: where the next lexeme starts, the line
/// counter after the step, and at most one token and one diagnostic.
pub struct Lexed {
    pub next: nat,
    pub line: nat,
    pub token: Option<TokenView>,
    pub diagnostic: Option<DiagnosticView>,
}

/// A token without a decoded value, made of `s[start..end]`.
pub open spec fn plain(s: Seq<char>, start: nat, end: nat, line: nat, kind: TokenType) -> Lexed {
    Lexed {
        next: end,
        line,
        token: Some(
            TokenView {
                kind,
                lexeme: s.subrange(start as int, end as int),
                literal: LiteralValue::Absent,
                line,
            },
        ),
        diagnostic: None,
    }
}

/// Characters consumed with nothing produced.
pub open spec fn skipped(next: nat, line: nat) -> Lexed {
    Lexed { next, line, token: None, diagnostic: None }
}

/// The scanning step on the lexeme that starts at `start < s.len()`, with the
/// line counter at `line`.
pub open spec fn lex_one(s: Seq<char>, start: nat, line: nat) -> Lexed {
    let c = s[start as int];
    let cur = start + 1;
    if single_kind(c) is Some {
        plain(s, start, cur, line, single_kind(c)->0)
    } else if pair_kinds(c) is Some {
        if cur < s.len() && s[cur as int] == '=' {
            plain(s, start, cur + 1, line, (pair_kinds(c)->0).1)
        } else {
            plain(s, start, cur, line, (pair_kinds(c)->0).0)
        }
    } else if c == '/' {
        if cur < s.len() && s[cur as int] == '/' {
            skipped(find_from(s, cur + 1, '\n'), line)
        } else {
            plain(s, start, cur, line, TokenType::Slash)
        }
    } else if c == ' ' || c == '\r' || c == '\t' {
        skipped(cur, line)
    } else if c == '\n' {
        skipped(cur, line + 1)
    } else if c == '"' {
        let e = find_from(s, cur, '"');
        let l = line + newlines(s, cur, e);
        if e < s.len() {
            Lexed {
                next: e + 1,
                line: l,
                token: Some(
                    TokenView {
                        kind: TokenType::Str,
                        lexeme: s.subrange(start as int, e + 1 as int),
                        literal: LiteralValue::Str(s.subrange(cur as int, e as int)),
                        line,
                    },
                ),
                diagnostic: None,
            }
        } else {
            Lexed {
                next: e,
                line: l,
                token: None,
                diagnostic: Some(scanner_diagnostic(l, unterminated_string())),
            }
        }
    } else if is_digit(c) {
        let e = number_end(s, cur);
        Lexed {
            next: e,
            line,
            token: Some(
                TokenView {
                    kind: TokenType::Num,
                    lexeme: s.subrange(start as int, e as int),
                    literal: LiteralValue::Num(s.subrange(start as int, e as int)),
                    line,
                },
            ),
            diagnostic: None,
        }
    } else if is_alpha(c) {
        let e = alnum_end(s, cur);
        plain(s, start, e, line, keyword_kind(s.subrange(start as int, e as int)))
    } else {
        Lexed {
            next: cur,
            line,
            token: None,
            diagnostic: Some(scanner_diagnostic(line, unexpected_character())),
        }
    }
}

/// `s` with `o`'s value appended, if there is one.
pub open spec fn push_opt<A>(s: Seq<A>, o: Option<A>) -> Seq<A> {
    match o {
        Some(a) => s.push(a),
        None => s,
    }
}

/// The value of `o` as a sequence of zero or one elements.
pub open spec fn opt_seq<A>(o: Option<A>) -> Seq<A> {
    match o {
        Some(a) => seq![a],
        None => Seq::empty(),
    }
}

/// Tokens and diagnostics of the lexemes from `pos` on, and the line counter
/// when the input is used up.
pub open spec fn scan_from(s: Seq<char>, pos: nat, line: nat) -> (
    Seq<TokenView>,
    Seq<DiagnosticView>,
    nat,
)
    decreases s.len() - pos,
{
    if pos < s.len() {
        let step = lex_one(s, pos, line);
        if pos < step.next <= s.len() {
            let rest = scan_from(s, step.next, step.line);
            (opt_seq(step.token) + rest.0, opt_seq(step.diagnostic) + rest.1, rest.2)
        } else {
            (Seq::empty(), Seq::empty(), line)
        }
    } else {
        (Seq::empty(), Seq::empty(), line)
    }
}

/// The end-of-input marker on `line`.
pub open spec fn eof_token(line: nat) -> TokenView {
    TokenView { kind: TokenType::Eof, lexeme: Seq::empty(), literal: LiteralValue::Absent, line }
}

/// The tokens of a whole source text, ending in the end-of-input marker.
pub open spec fn scan_tokens_of(s: Seq<char>) -> Seq<TokenView> {
    let r = scan_from(s, 0, 1);
    r.0.push(eof_token(r.2))
}

/// The diagnostics of a whole source text, in the order they are found.
pub open spec fn scan_diagnostics_of(s: Seq<char>) -> Seq<DiagnosticView> {
    scan_from(s, 0, 1).1
}


// ---------------------------------------------------------------------------
// The scanner.
/// Relies on `String: FromIterator<&char>`: the string holds the characters
/// of `v[from..to]` in order.
#[verifier::external_body]
pub(crate) fn collect_chars(v: &Vec<char>, from: usize, to: usize) -> (r: String)
    requires
        from <= to <= v@.len(),
    ensures
        r@ == v@.subrange(from as int, to as int),
{
    v[from..to].iter().collect()
}

/// The characters of `s`, one entry per code point.
fn chars_of(s: &str) -> (v: Vec<char>)
    ensures
        v@ == s@,
{
    let mut v: Vec<char> = Vec::new();
    for c in it: s.chars()
        invariant
            v@ == it.seq().take(it.index() as int),
    {
        v.push(c);
    }
    v
}

/// Cursor state of one scan over one source text.
pub struct Scanner {
    source: Vec<char>,
    tokens: Vec<Token>,
    start: usize,
    current: usize,
    line: usize,
}

impl Scanner {
    /// The characters being scanned.
    pub closed spec fn text(&self) -> Seq<char> {
        self.source@
    }

    /// Nothing scanned yet.
    pub closed spec fn is_fresh(&self) -> bool {
        &&& self.tokens@.len() == 0
        &&& self.start == 0
        &&& self.current == 0
        &&& self.line == 1
        &&& self.source@.len() < usize::MAX
    }

    spec fn inv(&self) -> bool {
        &&& self.start <= self.current <= self.source@.len()
        &&& 1 <= self.line <= self.current + 1
        &&& self.source@.len() < usize::MAX
    }

    /// A scanner positioned at the start of `source`, on line 1.
    pub fn new(source: String) -> (r: Self)
        requires
            source@.len() < usize::MAX,
        ensures
            r.text() == source@,
            r.is_fresh(),
    {
        Scanner { source: chars_of(source.as_str()), tokens: Vec::new(), start: 0, current: 0, line: 1 }
    }

    fn is_at_end(&self) -> (r: bool)
        ensures
            r == (self.current >= self.source@.len()),
    {
        self.current >= self.source.len()
    }

    fn advance(&mut self) -> (c: char)
        requires
            old(self).source@.len() < usize::MAX,
            old(self).current < old(self).source@.len(),
        ensures
            c == old(self).source@[old(self).current as int],
            final(self).current == old(self).current + 1,
            final(self).source == old(self).source,
            final(self).tokens == old(self).tokens,
            final(self).start == old(self).start,
            final(self).line == old(self).line,
    {
        self.current = self.current + 1;
        self.source[self.current - 1]
    }

    fn match_(&mut self, expected: char) -> (r: bool)
        requires
            old(self).source@.len() < usize::MAX,
        ensures
            r == (old(self).current < old(self).source@.len() && old(self).source@[old(
                self,
            ).current as int] == expected),
            final(self).current == if r {
                old(self).current + 1
            } else {
                old(self).current as int
            },
            final(self).source == old(self).source,
            final(self).tokens == old(self).tokens,
            final(self).start == old(self).start,
            final(self).line == old(self).line,
    {
        if self.is_at_end() {
            return false;
        }
        if self.source[self.current] != expected {
            return false;
        }
        self.current = self.current + 1;
        true
    }

    fn peek(&self) -> (c: char)
        ensures
            c == if self.current < self.source@.len() {
                self.source@[self.current as int]
            } else {
                '\0'
            },
    {
        if self.is_at_end() {
            return '\0';
        }
        self.source[self.current]
    }

    fn peek_next(&self) -> (c: char)
        ensures
            c == if self.current + 1 < self.source@.len() {
                self.source@[self.current + 1]
            } else {
                '\0'
            },
    {
        if self.current >= self.source.len() || self.current + 1 >= self.source.len() {
            return '\0';
        }
        self.source[self.current + 1]
    }

    /// Scans the tokens of the whole source text, in order, and ends them
    /// with the end-of-input marker. Each lexical error is appended to
    /// `diagnostics`; scanning goes on after it.
    pub fn scan_tokens(self, diagnostics: &mut Vec<Diagnostic>) -> (tokens: Vec<Token>)
        requires
            self.is_fresh(),
        ensures
            views(tokens@) == scan_tokens_of(self.text()),
            diagnostic_views(final(diagnostics)@) == diagnostic_views(old(diagnostics)@)
                + scan_diagnostics_of(self.text()),
    {
        let mut scanner = self;
        let ghost s = scanner.source@;
        let ghost whole = scan_from(s, 0, 1);
        proof {
            assert(views(scanner.tokens@) =~= Seq::<TokenView>::empty());
            assert(whole.0 =~= views(scanner.tokens@) + whole.0);
            assert(diagnostic_views(old(diagnostics)@) + whole.1 =~= diagnostic_views(diagnostics@)
                + whole.1);
        }
        while !scanner.is_at_end()
            invariant
                scanner.inv(),
                scanner.source@ == s,
                ({
                    let rest = scan_from(s, scanner.current as nat, scanner.line as nat);
                    &&& views(scanner.tokens@) + rest.0 == whole.0
                    &&& diagnostic_views(diagnostics@) + rest.1 == diagnostic_views(
                        old(diagnostics)@,
                    ) + whole.1
                    &&& rest.2 == whole.2
                }),
            decreases s.len() - scanner.current,
        {
            // We are at the beginning of the next lexeme.
            scanner.start = scanner.current;
            let ghost pos = scanner.current as nat;
            let ghost line = scanner.line as nat;
            let ghost toks = views(scanner.tokens@);
            let ghost diags = diagnostic_views(diagnostics@);
            scanner.scan_token(diagnostics);
            proof {
                let step = lex_one(s, pos, line);
                let rest = scan_from(s, step.next, step.line);
                assert(push_opt(toks, step.token) + rest.0 =~= toks + (opt_seq(step.token)
                    + rest.0));
                assert(push_opt(diags, step.diagnostic) + rest.1 =~= diags + (opt_seq(
                    step.diagnostic,
                ) + rest.1));
            }
        }
        let eof = Token::new(TokenType::Eof, String::new(), Literal::Absent, scanner.line);
        proof {
            assert(views(scanner.tokens@) =~= whole.0);
            assert(diagnostic_views(diagnostics@) =~= diagnostic_views(old(diagnostics)@)
                + whole.1);
        }
        scanner.tokens.push(eof);
        proof {
            assert(views(scanner.tokens@) =~= whole.0.push(eof@));
        }
        scanner.tokens
    }

    /// Scans one lexeme, starting at the cursor.
    fn scan_token(&mut self, diagnostics: &mut Vec<Diagnostic>)
        requires
            old(self).inv(),
            old(self).start == old(self).current,
            old(self).current < old(self).source@.len(),
        ensures
            ({
                let step = lex_one(
                    old(self).source@,
                    old(self).current as nat,
                    old(self).line as nat,
                );
                &&& final(self).current == step.next
                &&& final(self).line == step.line
                &&& views(final(self).tokens@) == push_opt(views(old(self).tokens@), step.token)
                &&& diagnostic_views(final(diagnostics)@) == push_opt(
                    diagnostic_views(old(diagnostics)@),
                    step.diagnostic,
                )
            }),
            old(self).current < final(self).current,
            final(self).inv(),
            final(self).source == old(self).source,
    {
        let ghost s = self.source@;
        let c = self.advance();
        match c {
            '(' => self.add_token_helper(TokenType::LeftParen),
            ')' => self.add_token_helper(TokenType::RightParen),
            '{' => self.add_token_helper(TokenType::LeftBrace),
            '}' => self.add_token_helper(TokenType::RightBrace),
            ',' => self.add_token_helper(TokenType::Comma),
            '.' => self.add_token_helper(TokenType::Dot),
            '-' => self.add_token_helper(TokenType::Minus),
            '+' => self.add_token_helper(TokenType::Plus),
            ';' => self.add_token_helper(TokenType::Semicolon),
            '*' => self.add_token_helper(TokenType::Star),
            '!' => {
                if self.match_('=') {
                    self.add_token_helper(TokenType::BangEqual)
                } else {
                    self.add_token_helper(TokenType::Bang)
                }
            },
            '=' => {
                if self.match_('=') {
                    self.add_token_helper(TokenType::EqualEqual)
                } else {
                    self.add_token_helper(TokenType::Equal)
                }
            },
            '<' => {
                if self.match_('=') {
                    self.add_token_helper(TokenType::LessEqual)
                } else {
                    self.add_token_helper(TokenType::Less)
                }
            },
            '>' => {
                if self.match_('=') {
                    self.add_token_helper(TokenType::GreaterEqual)
                } else {
                    self.add_token_helper(TokenType::Greater)
                }
            },
            '/' => {
                if self.match_('/') {
                    // A comment runs to the end of the line.
                    let ghost e = find_from(s, self.current as nat, '\n');
                    while self.peek() != '\n' && !self.is_at_end()
                        invariant
                            self.inv(),
                            self.source@ == s,
                            self.start == old(self).start,
                            self.line == old(self).line,
                            self.tokens == old(self).tokens,
                            self.source == old(self).source,
                            old(self).current < self.current,
                            find_from(s, self.current as nat, '\n') == e,
                        decreases s.len() - self.current,
                    {
                        self.advance();
                    }
                } else {
                    self.add_token_helper(TokenType::Slash)
                }
            },
            ' ' | '\r' | '\t' => {},
            '\n' => {
                self.line = self.line + 1;
            },
            '"' => self.string(diagnostics),
            _ => {
                if is_ascii_digit(c) {
                    self.number()
                } else if is_ascii_alphabetic(c) {
                    self.identifier()
                } else {
                    let d = error(self.line, "Unexpected character.");
                    diagnostics.push(d);
                    proof {
                        assert(diagnostic_views(diagnostics@) =~= diagnostic_views(
                            old(diagnostics)@,
                        ).push(d@));
                    }
                }
            },
        }
    }

    /// Whether the current lexeme is exactly `word`.
    fn lexeme_is(&self, word: &str) -> (r: bool)
        requires
            self.start <= self.current <= self.source@.len(),
        ensures
            r == (self.source@.subrange(self.start as int, self.current as int) == word@),
    {
        let n = word.unicode_len();
        if self.current - self.start != n {
            return false;
        }
        let mut i: usize = 0;
        while i < n
            invariant
                self.start <= self.current <= self.source@.len(),
                n == word@.len(),
                self.current - self.start == n,
                i <= n,
                forall|k: int|
                    0 <= k < i ==> self.source@[self.start + k] == #[trigger] word@[k],
            decreases n - i,
        {
            if self.source[self.start + i] != word.get_char(i) {
                proof {
                    let sub = self.source@.subrange(self.start as int, self.current as int);
                    assert(sub[i as int] != word@[i as int]);
                }
                return false;
            }
            i = i + 1;
        }
        proof {
            assert(self.source@.subrange(self.start as int, self.current as int) =~= word@);
        }
        true
    }

    /// The reserved word that the current lexeme spells, or `Identifier`.
    fn reserved_kind(&self) -> (r: TokenType)
        requires
            self.start <= self.current <= self.source@.len(),
        ensures
            r == keyword_kind(self.source@.subrange(self.start as int, self.current as int)),
    {
        if self.lexeme_is("and") {
            TokenType::And
        } else if self.lexeme_is("class") {
            TokenType::Class
        } else if self.lexeme_is("else") {
            TokenType::Else
        } else if self.lexeme_is("false") {
            TokenType::False
        } else if self.lexeme_is("for") {
            TokenType::For
        } else if self.lexeme_is("fun") {
            TokenType::Fun
        } else if self.lexeme_is("if") {
            TokenType::If
        } else if self.lexeme_is("nil") {
            TokenType::Nil
        } else if self.lexeme_is("or") {
            TokenType::Or
        } else if self.lexeme_is("print") {
            TokenType::Print
        } else if self.lexeme_is("return") {
            TokenType::Return
        } else if self.lexeme_is("super") {
            TokenType::Super
        } else if self.lexeme_is("this") {
            TokenType::This
        } else if self.lexeme_is("true") {
            TokenType::True
        } else if self.lexeme_is("var") {
            TokenType::Var
        } else if self.lexeme_is("while") {
            TokenType::While
        } else {
            TokenType::Identifier
        }
    }

    /// Scans the rest of an identifier or reserved word whose first letter
    /// has been consumed.
    fn identifier(&mut self)
        requires
            old(self).inv(),
            old(self).start < old(self).current,
        ensures
            final(self).inv(),
            old(self).current <= final(self).current,
            final(self).current == alnum_end(old(self).source@, old(self).current as nat),
            views(final(self).tokens@) == views(old(self).tokens@).push(
                TokenView {
                    kind: keyword_kind(
                        old(self).source@.subrange(
                            old(self).start as int,
                            final(self).current as int,
                        ),
                    ),
                    lexeme: old(self).source@.subrange(
                        old(self).start as int,
                        final(self).current as int,
                    ),
                    literal: LiteralValue::Absent,
                    line: old(self).line as nat,
                },
            ),
            final(self).source == old(self).source,
            final(self).start == old(self).start,
            final(self).line == old(self).line,
    {
        let ghost s = self.source@;
        let ghost end = alnum_end(s, self.current as nat);
        while is_ascii_alphanumeric(self.peek())
            invariant
                self.inv(),
                self.source == old(self).source,
                s == old(self).source@,
                self.start == old(self).start,
                self.line == old(self).line,
                self.tokens == old(self).tokens,
                old(self).current <= self.current,
                alnum_end(s, self.current as nat) == end,
            decreases s.len() - self.current,
        {
            self.advance();
        }
        let type_ = self.reserved_kind();
        self.add_token_helper(type_);
    }

    /// Scans the rest of a number whose first digit has been consumed.
    fn number(&mut self)
        requires
            old(self).inv(),
            old(self).start < old(self).current,
        ensures
            final(self).inv(),
            old(self).current <= final(self).current,
            final(self).current == number_end(old(self).source@, old(self).current as nat),
            views(final(self).tokens@) == views(old(self).tokens@).push(
                TokenView {
                    kind: TokenType::Num,
                    lexeme: old(self).source@.subrange(
                        old(self).start as int,
                        final(self).current as int,
                    ),
                    literal: LiteralValue::Num(
                        old(self).source@.subrange(
                            old(self).start as int,
                            final(self).current as int,
                        ),
                    ),
                    line: old(self).line as nat,
                },
            ),
            final(self).source == old(self).source,
            final(self).start == old(self).start,
            final(self).line == old(self).line,
    {
        let ghost s = self.source@;
        let ghost e = digits_end(s, self.current as nat);
        while is_ascii_digit(self.peek())
            invariant
                self.inv(),
                self.source == old(self).source,
                s == old(self).source@,
                self.start == old(self).start,
                self.line == old(self).line,
                self.tokens == old(self).tokens,
                old(self).current <= self.current,
                digits_end(s, self.current as nat) == e,
            decreases s.len() - self.current,
        {
            self.advance();
        }
        // A fraction needs a digit after the point.
        if self.peek() == '.' && is_ascii_digit(self.peek_next()) {
            self.advance();
            let ghost f = digits_end(s, self.current as nat);
            while is_ascii_digit(self.peek())
                invariant
                    self.inv(),
                    self.source == old(self).source,
                    s == old(self).source@,
                    self.start == old(self).start,
                    self.line == old(self).line,
                    self.tokens == old(self).tokens,
                    old(self).current <= self.current,
                    digits_end(s, self.current as nat) == f,
                decreases s.len() - self.current,
            {
                self.advance();
            }
        }
        let text = collect_chars(&self.source, self.start, self.current);
        self.add_token(TokenType::Num, Literal::Num(text));
    }

    /// Scans the rest of a string literal whose opening quote has been
    /// consumed; at the end of input, records an unterminated string.
    fn string(&mut self, diagnostics: &mut Vec<Diagnostic>)
        requires
            old(self).inv(),
            old(self).start + 1 == old(self).current,
            old(self).source@[old(self).start as int] == '"',
        ensures
            ({
                let step = lex_one(old(self).source@, old(self).start as nat, old(self).line as nat);
                &&& final(self).current == step.next
                &&& final(self).line == step.line
                &&& views(final(self).tokens@) == push_opt(views(old(self).tokens@), step.token)
                &&& diagnostic_views(final(diagnostics)@) == push_opt(
                    diagnostic_views(old(diagnostics)@),
                    step.diagnostic,
                )
            }),
            old(self).current <= final(self).current,
            final(self).inv(),
            final(self).source == old(self).source,
            final(self).start == old(self).start,
    {
        let ghost s = self.source@;
        let ghost c0 = self.current as nat;
        let ghost e = find_from(s, c0, '"');
        let start_line = self.line;
        while self.peek() != '"' && !self.is_at_end()
            invariant
                self.inv(),
                self.source == old(self).source,
                s == old(self).source@,
                self.start == old(self).start,
                self.tokens == old(self).tokens,
                c0 <= self.current,
                find_from(s, self.current as nat, '"') == e,
                self.line == start_line + newlines(s, c0, self.current as nat),
            decreases s.len() - self.current,
        {
            if self.peek() == '\n' {
                self.line = self.line + 1;
            }
            self.advance();
        }
        if self.is_at_end() {
            let d = error(self.line, "Unterminated string.");
            diagnostics.push(d);
            proof {
                assert(diagnostic_views(diagnostics@) =~= diagnostic_views(
                    old(diagnostics)@,
                ).push(d@));
            }
            return;
        }
        // The closing quote.
        self.advance();
        let lexeme = collect_chars(&self.source, self.start, self.current);
        let value = collect_chars(&self.source, self.start + 1, self.current - 1);
        let t = Token::new(TokenType::Str, lexeme, Literal::Str(value), start_line);
        self.tokens.push(t);
        proof {
            assert(views(self.tokens@) =~= views(old(self).tokens@).push(t@));
        }
    }

    fn add_token(&mut self, type_: TokenType, literal: Literal)
        requires
            old(self).start <= old(self).current <= old(self).source@.len(),
        ensures
            views(final(self).tokens@) == views(old(self).tokens@).push(
                TokenView {
                    kind: type_,
                    lexeme: old(self).source@.subrange(
                        old(self).start as int,
                        old(self).current as int,
                    ),
                    literal: literal@,
                    line: old(self).line as nat,
                },
            ),
            final(self).source == old(self).source,
            final(self).current == old(self).current,
            final(self).start == old(self).start,
            final(self).line == old(self).line,
    {
        let text = collect_chars(&self.source, self.start, self.current);
        let t = Token::new(type_, text, literal, self.line);
        self.tokens.push(t);
        proof {
            assert(views(self.tokens@) =~= views(old(self).tokens@).push(t@));
        }
    }

    fn add_token_helper(&mut self, type_: TokenType)
        requires
            old(self).start <= old(self).current <= old(self).source@.len(),
        ensures
            views(final(self).tokens@) == views(old(self).tokens@).push(
                TokenView {
                    kind: type_,
                    lexeme: old(self).source@.subrange(
                        old(self).start as int,
                        old(self).current as int,
                    ),
                    literal: LiteralValue::Absent,
                    line: old(self).line as nat,
                },
            ),
            final(self).source == old(self).source,
            final(self).current == old(self).current,
            final(self).start == old(self).start,
            final(self).line == old(self).line,
    {
        self.add_token(type_, Literal::Absent);
    }
}


// ---------------------------------------------------------------------------
// Laws of the scan.
/// `find_from` lands between its start and the end of the text.
pub proof fn lemma_find_from_bounds(s: Seq<char>, i: nat, c: char)
    requires
        i <= s.len(),
    ensures
        i <= find_from(s, i, c) <= s.len(),
    decreases s.len() - i,
{
    if i < s.len() && s[i as int] != c {
        lemma_find_from_bounds(s, i + 1, c);
    }
}

/// The text from `i` on holds only whitespace and `//` comments.
pub open spec fn blank_from(s: Seq<char>, i: nat) -> bool
    decreases s.len() - i,
{
    if i >= s.len() {
        true
    } else {
        let c = s[i as int];
        if c == ' ' || c == '\r' || c == '\t' || c == '\n' {
            blank_from(s, i + 1)
        } else if c == '/' && i + 1 < s.len() && s[i + 1 as int] == '/' {
            let e = find_from(s, i + 2, '\n');
            if i < e <= s.len() {
                blank_from(s, e)
            } else {
                false
            }
        } else {
            false
        }
    }
}

/// Scanning text that holds only whitespace and comments, from any line,
/// yields no token and no diagnostic.
pub proof fn lemma_blank_scans_empty(s: Seq<char>, pos: nat, line: nat)
    requires
        pos <= s.len(),
        blank_from(s, pos),
    ensures
        scan_from(s, pos, line).0.len() == 0,
        scan_from(s, pos, line).1.len() == 0,
    decreases s.len() - pos,
{
    if pos < s.len() {
        let c = s[pos as int];
        if c == '/' {
            lemma_find_from_bounds(s, pos + 2, '\n');
        }
        let step = lex_one(s, pos, line);
        lemma_blank_scans_empty(s, step.next, step.line);
    }
}

/// A source text of whitespace and comments alone scans to the end-of-input
/// marker alone, with no diagnostic.
pub proof fn lemma_blank_source(s: Seq<char>)
    requires
        blank_from(s, 0),
    ensures
        scan_tokens_of(s).len() == 1,
        scan_tokens_of(s)[0].kind == TokenType::Eof,
        scan_tokens_of(s)[0].lexeme.len() == 0,
        scan_diagnostics_of(s).len() == 0,
{
    lemma_blank_scans_empty(s, 0, 1);
}

/// An operator or punctuation token is made of its kind's fixed text.
pub open spec fn lexeme_fits(t: TokenView) -> bool {
    fixed_lexeme(t.kind) is Some ==> t.lexeme == fixed_lexeme(t.kind)->0
}

proof fn lemma_lex_one_fits(s: Seq<char>, start: nat, line: nat)
    requires
        start < s.len(),
    ensures
        lex_one(s, start, line).token is Some ==> {
            let t = lex_one(s, start, line).token->0;
            &&& lexeme_fits(t)
            &&& t.kind != TokenType::Eof
        },
{
    let c = s[start as int];
    let cur = start + 1;
    if single_kind(c) is Some || c == '/' {
        assert(s.subrange(start as int, cur as int) =~= seq![c]);
    } else if pair_kinds(c) is Some {
        if cur < s.len() && s[cur as int] == '=' {
            assert(s.subrange(start as int, cur + 1 as int) =~= seq![c, '=']);
        } else {
            assert(s.subrange(start as int, cur as int) =~= seq![c]);
        }
    }
}

/// Every token that a scan from `pos` yields fits its kind's fixed text, and
/// none is the end-of-input marker.
pub proof fn lemma_scan_from_fits(s: Seq<char>, pos: nat, line: nat)
    ensures
        forall|i: int|
            0 <= i < scan_from(s, pos, line).0.len() ==> {
                &&& lexeme_fits(#[trigger] scan_from(s, pos, line).0[i])
                &&& scan_from(s, pos, line).0[i].kind != TokenType::Eof
            },
    decreases s.len() - pos,
{
    if pos < s.len() {
        let step = lex_one(s, pos, line);
        if pos < step.next <= s.len() {
            lemma_lex_one_fits(s, pos, line);
            lemma_scan_from_fits(s, step.next, step.line);
            let rest = scan_from(s, step.next, step.line);
            assert forall|i: int| 0 <= i < scan_from(s, pos, line).0.len() implies {
                &&& lexeme_fits(#[trigger] scan_from(s, pos, line).0[i])
                &&& scan_from(s, pos, line).0[i].kind != TokenType::Eof
            } by {
                if step.token is Some && i == 0 {
                } else {
                    let k = if step.token is Some { i - 1 } else { i };
                    assert(scan_from(s, pos, line).0[i] == rest.0[k]);
                }
            }
        }
    }
}

/// Every operator and punctuation token of a scan is made of its kind's
/// fixed text (`==` for `EqualEqual`, `(` for `LeftParen`, ...).
pub proof fn lemma_operator_lexemes(s: Seq<char>)
    ensures
        forall|i: int|
            0 <= i < scan_tokens_of(s).len() ==> lexeme_fits(#[trigger] scan_tokens_of(s)[i]),
{
    lemma_scan_from_fits(s, 0, 1);
    let r = scan_from(s, 0, 1);
    assert forall|i: int| 0 <= i < scan_tokens_of(s).len() implies lexeme_fits(
        #[trigger] scan_tokens_of(s)[i],
    ) by {
        if i < r.0.len() {
            assert(scan_tokens_of(s)[i] == r.0[i]);
        }
    }
}

/// A scan ends in exactly one end-of-input marker, with an empty lexeme and
/// no value, on the line where scanning stopped.
pub proof fn lemma_ends_with_eof(s: Seq<char>)
    ensures
        scan_tokens_of(s).len() >= 1,
        scan_tokens_of(s).last() == eof_token(scan_from(s, 0, 1).2),
        scan_tokens_of(s).last().lexeme.len() == 0,
        forall|i: int|
            0 <= i < scan_tokens_of(s).len() - 1 ==> #[trigger] scan_tokens_of(s)[i].kind
                != TokenType::Eof,
{
    lemma_scan_from_fits(s, 0, 1);
    let r = scan_from(s, 0, 1);
    assert forall|i: int| 0 <= i < scan_tokens_of(s).len() - 1 implies #[trigger] scan_tokens_of(
        s,
    )[i].kind != TokenType::Eof by {
        assert(scan_tokens_of(s)[i] == r.0[i]);
    }
}

} // verus!
