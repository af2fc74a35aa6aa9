use vstd::prelude::*;

use crate::scanner::collect_chars;

verus! {

/// An expression tree. Each node owns its sub-expressions.
pub enum Expr {
    Lit(Literal),
    Un(Unary),
    Bin(Binary),
    Grp(Grouping),
}

/// A literal value in an expression. A number keeps its source digits.
pub enum Literal {
    Num(String),
    Str(String),
    True,
    False,
    Nil,
}

/// A parenthesized expression.
pub struct Grouping(pub Box<Expr>);

/// A prefix operator applied to an expression.
pub struct Unary {
    pub op: UnaryOp,
    pub expr: Box<Expr>,
}

#[derive(Clone, Copy, Debug, PartialEq, Eq, Structural)]
pub enum UnaryOp {
    Minus,
    Bang,
}

/// An infix operator applied to two expressions.
pub struct Binary {
    pub l_expr: Box<Expr>,
    pub op: Op,
    pub r_expr: Box<Expr>,
}

#[derive(Clone, Copy, Debug, PartialEq, Eq, Structural)]
pub enum Op {
    Equal,
    NotEqual,
    Less,
    LessEqual,
    Greater,
    GreaterEqual,
    Plus,
    Minus,
    Star,
    Slash,
}

pub open spec fn unary_op_text(op: UnaryOp) -> Seq<char> {
    match op {
        UnaryOp::Minus => seq!['-'],
        UnaryOp::Bang => seq!['!'],
    }
}

pub open spec fn op_text(op: Op) -> Seq<char> {
    match op {
        Op::Equal => seq!['=', '='],
        Op::NotEqual => seq!['!', '='],
        Op::Less => seq!['<'],
        Op::LessEqual => seq!['<', '='],
        Op::Greater => seq!['>'],
        Op::GreaterEqual => seq!['>', '='],
        Op::Plus => seq!['+'],
        Op::Minus => seq!['-'],
        Op::Star => seq!['*'],
        Op::Slash => seq!['/'],
    }
}

pub open spec fn literal_text(l: Literal) -> Seq<char> {
    match l {
        Literal::Num(s) => s@,
        Literal::Str(s) => s@,
        Literal::True => "true"@,
        Literal::False => "false"@,
        Literal::Nil => "nil"@,
    }
}

/// The parenthesized prefix rendering of an expression: `(op a b)` for a
/// binary node, `(op a)` for a unary one, `(group a)` for a grouping.
pub open spec fn expr_text(e: Expr) -> Seq<char>
    decreases e,
{
    match e {
        Expr::Lit(l) => literal_text(l),
        Expr::Un(u) => seq!['('] + unary_op_text(u.op) + seq![' '] + expr_text(*u.expr) + seq![
            ')',
        ],
        Expr::Bin(b) => seq!['('] + op_text(b.op) + seq![' '] + expr_text(*b.l_expr) + seq![' ']
            + expr_text(*b.r_expr) + seq![')'],
        Expr::Grp(g) => "(group "@ + expr_text(*g.0) + seq![')'],
    }
}

/// Appends the characters of `s` to `out`.
fn push_str(out: &mut Vec<char>, s: &str)
    ensures
        final(out)@ == old(out)@ + s@,
{
    let n = s.unicode_len();
    let mut i: usize = 0;
    while i < n
        invariant
            n == s@.len(),
            i <= n,
            out@ == old(out)@ + s@.take(i as int),
        decreases n - i,
    {
        out.push(s.get_char(i));
        i = i + 1;
        proof {
            assert(s@.take(i as int) =~= s@.take(i - 1 as int).push(s@[i - 1 as int]));
        }
    }
    proof {
        assert(s@.take(n as int) =~= s@);
    }
}

fn push_char(out: &mut Vec<char>, c: char)
    ensures
        final(out)@ == old(out)@ + seq![c],
{
    out.push(c);
    proof {
        assert(out@ =~= old(out)@ + seq![c]);
    }
}

/// Appends the rendering of `e` to `out`.
fn write_expr(e: &Expr, out: &mut Vec<char>)
    ensures
        final(out)@ == old(out)@ + expr_text(*e),
    decreases e,
{
    match e {
        Expr::Lit(l) => {
            write_literal(l, out);
        },
        Expr::Un(u) => {
            push_char(out, '(');
            write_unary_op(u.op, out);
            push_char(out, ' ');
            write_expr(&u.expr, out);
            push_char(out, ')');
            proof {
                assert(out@ =~= old(out)@ + expr_text(*e));
            }
        },
        Expr::Bin(b) => {
            push_char(out, '(');
            write_op(b.op, out);
            push_char(out, ' ');
            write_expr(&b.l_expr, out);
            push_char(out, ' ');
            write_expr(&b.r_expr, out);
            push_char(out, ')');
            proof {
                assert(out@ =~= old(out)@ + expr_text(*e));
            }
        },
        Expr::Grp(g) => {
            push_str(out, "(group ");
            write_expr(&g.0, out);
            push_char(out, ')');
            proof {
                assert(out@ =~= old(out)@ + expr_text(*e));
            }
        },
    }
}

fn write_literal(l: &Literal, out: &mut Vec<char>)
    ensures
        final(out)@ == old(out)@ + literal_text(*l),
{
    match l {
        Literal::Num(s) => push_str(out, s.as_str()),
        Literal::Str(s) => push_str(out, s.as_str()),
        Literal::True => push_str(out, "true"),
        Literal::False => push_str(out, "false"),
        Literal::Nil => push_str(out, "nil"),
    }
}

fn write_unary_op(op: UnaryOp, out: &mut Vec<char>)
    ensures
        final(out)@ == old(out)@ + unary_op_text(op),
{
    match op {
        UnaryOp::Minus => push_char(out, '-'),
        UnaryOp::Bang => push_char(out, '!'),
    }
}

fn write_op(op: Op, out: &mut Vec<char>)
    ensures
        final(out)@ == old(out)@ + op_text(op),
{
    match op {
        Op::Equal => {
            push_char(out, '=');
            push_char(out, '=');
        },
        Op::NotEqual => {
            push_char(out, '!');
            push_char(out, '=');
        },
        Op::Less => push_char(out, '<'),
        Op::LessEqual => {
            push_char(out, '<');
            push_char(out, '=');
        },
        Op::Greater => push_char(out, '>'),
        Op::GreaterEqual => {
            push_char(out, '>');
            push_char(out, '=');
        },
        Op::Plus => push_char(out, '+'),
        Op::Minus => push_char(out, '-'),
        Op::Star => push_char(out, '*'),
        Op::Slash => push_char(out, '/'),
    }
    proof {
        assert(out@ =~= old(out)@ + op_text(op));
    }
}

/// A string holding exactly the characters of `v`.
fn to_string(v: &Vec<char>) -> (r: String)
    ensures
        r@ == v@,
{
    let r = collect_chars(v, 0, v.len());
    proof {
        assert(v@.subrange(0, v@.len() as int) =~= v@);
    }
    r
}

impl Expr {
    /// The parenthesized prefix rendering of this expression.
    pub fn render(&self) -> (r: String)
        ensures
            r@ == expr_text(*self),
    {
        let mut out: Vec<char> = Vec::new();
        write_expr(self, &mut out);
        proof {
            assert(out@ =~= expr_text(*self));
        }
        to_string(&out)
    }
}

impl Literal {
    /// The text of this literal.
    pub fn render(&self) -> (r: String)
        ensures
            r@ == literal_text(*self),
    {
        let mut out: Vec<char> = Vec::new();
        write_literal(self, &mut out);
        proof {
            assert(out@ =~= literal_text(*self));
        }
        to_string(&out)
    }
}

impl UnaryOp {
    /// The symbol of this operator.
    pub fn render(&self) -> (r: String)
        ensures
            r@ == unary_op_text(*self),
    {
        let mut out: Vec<char> = Vec::new();
        write_unary_op(*self, &mut out);
        proof {
            assert(out@ =~= unary_op_text(*self));
        }
        to_string(&out)
    }
}

impl Op {
    /// The symbol of this operator.
    pub fn render(&self) -> (r: String)
        ensures
            r@ == op_text(*self),
    {
        let mut out: Vec<char> = Vec::new();
        write_op(*self, &mut out);
        proof {
            assert(out@ =~= op_text(*self));
        }
        to_string(&out)
    }
}

} // verus!
