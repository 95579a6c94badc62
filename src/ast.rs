//! The syntax tree: expressions and top-level definitions.
use vstd::prelude::*;

use crate::number::Complex;
use crate::scanner::{Ident, Token};

verus! {

#[derive(Clone, Copy, Debug, PartialEq, Eq, Structural)]
pub enum BinaryOp {
    Add,
    Sub,
    Mul,
    Div,
    Pow,
}

#[derive(Clone, Copy, Debug, PartialEq, Eq, Structural)]
pub enum UnaryOp {
    Pos,
    Neg,
    Recip,
}

pub open spec fn binary_op_of(t: Token) -> Option<BinaryOp> {
    match t {
        Token::Plus => Some(BinaryOp::Add),
        Token::Minus => Some(BinaryOp::Sub),
        Token::Star => Some(BinaryOp::Mul),
        Token::Slash => Some(BinaryOp::Div),
        Token::Caret => Some(BinaryOp::Pow),
        _ => None,
    }
}

pub open spec fn unary_op_of(t: Token) -> Option<UnaryOp> {
    match t {
        Token::Plus => Some(UnaryOp::Pos),
        Token::Minus => Some(UnaryOp::Neg),
        Token::Slash => Some(UnaryOp::Recip),
        _ => None,
    }
}

/// Left and right binding power: an operator continues an expression whose
/// minimum is at most its left power, and parses its right side with its
/// right power as minimum. The lower right power of `^` makes it associate
/// to the right; the others associate to the left.
pub open spec fn binary_precedence(op: BinaryOp) -> (u32, u32) {
    match op {
        BinaryOp::Add | BinaryOp::Sub => (10, 11),
        BinaryOp::Mul | BinaryOp::Div => (20, 21),
        BinaryOp::Pow => (31, 30),
    }
}

/// Prefix operators bind tighter than every binary operator.
pub open spec fn unary_precedence() -> u32 {
    40
}

impl BinaryOp {
    pub fn from_token(tok: Token) -> (r: Option<BinaryOp>)
        ensures
            r == binary_op_of(tok),
    {
        match tok {
            Token::Plus => Some(BinaryOp::Add),
            Token::Minus => Some(BinaryOp::Sub),
            Token::Star => Some(BinaryOp::Mul),
            Token::Slash => Some(BinaryOp::Div),
            Token::Caret => Some(BinaryOp::Pow),
            _ => None,
        }
    }

    pub fn precedence(self) -> (r: (u32, u32))
        ensures
            r == binary_precedence(self),
    {
        match self {
            BinaryOp::Add | BinaryOp::Sub => (10, 11),
            BinaryOp::Mul | BinaryOp::Div => (20, 21),
            BinaryOp::Pow => (31, 30),
        }
    }
}

impl UnaryOp {
    pub fn from_token(tok: Token) -> (r: Option<UnaryOp>)
        ensures
            r == unary_op_of(tok),
    {
        match tok {
            Token::Plus => Some(UnaryOp::Pos),
            Token::Minus => Some(UnaryOp::Neg),
            Token::Slash => Some(UnaryOp::Recip),
            _ => None,
        }
    }

    pub fn precedence(self) -> (r: u32)
        ensures
            r == unary_precedence(),
    {
        40
    }
}

/// An expression; each node owns its children.
#[derive(Debug)]
pub enum Expr {
    Number(Complex),
    Name(Ident),
    /// A name with `order` derivative markers after it.
    NameDeriv(Ident, usize),
    Unary(UnaryOp, Box<Expr>),
    Binary(BinaryOp, Box<Expr>, Box<Expr>),
    /// A call of a name, with the derivative order of the callee.
    FnCall(Ident, Vec<Expr>, usize),
}

/// The mathematical form of an [`Expr`].
pub enum ExprV {
    Number(Complex),
    Name(Ident),
    NameDeriv(Ident, nat),
    Unary(UnaryOp, Box<ExprV>),
    Binary(BinaryOp, Box<ExprV>, Box<ExprV>),
    FnCall(Ident, Seq<ExprV>, nat),
}

/// The mathematical form of an expression.
pub open spec fn expr_view(e: &Expr) -> ExprV
    decreases e,
{
    match e {
        Expr::Number(z) => ExprV::Number(*z),
        Expr::Name(n) => ExprV::Name(*n),
        Expr::NameDeriv(n, k) => ExprV::NameDeriv(*n, *k as nat),
        Expr::Unary(op, a) => ExprV::Unary(*op, Box::new(expr_view(a))),
        Expr::Binary(op, a, b) => ExprV::Binary(*op, Box::new(expr_view(a)), Box::new(expr_view(b))),
        Expr::FnCall(n, args, k) => ExprV::FnCall(
            *n,
            Seq::new(args.len() as nat, |i: int| if 0 <= i < args.len() { expr_view(&args[i]) } else { ExprV::Name(*n) }),
            *k as nat,
        ),
    }
}

impl View for Expr {
    type V = ExprV;

    open spec fn view(&self) -> ExprV {
        expr_view(self)
    }
}

/// The mathematical forms of a sequence of expressions.
pub open spec fn views(es: Seq<Expr>) -> Seq<ExprV> {
    Seq::new(es.len(), |i: int| es[i]@)
}

/// The form of a call is the call on the forms of its arguments.
pub proof fn lemma_call_view(id: Ident, args: &Vec<Expr>, k: usize)
    ensures
        Expr::FnCall(id, *args, k)@ == ExprV::FnCall(id, views(args@), k as nat),
{
    let vs = Expr::FnCall(id, *args, k)@->FnCall_1;
    assert forall|i: int| 0 <= i < args.len() implies vs[i] == views(args@)[i] by {
        assert(vs[i] == args[i]@);
    }
    assert(vs =~= views(args@));
}

/// A top-level definition.
#[derive(Debug)]
pub enum Defn {
    Const { name: Ident, body: Expr },
    Func { name: Ident, params: Vec<Ident>, body: Expr },
}

/// The mathematical form of a [`Defn`].
pub enum DefnV {
    Const { name: Ident, body: ExprV },
    Func { name: Ident, params: Seq<Ident>, body: ExprV },
}

impl View for Defn {
    type V = DefnV;

    open spec fn view(&self) -> DefnV {
        match self {
            Defn::Const { name, body } => DefnV::Const { name: *name, body: body@ },
            Defn::Func { name, params, body } => DefnV::Func { name: *name, params: params@, body: body@ },
        }
    }
}

} // verus!
