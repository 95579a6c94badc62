//! The parser: tokens to definitions, by precedence climbing.
use vstd::prelude::*;

use crate::ast::{
    binary_op_of, binary_precedence, lemma_call_view, unary_op_of, views, BinaryOp, Defn, DefnV,
    Expr, ExprV, UnaryOp,
};
use crate::builtins::{name_of, same_name};
use crate::number::{zero_ratio, Complex, Ratio};
use crate::scanner::{chars_of, tokenize, tokens_from, Ident, Token};
use crate::Position;

verus! {

#[derive(Clone, Copy, Debug, PartialEq, Eq, Structural)]
pub enum ParseErrorKind {
    /// A token that cannot stand where it was found.
    UnexpectedToken,
    /// The input ended inside a definition.
    UnexpectedEof,
    /// A derivative marker after something other than a bare name.
    InvalidFunction,
    /// A left-hand side that is neither a name nor a call on bare names.
    InvalidLValue,
    /// A comma right before the closing parenthesis of a call.
    TrailingComma,
}

#[derive(Clone, Copy, Debug, PartialEq, Eq, Structural)]
pub struct ParseError {
    pub kind: ParseErrorKind,
    /// Where the error was found; `None` where the input ended first.
    pub pos: Option<Position>,
}

/// The message that describes an error of kind `k`.
pub open spec fn message_of(k: ParseErrorKind) -> Seq<char> {
    match k {
        ParseErrorKind::UnexpectedToken => "unexpected token"@,
        ParseErrorKind::UnexpectedEof => "unexpected end of input"@,
        ParseErrorKind::InvalidFunction => "a derivative marker must follow a function name"@,
        ParseErrorKind::InvalidLValue => "expected a name or a call on names before '='"@,
        ParseErrorKind::TrailingComma => "trailing comma in argument list"@,
    }
}

impl ParseError {
    pub fn message(&self) -> (r: String)
        ensures
            r@ == message_of(self.kind),
    {
        match self.kind {
            ParseErrorKind::UnexpectedToken => String::from_str("unexpected token"),
            ParseErrorKind::UnexpectedEof => String::from_str("unexpected end of input"),
            ParseErrorKind::InvalidFunction => String::from_str(
                "a derivative marker must follow a function name",
            ),
            ParseErrorKind::InvalidLValue => String::from_str(
                "expected a name or a call on names before '='",
            ),
            ParseErrorKind::TrailingComma => String::from_str("trailing comma in argument list"),
        }
    }
}

pub type Toks = Seq<(Position, Token)>;

pub type ExprResult = Result<(ExprV, int), ParseError>;

pub type ArgsResult = Result<(Seq<ExprV>, int), ParseError>;

pub open spec fn eof() -> ParseError {
    ParseError { kind: ParseErrorKind::UnexpectedEof, pos: None }
}

pub open spec fn error_at(kind: ParseErrorKind, t: Toks, q: int) -> ParseError {
    ParseError { kind, pos: Some(t[q].0) }
}

/// Tokens that end an expression.
pub open spec fn is_closing(tok: Token) -> bool {
    tok == Token::Equal || tok == Token::RParen || tok == Token::Newline || tok == Token::Comma
}

/// Tokens that begin a primary expression, and so an implicit product.
pub open spec fn starts_primary(tok: Token) -> bool {
    tok is Number || tok is Name || tok == Token::LParen
}

/// An expression whose smallest binding power is `min`, from token `p`.
/// A successful parse returns the expression and the index after it.
///
/// Here and below, the tests that a nested parse ended after where it began
/// always hold; they make the decrease of the recursion plain.
pub open spec fn expr_parse(t: Toks, p: int, min: u32) -> ExprResult
    decreases t.len() - p, 1int,
{
    if p < 0 || p >= t.len() {
        Err(eof())
    } else {
        match t[p].1 {
            Token::Number(r) => rest_parse(
                t,
                p + 1,
                ExprV::Number(Complex { re: r, im: zero_ratio() }),
                false,
                min,
            ),
            Token::Name(id) => rest_parse(t, p + 1, ExprV::Name(id), true, min),
            Token::LParen => match expr_parse(t, p + 1, 0) {
                Err(e) => Err(e),
                Ok((e, q)) => if !(p < q <= t.len()) || q == t.len() {
                    Err(eof())
                } else if t[q].1 == Token::RParen {
                    rest_parse(t, q + 1, e, false, min)
                } else {
                    Err(error_at(ParseErrorKind::UnexpectedToken, t, q))
                },
            },
            tok => match unary_op_of(tok) {
                Some(op) => match expr_parse(t, p + 1, 40) {
                    Err(e) => Err(e),
                    Ok((e, q)) => if p < q <= t.len() {
                        rest_parse(t, q, ExprV::Unary(op, Box::new(e)), false, min)
                    } else {
                        Err(eof())
                    },
                },
                None => Err(error_at(ParseErrorKind::UnexpectedToken, t, p)),
            },
        }
    }
}

/// The argument list of a call whose `(` stands just before token `p`.
pub open spec fn call_args_parse(t: Toks, p: int) -> ArgsResult
    decreases t.len() - p, 3int,
{
    if 0 <= p < t.len() && t[p].1 == Token::RParen {
        Ok((seq![], p + 1))
    } else {
        args_parse(t, p, seq![])
    }
}

/// Further arguments from token `p`, after those in `acc`, up to the `)`.
pub open spec fn args_parse(t: Toks, p: int, acc: Seq<ExprV>) -> ArgsResult
    decreases t.len() - p, 2int,
{
    match expr_parse(t, p, 0) {
        Err(e) => Err(e),
        Ok((e, q)) => if !(p < q <= t.len()) || q == t.len() {
            Err(eof())
        } else if t[q].1 == Token::Comma {
            if q + 1 < t.len() && t[q + 1].1 == Token::RParen {
                Err(error_at(ParseErrorKind::TrailingComma, t, q + 1))
            } else {
                args_parse(t, q + 1, acc.push(e))
            }
        } else if t[q].1 == Token::RParen {
            Ok((acc.push(e), q + 1))
        } else {
            Err(error_at(ParseErrorKind::UnexpectedToken, t, q))
        },
    }
}

/// The rest of an expression that began with `lhs`, from token `q`. `bare`
/// tells whether `lhs` is a name, possibly with derivative markers, that
/// stood unparenthesised: only such a left side can be called or marked.
pub open spec fn rest_parse(t: Toks, q: int, lhs: ExprV, bare: bool, min: u32) -> ExprResult
    decreases t.len() - q, 4int,
{
    if q < 0 || q >= t.len() {
        Ok((lhs, q))
    } else {
        let tok = t[q].1;
        if is_closing(tok) {
            Ok((lhs, q))
        } else if tok == Token::Prime {
            match lhs {
                ExprV::Name(id) if bare => rest_parse(t, q + 1, ExprV::NameDeriv(id, 1), true, min),
                ExprV::NameDeriv(id, k) if bare => rest_parse(
                    t,
                    q + 1,
                    ExprV::NameDeriv(id, k + 1),
                    true,
                    min,
                ),
                _ => Err(error_at(ParseErrorKind::InvalidFunction, t, q)),
            }
        } else if tok == Token::LParen && bare && (lhs is Name || lhs is NameDeriv) {
            let (id, k) = match lhs {
                ExprV::NameDeriv(id, k) => (id, k),
                ExprV::Name(id) => (id, 0nat),
                _ => (Ident { start: 0, end: 0 }, 0nat),
            };
            match call_args_parse(t, q + 1) {
                Err(e) => Err(e),
                Ok((args, q2)) => if q < q2 <= t.len() {
                    rest_parse(t, q2, ExprV::FnCall(id, args, k), false, min)
                } else {
                    Err(eof())
                },
            }
        } else {
            match binary_op_of(tok) {
                Some(op) => if binary_precedence(op).0 < min {
                    Ok((lhs, q))
                } else {
                    match expr_parse(t, q + 1, binary_precedence(op).1) {
                        Err(e) => Err(e),
                        Ok((r, q2)) => if q < q2 <= t.len() {
                            rest_parse(t, q2, ExprV::Binary(op, Box::new(lhs), Box::new(r)), false, min)
                        } else {
                            Err(eof())
                        },
                    }
                },
                None => if starts_primary(tok) {
                    if binary_precedence(BinaryOp::Mul).0 < min {
                        Ok((lhs, q))
                    } else {
                        match expr_parse(t, q, binary_precedence(BinaryOp::Mul).1) {
                            Err(e) => Err(e),
                            Ok((r, q2)) => if q < q2 <= t.len() {
                                rest_parse(
                                    t,
                                    q2,
                                    ExprV::Binary(BinaryOp::Mul, Box::new(lhs), Box::new(r)),
                                    false,
                                    min,
                                )
                            } else {
                                Err(eof())
                            },
                        }
                    }
                } else {
                    Err(error_at(ParseErrorKind::UnexpectedToken, t, q))
                },
            }
        }
    }
}

/// The first token index at or after `p` that is not a newline.
pub open spec fn skip_newlines(t: Toks, p: int) -> int
    decreases t.len() - p,
{
    if 0 <= p < t.len() && t[p].1 == Token::Newline {
        skip_newlines(t, p + 1)
    } else {
        p
    }
}

/// Whether no two of `ps` read the same.
pub open spec fn distinct_names(src: Seq<char>, ps: Seq<Ident>) -> bool {
    forall|i: int, j: int| 0 <= i < j < ps.len() ==> name_of(src, #[trigger] ps[i]) != name_of(src, #[trigger] ps[j])
}

/// The parameter names of a left-hand side's argument list, where every
/// argument is a bare name and no two of them read the same.
pub open spec fn params_of(src: Seq<char>, args: Seq<ExprV>) -> Option<Seq<Ident>> {
    if forall|i: int| 0 <= i < args.len() ==> (#[trigger] args[i]) is Name {
        let ps = Seq::new(args.len(), |i: int| args[i]->Name_0);
        if distinct_names(src, ps) {
            Some(ps)
        } else {
            None
        }
    } else {
        None
    }
}

/// The definition that `lhs = rhs` makes: a name defines a constant, a call
/// without derivative markers on distinct bare names defines a function.
pub open spec fn defn_of(src: Seq<char>, lhs: ExprV, rhs: ExprV) -> Option<DefnV> {
    match lhs {
        ExprV::Name(id) => Some(DefnV::Const { name: id, body: rhs }),
        ExprV::FnCall(id, args, k) => if k == 0 {
            match params_of(src, args) {
                Some(ps) => Some(DefnV::Func { name: id, params: ps, body: rhs }),
                None => None,
            }
        } else {
            None
        },
        _ => None,
    }
}

/// The definitions from token `p` to the end, after those in `acc`.
pub open spec fn program_parse(src: Seq<char>, t: Toks, p: int, acc: Seq<DefnV>) -> Result<Seq<DefnV>, ParseError>
    decreases t.len() - p,
{
    let s = skip_newlines(t, p);
    if !(0 <= p <= s) || s >= t.len() {
        Ok(acc)
    } else {
        match expr_parse(t, s, 0) {
            Err(e) => Err(e),
            Ok((lhs, q)) => if !(s < q <= t.len()) || q == t.len() {
                Err(eof())
            } else if t[q].1 != Token::Equal {
                Err(error_at(ParseErrorKind::UnexpectedToken, t, q))
            } else {
                match expr_parse(t, q + 1, 0) {
                    Err(e) => Err(e),
                    Ok((rhs, r)) => if !(q < r <= t.len()) {
                        Err(eof())
                    } else {
                        match defn_of(src, lhs, rhs) {
                            None => Err(error_at(ParseErrorKind::InvalidLValue, t, s)),
                            Some(d) => if r == t.len() {
                                Ok(acc.push(d))
                            } else if t[r].1 == Token::Newline {
                                program_parse(src, t, r + 1, acc.push(d))
                            } else {
                                Err(error_at(ParseErrorKind::UnexpectedToken, t, r))
                            },
                        }
                    },
                }
            },
        }
    }
}

/// The definitions of a whole source text.
pub open spec fn parse_source(src: Seq<char>) -> Result<Seq<DefnV>, ParseError> {
    program_parse(src, tokens_from(src, 0), 0, seq![])
}

pub open spec fn defn_views(ds: Seq<Defn>) -> Seq<DefnV> {
    Seq::new(ds.len(), |i: int| ds[i]@)
}

pub open spec fn expr_result(r: Result<(Expr, usize), ParseError>) -> ExprResult {
    match r {
        Ok((e, q)) => Ok((e@, q as int)),
        Err(x) => Err(x),
    }
}

pub open spec fn args_result(r: Result<(Vec<Expr>, usize), ParseError>) -> ArgsResult {
    match r {
        Ok((a, q)) => Ok((views(a@), q as int)),
        Err(x) => Err(x),
    }
}

/// Parses the tokens of a source.
pub struct Parser {
    chars: Vec<char>,
    toks: Vec<(Position, Token)>,
}

impl Parser {
    pub closed spec fn source(&self) -> Seq<char> {
        self.chars@
    }

    pub closed spec fn tokens(&self) -> Toks {
        self.toks@
    }

    pub fn new(src: &str) -> (r: Parser)
        ensures
            r.source() == src@,
            r.tokens() == tokens_from(src@, 0),
    {
        Parser { chars: chars_of(src), toks: tokenize(src) }
    }

    /// Parses the whole token sequence into definitions.
    pub fn parse(&self) -> (r: Result<Vec<Defn>, ParseError>)
        ensures
            match r {
                Ok(ds) => program_parse(self.source(), self.tokens(), 0, seq![]) == Ok::<Seq<DefnV>, ParseError>(
                    defn_views(ds@),
                ),
                Err(e) => program_parse(self.source(), self.tokens(), 0, seq![]) == Err::<Seq<DefnV>, ParseError>(e),
            },
    {
        let mut defs: Vec<Defn> = Vec::new();
        let mut p: usize = 0;
        assert(defn_views(defs@) =~= seq![]);
        loop
            invariant
                p <= self.toks.len(),
                program_parse(self.chars@, self.toks@, p as int, defn_views(defs@)) == program_parse(
                    self.chars@,
                    self.toks@,
                    0,
                    seq![],
                ),
            decreases self.toks.len() - p,
        {
            let ghost p0 = p as int;
            while p < self.toks.len() && self.toks[p].1 == Token::Newline
                invariant
                    p0 <= p <= self.toks.len(),
                    skip_newlines(self.toks@, p0) == skip_newlines(self.toks@, p as int),
                decreases self.toks.len() - p,
            {
                p = p + 1;
            }
            if p == self.toks.len() {
                return Ok(defs);
            }
            let start = p;
            let lhs = match self.expr(p, 0) {
                Err(e) => { return Err(e); },
                Ok((lhs, q)) => {
                    p = q;
                    lhs
                },
            };
            if p == self.toks.len() {
                return Err(ParseError { kind: ParseErrorKind::UnexpectedEof, pos: None });
            }
            if self.toks[p].1 != Token::Equal {
                return Err(ParseError { kind: ParseErrorKind::UnexpectedToken, pos: Some(self.toks[p].0) });
            }
            let rhs = match self.expr(p + 1, 0) {
                Err(e) => { return Err(e); },
                Ok((rhs, r)) => {
                    p = r;
                    rhs
                },
            };
            let d = match make_defn(&self.chars, lhs, rhs) {
                Some(d) => d,
                None => {
                    return Err(ParseError { kind: ParseErrorKind::InvalidLValue, pos: Some(self.toks[start].0) });
                },
            };
            let ghost before = defs@;
            let ghost dv = d@;
            defs.push(d);
            assert(defn_views(defs@) =~= defn_views(before).push(dv));
            if p == self.toks.len() {
                return Ok(defs);
            }
            if self.toks[p].1 != Token::Newline {
                return Err(ParseError { kind: ParseErrorKind::UnexpectedToken, pos: Some(self.toks[p].0) });
            }
            p = p + 1;
        }
    }

    fn expr(&self, p: usize, min: u32) -> (r: Result<(Expr, usize), ParseError>)
        requires
            p <= self.toks.len(),
        ensures
            expr_result(r) == expr_parse(self.toks@, p as int, min),
            r matches Ok((_, q)) ==> p < q <= self.toks.len(),
            r matches Ok((Expr::NameDeriv(_, k), q)) ==> k <= q,
        decreases self.toks.len() - p, 1int,
    {
        if p >= self.toks.len() {
            return Err(ParseError { kind: ParseErrorKind::UnexpectedEof, pos: None });
        }
        let tok = self.toks[p].1;
        match tok {
            Token::Number(r) => self.rest(
                p + 1,
                Expr::Number(Complex { re: r, im: Ratio { num: 0, den: 1 } }),
                false,
                min,
            ),
            Token::Name(id) => self.rest(p + 1, Expr::Name(id), true, min),
            Token::LParen => match self.expr(p + 1, 0) {
                Err(e) => Err(e),
                Ok((e, q)) => if q == self.toks.len() {
                    Err(ParseError { kind: ParseErrorKind::UnexpectedEof, pos: None })
                } else if self.toks[q].1 == Token::RParen {
                    self.rest(q + 1, e, false, min)
                } else {
                    Err(ParseError { kind: ParseErrorKind::UnexpectedToken, pos: Some(self.toks[q].0) })
                },
            },
            _ => match UnaryOp::from_token(tok) {
                Some(op) => match self.expr(p + 1, op.precedence()) {
                    Err(e) => Err(e),
                    Ok((e, q)) => self.rest(q, Expr::Unary(op, Box::new(e)), false, min),
                },
                None => Err(ParseError { kind: ParseErrorKind::UnexpectedToken, pos: Some(self.toks[p].0) }),
            },
        }
    }

    fn call_args(&self, p: usize) -> (r: Result<(Vec<Expr>, usize), ParseError>)
        requires
            p <= self.toks.len(),
        ensures
            args_result(r) == call_args_parse(self.toks@, p as int),
            r matches Ok((_, q)) ==> p < q <= self.toks.len(),
        decreases self.toks.len() - p, 3int,
    {
        if p < self.toks.len() && self.toks[p].1 == Token::RParen {
            let v: Vec<Expr> = Vec::new();
            assert(views(v@) =~= seq![]);
            Ok((v, p + 1))
        } else {
            let v: Vec<Expr> = Vec::new();
            assert(views(v@) =~= seq![]);
            self.args(p, v)
        }
    }

    fn args(&self, p: usize, acc: Vec<Expr>) -> (r: Result<(Vec<Expr>, usize), ParseError>)
        requires
            p <= self.toks.len(),
        ensures
            args_result(r) == args_parse(self.toks@, p as int, views(acc@)),
            r matches Ok((_, q)) ==> p < q <= self.toks.len(),
        decreases self.toks.len() - p, 2int,
    {
        match self.expr(p, 0) {
            Err(e) => Err(e),
            Ok((e, q)) => {
                if q == self.toks.len() {
                    Err(ParseError { kind: ParseErrorKind::UnexpectedEof, pos: None })
                } else if self.toks[q].1 == Token::Comma {
                    if q + 1 < self.toks.len() && self.toks[q + 1].1 == Token::RParen {
                        Err(ParseError { kind: ParseErrorKind::TrailingComma, pos: Some(self.toks[q + 1].0) })
                    } else {
                        let mut acc = acc;
                        let ghost before = acc@;
                        let ghost ev = e@;
                        acc.push(e);
                        assert(views(acc@) =~= views(before).push(ev));
                        self.args(q + 1, acc)
                    }
                } else if self.toks[q].1 == Token::RParen {
                    let mut acc = acc;
                    let ghost before = acc@;
                    let ghost ev = e@;
                    acc.push(e);
                    assert(views(acc@) =~= views(before).push(ev));
                    Ok((acc, q + 1))
                } else {
                    Err(ParseError { kind: ParseErrorKind::UnexpectedToken, pos: Some(self.toks[q].0) })
                }
            },
        }
    }

    fn rest(&self, q: usize, lhs: Expr, bare: bool, min: u32) -> (r: Result<(Expr, usize), ParseError>)
        requires
            q <= self.toks.len(),
            lhs matches Expr::NameDeriv(_, k) ==> k <= q,
        ensures
            expr_result(r) == rest_parse(self.toks@, q as int, lhs@, bare, min),
            r matches Ok((_, q2)) ==> q <= q2 <= self.toks.len(),
            r matches Ok((Expr::NameDeriv(_, k), q2)) ==> k <= q2,
        decreases self.toks.len() - q, 4int,
    {
        if q >= self.toks.len() {
            return Ok((lhs, q));
        }
        let tok = self.toks[q].1;
        if tok == Token::Equal || tok == Token::RParen || tok == Token::Newline || tok == Token::Comma {
            return Ok((lhs, q));
        }
        if tok == Token::Prime {
            return match lhs {
                Expr::Name(id) if bare => self.rest(q + 1, Expr::NameDeriv(id, 1), true, min),
                Expr::NameDeriv(id, k) if bare => self.rest(q + 1, Expr::NameDeriv(id, k + 1), true, min),
                _ => Err(ParseError { kind: ParseErrorKind::InvalidFunction, pos: Some(self.toks[q].0) }),
            };
        }
        if tok == Token::LParen && bare {
            let callee = match lhs {
                Expr::NameDeriv(id, k) => Some((id, k)),
                Expr::Name(id) => Some((id, 0)),
                _ => None,
            };
            if let Some((id, k)) = callee {
                return match self.call_args(q + 1) {
                    Err(e) => Err(e),
                    Ok((args, q2)) => {
                        proof {
                            lemma_call_view(id, &args, k);
                        }
                        self.rest(q2, Expr::FnCall(id, args, k), false, min)
                    },
                };
            }
        }
        match BinaryOp::from_token(tok) {
            Some(op) => {
                let (lp, rp) = op.precedence();
                if lp < min {
                    Ok((lhs, q))
                } else {
                    match self.expr(q + 1, rp) {
                        Err(e) => Err(e),
                        Ok((r, q2)) => self.rest(q2, Expr::Binary(op, Box::new(lhs), Box::new(r)), false, min),
                    }
                }
            },
            None => {
                let is_primary = match tok {
                    Token::Number(_) | Token::Name(_) | Token::LParen => true,
                    _ => false,
                };
                if is_primary {
                    let (lp, rp) = BinaryOp::Mul.precedence();
                    if lp < min {
                        Ok((lhs, q))
                    } else {
                        match self.expr(q, rp) {
                            Err(e) => Err(e),
                            Ok((r, q2)) => self.rest(
                                q2,
                                Expr::Binary(BinaryOp::Mul, Box::new(lhs), Box::new(r)),
                                false,
                                min,
                            ),
                        }
                    }
                } else {
                    Err(ParseError { kind: ParseErrorKind::UnexpectedToken, pos: Some(self.toks[q].0) })
                }
            },
        }
    }
}

/// Whether no two of `ps` read the same.
fn distinct(src: &Vec<char>, ps: &Vec<Ident>) -> (r: bool)
    ensures
        r == distinct_names(src@, ps@),
{
    let mut i: usize = 0;
    while i < ps.len()
        invariant
            i <= ps.len(),
            forall|a: int, b: int| 0 <= a < b < ps.len() && a < i ==> name_of(src@, #[trigger] ps@[a]) != name_of(
                src@,
                #[trigger] ps@[b],
            ),
        decreases ps.len() - i,
    {
        let mut j: usize = i + 1;
        while j < ps.len()
            invariant
                i < ps.len(),
                i + 1 <= j <= ps.len(),
                forall|a: int, b: int| 0 <= a < b < ps.len() && a < i ==> name_of(src@, #[trigger] ps@[a]) != name_of(
                    src@,
                    #[trigger] ps@[b],
                ),
                forall|b: int| i < b < j ==> name_of(src@, ps@[i as int]) != name_of(src@, #[trigger] ps@[b]),
            decreases ps.len() - j,
        {
            if same_name(src, ps[i], ps[j]) {
                return false;
            }
            j = j + 1;
        }
        i = i + 1;
    }
    true
}

/// The definition that `lhs = rhs` makes, if its left side has a valid shape.
#[verifier::loop_isolation(false)]
fn make_defn(src: &Vec<char>, lhs: Expr, rhs: Expr) -> (r: Option<Defn>)
    ensures
        match r {
            Some(d) => defn_of(src@, lhs@, rhs@) == Some(d@),
            None => defn_of(src@, lhs@, rhs@) is None,
        },
{
    let ghost lv = lhs@;
    match lhs {
        Expr::Name(id) => Some(Defn::Const { name: id, body: rhs }),
        Expr::FnCall(id, args, k) => {
            proof {
                lemma_call_view(id, &args, k);
            }
            if k != 0 {
                return None;
            }
            let mut params: Vec<Ident> = Vec::new();
            let mut i: usize = 0;
            while i < args.len()
                invariant
                    lv == ExprV::FnCall(id, views(args@), 0nat),
                    i <= args.len(),
                    params@.len() == i,
                    forall|j: int| 0 <= j < i ==> (#[trigger] views(args@)[j]) is Name
                        && params@[j] == views(args@)[j]->Name_0,
                decreases args.len() - i,
            {
                match &args[i] {
                    Expr::Name(n) => {
                        params.push(*n);
                    },
                    _ => {
                        assert(!(views(args@)[i as int] is Name));
                        return None;
                    },
                }
                i = i + 1;
            }
            assert(params@ =~= Seq::new(views(args@).len(), |j: int| views(args@)[j]->Name_0));
            if !distinct(src, &params) {
                return None;
            }
            Some(Defn::Func { name: id, params, body: rhs })
        },
        _ => None,
    }
}

} // verus!
