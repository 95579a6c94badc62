use cxgraph::ast::{BinaryOp, Defn, Expr, UnaryOp};
use cxgraph::parser::{ParseErrorKind, Parser};
use cxgraph::scanner::{tokenize, Ident, Scanner, Token};
use cxgraph::number::Ratio;
use cxgraph::Position;

fn name(src: &str, id: Ident) -> String {
    src.chars().skip(id.start).take(id.end - id.start).collect()
}

fn shape(src: &str, e: &Expr) -> String {
    match e {
        Expr::Number(z) => format!("{}/{}+{}/{}i", z.re.num, z.re.den, z.im.num, z.im.den),
        Expr::Name(id) => name(src, *id),
        Expr::NameDeriv(id, k) => format!("{}'{}", name(src, *id), k),
        Expr::Unary(op, a) => format!("{:?}({})", op, shape(src, a)),
        Expr::Binary(op, a, b) => format!("{:?}({},{})", op, shape(src, a), shape(src, b)),
        Expr::FnCall(id, args, k) => {
            let inner: Vec<String> = args.iter().map(|a| shape(src, a)).collect();
            format!("call[{}'{}]({})", name(src, *id), k, inner.join(","))
        }
    }
}

fn body_shape(src: &str) -> String {
    let defs = Parser::new(src).parse().expect("parses");
    match &defs[0] {
        Defn::Const { body, .. } => shape(src, body),
        Defn::Func { body, .. } => shape(src, body),
    }
}

fn parse_error(src: &str) -> (ParseErrorKind, Option<Position>) {
    let e = Parser::new(src).parse().expect_err("fails");
    (e.kind, e.pos)
}

#[test]
fn scanner_tokens_and_positions() {
    let mut sc = Scanner::new("f(z) = 2.5z\n x");
    let (p, t) = sc.next_token().unwrap();
    assert_eq!(t, Token::Name(Ident { start: 0, end: 1 }));
    assert_eq!(p, Position { pos: 0, line: 1, col: 1 });
    assert_eq!(sc.next_token().unwrap().1, Token::LParen);
    assert_eq!(sc.next_token().unwrap().1, Token::Name(Ident { start: 2, end: 3 }));
    assert_eq!(sc.next_token().unwrap().1, Token::RParen);
    assert_eq!(sc.next_token().unwrap().1, Token::Equal);
    let (p, t) = sc.next_token().unwrap();
    assert_eq!(t, Token::Number(Ratio { num: 25, den: 10 }));
    assert_eq!(p, Position { pos: 7, line: 1, col: 8 });
    assert_eq!(sc.next_token().unwrap().1, Token::Name(Ident { start: 10, end: 11 }));
    assert_eq!(sc.next_token().unwrap().1, Token::Newline);
    let (p, t) = sc.next_token().unwrap();
    assert_eq!(t, Token::Name(Ident { start: 13, end: 14 }));
    assert_eq!(p, Position { pos: 13, line: 2, col: 2 });
    assert!(sc.next_token().is_none());
}

#[test]
fn scanner_errors_and_marks() {
    let toks: Vec<Token> = tokenize("a_1' # 123456789012345678901234 7.").into_iter().map(|(_, t)| t).collect();
    assert_eq!(
        toks,
        vec![
            Token::Name(Ident { start: 0, end: 3 }),
            Token::Prime,
            Token::Error,
            Token::Error,
            Token::Number(Ratio { num: 7, den: 1 }),
        ]
    );
}

#[test]
fn implicit_product_matches_explicit() {
    assert_eq!(body_shape("p = 2z"), body_shape("p = 2*z"));
    assert_eq!(body_shape("p = (a)(b)"), body_shape("p = (a)*(b)"));
    assert_eq!(body_shape("p = (a)(b)"), "Mul(a,b)");
    assert_eq!(body_shape("p = 2 x y"), "Mul(Mul(2/1+0/1i,x),y)");
}

#[test]
fn power_is_right_associative_and_difference_left() {
    assert_eq!(body_shape("p = 2^3^2"), "Pow(2/1+0/1i,Pow(3/1+0/1i,2/1+0/1i))");
    assert_eq!(body_shape("p = 2-3-4"), "Sub(Sub(2/1+0/1i,3/1+0/1i),4/1+0/1i)");
    assert_eq!(body_shape("p = 1+2*3"), "Add(1/1+0/1i,Mul(2/1+0/1i,3/1+0/1i))");
    assert_eq!(body_shape("p = -2^2"), "Pow(Neg(2/1+0/1i),2/1+0/1i)");
    assert_eq!(body_shape("p = /z"), "Recip(z)");
}

#[test]
fn derivative_marks_and_calls() {
    assert_eq!(body_shape("p(z) = f''(z)"), "call[f'2](z)");
    assert_eq!(body_shape("p(z) = f'(z, a)"), "call[f'1](z,a)");
    assert_eq!(body_shape("p(z) = 3 f(z)"), "Mul(3/1+0/1i,call[f'0](z))");
    assert_eq!(body_shape("p = g()"), "call[g'0]()");
}

#[test]
fn definitions_by_shape() {
    let src = "\n\na = 1\nf(x, y) = x y\n";
    let defs = Parser::new(src).parse().unwrap();
    assert_eq!(defs.len(), 2);
    match &defs[0] {
        Defn::Const { name: n, .. } => assert_eq!(name(src, *n), "a"),
        _ => panic!("expected a constant"),
    }
    match &defs[1] {
        Defn::Func { name: n, params, .. } => {
            assert_eq!(name(src, *n), "f");
            let ps: Vec<String> = params.iter().map(|p| name(src, *p)).collect();
            assert_eq!(ps, vec!["x", "y"]);
        }
        _ => panic!("expected a function"),
    }
}

#[test]
fn parse_errors() {
    assert_eq!(parse_error("f(x,) = x").0, ParseErrorKind::TrailingComma);
    assert_eq!(parse_error("p = \u{28}1 + 2"), (ParseErrorKind::UnexpectedEof, None));
    assert_eq!(
        parse_error("p = \u{28}1 + 2 = 3"),
        (ParseErrorKind::UnexpectedToken, Some(Position { pos: 11, line: 1, col: 12 }))
    );
    assert_eq!(parse_error("f(2) = 1").0, ParseErrorKind::InvalidLValue);
    assert_eq!(parse_error("f'(x) = 1").0, ParseErrorKind::InvalidLValue);
    assert_eq!(parse_error("f(x, y, x) = 1").0, ParseErrorKind::InvalidLValue);
    assert_eq!(parse_error("p = (f)'(z)").0, ParseErrorKind::InvalidFunction);
    assert_eq!(parse_error("p = 2'").0, ParseErrorKind::InvalidFunction);
    assert_eq!(parse_error("p = 1 q = 2").0, ParseErrorKind::UnexpectedToken);
    assert_eq!(parse_error("p").0, ParseErrorKind::UnexpectedEof);
    assert_eq!(parse_error("p = #").0, ParseErrorKind::UnexpectedToken);
    let e = Parser::new("p = )").parse().unwrap_err();
    assert_eq!(e.message(), "unexpected token");
}

#[test]
fn operator_tables() {
    assert_eq!(BinaryOp::Add.precedence(), (10, 11));
    assert_eq!(BinaryOp::Div.precedence(), (20, 21));
    assert_eq!(BinaryOp::Pow.precedence(), (31, 30));
    assert_eq!(UnaryOp::Neg.precedence(), 40);
    assert_eq!(BinaryOp::from_token(Token::Caret), Some(BinaryOp::Pow));
    assert_eq!(UnaryOp::from_token(Token::Slash), Some(UnaryOp::Recip));
    assert_eq!(UnaryOp::from_token(Token::Star), None);
}
