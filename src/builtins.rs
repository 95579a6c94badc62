//! The builtin catalog: named constants and functions of the target's prelude.
use vstd::prelude::*;

use crate::number::{
    checked_abs_sq, checked_add, checked_conj, checked_div, checked_mul, checked_neg,
    checked_recip, checked_sub, zero_ratio, Complex, Ratio,
};
use crate::scanner::Ident;

verus! {

/// The type of a name: a number, or a function of so many arguments.
#[derive(Clone, Copy, Debug, PartialEq, Eq, Structural)]
pub enum Type {
    Number,
    Function(usize),
}

/// How the optimizer may evaluate a builtin on literal arguments.
#[derive(Clone, Copy, Debug, PartialEq, Eq, Structural)]
pub enum Eval {
    /// Not evaluated at compile time: its value is left to the target.
    Opaque,
    ConstI,
    Pos,
    Neg,
    Recip,
    Conj,
    Re,
    Im,
    AbsSq,
    Add,
    Sub,
    Mul,
    Div,
}

#[derive(Clone, Copy, Debug)]
pub struct Builtin {
    /// The target routine or constant that implements it.
    pub symbol: &'static str,
    pub ty: Type,
    pub eval: Eval,
}

/// The characters of the name `id`; an out-of-range span reads as empty.
pub open spec fn name_of(src: Seq<char>, id: Ident) -> Seq<char> {
    if id.start <= id.end <= src.len() {
        src.subrange(id.start as int, id.end as int)
    } else {
        seq![]
    }
}

pub open spec fn entry(symbol: &'static str, ty: Type, eval: Eval) -> Option<(Seq<char>, Type, Eval)> {
    Some((symbol@, ty, eval))
}

/// The catalog: for a name, its target symbol, type and evaluator.
pub open spec fn builtin_of(n: Seq<char>) -> Option<(Seq<char>, Type, Eval)> {
    if n == "i"@ {
        entry("CONST_I", Type::Number, Eval::ConstI)
    } else if n == "e"@ {
        entry("CONST_E", Type::Number, Eval::Opaque)
    } else if n == "tau"@ {
        entry("CONST_TAU", Type::Number, Eval::Opaque)
    } else if n == "pos"@ {
        entry("c_pos", Type::Function(1), Eval::Pos)
    } else if n == "neg"@ {
        entry("c_neg", Type::Function(1), Eval::Neg)
    } else if n == "recip"@ {
        entry("c_recip", Type::Function(1), Eval::Recip)
    } else if n == "conj"@ {
        entry("c_conj", Type::Function(1), Eval::Conj)
    } else if n == "re"@ {
        entry("c_re", Type::Function(1), Eval::Re)
    } else if n == "im"@ {
        entry("c_im", Type::Function(1), Eval::Im)
    } else if n == "abs_sq"@ {
        entry("c_abs_sq", Type::Function(1), Eval::AbsSq)
    } else if n == "abs"@ {
        entry("c_abs", Type::Function(1), Eval::Opaque)
    } else if n == "arg"@ {
        entry("c_arg", Type::Function(1), Eval::Opaque)
    } else if n == "add"@ {
        entry("c_add", Type::Function(2), Eval::Add)
    } else if n == "sub"@ {
        entry("c_sub", Type::Function(2), Eval::Sub)
    } else if n == "mul"@ {
        entry("c_mul", Type::Function(2), Eval::Mul)
    } else if n == "div"@ {
        entry("c_div", Type::Function(2), Eval::Div)
    } else if n == "exp"@ {
        entry("c_exp", Type::Function(1), Eval::Opaque)
    } else if n == "log"@ {
        entry("c_log", Type::Function(1), Eval::Opaque)
    } else if n == "sqrt"@ {
        entry("c_sqrt", Type::Function(1), Eval::Opaque)
    } else if n == "sin"@ {
        entry("c_sin", Type::Function(1), Eval::Opaque)
    } else if n == "cos"@ {
        entry("c_cos", Type::Function(1), Eval::Opaque)
    } else if n == "tan"@ {
        entry("c_tan", Type::Function(1), Eval::Opaque)
    } else if n == "sinh"@ {
        entry("c_sinh", Type::Function(1), Eval::Opaque)
    } else if n == "cosh"@ {
        entry("c_cosh", Type::Function(1), Eval::Opaque)
    } else if n == "tanh"@ {
        entry("c_tanh", Type::Function(1), Eval::Opaque)
    } else if n == "gamma"@ {
        entry("c_gamma", Type::Function(1), Eval::Opaque)
    } else {
        None
    }
}

pub open spec fn builtin_view(b: Option<Builtin>) -> Option<(Seq<char>, Type, Eval)> {
    match b {
        Some(x) => Some((x.symbol@, x.ty, x.eval)),
        None => None,
    }
}

pub open spec fn complex_i() -> Complex {
    Complex { re: zero_ratio(), im: Ratio { num: 1, den: 1 } }
}

/// The value of an evaluable builtin on literal arguments, where it has
/// that many arguments and the exact result fits.
pub open spec fn apply_builtin(ev: Eval, a: Seq<Complex>) -> Option<Complex> {
    match ev {
        Eval::ConstI => if a.len() == 0 { Some(complex_i()) } else { None },
        Eval::Pos => if a.len() == 1 { Some(a[0]) } else { None },
        Eval::Neg => if a.len() == 1 { checked_neg(a[0]) } else { None },
        Eval::Recip => if a.len() == 1 { checked_recip(a[0]) } else { None },
        Eval::Conj => if a.len() == 1 { checked_conj(a[0]) } else { None },
        Eval::Re => if a.len() == 1 { Some(Complex { re: a[0].re, im: zero_ratio() }) } else { None },
        Eval::Im => if a.len() == 1 { Some(Complex { re: a[0].im, im: zero_ratio() }) } else { None },
        Eval::AbsSq => if a.len() == 1 { checked_abs_sq(a[0]) } else { None },
        Eval::Add => if a.len() == 2 { checked_add(a[0], a[1]) } else { None },
        Eval::Sub => if a.len() == 2 { checked_sub(a[0], a[1]) } else { None },
        Eval::Mul => if a.len() == 2 { checked_mul(a[0], a[1]) } else { None },
        Eval::Div => if a.len() == 2 { checked_div(a[0], a[1]) } else { None },
        Eval::Opaque => None,
    }
}

/// Whether the name `id` of `src` reads `lit`.
pub fn name_is(src: &Vec<char>, id: Ident, lit: &str) -> (r: bool)
    ensures
        r == (name_of(src@, id) == lit@),
{
    let n = lit.unicode_len();
    if !(id.start <= id.end && id.end <= src.len()) {
        assert(n == 0 ==> name_of(src@, id) =~= lit@);
        return n == 0;
    }
    if id.end - id.start != n {
        return false;
    }
    let mut j: usize = 0;
    while j < n
        invariant
            id.start <= id.end <= src.len(),
            id.end - id.start == n,
            n == lit@.len(),
            j <= n,
            forall|k: int| 0 <= k < j ==> src@[id.start + k] == lit@[k],
        decreases n - j,
    {
        if src[id.start + j] != lit.get_char(j) {
            assert(name_of(src@, id)[j as int] != lit@[j as int]);
            return false;
        }
        j = j + 1;
    }
    assert(name_of(src@, id) =~= lit@);
    true
}

/// Whether two names read the same.
pub fn same_name(src: &Vec<char>, a: Ident, b: Ident) -> (r: bool)
    ensures
        r == (name_of(src@, a) == name_of(src@, b)),
{
    let a_ok = a.start <= a.end && a.end <= src.len();
    let b_ok = b.start <= b.end && b.end <= src.len();
    let la: usize = if a_ok { a.end - a.start } else { 0 };
    let lb: usize = if b_ok { b.end - b.start } else { 0 };
    if la != lb {
        assert(name_of(src@, a).len() != name_of(src@, b).len());
        return false;
    }
    let mut j: usize = 0;
    while j < la
        invariant
            la == name_of(src@, a).len(),
            lb == name_of(src@, b).len(),
            la == lb,
            j <= la,
            a_ok ==> a.start <= a.end <= src.len(),
            b_ok ==> b.start <= b.end <= src.len(),
            la > 0 ==> a_ok && b_ok,
            forall|k: int| 0 <= k < j ==> name_of(src@, a)[k] == name_of(src@, b)[k],
        decreases la - j,
    {
        if src[a.start + j] != src[b.start + j] {
            assert(name_of(src@, a)[j as int] != name_of(src@, b)[j as int]);
            return false;
        }
        j = j + 1;
    }
    assert(name_of(src@, a) =~= name_of(src@, b));
    true
}

fn entry_exec(symbol: &'static str, ty: Type, eval: Eval) -> (r: Option<Builtin>)
    ensures
        builtin_view(r) == entry(symbol, ty, eval),
{
    Some(Builtin { symbol, ty, eval })
}

/// Looks a name up in the catalog.
pub fn lookup_builtin(src: &Vec<char>, id: Ident) -> (r: Option<Builtin>)
    ensures
        builtin_view(r) == builtin_of(name_of(src@, id)),
{
    if name_is(src, id, "i") {
        entry_exec("CONST_I", Type::Number, Eval::ConstI)
    } else if name_is(src, id, "e") {
        entry_exec("CONST_E", Type::Number, Eval::Opaque)
    } else if name_is(src, id, "tau") {
        entry_exec("CONST_TAU", Type::Number, Eval::Opaque)
    } else if name_is(src, id, "pos") {
        entry_exec("c_pos", Type::Function(1), Eval::Pos)
    } else if name_is(src, id, "neg") {
        entry_exec("c_neg", Type::Function(1), Eval::Neg)
    } else if name_is(src, id, "recip") {
        entry_exec("c_recip", Type::Function(1), Eval::Recip)
    } else if name_is(src, id, "conj") {
        entry_exec("c_conj", Type::Function(1), Eval::Conj)
    } else if name_is(src, id, "re") {
        entry_exec("c_re", Type::Function(1), Eval::Re)
    } else if name_is(src, id, "im") {
        entry_exec("c_im", Type::Function(1), Eval::Im)
    } else if name_is(src, id, "abs_sq") {
        entry_exec("c_abs_sq", Type::Function(1), Eval::AbsSq)
    } else if name_is(src, id, "abs") {
        entry_exec("c_abs", Type::Function(1), Eval::Opaque)
    } else if name_is(src, id, "arg") {
        entry_exec("c_arg", Type::Function(1), Eval::Opaque)
    } else if name_is(src, id, "add") {
        entry_exec("c_add", Type::Function(2), Eval::Add)
    } else if name_is(src, id, "sub") {
        entry_exec("c_sub", Type::Function(2), Eval::Sub)
    } else if name_is(src, id, "mul") {
        entry_exec("c_mul", Type::Function(2), Eval::Mul)
    } else if name_is(src, id, "div") {
        entry_exec("c_div", Type::Function(2), Eval::Div)
    } else if name_is(src, id, "exp") {
        entry_exec("c_exp", Type::Function(1), Eval::Opaque)
    } else if name_is(src, id, "log") {
        entry_exec("c_log", Type::Function(1), Eval::Opaque)
    } else if name_is(src, id, "sqrt") {
        entry_exec("c_sqrt", Type::Function(1), Eval::Opaque)
    } else if name_is(src, id, "sin") {
        entry_exec("c_sin", Type::Function(1), Eval::Opaque)
    } else if name_is(src, id, "cos") {
        entry_exec("c_cos", Type::Function(1), Eval::Opaque)
    } else if name_is(src, id, "tan") {
        entry_exec("c_tan", Type::Function(1), Eval::Opaque)
    } else if name_is(src, id, "sinh") {
        entry_exec("c_sinh", Type::Function(1), Eval::Opaque)
    } else if name_is(src, id, "cosh") {
        entry_exec("c_cosh", Type::Function(1), Eval::Opaque)
    } else if name_is(src, id, "tanh") {
        entry_exec("c_tanh", Type::Function(1), Eval::Opaque)
    } else if name_is(src, id, "gamma") {
        entry_exec("c_gamma", Type::Function(1), Eval::Opaque)
    } else {
        None
    }
}

/// Evaluates a builtin on literal arguments, where [`apply_builtin`] allows.
pub fn eval_builtin(ev: Eval, a: &Vec<Complex>) -> (r: Option<Complex>)
    ensures
        r == apply_builtin(ev, a@),
{
    match ev {
        Eval::ConstI => if a.len() == 0 {
            Some(Complex { re: Ratio { num: 0, den: 1 }, im: Ratio { num: 1, den: 1 } })
        } else {
            None
        },
        Eval::Pos => if a.len() == 1 { Some(a[0]) } else { None },
        Eval::Neg => if a.len() == 1 { a[0].checked_neg() } else { None },
        Eval::Recip => if a.len() == 1 { a[0].checked_recip() } else { None },
        Eval::Conj => if a.len() == 1 { a[0].checked_conj() } else { None },
        Eval::Re => if a.len() == 1 {
            Some(Complex { re: a[0].re, im: Ratio { num: 0, den: 1 } })
        } else {
            None
        },
        Eval::Im => if a.len() == 1 {
            Some(Complex { re: a[0].im, im: Ratio { num: 0, den: 1 } })
        } else {
            None
        },
        Eval::AbsSq => if a.len() == 1 { a[0].checked_abs_sq() } else { None },
        Eval::Add => if a.len() == 2 { a[0].checked_add(a[1]) } else { None },
        Eval::Sub => if a.len() == 2 { a[0].checked_sub(a[1]) } else { None },
        Eval::Mul => if a.len() == 2 { a[0].checked_mul(a[1]) } else { None },
        Eval::Div => if a.len() == 2 { a[0].checked_div(a[1]) } else { None },
        Eval::Opaque => None,
    }
}

} // verus!
