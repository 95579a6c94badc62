//! Constant folding: subexpressions built from literals and evaluable
//! builtins are replaced by their exact value.
//!
//! Literals are exact rationals, so folding computes exactly what the
//! target's routines compute on them. Operations whose results are not
//! rational in general (powers, roots, exponentials, logarithms, the
//! trigonometric functions, `abs`, `arg`, `gamma`) and the constants `e` and
//! `tau` are left to the target, as is any result that does not fit in 64
//! bits. Parameters are never folded, even where they share a builtin's name.
use vstd::prelude::*;

use crate::ast::{lemma_call_view, views, BinaryOp, Defn, DefnV, Expr, ExprV, UnaryOp};
use crate::builtins::{
    apply_builtin, builtin_of, complex_i, eval_builtin, lookup_builtin, name_of, same_name, Eval,
    Type,
};
use crate::number::{
    checked_add, checked_div, checked_mul, checked_neg, checked_recip, checked_sub, cq_abs_sq,
    cq_add, cq_conj, cq_div, cq_im, cq_mul, cq_neg, cq_re, cq_recip, cq_sub, lemma_checked_exact,
    q_abs_sq, Complex, Cq,
};
use crate::parser::defn_views;
use crate::scanner::Ident;

verus! {

/// Whether `id` reads as one of the parameters `ps`.
pub open spec fn is_param(src: Seq<char>, ps: Seq<Ident>, id: Ident) -> bool {
    exists|j: int| 0 <= j < ps.len() && name_of(src, #[trigger] ps[j]) == name_of(src, id)
}

pub open spec fn unary_fold(op: UnaryOp, z: Complex) -> Option<Complex> {
    match op {
        UnaryOp::Pos => Some(z),
        UnaryOp::Neg => checked_neg(z),
        UnaryOp::Recip => checked_recip(z),
    }
}

/// `^` is never folded: the target computes powers through logarithms.
pub open spec fn binary_fold(op: BinaryOp, z: Complex, w: Complex) -> Option<Complex> {
    match op {
        BinaryOp::Add => checked_add(z, w),
        BinaryOp::Sub => checked_sub(z, w),
        BinaryOp::Mul => checked_mul(z, w),
        BinaryOp::Div => checked_div(z, w),
        BinaryOp::Pow => None,
    }
}

/// The literal values of `args`, where all of them are literals.
pub open spec fn literals(args: Seq<ExprV>) -> Option<Seq<Complex>> {
    if forall|j: int| 0 <= j < args.len() ==> (#[trigger] args[j]) is Number {
        Some(Seq::new(args.len(), |j: int| args[j]->Number_0))
    } else {
        None
    }
}

/// A call on already folded arguments, replaced by its value where the
/// callee is an evaluable builtin of that arity and every argument is a literal.
pub open spec fn fold_call(src: Seq<char>, ps: Seq<Ident>, id: Ident, args: Seq<ExprV>, k: nat) -> ExprV {
    let unfolded = ExprV::FnCall(id, args, k);
    if k == 0 && !is_param(src, ps, id) {
        match builtin_of(name_of(src, id)) {
            Some((_, Type::Function(n), ev)) => if n == args.len() {
                match literals(args) {
                    Some(vs) => match apply_builtin(ev, vs) {
                        Some(w) => ExprV::Number(w),
                        None => unfolded,
                    },
                    None => unfolded,
                }
            } else {
                unfolded
            },
            _ => unfolded,
        }
    } else {
        unfolded
    }
}

/// The folded form of `e` inside a function with parameters `ps`.
pub open spec fn fold_expr(src: Seq<char>, ps: Seq<Ident>, e: ExprV) -> ExprV
    decreases e,
{
    match e {
        ExprV::Number(_) => e,
        ExprV::NameDeriv(_, _) => e,
        ExprV::Name(id) => if is_param(src, ps, id) {
            e
        } else {
            match builtin_of(name_of(src, id)) {
                Some((_, Type::Number, ev)) => match apply_builtin(ev, seq![]) {
                    Some(w) => ExprV::Number(w),
                    None => e,
                },
                _ => e,
            }
        },
        ExprV::Unary(op, a) => {
            let fa = fold_expr(src, ps, *a);
            match fa {
                ExprV::Number(z) => match unary_fold(op, z) {
                    Some(w) => ExprV::Number(w),
                    None => ExprV::Unary(op, Box::new(fa)),
                },
                _ => ExprV::Unary(op, Box::new(fa)),
            }
        },
        ExprV::Binary(op, a, b) => {
            let fa = fold_expr(src, ps, *a);
            let fb = fold_expr(src, ps, *b);
            match (fa, fb) {
                (ExprV::Number(z), ExprV::Number(w)) => match binary_fold(op, z, w) {
                    Some(v) => ExprV::Number(v),
                    None => ExprV::Binary(op, Box::new(fa), Box::new(fb)),
                },
                _ => ExprV::Binary(op, Box::new(fa), Box::new(fb)),
            }
        },
        ExprV::FnCall(id, args, k) => fold_call(src, ps, id, fold_args(src, ps, args), k),
    }
}

/// Each of `args`, folded.
pub open spec fn fold_args(src: Seq<char>, ps: Seq<Ident>, args: Seq<ExprV>) -> Seq<ExprV>
    decreases args,
{
    Seq::new(args.len(), |j: int| if 0 <= j < args.len() { fold_expr(src, ps, args[j]) } else { args[j] })
}

pub open spec fn fold_defn(src: Seq<char>, d: DefnV) -> DefnV {
    match d {
        DefnV::Const { name, body } => DefnV::Const { name, body: fold_expr(src, seq![], body) },
        DefnV::Func { name, params, body } => DefnV::Func { name, params, body: fold_expr(src, params, body) },
    }
}

/// The exact value of `op` applied to the value `v`, where it is defined.
pub open spec fn unary_value(op: UnaryOp, v: Cq) -> Option<Cq> {
    match op {
        UnaryOp::Pos => Some(v),
        UnaryOp::Neg => Some(cq_neg(v)),
        UnaryOp::Recip => if q_abs_sq(v).0 != 0 { Some(cq_recip(v)) } else { None },
    }
}

/// The exact value of `op` applied to `v` and `w`, where it is defined;
/// a power has no exact value.
pub open spec fn binary_value(op: BinaryOp, v: Cq, w: Cq) -> Option<Cq> {
    match op {
        BinaryOp::Add => Some(cq_add(v, w)),
        BinaryOp::Sub => Some(cq_sub(v, w)),
        BinaryOp::Mul => Some(cq_mul(v, w)),
        BinaryOp::Div => if q_abs_sq(w).0 != 0 { Some(cq_div(v, w)) } else { None },
        BinaryOp::Pow => None,
    }
}

/// The exact value of an evaluable builtin on the values `vs`.
pub open spec fn builtin_value(ev: Eval, vs: Seq<Cq>) -> Option<Cq> {
    match ev {
        Eval::ConstI => if vs.len() == 0 { Some(complex_i()@) } else { None },
        Eval::Pos => if vs.len() == 1 { Some(vs[0]) } else { None },
        Eval::Neg => if vs.len() == 1 { Some(cq_neg(vs[0])) } else { None },
        Eval::Recip => if vs.len() == 1 && q_abs_sq(vs[0]).0 != 0 { Some(cq_recip(vs[0])) } else { None },
        Eval::Conj => if vs.len() == 1 { Some(cq_conj(vs[0])) } else { None },
        Eval::Re => if vs.len() == 1 { Some(cq_re(vs[0])) } else { None },
        Eval::Im => if vs.len() == 1 { Some(cq_im(vs[0])) } else { None },
        Eval::AbsSq => if vs.len() == 1 { Some(cq_abs_sq(vs[0])) } else { None },
        Eval::Add => if vs.len() == 2 { Some(cq_add(vs[0], vs[1])) } else { None },
        Eval::Sub => if vs.len() == 2 { Some(cq_sub(vs[0], vs[1])) } else { None },
        Eval::Mul => if vs.len() == 2 { Some(cq_mul(vs[0], vs[1])) } else { None },
        Eval::Div => if vs.len() == 2 && q_abs_sq(vs[1]).0 != 0 { Some(cq_div(vs[0], vs[1])) } else { None },
        Eval::Opaque => None,
    }
}

/// All of `os`, where none is missing.
pub open spec fn all_values(os: Seq<Option<Cq>>) -> Option<Seq<Cq>> {
    if forall|j: int| 0 <= j < os.len() ==> (#[trigger] os[j]) is Some {
        Some(Seq::new(os.len(), |j: int| os[j]->Some_0))
    } else {
        None
    }
}

/// The exact value that the target computes for `e` from literals and
/// evaluable builtins alone, inside a function with parameters `ps`;
/// `None` where `e` depends on anything else or divides by zero.
pub open spec fn value_of(src: Seq<char>, ps: Seq<Ident>, e: ExprV) -> Option<Cq>
    decreases e,
{
    match e {
        ExprV::Number(z) => Some(z@),
        ExprV::NameDeriv(_, _) => None,
        ExprV::Name(id) => if is_param(src, ps, id) {
            None
        } else {
            match builtin_of(name_of(src, id)) {
                Some((_, Type::Number, ev)) => builtin_value(ev, seq![]),
                _ => None,
            }
        },
        ExprV::Unary(op, a) => match value_of(src, ps, *a) {
            Some(v) => unary_value(op, v),
            None => None,
        },
        ExprV::Binary(op, a, b) => match (value_of(src, ps, *a), value_of(src, ps, *b)) {
            (Some(v), Some(w)) => binary_value(op, v, w),
            _ => None,
        },
        ExprV::FnCall(id, args, k) => if k == 0 && !is_param(src, ps, id) {
            match builtin_of(name_of(src, id)) {
                Some((_, Type::Function(n), ev)) => if n == args.len() {
                    match all_values(values_of(src, ps, args)) {
                        Some(vs) => builtin_value(ev, vs),
                        None => None,
                    }
                } else {
                    None
                },
                _ => None,
            }
        } else {
            None
        },
    }
}

pub open spec fn values_of(src: Seq<char>, ps: Seq<Ident>, args: Seq<ExprV>) -> Seq<Option<Cq>>
    decreases args,
{
    Seq::new(args.len(), |j: int| if 0 <= j < args.len() { value_of(src, ps, args[j]) } else { None })
}

proof fn lemma_apply_exact(ev: Eval, vs: Seq<Complex>)
    ensures
        apply_builtin(ev, vs) matches Some(w) ==> builtin_value(ev, Seq::new(vs.len(), |j: int| vs[j]@))
            == Some(w@),
{
    if vs.len() >= 2 {
        lemma_checked_exact(vs[0], vs[1]);
    } else if vs.len() == 1 {
        lemma_checked_exact(vs[0], vs[0]);
    }
}

/// Folding keeps every value: the folded expression has exactly the value
/// that evaluating the unfolded one gives, literal by literal and builtin
/// by builtin.
pub proof fn lemma_fold_keeps_value(src: Seq<char>, ps: Seq<Ident>, e: ExprV)
    ensures
        value_of(src, ps, fold_expr(src, ps, e)) == value_of(src, ps, e),
    decreases e,
{
    match e {
        ExprV::Unary(op, a) => {
            lemma_fold_keeps_value(src, ps, *a);
            if let ExprV::Number(z) = fold_expr(src, ps, *a) {
                lemma_checked_exact(z, z);
            }
        },
        ExprV::Binary(op, a, b) => {
            lemma_fold_keeps_value(src, ps, *a);
            lemma_fold_keeps_value(src, ps, *b);
            if let (ExprV::Number(z), ExprV::Number(w)) = (fold_expr(src, ps, *a), fold_expr(src, ps, *b)) {
                lemma_checked_exact(z, w);
            }
        },
        ExprV::Name(id) => {
            let none = Seq::<Complex>::empty();
            lemma_apply_exact(Eval::ConstI, none);
            assert(Seq::new(none.len(), |j: int| none[j]@) =~= Seq::<Cq>::empty());
        },
        ExprV::FnCall(id, args, k) => {
            let fargs = fold_args(src, ps, args);
            assert forall|j: int| 0 <= j < args.len() implies #[trigger] value_of(src, ps, fargs[j]) == value_of(
                src,
                ps,
                args[j],
            ) by {
                lemma_fold_keeps_value(src, ps, args[j]);
            }
            assert(fargs.len() == args.len());
            assert forall|j: int| 0 <= j < args.len() implies #[trigger] values_of(src, ps, fargs)[j]
                == values_of(src, ps, args)[j] by {
                assert(value_of(src, ps, fargs[j]) == value_of(src, ps, args[j]));
            }
            assert(values_of(src, ps, fargs) =~= values_of(src, ps, args));
            if let Some(vs) = literals(fargs) {
                lemma_apply_exact(builtin_of(name_of(src, id))->Some_0.2, vs);
                assert forall|j: int| 0 <= j < fargs.len() implies #[trigger] values_of(src, ps, fargs)[j] == Some(vs[j]@) by {
                    assert(fargs[j] is Number);
                }
                if let Some(xs) = all_values(values_of(src, ps, fargs)) {
                    assert(xs =~= Seq::new(vs.len(), |j: int| vs[j]@));
                }
            }
        },
        _ => {},
    }
}

/// Folding is idempotent: folding an already folded expression changes nothing.
#[verifier::rlimit(60)]
pub proof fn lemma_fold_idempotent(src: Seq<char>, ps: Seq<Ident>, e: ExprV)
    ensures
        fold_expr(src, ps, fold_expr(src, ps, e)) == fold_expr(src, ps, e),
    decreases e,
{
    match e {
        ExprV::Unary(op, a) => {
            lemma_fold_idempotent(src, ps, *a);
            lemma_refold_unary(src, ps, op, fold_expr(src, ps, *a));
        },
        ExprV::Binary(op, a, b) => {
            lemma_fold_idempotent(src, ps, *a);
            lemma_fold_idempotent(src, ps, *b);
            lemma_refold_binary(src, ps, op, fold_expr(src, ps, *a), fold_expr(src, ps, *b));
        },
        ExprV::FnCall(id, args, k) => {
            let fargs = fold_args(src, ps, args);
            assert forall|j: int| 0 <= j < args.len() implies #[trigger] fold_expr(src, ps, fargs[j]) == fargs[j] by {
                lemma_fold_idempotent(src, ps, args[j]);
            }
            assert(fargs.len() == args.len());
            assert forall|j: int| 0 <= j < fargs.len() implies #[trigger] fold_args(src, ps, fargs)[j] == fargs[j] by {
                assert(fold_expr(src, ps, fargs[j]) == fargs[j]);
            }
            assert(fold_args(src, ps, fargs) =~= fargs);
            lemma_refold_call(src, ps, id, fargs, k);
        },
        _ => {},
    }
}

/// Folding a program twice is folding it once.
pub proof fn lemma_fold_defn_idempotent(src: Seq<char>, d: DefnV)
    ensures
        fold_defn(src, fold_defn(src, d)) == fold_defn(src, d),
{
    match d {
        DefnV::Const { body, .. } => lemma_fold_idempotent(src, seq![], body),
        DefnV::Func { params, body, .. } => lemma_fold_idempotent(src, params, body),
    }
}

proof fn lemma_refold_unary(src: Seq<char>, ps: Seq<Ident>, op: UnaryOp, fa: ExprV)
    requires
        fold_expr(src, ps, fa) == fa,
    ensures
        ({
            let r = match fa {
                ExprV::Number(z) => match unary_fold(op, z) {
                    Some(w) => ExprV::Number(w),
                    None => ExprV::Unary(op, Box::new(fa)),
                },
                _ => ExprV::Unary(op, Box::new(fa)),
            };
            fold_expr(src, ps, r) == r
        }),
{
}

proof fn lemma_refold_binary(src: Seq<char>, ps: Seq<Ident>, op: BinaryOp, fa: ExprV, fb: ExprV)
    requires
        fold_expr(src, ps, fa) == fa,
        fold_expr(src, ps, fb) == fb,
    ensures
        ({
            let r = match (fa, fb) {
                (ExprV::Number(z), ExprV::Number(w)) => match binary_fold(op, z, w) {
                    Some(v) => ExprV::Number(v),
                    None => ExprV::Binary(op, Box::new(fa), Box::new(fb)),
                },
                _ => ExprV::Binary(op, Box::new(fa), Box::new(fb)),
            };
            fold_expr(src, ps, r) == r
        }),
{
}

proof fn lemma_refold_call(src: Seq<char>, ps: Seq<Ident>, id: Ident, fargs: Seq<ExprV>, k: nat)
    requires
        fold_args(src, ps, fargs) == fargs,
    ensures
        fold_expr(src, ps, fold_call(src, ps, id, fargs, k)) == fold_call(src, ps, id, fargs, k),
{
}

fn is_param_exec(src: &Vec<char>, ps: &Vec<Ident>, id: Ident) -> (r: bool)
    ensures
        r == is_param(src@, ps@, id),
{
    let mut j: usize = 0;
    while j < ps.len()
        invariant
            j <= ps.len(),
            forall|k: int| 0 <= k < j ==> name_of(src@, #[trigger] ps@[k]) != name_of(src@, id),
        decreases ps.len() - j,
    {
        if same_name(src, ps[j], id) {
            return true;
        }
        j = j + 1;
    }
    false
}

fn unary_fold_exec(op: UnaryOp, z: Complex) -> (r: Option<Complex>)
    ensures
        r == unary_fold(op, z),
{
    match op {
        UnaryOp::Pos => Some(z),
        UnaryOp::Neg => z.checked_neg(),
        UnaryOp::Recip => z.checked_recip(),
    }
}

fn binary_fold_exec(op: BinaryOp, z: Complex, w: Complex) -> (r: Option<Complex>)
    ensures
        r == binary_fold(op, z, w),
{
    match op {
        BinaryOp::Add => z.checked_add(w),
        BinaryOp::Sub => z.checked_sub(w),
        BinaryOp::Mul => z.checked_mul(w),
        BinaryOp::Div => z.checked_div(w),
        BinaryOp::Pow => None,
    }
}

/// Folds the constant subexpressions of `e`, inside a function with parameters `ps`.
pub fn optimize_expr(src: &Vec<char>, ps: &Vec<Ident>, e: &Expr) -> (r: Expr)
    ensures
        r@ == fold_expr(src@, ps@, e@),
    decreases e,
{
    match e {
        Expr::Number(z) => Expr::Number(*z),
        Expr::NameDeriv(id, k) => Expr::NameDeriv(*id, *k),
        Expr::Name(id) => {
            if is_param_exec(src, ps, *id) {
                return Expr::Name(*id);
            }
            match lookup_builtin(src, *id) {
                Some(b) => match b.ty {
                    Type::Number => {
                        let none: Vec<Complex> = Vec::new();
                        assert(none@ =~= seq![]);
                        match eval_builtin(b.eval, &none) {
                            Some(w) => Expr::Number(w),
                            None => Expr::Name(*id),
                        }
                    },
                    _ => Expr::Name(*id),
                },
                None => Expr::Name(*id),
            }
        },
        Expr::Unary(op, a) => {
            let fa = optimize_expr(src, ps, a);
            match fa {
                Expr::Number(z) => match unary_fold_exec(*op, z) {
                    Some(w) => Expr::Number(w),
                    None => Expr::Unary(*op, Box::new(Expr::Number(z))),
                },
                _ => Expr::Unary(*op, Box::new(fa)),
            }
        },
        Expr::Binary(op, a, b) => {
            let fa = optimize_expr(src, ps, a);
            let fb = optimize_expr(src, ps, b);
            let lits = match (&fa, &fb) {
                (Expr::Number(z), Expr::Number(w)) => Some((*z, *w)),
                _ => None,
            };
            match lits {
                Some((z, w)) => match binary_fold_exec(*op, z, w) {
                    Some(v) => Expr::Number(v),
                    None => Expr::Binary(*op, Box::new(fa), Box::new(fb)),
                },
                None => Expr::Binary(*op, Box::new(fa), Box::new(fb)),
            }
        },
        Expr::FnCall(id, args, k) => {
            let fargs = optimize_args(src, ps, args);
            assert(views(fargs@) =~= fold_args(src@, ps@, views(args@)));
            proof {
                lemma_call_view(*id, args, *k);
            }
            fold_call_exec(src, ps, *id, fargs, *k)
        },
    }
}

fn optimize_args(src: &Vec<char>, ps: &Vec<Ident>, args: &Vec<Expr>) -> (r: Vec<Expr>)
    ensures
        r@.len() == args@.len(),
        forall|i: int| 0 <= i < args@.len() ==> (#[trigger] r@[i])@ == fold_expr(src@, ps@, args@[i]@),
    decreases args,
{
    let mut fargs: Vec<Expr> = Vec::new();
    let mut j: usize = 0;
    while j < args.len()
        invariant
            j <= args.len(),
            fargs@.len() == j,
            forall|i: int| 0 <= i < j ==> (#[trigger] fargs@[i])@ == fold_expr(src@, ps@, args@[i]@),
        decreases args.len() - j,
    {
        proof {
            vstd::std_specs::vec::axiom_vec_index_decreases(*args, j as int);
        }
        let fa = optimize_expr(src, ps, &args[j]);
        fargs.push(fa);
        j = j + 1;
    }
    fargs
}

/// A call on folded arguments, replaced by its value where [`fold_call`] says so.
#[verifier::loop_isolation(false)]
fn fold_call_exec(src: &Vec<char>, ps: &Vec<Ident>, id: Ident, args: Vec<Expr>, k: usize) -> (r: Expr)
    ensures
        r@ == fold_call(src@, ps@, id, views(args@), k as nat),
{
    proof {
        lemma_call_view(id, &args, k);
    }
    if k != 0 || is_param_exec(src, ps, id) {
        return Expr::FnCall(id, args, k);
    }
    let b = match lookup_builtin(src, id) {
        Some(b) => b,
        None => { return Expr::FnCall(id, args, k); },
    };
    let n = match b.ty {
        Type::Function(n) => n,
        Type::Number => { return Expr::FnCall(id, args, k); },
    };
    if n != args.len() {
        return Expr::FnCall(id, args, k);
    }
    let mut vals: Vec<Complex> = Vec::new();
    let mut j: usize = 0;
    while j < args.len()
        invariant
            j <= args.len(),
            vals@.len() == j,
            forall|i: int| 0 <= i < j ==> (#[trigger] views(args@)[i]) is Number
                && vals@[i] == views(args@)[i]->Number_0,
        decreases args.len() - j,
    {
        match &args[j] {
            Expr::Number(z) => { vals.push(*z); },
            _ => {
                assert(!(views(args@)[j as int] is Number));
                assert(literals(views(args@)) is None);
                return Expr::FnCall(id, args, k);
            },
        }
        j = j + 1;
    }
    assert(vals@ =~= Seq::new(views(args@).len(), |i: int| views(args@)[i]->Number_0));
    match eval_builtin(b.eval, &vals) {
        Some(w) => Expr::Number(w),
        None => Expr::FnCall(id, args, k),
    }
}

/// Folds every definition; a function's parameters are never folded.
pub fn optimize(src: &Vec<char>, defs: &Vec<Defn>) -> (r: Vec<Defn>)
    ensures
        defn_views(r@) == Seq::new(defs@.len(), |i: int| fold_defn(src@, defs@[i]@)),
{
    let mut out: Vec<Defn> = Vec::new();
    let mut i: usize = 0;
    while i < defs.len()
        invariant
            i <= defs.len(),
            out@.len() == i,
            forall|j: int| 0 <= j < i ==> (#[trigger] out@[j])@ == fold_defn(src@, defs@[j]@),
        decreases defs.len() - i,
    {
        let d = match &defs[i] {
            Defn::Const { name, body } => {
                let none: Vec<Ident> = Vec::new();
                assert(none@ =~= seq![]);
                Defn::Const { name: *name, body: optimize_expr(src, &none, body) }
            },
            Defn::Func { name, params, body } => {
                let ps = params.clone();
                Defn::Func { name: *name, params: ps, body: optimize_expr(src, params, body) }
            },
        };
        out.push(d);
        i = i + 1;
    }
    assert(defn_views(out@) =~= Seq::new(defs@.len(), |i: int| fold_defn(src@, defs@[i]@)));
    out
}

} // verus!
