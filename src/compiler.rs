//! The code generator: definitions to target routines, with the helper
//! routines (function identifiers, dispatchers, iteration, derivatives)
//! generated on demand.
use vstd::prelude::*;

use crate::ast::{lemma_call_view, views, BinaryOp, Defn, DefnV, Expr, ExprV, UnaryOp};
use crate::builtins::{builtin_of, lookup_builtin, name_is, name_of, same_name, Type};
use crate::parser::defn_views;
use crate::routines::{
    artifacts_text, deriv_name, fid_name, fids_text, generated_text, params_text, push_deriv,
    push_invoke, push_iter, push_params, Artifact, ArtifactV,
};
use crate::scanner::{chars_of, is_digit, lemma_pow10_positive, mantissa, pow10, Ident};
use crate::text::{complex_text, nat_text, push_complex, push_usize};

verus! {

#[derive(Clone, Copy, Debug, PartialEq, Eq, Structural)]
pub enum CompileError {
    /// A name used against its type: a number called, or a function of no
    /// arguments differentiated.
    TypeError(Ident),
    /// A call with the wrong number of arguments.
    ArgCount(Ident),
    UndefinedVar(Ident),
    /// A second definition of a user name.
    GlobalReassignment(Ident),
    /// A definition of a builtin name.
    BuiltinReassignment(Ident),
    /// A derivative marker outside a call.
    StandaloneDerivative(Ident),
    /// No function `plot` is defined.
    MissingPlot,
    /// `plot` is defined with this many parameters instead of one.
    PlotArity(usize),
}

/// Where a resolved name comes from, as far as code generation cares.
#[derive(Clone, Copy, Debug, PartialEq, Eq, Structural)]
pub enum Kind {
    Plain,
    /// The dispatcher `invoke<N>`.
    Invoke(usize),
    /// The iteration combinator `iter<N>`.
    Iter(usize),
}

/// The first parameter from index `j` on that reads as `id`.
pub open spec fn find_param(src: Seq<char>, ps: Seq<Ident>, id: Ident, j: int) -> Option<nat>
    decreases ps.len() - j,
{
    if j < 0 || j >= ps.len() {
        None
    } else if name_of(src, ps[j]) == name_of(src, id) {
        Some(j as nat)
    } else {
        find_param(src, ps, id, j + 1)
    }
}

/// The type of the first global from index `j` on that reads as `id`.
pub open spec fn find_global(src: Seq<char>, g: Seq<(Ident, Type)>, id: Ident, j: int) -> Option<Type>
    decreases g.len() - j,
{
    if j < 0 || j >= g.len() {
        None
    } else if name_of(src, g[j].0) == name_of(src, id) {
        Some(g[j].1)
    } else {
        find_global(src, g, id, j + 1)
    }
}

/// `N` where `n` is `prefix` followed by one to nine digits that read `N`.
pub open spec fn family_index(n: Seq<char>, prefix: Seq<char>) -> Option<nat> {
    let p = prefix.len() as int;
    if p < n.len() <= p + 9 && n.subrange(0, p) == prefix && (forall|k: int|
        p <= k < n.len() ==> is_digit(#[trigger] n[k])) {
        Some(mantissa(n, p, n.len() as int) as nat)
    } else {
        None
    }
}

/// What a name refers to: its target text and its type. For a number the
/// text is a complete value, for a function the routine to call. Parameters
/// come first, then user definitions, then builtins, then the families
/// `invoke<N>` and `iter<N>`.
pub open spec fn resolve(src: Seq<char>, g: Seq<(Ident, Type)>, ps: Seq<Ident>, id: Ident) -> Option<
    (Seq<char>, Type, Kind),
> {
    let n = name_of(src, id);
    match find_param(src, ps, id, 0) {
        Some(j) => Some(("arg_"@ + nat_text(j), Type::Number, Kind::Plain)),
        None => match find_global(src, g, id, 0) {
            Some(Type::Number) => Some(("const_"@ + n + "()"@, Type::Number, Kind::Plain)),
            Some(Type::Function(a)) => Some(("func_"@ + n, Type::Function(a), Kind::Plain)),
            None => match builtin_of(n) {
                Some((sym, ty, _)) => Some((sym, ty, Kind::Plain)),
                None => match family_index(n, "invoke"@) {
                    Some(k) => Some(
                        ("invoke"@ + nat_text(k), Type::Function((k + 1) as usize), Kind::Invoke(k as usize)),
                    ),
                    None => match family_index(n, "iter"@) {
                        Some(k) => Some(
                            ("iter"@ + nat_text(k), Type::Function((k + 2) as usize), Kind::Iter(k as usize)),
                        ),
                        None => None,
                    },
                },
            },
        },
    }
}

pub open spec fn unary_text(op: UnaryOp, a: Seq<char>) -> Seq<char> {
    match op {
        UnaryOp::Pos => "("@ + a + ")"@,
        UnaryOp::Neg => "-("@ + a + ")"@,
        UnaryOp::Recip => "c_recip("@ + a + ")"@,
    }
}

/// Sums and differences are componentwise in the target; the other
/// operators go through the target's complex routines.
pub open spec fn binary_text(op: BinaryOp, a: Seq<char>, b: Seq<char>) -> Seq<char> {
    match op {
        BinaryOp::Add => "("@ + a + ")+("@ + b + ")"@,
        BinaryOp::Sub => "("@ + a + ")-("@ + b + ")"@,
        BinaryOp::Mul => "c_mul("@ + a + ","@ + b + ")"@,
        BinaryOp::Div => "c_div("@ + a + ","@ + b + ")"@,
        BinaryOp::Pow => "c_pow("@ + a + ","@ + b + ")"@,
    }
}

pub open spec fn callee_text(s: Seq<char>, k: nat) -> Seq<char> {
    if k == 0 {
        s
    } else {
        deriv_name(s, k)
    }
}

/// The target text of `e`, or the first error in it, left to right.
pub open spec fn expr_text(src: Seq<char>, g: Seq<(Ident, Type)>, ps: Seq<Ident>, e: ExprV) -> Result<
    Seq<char>,
    CompileError,
>
    decreases e,
{
    match e {
        ExprV::Number(z) => Ok(complex_text(z)),
        ExprV::Name(id) => match resolve(src, g, ps, id) {
            None => Err(CompileError::UndefinedVar(id)),
            Some((t, Type::Number, _)) => Ok(t),
            Some((t, Type::Function(_), _)) => Ok(fid_name(t)),
        },
        ExprV::NameDeriv(id, _) => Err(CompileError::StandaloneDerivative(id)),
        ExprV::Unary(op, a) => match expr_text(src, g, ps, *a) {
            Ok(ta) => Ok(unary_text(op, ta)),
            Err(x) => Err(x),
        },
        ExprV::Binary(op, a, b) => match expr_text(src, g, ps, *a) {
            Err(x) => Err(x),
            Ok(ta) => match expr_text(src, g, ps, *b) {
                Err(x) => Err(x),
                Ok(tb) => Ok(binary_text(op, ta, tb)),
            },
        },
        ExprV::FnCall(id, args, k) => match resolve(src, g, ps, id) {
            None => Err(CompileError::UndefinedVar(id)),
            Some((_, Type::Number, _)) => Err(CompileError::TypeError(id)),
            Some((t, Type::Function(n), _)) => if n != args.len() {
                Err(CompileError::ArgCount(id))
            } else if k > 0 && n == 0 {
                Err(CompileError::TypeError(id))
            } else {
                match args_text(src, g, ps, args) {
                    Err(x) => Err(x),
                    Ok(ta) => Ok(callee_text(t, k) + "("@ + ta + ")"@),
                }
            },
        },
    }
}

/// Each argument's text followed by a comma, or the first error among them.
pub open spec fn args_text(src: Seq<char>, g: Seq<(Ident, Type)>, ps: Seq<Ident>, args: Seq<ExprV>) -> Result<
    Seq<char>,
    CompileError,
>
    decreases args,
{
    if args.len() == 0 {
        Ok(seq![])
    } else {
        match args_text(src, g, ps, args.drop_last()) {
            Err(x) => Err(x),
            Ok(t) => match expr_text(src, g, ps, args.last()) {
                Err(x) => Err(x),
                Ok(u) => Ok(t + u + ","@),
            },
        }
    }
}

pub open spec fn defn_name(d: DefnV) -> Ident {
    match d {
        DefnV::Const { name, .. } => name,
        DefnV::Func { name, .. } => name,
    }
}

pub open spec fn defn_type(d: DefnV) -> Type {
    match d {
        DefnV::Const { .. } => Type::Number,
        DefnV::Func { params, .. } => Type::Function(params.len() as usize),
    }
}

/// The routine that definition `d` compiles to after the definitions `g`,
/// or why it is rejected: a name that is taken fails before anything else.
pub open spec fn defn_text(src: Seq<char>, g: Seq<(Ident, Type)>, d: DefnV) -> Result<Seq<char>, CompileError> {
    let name = defn_name(d);
    let n = name_of(src, name);
    if builtin_of(n) is Some {
        Err(CompileError::BuiltinReassignment(name))
    } else if find_global(src, g, name, 0) is Some {
        Err(CompileError::GlobalReassignment(name))
    } else {
        match d {
            DefnV::Const { body, .. } => match expr_text(src, g, seq![], body) {
                Ok(t) => Ok("fn const_"@ + n + "()->vec2f{return "@ + t + ";}\n"@),
                Err(x) => Err(x),
            },
            DefnV::Func { params, body, .. } => match expr_text(src, g, params, body) {
                Ok(t) => Ok(
                    "fn func_"@ + n + "("@ + params_text(params.len()) + ")->vec2f{return "@ + t + ";}\n"@,
                ),
                Err(x) => Err(x),
            },
        }
    }
}

/// The routines of the definitions `ds[i..]` after the definitions `g`, or
/// the first error among them.
pub open spec fn defs_text(src: Seq<char>, g: Seq<(Ident, Type)>, ds: Seq<DefnV>, i: int) -> Result<
    Seq<char>,
    CompileError,
>
    decreases ds.len() - i,
{
    if i < 0 || i >= ds.len() {
        Ok(seq![])
    } else {
        match defn_text(src, g, ds[i]) {
            Err(x) => Err(x),
            Ok(t) => match defs_text(src, g.push((defn_name(ds[i]), defn_type(ds[i]))), ds, i + 1) {
                Err(x) => Err(x),
                Ok(u) => Ok(t + u),
            },
        }
    }
}

/// The names and types that the definitions `ds` declare.
pub open spec fn declared(ds: Seq<DefnV>) -> Seq<(Ident, Type)> {
    Seq::new(ds.len(), |i: int| (defn_name(ds[i]), defn_type(ds[i])))
}

/// The type of the first definition from index `j` on named `n`.
pub open spec fn find_named(src: Seq<char>, g: Seq<(Ident, Type)>, n: Seq<char>, j: int) -> Option<Type>
    decreases g.len() - j,
{
    if j < 0 || j >= g.len() {
        None
    } else if name_of(src, g[j].0) == n {
        Some(g[j].1)
    } else {
        find_named(src, g, n, j + 1)
    }
}

/// Why the definitions `g` lack the entry point, a function `plot` of one
/// argument; `None` where they have it.
pub open spec fn plot_error(src: Seq<char>, g: Seq<(Ident, Type)>) -> Option<CompileError> {
    match find_named(src, g, "plot"@, 0) {
        Some(Type::Function(a)) => if a == 1 {
            None
        } else {
            Some(CompileError::PlotArity(a))
        },
        _ => Some(CompileError::MissingPlot),
    }
}

/// The registry of demands: function identifiers and demanded helper routines.
pub type Reg = (Seq<(Seq<char>, usize)>, Seq<ArtifactV>);

/// The derivatives of orders `1..=k` of routine `t`, demanded in that order.
pub open spec fn add_derivs(ps: Seq<ArtifactV>, t: Seq<char>, n: nat, k: nat) -> Seq<ArtifactV>
    decreases k,
{
    if k == 0 {
        ps
    } else {
        add_artifact(add_derivs(ps, t, n, (k - 1) as nat), ArtifactV::Derivative(t, n, k))
    }
}

/// What a call of routine `t` demands: its derivatives up to order `k`,
/// and the dispatcher that `invoke<N>` and `iter<N>` stand on.
pub open spec fn call_demands(ps: Seq<ArtifactV>, t: Seq<char>, n: nat, kind: Kind, k: nat) -> Seq<ArtifactV> {
    let d = add_derivs(ps, t, n, k);
    match kind {
        Kind::Invoke(m) => add_artifact(d, ArtifactV::Invoke(m as nat)),
        Kind::Iter(m) => add_artifact(add_artifact(d, ArtifactV::Invoke(m as nat)), ArtifactV::Iter(m as nat)),
        Kind::Plain => d,
    }
}

/// The registry after compiling `e`, left to right: a function used as a
/// value gets an identifier and its dispatcher; a call demands what
/// [`call_demands`] says, after its arguments.
pub open spec fn expr_demands(src: Seq<char>, g: Seq<(Ident, Type)>, ps: Seq<Ident>, e: ExprV, r: Reg) -> Reg
    decreases e,
{
    match e {
        ExprV::Name(id) => match resolve(src, g, ps, id) {
            Some((t, Type::Function(a), _)) => (add_fid(r.0, t, a), add_artifact(r.1, ArtifactV::Invoke(a as nat))),
            _ => r,
        },
        ExprV::Unary(_, a) => expr_demands(src, g, ps, *a, r),
        ExprV::Binary(_, a, b) => expr_demands(src, g, ps, *b, expr_demands(src, g, ps, *a, r)),
        ExprV::FnCall(id, args, k) => match resolve(src, g, ps, id) {
            Some((t, Type::Function(n), kind)) => {
                let ra = args_demands(src, g, ps, args, r);
                (ra.0, call_demands(ra.1, t, n as nat, kind, k))
            },
            _ => r,
        },
        _ => r,
    }
}

pub open spec fn args_demands(src: Seq<char>, g: Seq<(Ident, Type)>, ps: Seq<Ident>, args: Seq<ExprV>, r: Reg) -> Reg
    decreases args,
{
    if args.len() == 0 {
        r
    } else {
        expr_demands(src, g, ps, args.last(), args_demands(src, g, ps, args.drop_last(), r))
    }
}

pub open spec fn defn_params(d: DefnV) -> Seq<Ident> {
    match d {
        DefnV::Const { .. } => Seq::<Ident>::empty(),
        DefnV::Func { params, .. } => params,
    }
}

pub open spec fn defn_body(d: DefnV) -> ExprV {
    match d {
        DefnV::Const { body, .. } => body,
        DefnV::Func { body, .. } => body,
    }
}

/// The registry after the definitions `ds[i..]`, where they compile.
pub open spec fn defs_demands(src: Seq<char>, g: Seq<(Ident, Type)>, ds: Seq<DefnV>, i: int, r: Reg) -> Reg
    decreases ds.len() - i,
{
    if i < 0 || i >= ds.len() {
        r
    } else {
        defs_demands(
            src,
            g.push((defn_name(ds[i]), defn_type(ds[i]))),
            ds,
            i + 1,
            expr_demands(src, g, defn_params(ds[i]), defn_body(ds[i]), r),
        )
    }
}

/// `r` with `a` put in front of its text.
pub open spec fn after(a: Seq<char>, r: Result<Seq<char>, CompileError>) -> Result<Seq<char>, CompileError> {
    match r {
        Ok(u) => Ok(a + u),
        Err(x) => Err(x),
    }
}

proof fn lemma_after_after(a: Seq<char>, b: Seq<char>, r: Result<Seq<char>, CompileError>)
    ensures
        after(a, after(b, r)) == after(a + b, r),
{
    if let Ok(u) = r {
        assert(a + (b + u) =~= (a + b) + u);
    }
}

pub open spec fn text_result(r: Result<String, CompileError>) -> Result<Seq<char>, CompileError> {
    match r {
        Ok(s) => Ok(s@),
        Err(x) => Err(x),
    }
}

/// Appends the name `id` of the source `text`.
fn push_name(out: &mut String, text: &String, id: Ident)
    ensures
        final(out)@ == old(out)@ + name_of(text@, id),
{
    let n = text.as_str().unicode_len();
    if id.start <= id.end && id.end <= n {
        out.append(text.as_str().substring_char(id.start, id.end));
    } else {
        assert(old(out)@ + name_of(text@, id) =~= old(out)@);
    }
}

fn find_param_exec(src: &Vec<char>, ps: &Vec<Ident>, id: Ident) -> (r: Option<usize>)
    ensures
        match r {
            Some(j) => find_param(src@, ps@, id, 0) == Some(j as nat),
            None => find_param(src@, ps@, id, 0) is None,
        },
{
    let mut j: usize = 0;
    while j < ps.len()
        invariant
            j <= ps.len(),
            find_param(src@, ps@, id, 0) == find_param(src@, ps@, id, j as int),
        decreases ps.len() - j,
    {
        if same_name(src, ps[j], id) {
            return Some(j);
        }
        j = j + 1;
    }
    None
}

fn find_global_exec(src: &Vec<char>, g: &Vec<(Ident, Type)>, id: Ident) -> (r: Option<Type>)
    ensures
        r == find_global(src@, g@, id, 0),
{
    let mut j: usize = 0;
    while j < g.len()
        invariant
            j <= g.len(),
            find_global(src@, g@, id, 0) == find_global(src@, g@, id, j as int),
        decreases g.len() - j,
    {
        if same_name(src, g[j].0, id) {
            return Some(g[j].1);
        }
        j = j + 1;
    }
    None
}

/// `N` where the name `id` reads `prefix` followed by one to nine digits.
fn family_index_exec(src: &Vec<char>, id: Ident, prefix: &str) -> (r: Option<usize>)
    ensures
        match r {
            Some(k) => family_index(name_of(src@, id), prefix@) == Some(k as nat) && k < 1000000000,
            None => family_index(name_of(src@, id), prefix@) is None,
        },
{
    let ghost n = name_of(src@, id);
    let p = prefix.unicode_len();
    if !(id.start <= id.end && id.end <= src.len()) {
        assert(n.len() == 0);
        return None;
    }
    let len = id.end - id.start;
    if !(p < len && len - p <= 9) {
        return None;
    }
    let mut j: usize = 0;
    while j < p
        invariant
            n == src@.subrange(id.start as int, id.end as int),
            id.start <= id.end <= src.len(),
            len == n.len(),
            p < len,
            p == prefix@.len(),
            j <= p,
            forall|k: int| 0 <= k < j ==> n[k] == prefix@[k],
        decreases p - j,
    {
        if src[id.start + j] != prefix.get_char(j) {
            assert(n.subrange(0, p as int)[j as int] != prefix@[j as int]);
            return None;
        }
        j = j + 1;
    }
    assert(n.subrange(0, p as int) =~= prefix@);
    let mut v: u64 = 0;
    let mut j: usize = p;
    proof {
        reveal_with_fuel(pow10, 10);
    }
    while j < len
        invariant
            n == src@.subrange(id.start as int, id.end as int),
            id.start <= id.end <= src.len(),
            len == n.len(),
            p < len <= p + 9,
            p <= j <= len,
            forall|k: int| p <= k < j ==> is_digit(#[trigger] n[k]),
            v == mantissa(n, p as int, j as int),
            v < pow10((j - p) as nat),
            pow10(9) == 1000000000,
            n == name_of(src@, id),
            n.subrange(0, p as int) == prefix@,
            p == prefix@.len(),
        decreases len - j,
    {
        let c = src[id.start + j];
        if !('0' <= c && c <= '9') {
            assert(!is_digit(n[j as int]));
            return None;
        }
        proof {
            lemma_pow10_grows((j - p) as nat, 9);
        }
        v = v * 10 + (c as u32 - '0' as u32) as u64;
        j = j + 1;
    }
    Some(v as usize)
}

proof fn lemma_find_global_some(src: Seq<char>, g: Seq<(Ident, Type)>, id: Ident, i: int, j: int)
    requires
        0 <= i <= j < g.len(),
        name_of(src, g[j].0) == name_of(src, id),
    ensures
        find_global(src, g, id, i) is Some,
    decreases j - i,
{
    if i < j && name_of(src, g[i].0) != name_of(src, id) {
        lemma_find_global_some(src, g, id, i + 1, j);
    }
}

/// A name is defined once: a definition whose name is a builtin, or reads
/// as a name defined before it, is rejected with a reassignment error before
/// its body is looked at, and [`Compiler::compile_defn`] then emits nothing.
pub proof fn lemma_redefinition_rejected(src: Seq<char>, g: Seq<(Ident, Type)>, d: DefnV)
    requires
        builtin_of(name_of(src, defn_name(d))) is Some || exists|j: int|
            0 <= j < g.len() && name_of(src, (#[trigger] g[j]).0) == name_of(src, defn_name(d)),
    ensures
        builtin_of(name_of(src, defn_name(d))) is Some ==> defn_text(src, g, d) == Err::<Seq<char>, CompileError>(
            CompileError::BuiltinReassignment(defn_name(d)),
        ),
        builtin_of(name_of(src, defn_name(d))) is None ==> defn_text(src, g, d) == Err::<Seq<char>, CompileError>(
            CompileError::GlobalReassignment(defn_name(d)),
        ),
{
    if builtin_of(name_of(src, defn_name(d))) is None {
        let j = choose|j: int| 0 <= j < g.len() && name_of(src, (#[trigger] g[j]).0) == name_of(src, defn_name(d));
        lemma_find_global_some(src, g, defn_name(d), 0, j);
    }
}

/// A name that resolves to nothing is an error wherever it stands, as a
/// value or as a callee; a function called with another number of
/// arguments than it takes is an error too.
pub proof fn lemma_undefined_or_miscounted(src: Seq<char>, g: Seq<(Ident, Type)>, ps: Seq<Ident>, id: Ident, args: Seq<ExprV>, k: nat)
    ensures
        resolve(src, g, ps, id) is None ==> expr_text(src, g, ps, ExprV::Name(id)) == Err::<Seq<char>, CompileError>(
            CompileError::UndefinedVar(id),
        ),
        resolve(src, g, ps, id) is None ==> expr_text(src, g, ps, ExprV::FnCall(id, args, k)) == Err::<
            Seq<char>,
            CompileError,
        >(CompileError::UndefinedVar(id)),
        (resolve(src, g, ps, id) matches Some((_, Type::Function(n), _)) && n != args.len()) ==> expr_text(
            src,
            g,
            ps,
            ExprV::FnCall(id, args, k),
        ) == Err::<Seq<char>, CompileError>(CompileError::ArgCount(id)),
{
}

/// Function identifiers are distinct, stable and handed out in order of
/// first reference: registering a routine keeps every identifier given so
/// far, gives a routine without one the next identifier, and leaves a
/// routine that has one as it is.
pub proof fn lemma_fid_order(fs: Seq<(Seq<char>, usize)>, s: Seq<char>, a: usize)
    requires
        unique_symbols(fs),
    ensures
        fs.is_prefix_of(add_fid(fs, s, a)),
        unique_symbols(add_fid(fs, s, a)),
        exists|j: int| 0 <= j < add_fid(fs, s, a).len() && (#[trigger] add_fid(fs, s, a)[j]).0 == s,
        (forall|j: int| 0 <= j < fs.len() ==> (#[trigger] fs[j]).0 != s) ==> add_fid(fs, s, a) == fs.push((s, a)),
{
    let r = add_fid(fs, s, a);
    if exists|j: int| 0 <= j < fs.len() && (#[trigger] fs[j]).0 == s {
        let j = choose|j: int| 0 <= j < fs.len() && (#[trigger] fs[j]).0 == s;
        assert(r[j].0 == s);
    } else {
        assert(r[fs.len() as int].0 == s);
        assert(fs =~= r.subrange(0, fs.len() as int));
    }
    assert(fs.is_prefix_of(r)) by {
        assert(fs =~= r.subrange(0, fs.len() as int));
    }
}

/// An error among the first `i` arguments is the error of the whole list.
proof fn lemma_args_error(src: Seq<char>, g: Seq<(Ident, Type)>, ps: Seq<Ident>, s: Seq<ExprV>, i: int)
    requires
        0 <= i <= s.len(),
        args_text(src, g, ps, s.subrange(0, i)) is Err,
    ensures
        args_text(src, g, ps, s.subrange(0, s.len() as int)) == args_text(src, g, ps, s.subrange(0, i)),
    decreases s.len() - i,
{
    if i < s.len() {
        assert(s.subrange(0, i + 1).drop_last() =~= s.subrange(0, i));
        lemma_args_error(src, g, ps, s, i + 1);
    }
}

fn unary_str(op: UnaryOp, a: &String) -> (r: String)
    ensures
        r@ == unary_text(op, a@),
{
    let mut r = String::new();
    match op {
        UnaryOp::Pos => r.append("("),
        UnaryOp::Neg => r.append("-("),
        UnaryOp::Recip => r.append("c_recip("),
    }
    r.append(a.as_str());
    r.append(")");
    assert(r@ =~= unary_text(op, a@));
    r
}

fn binary_str(op: BinaryOp, a: &String, b: &String) -> (r: String)
    ensures
        r@ == binary_text(op, a@, b@),
{
    let mut r = String::new();
    match op {
        BinaryOp::Add | BinaryOp::Sub => r.append("("),
        BinaryOp::Mul => r.append("c_mul("),
        BinaryOp::Div => r.append("c_div("),
        BinaryOp::Pow => r.append("c_pow("),
    }
    r.append(a.as_str());
    match op {
        BinaryOp::Add => r.append(")+("),
        BinaryOp::Sub => r.append(")-("),
        _ => r.append(","),
    }
    r.append(b.as_str());
    r.append(")");
    assert(r@ =~= binary_text(op, a@, b@));
    r
}

proof fn lemma_pow10_grows(a: nat, b: nat)
    requires
        a <= b,
    ensures
        pow10(a) <= pow10(b),
    decreases b - a,
{
    if a < b {
        lemma_pow10_grows(a, (b - 1) as nat);
        lemma_pow10_positive((b - 1) as nat);
    }
}

/// `fs` with `(s, a)` appended, unless the symbol `s` already has an identifier.
pub open spec fn add_fid(fs: Seq<(Seq<char>, usize)>, s: Seq<char>, a: usize) -> Seq<(Seq<char>, usize)> {
    if exists|j: int| 0 <= j < fs.len() && (#[trigger] fs[j]).0 == s {
        fs
    } else {
        fs.push((s, a))
    }
}

/// `ps` with `x` appended, unless it is already there.
pub open spec fn add_artifact(ps: Seq<ArtifactV>, x: ArtifactV) -> Seq<ArtifactV> {
    if ps.contains(x) {
        ps
    } else {
        ps.push(x)
    }
}

pub open spec fn unique_symbols(fs: Seq<(Seq<char>, usize)>) -> bool {
    forall|i: int, j: int| 0 <= i < j < fs.len() ==> (#[trigger] fs[i]).0 != (#[trigger] fs[j]).0
}

/// Compiles definitions one at a time into target text.
pub struct Compiler {
    chars: Vec<char>,
    text: String,
    globals: Vec<(Ident, Type)>,
    fids: Vec<(String, usize)>,
    pending: Vec<Artifact>,
    out: String,
}

impl Compiler {
    pub closed spec fn source(&self) -> Seq<char> {
        self.chars@
    }

    /// The user definitions so far: name and type, in order.
    pub closed spec fn globals(&self) -> Seq<(Ident, Type)> {
        self.globals@
    }

    /// The function identifiers: entry `j` is the symbol with identifier `j`, and its arity.
    pub closed spec fn fids(&self) -> Seq<(Seq<char>, usize)> {
        Seq::new(self.fids@.len(), |j: int| (self.fids@[j].0@, self.fids@[j].1))
    }

    /// The helper routines demanded so far, in order of first demand.
    pub closed spec fn pending(&self) -> Seq<ArtifactV> {
        Seq::new(self.pending@.len(), |j: int| self.pending@[j]@)
    }

    /// The text emitted so far.
    pub closed spec fn output(&self) -> Seq<char> {
        self.out@
    }

    pub closed spec fn wf(&self) -> bool {
        &&& self.text@ == self.chars@
        &&& unique_symbols(self.fids())
        &&& self.pending().no_duplicates()
    }

    /// Everything but the demand registry is as in `other`.
    pub open spec fn same_program(&self, other: &Compiler) -> bool {
        &&& self.source() == other.source()
        &&& self.globals() == other.globals()
        &&& self.output() == other.output()
    }

    /// The registry of `self` extends that of `other`: identifiers and
    /// demands already given stay as they are.
    pub open spec fn extends(&self, other: &Compiler) -> bool {
        &&& other.fids().is_prefix_of(self.fids())
        &&& other.pending().is_prefix_of(self.pending())
    }

    pub fn new(src: &str) -> (r: Compiler)
        ensures
            r.wf(),
            r.source() == src@,
            r.globals() == Seq::<(Ident, Type)>::empty(),
            r.fids() == Seq::<(Seq<char>, usize)>::empty(),
            r.pending() == Seq::<ArtifactV>::empty(),
            r.output() == Seq::<char>::empty(),
    {
        let r = Compiler {
            chars: chars_of(src),
            text: String::from_str(src),
            globals: Vec::new(),
            fids: Vec::new(),
            pending: Vec::new(),
            out: String::new(),
        };
        assert(r.fids() =~= Seq::<(Seq<char>, usize)>::empty());
        assert(r.pending() =~= Seq::<ArtifactV>::empty());
        r
    }

    /// Gives the routine `sym` an identifier, unless it has one.
    fn register_fid(&mut self, sym: &String, arity: usize)
        requires
            old(self).wf(),
        ensures
            final(self).wf(),
            final(self).same_program(old(self)),
            final(self).pending() == old(self).pending(),
            final(self).fids() == add_fid(old(self).fids(), sym@, arity),
    {
        let mut j: usize = 0;
        while j < self.fids.len()
            invariant
                self.wf(),
                j <= self.fids.len(),
                forall|i: int| 0 <= i < j ==> (#[trigger] self.fids()[i]).0 != sym@,
            decreases self.fids.len() - j,
        {
            if self.fids[j].0 == *sym {
                assert(self.fids()[j as int].0 == sym@);
                return;
            }
            j = j + 1;
        }
        let ghost before = self.fids();
        self.fids.push((sym.clone(), arity));
        assert(self.fids() =~= before.push((sym@, arity)));
    }

    /// Records a demand for a helper routine, unless it is recorded.
    fn register(&mut self, x: Artifact)
        requires
            old(self).wf(),
        ensures
            final(self).wf(),
            final(self).same_program(old(self)),
            final(self).fids() == old(self).fids(),
            final(self).pending() == add_artifact(old(self).pending(), x@),
    {
        let mut j: usize = 0;
        while j < self.pending.len()
            invariant
                self.wf(),
                j <= self.pending.len(),
                forall|i: int| 0 <= i < j ==> self.pending()[i] != x@,
            decreases self.pending.len() - j,
        {
            let same = match (&self.pending[j], &x) {
                (Artifact::Invoke(a), Artifact::Invoke(b)) => *a == *b,
                (Artifact::Iter(a), Artifact::Iter(b)) => *a == *b,
                (Artifact::Derivative(s, a, k), Artifact::Derivative(t, b, m)) => *s == *t && *a == *b && *k
                    == *m,
                _ => false,
            };
            assert(same == (self.pending()[j as int] == x@));
            if same {
                assert(self.pending().contains(x@));
                return;
            }
            j = j + 1;
        }
        let ghost before = self.pending();
        self.pending.push(x);
        assert(self.pending() =~= before.push(x@));
    }

    /// Demands the derivatives of orders `1..=k` of routine `sym`.
    fn register_derivatives(&mut self, sym: &String, arity: usize, k: usize)
        requires
            old(self).wf(),
        ensures
            final(self).wf(),
            final(self).same_program(old(self)),
            final(self).fids() == old(self).fids(),
            final(self).extends(old(self)),
            final(self).pending() == add_derivs(old(self).pending(), sym@, arity as nat, k as nat),
    {
        let mut j: usize = 0;
        while j < k
            invariant
                self.wf(),
                self.same_program(old(self)),
                self.fids() == old(self).fids(),
                self.extends(old(self)),
                j <= k,
                self.pending() == add_derivs(old(self).pending(), sym@, arity as nat, j as nat),
            decreases k - j,
        {
            self.register(Artifact::Derivative(sym.clone(), arity, j + 1));
            j = j + 1;
        }
    }

    /// Compiles one definition and appends its routine.
    pub fn compile_defn(&mut self, d: &Defn) -> (r: Result<(), CompileError>)
        requires
            old(self).wf(),
        ensures
            final(self).wf(),
            final(self).source() == old(self).source(),
            final(self).extends(old(self)),
            match defn_text(old(self).source(), old(self).globals(), d@) {
                Err(x) => r == Err::<(), CompileError>(x) && final(self).output() == old(self).output()
                    && final(self).globals() == old(self).globals(),
                Ok(t) => r is Ok && final(self).output() == old(self).output() + t && final(self).globals()
                    == old(self).globals().push((defn_name(d@), defn_type(d@))) && (
                    final(self).fids(),
                    final(self).pending(),
                ) == expr_demands(
                    old(self).source(),
                    old(self).globals(),
                    defn_params(d@),
                    defn_body(d@),
                    (old(self).fids(), old(self).pending()),
                ),
            },
    {
        let (name, params, body) = match d {
            Defn::Const { name, body } => (*name, None, body),
            Defn::Func { name, params, body } => (*name, Some(params), body),
        };
        if lookup_builtin(&self.chars, name).is_some() {
            return Err(CompileError::BuiltinReassignment(name));
        }
        if find_global_exec(&self.chars, &self.globals, name).is_some() {
            return Err(CompileError::GlobalReassignment(name));
        }
        let ghost before = *self;
        let none: Vec<Ident> = Vec::new();
        assert(none@ =~= Seq::<Ident>::empty());
        let ps = match params {
            Some(ps) => ps,
            None => &none,
        };
        let t = match self.expr(ps, body) {
            Err(x) => { return Err(x); },
            Ok(t) => t,
        };
        let mut line = String::new();
        match params {
            None => {
                line.append("fn const_");
                push_name(&mut line, &self.text, name);
                line.append("()->vec2f{return ");
            },
            Some(ps) => {
                line.append("fn func_");
                push_name(&mut line, &self.text, name);
                line.append("(");
                push_params(&mut line, ps.len());
                line.append(")->vec2f{return ");
            },
        }
        line.append(t.as_str());
        line.append(";}\n");
        self.out.append(line.as_str());
        let ty = match params {
            None => Type::Number,
            Some(ps) => Type::Function(ps.len()),
        };
        self.globals.push((name, ty));
        assert(self.output() =~= before.output() + line@);
        Ok(())
    }

    /// Compiles definitions in order, stopping at the first error.
    pub fn compile_defs(&mut self, defs: &Vec<Defn>) -> (r: Result<(), CompileError>)
        requires
            old(self).wf(),
        ensures
            final(self).wf(),
            final(self).source() == old(self).source(),
            match defs_text(old(self).source(), old(self).globals(), defn_views(defs@), 0) {
                Err(x) => r == Err::<(), CompileError>(x),
                Ok(t) => r is Ok && final(self).output() == old(self).output() + t && final(self).globals()
                    == old(self).globals() + declared(defn_views(defs@)) && (
                    final(self).fids(),
                    final(self).pending(),
                ) == defs_demands(
                    old(self).source(),
                    old(self).globals(),
                    defn_views(defs@),
                    0,
                    (old(self).fids(), old(self).pending()),
                ),
            },
    {
        let ghost src = self.source();
        let ghost g0 = self.globals();
        let ghost o0 = self.output();
        let ghost r0 = (self.fids(), self.pending());
        let ghost fds = defn_views(defs@);
        let ghost mut acc: Seq<char> = seq![];
        let mut i: usize = 0;
        assert(g0 + declared(fds.subrange(0, 0)) =~= g0);
        assert(o0 + acc =~= o0);
        assert(after(acc, defs_text(src, g0, fds, 0)) == defs_text(src, g0, fds, 0)) by {
            if let Ok(u) = defs_text(src, g0, fds, 0) {
                assert(acc + u =~= u);
            }
        }
        while i < defs.len()
            invariant
                self.wf(),
                self.source() == src,
                src == old(self).source(),
                g0 == old(self).globals(),
                o0 == old(self).output(),
                r0 == (old(self).fids(), old(self).pending()),
                fds == defn_views(defs@),
                i <= defs.len(),
                self.globals() == g0 + declared(fds.subrange(0, i as int)),
                self.output() == o0 + acc,
                defs_text(src, g0, fds, 0) == after(acc, defs_text(src, self.globals(), fds, i as int)),
                defs_text(src, g0, fds, 0) is Ok ==> defs_demands(src, g0, fds, 0, r0) == defs_demands(
                    src,
                    self.globals(),
                    fds,
                    i as int,
                    (self.fids(), self.pending()),
                ),
            decreases defs.len() - i,
        {
            let ghost g = self.globals();
            let ghost before = self.output();
            let ghost rb = (self.fids(), self.pending());
            assert(fds[i as int] == defs@[i as int]@);
            match self.compile_defn(&defs[i]) {
                Err(x) => { return Err(x); },
                Ok(()) => {},
            }
            proof {
                let dt = defn_text(src, g, fds[i as int]);
                let t = dt->Ok_0;
                assert(self.output() == before + t);
                assert(defs_text(src, g, fds, i as int) == after(
                    t,
                    defs_text(src, g.push((defn_name(fds[i as int]), defn_type(fds[i as int]))), fds, i + 1),
                ));
                assert(self.output() =~= o0 + (acc + t));
                lemma_after_after(acc, t, defs_text(src, self.globals(), fds, i + 1));
                assert(declared(fds.subrange(0, i + 1)) =~= declared(fds.subrange(0, i as int)).push(
                    (defn_name(fds[i as int]), defn_type(fds[i as int])),
                ));
                assert(self.globals() =~= g0 + declared(fds.subrange(0, i + 1)));
                acc = acc + t;
            }
            i = i + 1;
        }
        assert(fds.subrange(0, fds.len() as int) =~= fds);
        assert(acc + Seq::<char>::empty() =~= acc);
        Ok(())
    }

    /// The text emitted, taken out of the compiler.
    pub fn into_output(self) -> (r: String)
        ensures
            r@ == self.output(),
    {
        self.out
    }

    /// Appends every helper routine that the definitions demanded.
    pub fn generate(&mut self)
        requires
            old(self).wf(),
        ensures
            final(self).wf(),
            final(self).source() == old(self).source(),
            final(self).globals() == old(self).globals(),
            final(self).fids() == old(self).fids(),
            final(self).pending() == old(self).pending(),
            final(self).output() == old(self).output() + generated_text(old(self).fids(), old(self).pending()),
            unique_symbols(final(self).fids()),
            final(self).pending().no_duplicates(),
    {
        let ghost fs = self.fids();
        let mut t = String::new();
        let mut j: usize = 0;
        while j < self.fids.len()
            invariant
                j <= self.fids.len(),
                fs == self.fids(),
                t@ == fids_text(fs, j as nat),
            decreases self.fids.len() - j,
        {
            t.append("const ");
            t.append("fid_");
            t.append(self.fids[j].0.as_str());
            t.append("=vec2f(");
            push_usize(&mut t, j);
            t.append(".0,0.0);\n");
            assert(t@ =~= fids_text(fs, (j + 1) as nat));
            j = j + 1;
        }
        let mut m: usize = 0;
        while m < self.pending.len()
            invariant
                m <= self.pending.len(),
                fs == self.fids(),
                t@ == fids_text(fs, fs.len()) + artifacts_text(fs, self.pending(), m as nat),
            decreases self.pending.len() - m,
        {
            match &self.pending[m] {
                Artifact::Invoke(n) => push_invoke(&mut t, &self.fids, *n),
                Artifact::Iter(n) => push_iter(&mut t, *n),
                Artifact::Derivative(s, a, k) => push_deriv(&mut t, s, *a, *k),
            }
            assert(t@ =~= fids_text(fs, fs.len()) + artifacts_text(fs, self.pending(), (m + 1) as nat));
            m = m + 1;
        }
        self.out.append(t.as_str());
    }

    /// Checks that the definitions so far declare the entry point `plot`,
    /// a function of one argument.
    pub fn ensure_plot_defined(&self) -> (r: Result<(), CompileError>)
        ensures
            match plot_error(self.source(), self.globals()) {
                None => r is Ok,
                Some(x) => r == Err::<(), CompileError>(x),
            },
    {
        let mut j: usize = 0;
        while j < self.globals.len()
            invariant
                j <= self.globals.len(),
                find_named(self.chars@, self.globals@, "plot"@, 0) == find_named(
                    self.chars@,
                    self.globals@,
                    "plot"@,
                    j as int,
                ),
            decreases self.globals.len() - j,
        {
            if name_is(&self.chars, self.globals[j].0, "plot") {
                return match self.globals[j].1 {
                    Type::Function(a) => if a == 1 {
                        Ok(())
                    } else {
                        Err(CompileError::PlotArity(a))
                    },
                    Type::Number => Err(CompileError::MissingPlot),
                };
            }
            j = j + 1;
        }
        Err(CompileError::MissingPlot)
    }

    /// Demands what a call of routine `t` (of arity `n`, of kind `kind`,
    /// with `k` derivative markers) needs.
    fn demand_call(&mut self, t: &String, n: usize, kind: Kind, k: usize)
        requires
            old(self).wf(),
        ensures
            final(self).wf(),
            final(self).same_program(old(self)),
            final(self).extends(old(self)),
            final(self).fids() == old(self).fids(),
            final(self).pending() == call_demands(old(self).pending(), t@, n as nat, kind, k as nat),
    {
        if k > 0 {
            self.register_derivatives(t, n, k);
        }
        match kind {
            Kind::Invoke(m) => {
                self.register(Artifact::Invoke(m));
            },
            Kind::Iter(m) => {
                self.register(Artifact::Invoke(m));
                self.register(Artifact::Iter(m));
            },
            Kind::Plain => {},
        }
    }

    /// The target text of `e` inside a function with parameters `ps`.
    fn expr(&mut self, ps: &Vec<Ident>, e: &Expr) -> (r: Result<String, CompileError>)
        requires
            old(self).wf(),
        ensures
            final(self).wf(),
            final(self).same_program(old(self)),
            final(self).extends(old(self)),
            text_result(r) == expr_text(old(self).source(), old(self).globals(), ps@, e@),
            r is Ok ==> (final(self).fids(), final(self).pending()) == expr_demands(
                old(self).source(),
                old(self).globals(),
                ps@,
                e@,
                (old(self).fids(), old(self).pending()),
            ),
        decreases e,
    {
        match e {
            Expr::Number(z) => {
                let mut t = String::new();
                push_complex(&mut t, *z);
                Ok(t)
            },
            Expr::Name(id) => match self.resolve(ps, *id) {
                None => Err(CompileError::UndefinedVar(*id)),
                Some((t, Type::Number, _)) => Ok(t),
                Some((t, Type::Function(a), _)) => {
                    self.register_fid(&t, a);
                    self.register(Artifact::Invoke(a));
                    let mut f = String::from_str("fid_");
                    f.append(t.as_str());
                    Ok(f)
                },
            },
            Expr::NameDeriv(id, _) => Err(CompileError::StandaloneDerivative(*id)),
            Expr::Unary(op, a) => match self.expr(ps, a) {
                Err(x) => Err(x),
                Ok(ta) => Ok(unary_str(*op, &ta)),
            },
            Expr::Binary(op, a, b) => match self.expr(ps, a) {
                Err(x) => Err(x),
                Ok(ta) => match self.expr(ps, b) {
                    Err(x) => Err(x),
                    Ok(tb) => Ok(binary_str(*op, &ta, &tb)),
                },
            },
            Expr::FnCall(id, args, k) => {
                proof {
                    lemma_call_view(*id, args, *k);
                }
                let (t, n, kind) = match self.resolve(ps, *id) {
                    None => { return Err(CompileError::UndefinedVar(*id)); },
                    Some((_, Type::Number, _)) => { return Err(CompileError::TypeError(*id)); },
                    Some((t, Type::Function(n), kind)) => (t, n, kind),
                };
                if n != args.len() {
                    return Err(CompileError::ArgCount(*id));
                }
                if *k > 0 && n == 0 {
                    return Err(CompileError::TypeError(*id));
                }
                let ta = match self.args(ps, args) {
                    Err(x) => { return Err(x); },
                    Ok(ta) => ta,
                };
                self.demand_call(&t, n, kind, *k);
                let mut r = String::new();
                if *k == 0 {
                    r.append(t.as_str());
                } else {
                    r.append("deriv");
                    push_usize(&mut r, *k);
                    r.append("_");
                    r.append(t.as_str());
                }
                r.append("(");
                r.append(ta.as_str());
                r.append(")");
                assert(r@ =~= callee_text(t@, *k as nat) + "("@ + ta@ + ")"@);
                Ok(r)
            },
        }
    }

    /// Each argument's text followed by a comma.
    fn args(&mut self, ps: &Vec<Ident>, args: &Vec<Expr>) -> (r: Result<String, CompileError>)
        requires
            old(self).wf(),
        ensures
            final(self).wf(),
            final(self).same_program(old(self)),
            final(self).extends(old(self)),
            text_result(r) == args_text(old(self).source(), old(self).globals(), ps@, views(args@)),
            r is Ok ==> (final(self).fids(), final(self).pending()) == args_demands(
                old(self).source(),
                old(self).globals(),
                ps@,
                views(args@),
                (old(self).fids(), old(self).pending()),
            ),
        decreases args,
    {
        let ghost src = self.source();
        let ghost g = self.globals();
        let ghost vs = views(args@);
        let mut t = String::new();
        let mut j: usize = 0;
        assert(vs.subrange(0, 0) =~= Seq::<ExprV>::empty());
        assert(self.fids() == old(self).fids());
        while j < args.len()
            invariant
                self.wf(),
                self.same_program(old(self)),
                self.extends(old(self)),
                src == old(self).source(),
                g == old(self).globals(),
                vs == views(args@),
                j <= args.len(),
                args_text(src, g, ps@, vs.subrange(0, j as int)) == Ok::<Seq<char>, CompileError>(t@),
                (self.fids(), self.pending()) == args_demands(
                    src,
                    g,
                    ps@,
                    vs.subrange(0, j as int),
                    (old(self).fids(), old(self).pending()),
                ),
            decreases args.len() - j,
        {
            proof {
                vstd::std_specs::vec::axiom_vec_index_decreases(*args, j as int);
                assert(vs.subrange(0, j + 1).drop_last() =~= vs.subrange(0, j as int));
                assert(vs.subrange(0, j + 1).last() == args@[j as int]@);
            }
            match self.expr(ps, &args[j]) {
                Err(x) => {
                    proof {
                        lemma_args_error(src, g, ps@, vs, j + 1);
                        assert(vs.subrange(0, vs.len() as int) =~= vs);
                    }
                    return Err(x);
                },
                Ok(u) => {
                    t.append(u.as_str());
                    t.append(",");
                },
            }
            j = j + 1;
        }
        assert(vs.subrange(0, vs.len() as int) =~= vs);
        Ok(t)
    }

    fn resolve(&self, ps: &Vec<Ident>, id: Ident) -> (r: Option<(String, Type, Kind)>)
        requires
            self.wf(),
        ensures
            match r {
                Some((t, ty, k)) => resolve(self.source(), self.globals(), ps@, id) == Some((t@, ty, k)),
                None => resolve(self.source(), self.globals(), ps@, id) is None,
            },
    {
        if let Some(j) = find_param_exec(&self.chars, ps, id) {
            let mut t = String::from_str("arg_");
            push_usize(&mut t, j);
            return Some((t, Type::Number, Kind::Plain));
        }
        match find_global_exec(&self.chars, &self.globals, id) {
            Some(Type::Number) => {
                let mut t = String::from_str("const_");
                push_name(&mut t, &self.text, id);
                t.append("()");
                return Some((t, Type::Number, Kind::Plain));
            },
            Some(Type::Function(a)) => {
                let mut t = String::from_str("func_");
                push_name(&mut t, &self.text, id);
                return Some((t, Type::Function(a), Kind::Plain));
            },
            None => {},
        }
        if let Some(b) = lookup_builtin(&self.chars, id) {
            return Some((String::from_str(b.symbol), b.ty, Kind::Plain));
        }
        if let Some(k) = family_index_exec(&self.chars, id, "invoke") {
            let mut t = String::from_str("invoke");
            push_usize(&mut t, k);
            return Some((t, Type::Function(k + 1), Kind::Invoke(k)));
        }
        if let Some(k) = family_index_exec(&self.chars, id, "iter") {
            let mut t = String::from_str("iter");
            push_usize(&mut t, k);
            return Some((t, Type::Function(k + 2), Kind::Iter(k)));
        }
        None
    }
}

} // verus!
