//! The helper routines that compiled code demands: function identifier
//! constants, the dispatchers `invoke<N>`, the iteration combinators
//! `iter<N>` and the derivative wrappers, with the text of each.
use vstd::prelude::*;

use crate::text::{nat_text, push_usize};

verus! {

/// A helper routine that compiled code demands.
#[derive(Debug)]
pub enum Artifact {
    /// `invoke<N>`: calls a function value with `N` arguments.
    Invoke(usize),
    /// `iter<N>`: applies a function value a given number of times.
    Iter(usize),
    /// The derivative of the given order of a routine with the given arity.
    Derivative(String, usize, usize),
}

pub enum ArtifactV {
    Invoke(nat),
    Iter(nat),
    Derivative(Seq<char>, nat, nat),
}

impl View for Artifact {
    type V = ArtifactV;

    open spec fn view(&self) -> ArtifactV {
        match self {
            Artifact::Invoke(n) => ArtifactV::Invoke(*n as nat),
            Artifact::Iter(n) => ArtifactV::Iter(*n as nat),
            Artifact::Derivative(s, a, k) => ArtifactV::Derivative(s@, *a as nat, *k as nat),
        }
    }
}

/// The routine that computes the `k`-th derivative of routine `s`.
pub open spec fn deriv_name(s: Seq<char>, k: nat) -> Seq<char> {
    "deriv"@ + nat_text(k) + "_"@ + s
}

/// A function used as a value stands for its identifier constant.
pub open spec fn fid_name(s: Seq<char>) -> Seq<char> {
    "fid_"@ + s
}

/// The parameter list `arg_0:vec2f,...` of a routine with `n` parameters.
pub open spec fn params_text(n: nat) -> Seq<char>
    decreases n,
{
    if n == 0 {
        seq![]
    } else {
        params_text((n - 1) as nat) + "arg_"@ + nat_text((n - 1) as nat) + ":vec2f,"@
    }
}

/// The constant that holds identifier `j` of routine `s`.
pub open spec fn fid_text(j: nat, s: Seq<char>) -> Seq<char> {
    "const "@ + fid_name(s) + "=vec2f("@ + nat_text(j) + ".0,0.0);\n"@
}

pub open spec fn fids_text(fs: Seq<(Seq<char>, usize)>, m: nat) -> Seq<char>
    decreases m,
{
    if m == 0 {
        seq![]
    } else {
        fids_text(fs, (m - 1) as nat) + fid_text((m - 1) as nat, fs[m - 1].0)
    }
}

/// The arguments that a dispatcher with `n` arguments passes to a routine
/// of arity `a`: its own as far as they go, then zeros.
pub open spec fn call_args_text(a: nat, n: nat) -> Seq<char>
    decreases a,
{
    if a == 0 {
        seq![]
    } else {
        call_args_text((a - 1) as nat, n) + if a - 1 < n {
            "arg_"@ + nat_text((a - 1) as nat) + ","@
        } else {
            "vec2f(0.0,0.0),"@
        }
    }
}

/// The case of a dispatcher for identifier `j`; identifier 0 is also the
/// default, so an unknown identifier calls its routine.
pub open spec fn arm_text(j: nat, s: Seq<char>, a: nat, n: nat) -> Seq<char> {
    (if j == 0 {
        "case 0,default:{r="@
    } else {
        "case "@ + nat_text(j) + ":{r="@
    }) + s + "("@ + call_args_text(a, n) + ");}"@
}

pub open spec fn arms_text(fs: Seq<(Seq<char>, usize)>, n: nat, m: nat) -> Seq<char>
    decreases m,
{
    if m == 0 {
        seq![]
    } else {
        arms_text(fs, n, (m - 1) as nat) + arm_text((m - 1) as nat, fs[m - 1].0, fs[m - 1].1 as nat, n)
    }
}

/// `invoke<n>`: one case per function identifier.
pub open spec fn invoke_text(fs: Seq<(Seq<char>, usize)>, n: nat) -> Seq<char> {
    "fn invoke"@ + nat_text(n) + "(func:vec2f,"@ + params_text(n)
        + ")->vec2f{var r=vec2f(0.0,0.0);switch(i32(func.x)){"@ + (if fs.len() == 0 {
        "default:{}"@
    } else {
        arms_text(fs, n, fs.len())
    }) + "}return r;}\n"@
}

/// The arguments `arg_1,...,arg_{n-1},`.
pub open spec fn tail_args(n: nat) -> Seq<char>
    decreases n,
{
    if n <= 1 {
        seq![]
    } else {
        tail_args((n - 1) as nat) + "arg_"@ + nat_text((n - 1) as nat) + ","@
    }
}

/// `iter<n>`: applies a function value a run-time number of times to an
/// accumulator that starts as the first carried argument.
pub open spec fn iter_text(n: nat) -> Seq<char> {
    "fn iter"@ + nat_text(n) + "(func:vec2f,n:vec2f,"@ + params_text(n) + ")->vec2f{var r="@ + (if n == 0 {
        "vec2f(0.0,0.0)"@
    } else {
        "arg_0"@
    }) + ";for(var i=0;i<i32(n.x);i++){r=invoke"@ + nat_text(n) + "(func,"@ + (if n == 0 {
        seq![]
    } else {
        "r,"@ + tail_args(n)
    }) + ");}return r;}\n"@
}

/// The routine one derivative order below `k` of routine `s`.
pub open spec fn inner_name(s: Seq<char>, k: nat) -> Seq<char> {
    if k <= 1 {
        s
    } else {
        deriv_name(s, (k - 1) as nat)
    }
}

/// The derivative of order `k` of routine `s` with `a` parameters: a
/// centred difference in the first parameter over four probes, the other
/// parameters passed through unchanged.
pub open spec fn deriv_text(s: Seq<char>, a: nat, k: nat) -> Seq<char> {
    "fn "@ + deriv_name(s, k) + "("@ + params_text(a) + ")->vec2f{"@
        + probe_text(s, a, k, "let a=c_mul("@, "(arg_0+vec2f(D_EPS,0.0),"@, "),vec2f(0.25/D_EPS,0.0));"@)
        + probe_text(s, a, k, "let b=c_mul("@, "(arg_0-vec2f(D_EPS,0.0),"@, "),vec2f(-0.25/D_EPS,0.0));"@)
        + probe_text(s, a, k, "let c=c_mul("@, "(arg_0+vec2f(0.0,D_EPS),"@, "),vec2f(0.0,-0.25/D_EPS));"@)
        + probe_text(s, a, k, "let d=c_mul("@, "(arg_0-vec2f(0.0,D_EPS),"@, "),vec2f(0.0,0.25/D_EPS));"@)
        + "return a+b+c+d;}\n"@
}

/// One probe of a derivative: the lower-order routine evaluated with the
/// first parameter moved as `mid` says and the rest passed through, scaled
/// as `tail` says.
pub open spec fn probe_text(s: Seq<char>, a: nat, k: nat, head: Seq<char>, mid: Seq<char>, tail: Seq<char>) -> Seq<char> {
    head + inner_name(s, k) + mid + tail_args(a) + tail
}

pub open spec fn artifact_text(fs: Seq<(Seq<char>, usize)>, x: ArtifactV) -> Seq<char> {
    match x {
        ArtifactV::Invoke(n) => invoke_text(fs, n),
        ArtifactV::Iter(n) => iter_text(n),
        ArtifactV::Derivative(s, a, k) => deriv_text(s, a, k),
    }
}

pub open spec fn artifacts_text(fs: Seq<(Seq<char>, usize)>, ps: Seq<ArtifactV>, m: nat) -> Seq<char>
    decreases m,
{
    if m == 0 {
        seq![]
    } else {
        artifacts_text(fs, ps, (m - 1) as nat) + artifact_text(fs, ps[m - 1])
    }
}

/// Every helper routine of a registry: the identifier constants, then the
/// demanded routines in order of first demand.
pub open spec fn generated_text(fs: Seq<(Seq<char>, usize)>, ps: Seq<ArtifactV>) -> Seq<char> {
    fids_text(fs, fs.len()) + artifacts_text(fs, ps, ps.len())
}

pub(crate) fn push_params(out: &mut String, n: usize)
    ensures
        final(out)@ == old(out)@ + params_text(n as nat),
{
    let mut j: usize = 0;
    while j < n
        invariant
            j <= n,
            out@ == old(out)@ + params_text(j as nat),
        decreases n - j,
    {
        out.append("arg_");
        push_usize(out, j);
        out.append(":vec2f,");
        j = j + 1;
    }
}

fn push_tail_args(out: &mut String, n: usize)
    ensures
        final(out)@ == old(out)@ + tail_args(n as nat),
{
    if n <= 1 {
        assert(old(out)@ + tail_args(n as nat) =~= old(out)@);
        return;
    }
    let mut j: usize = 1;
    assert(old(out)@ + tail_args(1) =~= old(out)@);
    while j < n
        invariant
            1 <= j <= n,
            out@ == old(out)@ + tail_args(j as nat),
        decreases n - j,
    {
        out.append("arg_");
        push_usize(out, j);
        out.append(",");
        j = j + 1;
    }
}

fn push_call_args(out: &mut String, a: usize, n: usize)
    ensures
        final(out)@ == old(out)@ + call_args_text(a as nat, n as nat),
{
    let mut j: usize = 0;
    while j < a
        invariant
            j <= a,
            out@ == old(out)@ + call_args_text(j as nat, n as nat),
        decreases a - j,
    {
        if j < n {
            out.append("arg_");
            push_usize(out, j);
            out.append(",");
        } else {
            out.append("vec2f(0.0,0.0),");
        }
        j = j + 1;
    }
}

pub(crate) fn push_invoke(out: &mut String, fids: &Vec<(String, usize)>, n: usize)
    ensures
        final(out)@ == old(out)@ + invoke_text(
            Seq::new(fids@.len(), |j: int| (fids@[j].0@, fids@[j].1)),
            n as nat,
        ),
{
    let ghost fs = Seq::new(fids@.len(), |j: int| (fids@[j].0@, fids@[j].1));
    out.append("fn invoke");
    push_usize(out, n);
    out.append("(func:vec2f,");
    push_params(out, n);
    out.append(")->vec2f{var r=vec2f(0.0,0.0);switch(i32(func.x)){");
    let ghost head = out@;
    if fids.len() == 0 {
        out.append("default:{}");
    } else {
        let mut j: usize = 0;
        while j < fids.len()
            invariant
                j <= fids.len(),
                fs == Seq::new(fids@.len(), |j: int| (fids@[j].0@, fids@[j].1)),
                out@ == head + arms_text(fs, n as nat, j as nat),
            decreases fids.len() - j,
        {
            if j == 0 {
                out.append("case 0,default:{r=");
            } else {
                out.append("case ");
                push_usize(out, j);
                out.append(":{r=");
            }
            out.append(fids[j].0.as_str());
            out.append("(");
            push_call_args(out, fids[j].1, n);
            out.append(");}");
            assert(out@ =~= head + arms_text(fs, n as nat, (j + 1) as nat));
            j = j + 1;
        }
    }
    out.append("}return r;}\n");
    assert(out@ =~= old(out)@ + invoke_text(fs, n as nat));
}

pub(crate) fn push_iter(out: &mut String, n: usize)
    ensures
        final(out)@ == old(out)@ + iter_text(n as nat),
{
    out.append("fn iter");
    push_usize(out, n);
    out.append("(func:vec2f,n:vec2f,");
    push_params(out, n);
    out.append(")->vec2f{var r=");
    if n == 0 {
        out.append("vec2f(0.0,0.0)");
    } else {
        out.append("arg_0");
    }
    out.append(";for(var i=0;i<i32(n.x);i++){r=invoke");
    push_usize(out, n);
    out.append("(func,");
    if n > 0 {
        out.append("r,");
        push_tail_args(out, n);
    }
    out.append(");}return r;}\n");
    assert(out@ =~= old(out)@ + iter_text(n as nat));
}

fn push_deriv_name(out: &mut String, s: &String, k: usize)
    ensures
        final(out)@ == old(out)@ + deriv_name(s@, k as nat),
{
    out.append("deriv");
    push_usize(out, k);
    out.append("_");
    out.append(s.as_str());
    assert(out@ =~= old(out)@ + deriv_name(s@, k as nat));
}

fn push_probe(out: &mut String, s: &String, a: usize, k: usize, head: &str, mid: &str, tail: &str)
    ensures
        final(out)@ == old(out)@ + probe_text(s@, a as nat, k as nat, head@, mid@, tail@),
{
    out.append(head);
    if k <= 1 {
        out.append(s.as_str());
    } else {
        push_deriv_name(out, s, k - 1);
    }
    out.append(mid);
    push_tail_args(out, a);
    out.append(tail);
    assert(out@ =~= old(out)@ + probe_text(s@, a as nat, k as nat, head@, mid@, tail@));
}

pub(crate) fn push_deriv(out: &mut String, s: &String, a: usize, k: usize)
    ensures
        final(out)@ == old(out)@ + deriv_text(s@, a as nat, k as nat),
{
    out.append("fn ");
    push_deriv_name(out, s, k);
    out.append("(");
    push_params(out, a);
    out.append(")->vec2f{");
    let ghost h = out@;
    push_probe(out, s, a, k, "let a=c_mul(", "(arg_0+vec2f(D_EPS,0.0),", "),vec2f(0.25/D_EPS,0.0));");
    push_probe(out, s, a, k, "let b=c_mul(", "(arg_0-vec2f(D_EPS,0.0),", "),vec2f(-0.25/D_EPS,0.0));");
    push_probe(out, s, a, k, "let c=c_mul(", "(arg_0+vec2f(0.0,D_EPS),", "),vec2f(0.0,-0.25/D_EPS));");
    push_probe(out, s, a, k, "let d=c_mul(", "(arg_0-vec2f(0.0,D_EPS),", "),vec2f(0.0,0.25/D_EPS));");
    out.append("return a+b+c+d;}\n");
    assert(h =~= old(out)@ + "fn "@ + deriv_name(s@, k as nat) + "("@ + params_text(a as nat) + ")->vec2f{"@);
    assert(out@ =~= old(out)@ + deriv_text(s@, a as nat, k as nat));
}


} // verus!
