use cxgraph::ast::{Defn, Expr};
use cxgraph::compiler::{CompileError, Compiler};
use cxgraph::number::{Complex, Ratio};
use cxgraph::optimizer::optimize;
use cxgraph::parser::Parser;
use cxgraph::scanner::{chars_of, Ident};
use cxgraph::{compile, Error};

fn folded_body(src: &str) -> Expr {
    let defs = Parser::new(src).parse().unwrap();
    let folded = optimize(&chars_of(src), &defs);
    match folded.into_iter().next().unwrap() {
        Defn::Const { body, .. } => body,
        Defn::Func { body, .. } => body,
    }
}

fn number(e: &Expr) -> Option<Complex> {
    match e {
        Expr::Number(z) => Some(*z),
        _ => None,
    }
}

fn c(rn: i64, rd: i64, inum: i64, id: i64) -> Complex {
    Complex { re: Ratio { num: rn, den: rd }, im: Ratio { num: inum, den: id } }
}

fn rejection(src: &str) -> CompileError {
    match compile(src) {
        Err(Error::Compile(e)) => e,
        other => panic!("expected a compile error, got {:?}", other),
    }
}

fn ident_text(src: &str, id: Ident) -> String {
    src.chars().skip(id.start).take(id.end - id.start).collect()
}

#[test]
fn folds_literal_arithmetic_exactly() {
    assert_eq!(number(&folded_body("p = 1 + 2")), Some(c(3, 1, 0, 1)));
    assert_eq!(number(&folded_body("p = i")), Some(c(0, 1, 1, 1)));
    assert_eq!(number(&folded_body("p = (1+i)*(1-i)")), Some(c(2, 1, 0, 1)));
    assert_eq!(number(&folded_body("p = 1/4")), Some(c(4, 16, 0, 16)));
    assert_eq!(number(&folded_body("p = conj(2 + 3i)")), Some(c(2, 1, -3, 1)));
    assert_eq!(number(&folded_body("p = abs_sq(3 + 4i)")), Some(c(25, 1, 0, 1)));
    assert_eq!(number(&folded_body("p = 0.5")), Some(c(5, 10, 0, 1)));
}

#[test]
fn leaves_what_has_no_exact_value() {
    assert!(number(&folded_body("p = exp(1)")).is_none());
    assert!(number(&folded_body("p = gamma(2)")).is_none());
    assert!(number(&folded_body("p = 2^2")).is_none());
    assert!(number(&folded_body("p = /0")).is_none());
    assert!(number(&folded_body("p = e")).is_none());
    assert!(number(&folded_body("p = 99999999999 * 99999999999")).is_none());
}

#[test]
fn parameters_are_never_folded() {
    match folded_body("f(i) = i") {
        Expr::Name(_) => {}
        other => panic!("expected the parameter, got {:?}", other),
    }
}

#[test]
fn folding_twice_is_folding_once() {
    let src = "f(z) = (1 + 2) * z + sin(2 * 3) + 4^(1/2)";
    let chars = chars_of(src);
    let defs = Parser::new(src).parse().unwrap();
    let once = optimize(&chars, &defs);
    let twice = optimize(&chars, &once);
    assert_eq!(format!("{:?}", once), format!("{:?}", twice));
}

#[test]
fn folded_value_matches_unfolded_code() {
    let folded = compile("plot(z) = mul(2 + i, 3 - 2i)\n").unwrap();
    assert_eq!(folded, "fn func_plot(arg_0:vec2f,)->vec2f{return vec2f(8.0,-1.0);}\n");
}

#[test]
fn plot_square_plus_one() {
    let out = compile("plot(z) = z^2 + 1").unwrap();
    assert_eq!(
        out,
        "fn func_plot(arg_0:vec2f,)->vec2f{return (c_pow(arg_0,vec2f(2.0,0.0)))+(vec2f(1.0,0.0));}\n"
    );
}

#[test]
fn constants_and_builtins() {
    let out = compile("k = 2\nplot(z) = k * e + sin(z)").unwrap();
    assert!(out.starts_with("fn const_k()->vec2f{return vec2f(2.0,0.0);}\n"));
    assert!(out.ends_with("{return (c_mul(const_k(),CONST_E))+(c_sin(arg_0,));}\n"));
}

#[test]
fn redefinitions_are_rejected() {
    let src = "a = 1\na = 2\nplot(z) = z";
    assert!(matches!(rejection(src), CompileError::GlobalReassignment(id) if ident_text(src, id) == "a"));
    let src = "f(x) = x\nf = 2\nplot(z) = z";
    assert!(matches!(rejection(src), CompileError::GlobalReassignment(id) if ident_text(src, id) == "f"));
    let src = "f = 1\nf(x) = x\nplot(z) = z";
    assert!(matches!(rejection(src), CompileError::GlobalReassignment(_)));
    let src = "g(x) = x\ng(y) = y\nplot(z) = z";
    assert!(matches!(rejection(src), CompileError::GlobalReassignment(_)));
    let src = "sin(x) = x\nplot(z) = z";
    assert!(matches!(rejection(src), CompileError::BuiltinReassignment(_)));
    let src = "i = 2\nplot(z) = z";
    assert!(matches!(rejection(src), CompileError::BuiltinReassignment(_)));
}

#[test]
fn redefinition_emits_nothing() {
    let src = "a = 1\na = 2\nplot(z) = z";
    let defs = Parser::new(src).parse().unwrap();
    let mut cmp = Compiler::new(src);
    assert!(cmp.compile_defn(&defs[0]).is_ok());
    let before = cmp.into_output();
    let mut cmp = Compiler::new(src);
    cmp.compile_defn(&defs[0]).unwrap();
    assert!(matches!(cmp.compile_defn(&defs[1]), Err(CompileError::GlobalReassignment(_))));
    assert_eq!(cmp.into_output(), before);
}

#[test]
fn undefined_names_and_wrong_counts() {
    let src = "plot(z) = w";
    assert!(matches!(rejection(src), CompileError::UndefinedVar(id) if ident_text(src, id) == "w"));
    let src = "plot(z) = nope(z)";
    assert!(matches!(rejection(src), CompileError::UndefinedVar(_)));
    let src = "f(a, b) = a\nplot(z) = f(z)";
    assert!(matches!(rejection(src), CompileError::ArgCount(id) if ident_text(src, id) == "f"));
    let src = "plot(z) = sin(z, z)";
    assert!(matches!(rejection(src), CompileError::ArgCount(_)));
}

#[test]
fn type_errors_and_marks() {
    assert!(matches!(rejection("k = 1\nplot(z) = k(z)"), CompileError::TypeError(_)));
    assert!(matches!(rejection("plot(z) = z(1)"), CompileError::TypeError(_)));
    assert!(matches!(rejection("c() = 1\nplot(z) = c'()"), CompileError::TypeError(_)));
    assert!(matches!(rejection("f(x) = x\nplot(z) = f'"), CompileError::StandaloneDerivative(_)));
}

#[test]
fn entry_point_is_checked() {
    assert_eq!(rejection("f(z) = z"), CompileError::MissingPlot);
    assert_eq!(rejection("plot = 1"), CompileError::MissingPlot);
    assert_eq!(rejection("plot(z, w) = z"), CompileError::PlotArity(2));
    let src = "plot(z) = z";
    let defs = Parser::new(src).parse().unwrap();
    let mut cmp = Compiler::new(src);
    assert_eq!(cmp.ensure_plot_defined(), Err(CompileError::MissingPlot));
    cmp.compile_defn(&defs[0]).unwrap();
    assert_eq!(cmp.ensure_plot_defined(), Ok(()));
}

#[test]
fn second_derivative_nests_two_wrappers() {
    let out = compile("f(z) = z^3\nplot(z) = f''(z)").unwrap();
    assert!(out.contains("fn func_plot(arg_0:vec2f,)->vec2f{return deriv2_func_f(arg_0,);}\n"));
    assert!(out.contains("let a=c_mul(func_f(arg_0+vec2f(D_EPS,0.0),),vec2f(0.25/D_EPS,0.0));"));
    assert!(out.contains("let a=c_mul(deriv1_func_f(arg_0+vec2f(D_EPS,0.0),),vec2f(0.25/D_EPS,0.0));"));
    assert_eq!(out.matches("fn deriv1_func_f").count(), 1);
    assert_eq!(out.matches("fn deriv2_func_f").count(), 1);
}

#[test]
fn derivative_passes_other_arguments_through() {
    let out = compile("f(z, a) = z * a\nplot(z) = f'(z, 2)").unwrap();
    assert!(out.contains("return deriv1_func_f(arg_0,vec2f(2.0,0.0),);"));
    assert_eq!(out.matches("arg_1,),vec2f").count(), 4);
    assert!(out.contains("let c=c_mul(func_f(arg_0+vec2f(0.0,D_EPS),arg_1,),vec2f(0.0,-0.25/D_EPS));"));
    assert!(out.ends_with("return a+b+c+d;}\n"));
}

#[test]
fn function_values_get_ordered_ids() {
    let out = compile("f(z) = z\ng(z, w) = w\nplot(z) = invoke1(g, z) + invoke1(f, z) + invoke1(g, 1)").unwrap();
    assert!(out.contains("const fid_func_g=vec2f(0.0,0.0);\n"));
    assert!(out.contains("const fid_func_f=vec2f(1.0,0.0);\n"));
    assert_eq!(out.matches("const fid_").count(), 2);
    assert!(out.contains(
        "fn invoke1(func:vec2f,arg_0:vec2f,)->vec2f{var r=vec2f(0.0,0.0);switch(i32(func.x)){case 0,default:{r=func_g(arg_0,vec2f(0.0,0.0),);}case 1:{r=func_f(arg_0,);}}return r;}\n"
    ));
    assert_eq!(out.matches("fn invoke1").count(), 1);
    assert!(out.contains("fn invoke2"));
}

#[test]
fn iteration_uses_the_dispatcher() {
    let out = compile("f(z, c) = z^2 + c\nplot(z) = iter2(f, 10, 0, z)").unwrap();
    assert!(out.contains("return iter2(fid_func_f,vec2f(10.0,0.0),vec2f(0.0,0.0),arg_0,);"));
    assert!(out.contains(
        "fn iter2(func:vec2f,n:vec2f,arg_0:vec2f,arg_1:vec2f,)->vec2f{var r=arg_0;for(var i=0;i<i32(n.x);i++){r=invoke2(func,r,arg_1,);}return r;}\n"
    ));
    assert!(out.contains("fn invoke2(func:vec2f,arg_0:vec2f,arg_1:vec2f,)->vec2f{var r=vec2f(0.0,0.0);switch(i32(func.x)){case 0,default:{r=func_f(arg_0,arg_1,);}}return r;}\n"));
    assert_eq!(out.matches("fn invoke2").count(), 1);
}

#[test]
fn parse_errors_pass_through() {
    assert!(matches!(compile("plot(z) = \u{28}z"), Err(Error::Parse(_))));
}

#[test]
fn empty_source_has_no_entry_point() {
    assert_eq!(rejection(""), CompileError::MissingPlot);
    assert_eq!(rejection("\n\n"), CompileError::MissingPlot);
}

#[test]
fn literal_at_the_64_bit_boundary() {
    let out = compile("plot(z) = 9223372036854775807").unwrap();
    assert_eq!(out, "fn func_plot(arg_0:vec2f,)->vec2f{return vec2f(9223372036854775807.0,0.0);}\n");
    assert!(matches!(compile("plot(z) = 9223372036854775808"), Err(Error::Parse(_))));
}

#[test]
fn dispatchers_without_arguments() {
    let out = compile("k() = 2\nplot(z) = iter0(k, 3) + invoke0(k)").unwrap();
    assert!(out.contains("fn invoke0(func:vec2f,)->vec2f{var r=vec2f(0.0,0.0);switch(i32(func.x)){case 0,default:{r=func_k();}}return r;}\n"));
    assert!(out.contains("fn iter0(func:vec2f,n:vec2f,)->vec2f{var r=vec2f(0.0,0.0);for(var i=0;i<i32(n.x);i++){r=invoke0(func,);}return r;}\n"));
    assert_eq!(out.matches("fn invoke0").count(), 1);
}

#[test]
fn dispatcher_without_function_values() {
    let out = compile("plot(z) = invoke1(z, z)").unwrap();
    assert!(out.contains("switch(i32(func.x)){default:{}}return r;}"));
}

#[test]
fn family_index_has_at_most_nine_digits() {
    assert!(compile("plot(z) = invoke123456789(z, z)").is_err());
    assert!(matches!(rejection("plot(z) = invoke1234567890(z)"), CompileError::UndefinedVar(_)));
    assert!(matches!(rejection("plot(z) = invokex(z)"), CompileError::UndefinedVar(_)));
}

#[test]
fn user_names_shadow_families_and_params_shadow_globals() {
    let out = compile("invoke1(a) = a\nk = 1\nplot(k) = invoke1(k)").unwrap();
    assert!(out.contains("fn func_invoke1(arg_0:vec2f,)->vec2f{return arg_0;}\n"));
    assert!(out.contains("fn func_plot(arg_0:vec2f,)->vec2f{return func_invoke1(arg_0,);}\n"));
    assert!(!out.contains("fn invoke1"));
}
