//! A compiler from a small language of complex-valued functions to the
//! source text of a shader routine set.
//!
//! The pipeline runs forward: [`scanner`] turns text into positioned tokens,
//! [`parser`] builds definitions by precedence climbing, [`optimizer`] folds
//! constant subexpressions with exact rational arithmetic, and [`compiler`]
//! emits target code and the helper routines that the program demands.
use vstd::prelude::*;

use crate::ast::DefnV;
use crate::builtins::Type;
use crate::compiler::{declared, defs_demands, defs_text, plot_error, CompileError, Compiler, Reg};
use crate::optimizer::{fold_defn, optimize};
use crate::parser::{defn_views, parse_source, ParseError, Parser};
use crate::routines::generated_text;
use crate::scanner::{chars_of, Ident};

pub mod ast;
pub mod builtins;
pub mod compiler;
pub mod number;
pub mod optimizer;
pub mod parser;
pub mod routines;
pub mod scanner;
pub mod text;

verus! {

/// A place in the source: the character offset, and the line and column,
/// both counted from 1.
#[derive(Clone, Copy, Debug, PartialEq, Eq, Structural)]
pub struct Position {
    pub pos: usize,
    pub line: usize,
    pub col: usize,
}

/// Why a source does not compile.
#[derive(Clone, Copy, Debug, PartialEq, Eq, Structural)]
pub enum Error {
    Parse(ParseError),
    Compile(CompileError),
}

/// The definitions of `src` after folding, where it parses.
pub open spec fn folded_source(src: Seq<char>) -> Result<Seq<DefnV>, ParseError> {
    match parse_source(src) {
        Err(e) => Err(e),
        Ok(ds) => Ok(Seq::new(ds.len(), |i: int| fold_defn(src, ds[i]))),
    }
}

/// The registry that the folded definitions `fds` leave: function
/// identifiers and helper routines, in order of first demand.
pub open spec fn demands_of(src: Seq<char>, fds: Seq<DefnV>) -> Reg {
    defs_demands(src, seq![], fds, 0, (seq![], seq![]))
}

/// Compiles a whole source text: parses it, folds constants, emits one
/// routine per definition in order, checks for the entry point `plot`, and
/// appends the helper routines that the definitions demanded. The first
/// error stops everything and no text is returned.
pub fn compile(src: &str) -> (r: Result<String, Error>)
    ensures
        match folded_source(src@) {
            Err(e) => r == Err::<String, Error>(Error::Parse(e)),
            Ok(fds) => match defs_text(src@, seq![], fds, 0) {
                Err(x) => r == Err::<String, Error>(Error::Compile(x)),
                Ok(t) => match plot_error(src@, declared(fds)) {
                    Some(x) => r == Err::<String, Error>(Error::Compile(x)),
                    None => r matches Ok(out) && out@ == t + generated_text(
                        demands_of(src@, fds).0,
                        demands_of(src@, fds).1,
                    ),
                },
            },
        },
{
    let parser = Parser::new(src);
    let defs = match parser.parse() {
        Ok(defs) => defs,
        Err(e) => { return Err(Error::Parse(e)); },
    };
    let chars = chars_of(src);
    let folded = optimize(&chars, &defs);
    let ghost fds = defn_views(folded@);
    proof {
        let ds = defn_views(defs@);
        assert(parse_source(src@) == Ok::<Seq<DefnV>, ParseError>(ds));
        assert(fds =~= Seq::new(ds.len(), |i: int| fold_defn(src@, ds[i])));
        assert(folded_source(src@) == Ok::<Seq<DefnV>, ParseError>(fds));
    }
    let mut c = Compiler::new(src);
    assert(Seq::<(Ident, Type)>::empty() + declared(fds) =~= declared(fds));
    match c.compile_defs(&folded) {
        Err(x) => { return Err(Error::Compile(x)); },
        Ok(()) => {},
    }
    proof {
        if let Ok(t) = defs_text(src@, seq![], fds, 0) {
            assert(Seq::<char>::empty() + t =~= t);
        }
    }
    match c.ensure_plot_defined() {
        Err(x) => { return Err(Error::Compile(x)); },
        Ok(()) => {},
    }
    c.generate();
    let out = c.into_output();
    Ok(out)
}

} // verus!
