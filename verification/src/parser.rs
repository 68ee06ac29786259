//! The parser: recursive descent, with precedence climbing for expressions.
use vstd::prelude::*;

pub mod classes;
pub mod exprs;
pub mod forms;
pub mod grammar;
pub mod members;
pub mod names;
pub mod outlines;
pub mod probes;
pub mod progress;
pub mod stmts;
pub mod synthesis;
pub mod tokens;
pub mod trees;

use crate::ast::{Program, ProgramV};
use crate::lexer::{Token, lex, tokens_of};
use crate::parser::classes::program_of;
use crate::parser::tokens::{Parser, tokens_in, well_ended};

verus! {

/// The program that a text spells, or the error.
pub open spec fn parsed(s: Seq<char>) -> Result<ProgramV, Seq<char>> {
    match tokens_of(s) {
        Ok(t) => program_of(t),
        Err(m) => Err(m),
    }
}

/// Parse a source text.
pub fn parse(src: &str) -> (r: Result<Program, String>)
    ensures
        match r {
            Ok(p) => parsed(src@) == Ok::<ProgramV, Seq<char>>(p@),
            Err(m) => parsed(src@) == Err::<ProgramV, Seq<char>>(m@),
        },
{
    let toks: Vec<Token> = match lex(src) {
        Ok(v) => v,
        Err(m) => {
            return Err(m);
        },
    };
    proof {
        reveal(tokens_in);
        reveal(well_ended);
    }
    let p: Parser = Parser {
        toks,
        pos: 0,
        uses_exceptions: false,
        uses_functional: false,
        switch_expr_depth: 0,
    };
    p.program()
}

} // verus!
