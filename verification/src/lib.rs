//! Java as a front end to a bytecode machine: the verified core.
use vstd::prelude::*;

pub mod ast;
pub mod blocks;
pub mod double;
pub mod host;
pub mod injection;
pub mod lexer;
pub mod lsp;
pub mod matching;
pub mod parser;
pub mod prelude;
pub mod regex;
pub mod scanning;
pub mod text;
pub mod value;

use crate::ast::{Class, ClassV, Program, ProgramV};
use crate::blocks::{readied, ready};
use crate::injection::{injected_programs_are_complete, is_complete};
use crate::parser::parsed;
use crate::prelude::{inject, injected};
use crate::text::{own, own_all, views};
use crate::value::Value;

verus! {

/// The program that a text without inline native blocks spells, with the types it
/// uses and does not declare, or the error.
pub open spec fn program_in(text: Seq<char>) -> Result<ProgramV, Seq<char>> {
    match parsed(text) {
        Ok(p) => injected(p),
        Err(m) => Err(m),
    }
}

/// Parse a source text into a program that is ready to be lowered. Inline native
/// blocks are rewritten as calls first.
pub fn parse(src: &str) -> (r: Result<Program, String>)
    ensures
        match r {
            Ok(p) => program_in(readied(src@)) == Ok::<ProgramV, Seq<char>>(p@),
            Err(m) => program_in(readied(src@)) == Err::<ProgramV, Seq<char>>(m@),
        },
{
    parse_readied(ready(src).as_str())
}

/// Parse a text whose inline native blocks have been rewritten.
pub fn parse_readied(text: &str) -> (r: Result<Program, String>)
    ensures
        match r {
            Ok(p) => program_in(text@) == Ok::<ProgramV, Seq<char>>(p@),
            Err(m) => program_in(text@) == Err::<ProgramV, Seq<char>>(m@),
        },
{
    let mut prog: Program = match crate::parser::parse(text) {
        Ok(p) => p,
        Err(m) => {
            return Err(m);
        },
    };
    match inject(&mut prog) {
        Ok(_) => Ok(prog),
        Err(m) => Err(m),
    }
}

/// A text that parses is a program: adding the types it uses and does not declare
/// never fails, and leaves none of them out.
pub proof fn what_parses_is_a_program(text: Seq<char>)
    ensures
        program_in(text) is Ok <==> parsed(text) is Ok,
        program_in(text) matches Ok(p) ==> is_complete(p),
        program_in(text) matches Err(m) ==> parsed(text) == Err::<ProgramV, Seq<char>>(m),
{
    if let Ok(p) = parsed(text) {
        injected_programs_are_complete(p);
    }
}

/// The direct supertypes of a class: its superclass first, then its interfaces.
pub open spec fn direct_supertypes(c: ClassV) -> Seq<Seq<char>> {
    match c.superclass {
        Some(s) => seq![s] + c.interfaces,
        None => c.interfaces,
    }
}

/// The direct supertypes of every class of a program, by its name.
pub fn supertypes(prog: &Program) -> (r: Vec<(String, Vec<String>)>)
    ensures
        r.len() == prog@.classes.len(),
        forall|i: int|
            0 <= i < r.len() ==> (#[trigger] r@[i]).0@ == prog@.classes[i].name && views(r@[i].1@)
                == direct_supertypes(prog@.classes[i]),
{
    let mut r: Vec<(String, Vec<String>)> = Vec::new();
    let mut i: usize = 0;
    while i < prog.classes.len()
        invariant
            i <= prog.classes.len(),
            r.len() == i,
            forall|k: int|
                0 <= k < i ==> (#[trigger] r@[k]).0@ == prog@.classes[k].name && views(r@[k].1@)
                    == direct_supertypes(prog@.classes[k]),
        decreases prog.classes.len() - i,
    {
        let c: &Class = &prog.classes[i];
        assert(prog@.classes[i as int] == c@);
        let mut supers: Vec<String> = Vec::new();
        if let Some(s) = &c.superclass {
            supers.push(own(s.as_str()));
        }
        let mut more: Vec<String> = own_all(&c.interfaces);
        let ghost before = supers@;
        let ghost added = more@;
        supers.append(&mut more);
        assert(supers@ == before + added);
        assert(views(supers@) =~= views(before) + views(added));
        assert(views(supers@) =~= direct_supertypes(c@));
        r.push((own(c.name.as_str()), supers));
        i = i + 1;
    }
    assert(prog@.classes.len() == prog.classes.len());
    r
}

/// How the machine came to its end.
pub enum Ended {
    /// With a value.
    Done(Value),
    /// By the host, or with nothing left to do.
    Halted,
    Failed(String),
}

/// What a run comes to. A fault that the host has noted comes before everything
/// else: a machine that was halted in the middle of an expression may still
/// report a value. A halted machine leaves the value on top of its stack, or
/// none.
pub fn run_result(fault: Option<String>, ended: Ended, top: Option<Value>) -> (r: Result<
    Value,
    String,
>)
    ensures
        match fault {
            Some(e) => r == Err::<Value, String>(e),
            None => match ended {
                Ended::Done(v) => r == Ok::<Value, String>(v),
                Ended::Halted => r == Ok::<Value, String>(
                    match top {
                        Some(v) => v,
                        None => Value::Undef,
                    },
                ),
                Ended::Failed(m) => r == Err::<Value, String>(m),
            },
        },
{
    if let Some(e) = fault {
        return Err(e);
    }
    match ended {
        Ended::Done(v) => Ok(v),
        Ended::Halted => match top {
            Some(v) => Ok(v),
            None => Ok(Value::Undef),
        },
        Ended::Failed(m) => Err(m),
    }
}

} // verus!
