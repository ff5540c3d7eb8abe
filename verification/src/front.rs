//! The front end as one function: from source text to a program that is
//! ready to run, or to everything that is wrong with the text.

use vstd::prelude::*;
use crate::ast::{Program, ProgramView};
use crate::interpreter::Interpreter;
use crate::machine::InterpreterView;
use crate::runtime::Action;
use crate::lexer::{lex, spec_lex, LexError};
use crate::parser::{parse, spec_parse, SyntaxError};
use crate::resolver::{resolve, spec_resolve, ResolveError, ScopeTable};


verus! {

/// The exit status with which a driver by convention turns down a source
/// text that does not lex, parse or resolve.
pub const REJECTED: u8 = 64;

/// The program that `source` spells.
pub open spec fn program_of(source: Seq<char>) -> ProgramView {
    spec_parse(spec_lex(source).0).0
}

/// `source` has no lexical error and no syntax error.
pub open spec fn well_written(source: Seq<char>) -> bool {
    spec_lex(source).1.len() == 0 && spec_parse(spec_lex(source).0).1.len() == 0
}

/// What is wrong with a source text. The text is parsed even when it has
/// lexical errors, so both kinds can be present; it is resolved only when it
/// has neither.
#[derive(Debug)]
pub struct Diagnostics {
    pub lexical: Vec<LexError>,
    pub syntax: Vec<SyntaxError>,
    pub resolution: Vec<ResolveError>,
}

impl Diagnostics {
    /// These are the errors of `source`: its lexical errors, its syntax
    /// errors and, where it has neither, its resolution errors, and there is
    /// at least one of them.
    pub open spec fn explains(self, source: Seq<char>) -> bool {
        &&& self.lexical@ == spec_lex(source).1
        &&& self.syntax@ == spec_parse(spec_lex(source).0).1
        &&& if well_written(source) {
            spec_resolve(program_of(source)) == Err::<Seq<Option<usize>>, Seq<ResolveError>>(
                self.resolution@,
            ) && self.resolution@.len() > 0
        } else {
            self.resolution@.len() == 0
        }
    }
}

/// Lexes, parses and resolves `source`.
///
/// The program and its table come back just when the text has no lexical
/// error, no syntax error and no resolution error; else all the errors of
/// the first stage that found any come back, and with lexical errors those
/// of the parser too.
pub fn compile(source: &str) -> (r: Result<(Program, ScopeTable), Diagnostics>)
    ensures
        match r {
            Ok((program, table)) => {
                &&& well_written(source@)
                &&& program@ == program_of(source@)
                &&& program.wf()
                &&& spec_resolve(program@) == Ok::<Seq<Option<usize>>, Seq<ResolveError>>(table@)
            },
            Err(found) => found.explains(source@),
        },
{
    let (tokens, lexical) = lex(source);
    let (program, syntax) = parse(&tokens);
    if lexical.len() > 0 || syntax.len() > 0 {
        return Err(Diagnostics { lexical, syntax, resolution: Vec::new() });
    }
    match resolve(&program) {
        Ok(table) => Ok((program, table)),
        Err(resolution) => Err(Diagnostics { lexical, syntax, resolution }),
    }
}

/// Compiles `source` and, when nothing is wrong with it, starts to run it in
/// `interpreter` for at most `fuel` steps.
///
/// A text that is turned down leaves the interpreter as it was. A text that
/// is accepted runs under its own table against what the interpreter has
/// defined before; the action says what the host is to do next.
pub fn start(interpreter: &mut Interpreter, source: &str, fuel: usize) -> (r: Result<
    Action,
    Diagnostics,
>)
    ensures
        match r {
            Ok(action) => {
                &&& well_written(source@)
                &&& spec_resolve(program_of(source@)) matches Ok(table) && (final(interpreter)@, action)
                    == (InterpreterView { pending: Some(table), ..old(interpreter)@ }).load(
                    program_of(source@),
                ).run(fuel as nat)
            },
            Err(found) => found.explains(source@) && final(interpreter)@ == old(interpreter)@,
        },
{
    match compile(source) {
        Ok((program, table)) => {
            interpreter.add_scopes(table);
            Ok(interpreter.interpret(program, fuel))
        },
        Err(found) => Err(found),
    }
}

} // verus!
