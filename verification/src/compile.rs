//! The whole pipeline: definition text to generated source, in one pass.

use vstd::prelude::*;

use crate::codegen::{machine_text, render};
use crate::diag::{Diag, DiagKind};
use crate::lexer::{LexOut, lex, lex_fail_diag, spec_lex};
use crate::machine::{assemble, ast_valid, cites_duplicate, cites_event_fault, distinct_names,
    event_names, machine_of, mem_states_from};
use crate::parser::{POut, parse, spec_machine};

verus! {

/// Compile one machine definition: tokenize it, parse it, assemble and
/// validate the machine graph, and render the generated module.  Exactly the
/// definitions whose text lexes, parses and assembles compile; the text
/// returned is exactly `machine_text` of the assembled machine, and a
/// rejected definition's diagnostic names the first fault, as the lexer's,
/// parser's and assembler's contracts state.
pub fn compile(src: &str) -> (r: Result<String, Diag>)
    ensures
        match spec_lex(src@, 0) {
            LexOut::Fail(p) => (r matches Err(d) && d@ == lex_fail_diag(p)),
            LexOut::Toks(ts) => match spec_machine(ts) {
                POut::Stop(d) => (r matches Err(e) && e@ == d),
                POut::Next(a, _) => {
                    &&& (r is Ok <==> ast_valid(a))
                    &&& (r matches Ok(text) ==> text@ == machine_text(machine_of(a)))
                    &&& (r matches Err(e) ==> if !distinct_names(a.inits) {
                        e@.kind == DiagKind::DuplicateInit && cites_duplicate(a.inits, e@)
                    } else if !distinct_names(mem_states_from(a.memory, 0)) {
                        e@.kind == DiagKind::DuplicateMemory && cites_duplicate(
                            mem_states_from(a.memory, 0),
                            e@,
                        )
                    } else if !distinct_names(a.traces) {
                        e@.kind == DiagKind::DuplicateTrace && cites_duplicate(a.traces, e@)
                    } else {
                        ||| (e@.kind == DiagKind::DuplicateEvent && cites_duplicate(
                            event_names(a.events),
                            e@,
                        ))
                        ||| ((e@.kind == DiagKind::DuplicateOrigin || e@.kind
                            == DiagKind::SelfReference || e@.kind == DiagKind::DuplicateEntry)
                            && cites_event_fault(a.events, e@))
                    })
                },
            },
        },
{
    let toks = match lex(src) {
        Ok(t) => t,
        Err(d) => {
            return Err(d);
        },
    };
    let ast = match parse(&toks) {
        Ok(a) => a,
        Err(d) => {
            return Err(d);
        },
    };
    let m = match assemble(&ast) {
        Ok(m) => m,
        Err(d) => {
            return Err(d);
        },
    };
    Ok(render(&m))
}

} // verus!
