//! One turn of the read-eval-print loop, as decisions: a line is a command or
//! a statement to push; after a statement's run, a failure rolls it back.
use vstd::prelude::*;

use crate::command::{command_done, execute_command, Origin, Step};
use crate::config::Config;
use crate::pipeline::{format_output_handle, report_text, RunReport};
use crate::program::{kind_of, Program, StatementType};
use crate::text::{has_prefix, trim, trimmed};

verus! {

/// Whether a (trimmed) line is a command: it begins with `~`.
pub open spec fn is_command(line: Seq<char>) -> bool {
    line.len() > 0 && line[0] == '~'
}

/// Takes one input line. Without its surrounding white space, a line that
/// begins with `~` is a command and is carried out; any other line is pushed
/// as the kind its first four characters give, and the program is to be
/// compiled and run.
pub fn interpret(input: &str, program: &mut Program, conf: &mut Config) -> (r: Step)
    ensures
        is_command(trimmed(input@)) ==> command_done(
            trimmed(input@),
            old(program)@,
            old(conf).cc@,
            final(program)@,
            final(conf).cc@,
            r,
        ),
        !is_command(trimmed(input@)) ==> {
            &&& r matches Step::Run(Origin::Statement)
            &&& final(program)@ == old(program)@.pushed(
                trimmed(input@),
                kind_of(trimmed(input@)),
            )
            &&& final(conf).cc@ == old(conf).cc@
        },
{
    let line = trim(input);
    proof {
        reveal_strlit("~");
    }
    if has_prefix(line, "~") {
        assert(line@.take(1)[0] == "~"@[0]);
        execute_command(line, program, conf)
    } else {
        proof {
            if line@.len() > 0 && line@[0] == '~' {
                assert(line@.take(1) =~= "~"@);
            }
        }
        let kind = StatementType::classify(line);
        program.push(line, kind);
        Step::Run(Origin::Statement)
    }
}

/// Settles the run of a line just pushed: on success the report of the run;
/// on failure the push is rolled back and the failure handed on.
pub fn conclude_statement(program: &mut Program, outcome: &Result<RunReport, String>) -> (r: Result<
    String,
    String,
>)
    ensures
        outcome is Ok ==> r is Ok && r->Ok_0@ == report_text(outcome->Ok_0) && final(program)@
            == old(program)@,
        outcome is Err ==> r is Err && r->Err_0@ == outcome->Err_0@ && final(program)@ == old(
            program,
        )@.popped(),
{
    match outcome {
        Ok(report) => Ok(format_output_handle(report)),
        Err(why) => {
            program.pop();
            Err(why.clone())
        },
    }
}

} // verus!
