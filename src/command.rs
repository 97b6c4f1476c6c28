//! The meta-commands: lines that begin with `~`, dispatched on their first
//! four characters, that show or edit the program and the settings.
use vstd::prelude::*;

use crate::config::Config;
use crate::pipeline::{format_output_handle, report_text, RunReport};
use crate::program::{Program, ProgramView};
use crate::text::{
    has_prefix, join, join_from, parse_usize, parsed_usize, split_words, views, words,
};

verus! {

/// Why a command failed.
#[derive(Clone, Copy, Debug, PartialEq, Eq, Structural)]
pub enum CommandError {
    /// The index given to a delete is not a number.
    NotANumber,
    /// The index given to a delete is not below the number of lines.
    OutOfRange,
    /// The command is not one of those known.
    NotFound,
    /// The program did not compile.
    RunFailed,
}

/// The message that reports `e`.
pub open spec fn error_text(e: CommandError) -> Seq<char> {
    match e {
        CommandError::NotANumber => "Argument is not a number."@,
        CommandError::OutOfRange => "Statement index is out of range"@,
        CommandError::NotFound => "Command not found."@,
        CommandError::RunFailed => "A Runtime error must have occured."@,
    }
}

impl CommandError {
    /// The message that reports this failure.
    pub fn message(&self) -> (r: &'static str)
        ensures
            r@ == error_text(*self),
    {
        match self {
            CommandError::NotANumber => "Argument is not a number.",
            CommandError::OutOfRange => "Statement index is out of range",
            CommandError::NotFound => "Command not found.",
            CommandError::RunFailed => "A Runtime error must have occured.",
        }
    }
}

/// A command's reply, with its text as a sequence of characters.
pub open spec fn reply_view(r: Result<String, CommandError>) -> Result<Seq<char>, CommandError> {
    match r {
        Ok(s) => Ok(s@),
        Err(e) => Err(e),
    }
}

/// The listing that the view-source command shows around the source.
pub open spec fn listing(source: Seq<char>) -> Seq<char> {
    "Source code:\n____________________________\n"@ + source + "\n____________________________"@
}

/// The index that a delete command names: its second word, read as an
/// unsigned number.
pub open spec fn index_argument(input: Seq<char>) -> Option<usize> {
    let w = words(input);
    if w.len() >= 2 {
        parsed_usize(w[1])
    } else {
        None
    }
}

/// The reply to a delete command and the program after it.
pub open spec fn del_outcome(input: Seq<char>, p: ProgramView) -> (
    Result<Seq<char>, CommandError>,
    ProgramView,
) {
    match index_argument(input) {
        None => (Err(CommandError::NotANumber), p),
        Some(i) => if i < p.flat().len() {
            (Ok("removed ["@ + p.flat()[i as int] + "]"@), p.removed(i as int))
        } else {
            (Err(CommandError::OutOfRange), p)
        },
    }
}

/// The words of `input` after the first, joined by single spaces.
pub open spec fn rest_joined(input: Seq<char>) -> Seq<char> {
    let w = words(input);
    join(if w.len() > 0 { w.skip(1) } else { w }, seq![' '])
}

/// The reply to an argv command and the program after it: with more than
/// the four characters of the command, the other words become the argument
/// string; else it is shown.
pub open spec fn argv_outcome(input: Seq<char>, p: ProgramView) -> (
    Result<Seq<char>, CommandError>,
    ProgramView,
) {
    if input.len() > 4 {
        let a = rest_joined(input);
        (Ok("new argv = ["@ + a + "]"@), ProgramView { argv: a, ..p })
    } else {
        (Ok("current argv = ["@ + p.argv + "]"@), p)
    }
}

/// The reply to a compiler command and the compiler after it: with more
/// than the four characters of the command and a second word, that word
/// becomes the compiler; else it is shown.
pub open spec fn xcc_outcome(input: Seq<char>, cc: Seq<char>) -> (
    Result<Seq<char>, CommandError>,
    Seq<char>,
) {
    let w = words(input);
    if input.len() > 4 && w.len() >= 2 {
        (Ok("new compiler = ["@ + w[1] + "]"@), w[1])
    } else {
        (Ok("current compiler = ["@ + cc + "]"@), cc)
    }
}

/// Shows the labelled source.
pub fn command_src(program: &Program) -> (r: Result<String, CommandError>)
    ensures
        reply_view(r) == Ok::<Seq<char>, CommandError>(listing(program@.render(true))),
{
    let mut out = String::new();
    out.append("Source code:\n____________________________\n");
    let source = program.generate_source_code(true);
    out.append(source.as_str());
    out.append("\n____________________________");
    Ok(out)
}

/// Deletes the line whose flat index is the command's second word.
pub fn command_del(input: &str, program: &mut Program) -> (r: Result<String, CommandError>)
    ensures
        reply_view(r) == del_outcome(input@, old(program)@).0,
        final(program)@ == del_outcome(input@, old(program)@).1,
{
    let chunks = split_words(input);
    if chunks.len() < 2 {
        return Err(CommandError::NotANumber);
    }
    assert(views(chunks@)[1] == chunks@[1]@);
    let index = match parse_usize(chunks[1].as_str()) {
        Some(index) => index,
        None => return Err(CommandError::NotANumber),
    };
    match program.remove_at(index) {
        Some(removed) => {
            let mut out = String::new();
            out.append("removed [");
            out.append(removed.as_str());
            out.append("]");
            Ok(out)
        },
        None => Err(CommandError::OutOfRange),
    }
}

/// Shows the argument string, or replaces it with the words after the
/// command.
pub fn command_argv(input: &str, program: &mut Program) -> (r: Result<String, CommandError>)
    ensures
        reply_view(r) == argv_outcome(input@, old(program)@).0,
        final(program)@ == argv_outcome(input@, old(program)@).1,
{
    let mut out = String::new();
    if input.unicode_len() > 4 {
        let chunks = split_words(input);
        let from: usize = if chunks.len() > 0 { 1 } else { 0 };
        let new_argv = join_from(&chunks, from);
        assert(views(chunks@).skip(0) =~= views(chunks@));
        program.set_argv(new_argv);
        out.append("new argv = [");
    } else {
        out.append("current argv = [");
    }
    out.append(program.argv.as_str());
    out.append("]");
    Ok(out)
}

/// Shows the compiler, or replaces it with the word after the command.
pub fn command_xcc(input: &str, conf: &mut Config) -> (r: Result<String, CommandError>)
    ensures
        reply_view(r) == xcc_outcome(input@, old(conf).cc@).0,
        final(conf).cc@ == xcc_outcome(input@, old(conf).cc@).1,
{
    let mut out = String::new();
    let chunks = split_words(input);
    if input.unicode_len() > 4 && chunks.len() >= 2 {
        assert(views(chunks@)[1] == chunks@[1]@);
        conf.cc = chunks[1].clone();
        out.append("new compiler = [");
    } else {
        out.append("current compiler = [");
    }
    out.append(conf.cc.as_str());
    out.append("]");
    Ok(out)
}

/// Reports a run that the run command asked for: the report of the run,
/// or a failure when the program did not compile.
pub fn command_run(outcome: &Result<RunReport, String>) -> (r: Result<String, CommandError>)
    ensures
        outcome is Ok ==> r is Ok && r->Ok_0@ == report_text(outcome->Ok_0),
        outcome is Err ==> r == Err::<String, CommandError>(CommandError::RunFailed),
{
    match outcome {
        Ok(report) => Ok(format_output_handle(report)),
        Err(_) => Err(CommandError::RunFailed),
    }
}

/// Who asked for a compile and run.
#[derive(Clone, Copy, Debug, PartialEq, Eq, Structural)]
pub enum Origin {
    /// The run command: a failure is reported and changes nothing.
    Command,
    /// A line just pushed: a failure rolls the push back.
    Statement,
}

/// What the caller does next with an input line.
#[derive(Debug)]
pub enum Step {
    /// Show this reply; nothing else is to be done.
    Reply(Result<String, CommandError>),
    /// Compile and run the program.
    Run(Origin),
}

/// Whether the first four characters of `input` are `name`.
pub open spec fn command_is(input: Seq<char>, name: Seq<char>) -> bool {
    input.len() >= 4 && input.take(4) == name
}

/// The contract of a command: the step `r` that `input` gives, from the
/// program `p` and compiler `cc` before to `q` and `dd` after.
pub open spec fn command_done(
    input: Seq<char>,
    p: ProgramView,
    cc: Seq<char>,
    q: ProgramView,
    dd: Seq<char>,
    r: Step,
) -> bool {
    if command_is(input, "~src"@) {
        &&& r is Reply
        &&& reply_view(r->Reply_0) == Ok::<Seq<char>, CommandError>(listing(p.render(true)))
        &&& q == p && dd == cc
    } else if command_is(input, "~del"@) {
        &&& r is Reply
        &&& reply_view(r->Reply_0) == del_outcome(input, p).0
        &&& q == del_outcome(input, p).1 && dd == cc
    } else if command_is(input, "~run"@) {
        &&& r matches Step::Run(Origin::Command)
        &&& q == p && dd == cc
    } else if command_is(input, "~arg"@) {
        &&& r is Reply
        &&& reply_view(r->Reply_0) == argv_outcome(input, p).0
        &&& q == argv_outcome(input, p).1 && dd == cc
    } else if command_is(input, "~xcc"@) {
        &&& r is Reply
        &&& reply_view(r->Reply_0) == xcc_outcome(input, cc).0
        &&& q == p && dd == xcc_outcome(input, cc).1
    } else {
        &&& r is Reply
        &&& r->Reply_0 == Err::<String, CommandError>(CommandError::NotFound)
        &&& q == p && dd == cc
    }
}

/// Carries out the command on `input`, chosen by its first four characters;
/// the run command is handed back to the caller, who runs the program.
pub fn execute_command(input: &str, program: &mut Program, c: &mut Config) -> (r: Step)
    ensures
        command_done(input@, old(program)@, old(c).cc@, final(program)@, final(c).cc@, r),
{
    proof {
        reveal_strlit("~src");
        reveal_strlit("~del");
        reveal_strlit("~run");
        reveal_strlit("~arg");
        reveal_strlit("~xcc");
    }
    if has_prefix(input, "~src") {
        Step::Reply(command_src(program))
    } else if has_prefix(input, "~del") {
        Step::Reply(command_del(input, program))
    } else if has_prefix(input, "~run") {
        Step::Run(Origin::Command)
    } else if has_prefix(input, "~arg") {
        Step::Reply(command_argv(input, program))
    } else if has_prefix(input, "~xcc") {
        Step::Reply(command_xcc(input, c))
    } else {
        Step::Reply(Err(CommandError::NotFound))
    }
}

} // verus!
