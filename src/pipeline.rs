//! The decisions of the compile-and-run pipeline: whether the compiler's
//! diagnostics reject the program, and how the outcome of a run is reported.
//! Writing the source, running the compiler and the program, and timing
//! them are left to the caller.
use vstd::prelude::*;

use crate::text::{contains, find, push_signed, signed_decimal};

verus! {

/// The status reported for a program that ended without an exit code
/// (killed by a signal).
pub const NO_STATUS: i32 = -100;

/// Whether the compiler's diagnostics hold a hard error: they are not empty
/// and hold the marker `error:`. Warnings alone are no failure.
pub open spec fn compile_failed(diagnostics: Seq<char>) -> bool {
    diagnostics.len() > 0 && contains(diagnostics, "error:"@)
}

/// The failure reported for a program that did not compile.
pub open spec fn compile_error_text(diagnostics: Seq<char>) -> Seq<char> {
    "Compile Error:\n "@ + diagnostics
}

/// Classifies what the compiler wrote to its error stream: a hard error
/// fails with the diagnostics; anything else, warnings too, lets the
/// program run.
pub fn compile_verdict(diagnostics: &str) -> (r: Result<(), String>)
    ensures
        compile_failed(diagnostics@) <==> r is Err,
        r is Err ==> r->Err_0@ == compile_error_text(diagnostics@),
{
    proof {
        reveal_strlit("error:");
    }
    if diagnostics.unicode_len() > 0 && find(diagnostics, "error:") {
        let mut why = String::new();
        why.append("Compile Error:\n ");
        why.append(diagnostics);
        Err(why)
    } else {
        Ok(())
    }
}

/// What a run of the compiled program gave: how long the whole pipeline
/// took, the exit status (`None` when a signal ended it), and what it wrote
/// to its two streams.
pub struct RunReport {
    pub elapsed: String,
    pub status: Option<i32>,
    pub stderr: String,
    pub stdout: String,
}

/// The status shown for a run.
pub open spec fn status_value(status: Option<i32>) -> int {
    match status {
        Some(code) => code as int,
        None => NO_STATUS as int,
    }
}

/// The text that reports a run: timing, status, error stream and output
/// stream, one labelled field per line.
pub open spec fn report_text(r: RunReport) -> Seq<char> {
    "[timing] \t"@ + r.elapsed@ + "\n[status] \t"@ + signed_decimal(status_value(r.status))
        + "\n[stderr] \t"@ + r.stderr@ + "\n[stdout] \t"@ + r.stdout@
}

/// Formats the report of a run.
pub fn format_output_handle(report: &RunReport) -> (r: String)
    ensures
        r@ == report_text(*report),
{
    let mut out = String::new();
    out.append("[timing] \t");
    out.append(report.elapsed.as_str());
    out.append("\n[status] \t");
    let code = match report.status {
        Some(code) => code,
        None => NO_STATUS,
    };
    push_signed(&mut out, code);
    out.append("\n[stderr] \t");
    out.append(report.stderr.as_str());
    out.append("\n[stdout] \t");
    out.append(report.stdout.as_str());
    out
}

} // verus!
