//! What a driver needs around an analysis.

use vstd::prelude::*;
use vstd::string::StringExecFns;
use crate::analyze::flow::AnalysisError;

verus! {

/// The options of a run.
#[derive(Debug)]
pub struct Options {
    /// Where the scripts are written, for whoever wants to read them.
    pub output_file: String,
}

impl Default for Options {
    fn default() -> (options: Self)
        ensures
            options.output_file@ == "output.smt2"@,
    {
        Options { output_file: String::from_str("output.smt2") }
    }
}

/// What a run says at its end.
pub open spec fn spec_summary(result: Result<(), AnalysisError>) -> Seq<char> {
    match result {
        Ok(()) => "Verification succeeded"@,
        Err(e) => e.spec_report(),
    }
}

/// What a run says at its end: that it succeeded, or the line of its error.
pub fn summary(result: &Result<(), AnalysisError>) -> (line: String)
    ensures
        line@ == spec_summary(*result),
{
    match result {
        Ok(()) => String::from_str("Verification succeeded"),
        Err(e) => e.report(),
    }
}

} // verus!
