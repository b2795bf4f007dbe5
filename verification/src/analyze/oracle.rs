//! The solver's side of an analysis.
//!
//! The library poses scripts and never runs a solver. Whoever drives it
//! hands each script to the solver, one fresh run per script, and gives the
//! solver's output back: [`Analysis::start`] names the first script to pose,
//! [`Analysis::answer`] takes an output and names the next script or the end.

use vstd::prelude::*;
use crate::analyze::flow::{AnalysisError, ErrorKind};
use crate::analyze::text::{contains, occurs_in, strings_view};
use crate::analyze::util::outcome;
use crate::analyze::Analysis;

verus! {

/// Whether a solver's output says that the goal is proved: it holds the
/// word `unsat`. Any other output, `sat`, `unknown`, an error or nothing at
/// all, proves nothing.
pub open spec fn proved(output: Seq<char>) -> bool {
    occurs_in("unsat"@, output)
}

/// Whether a solver's output says that the goal is proved.
pub fn is_proved(output: &str) -> (yes: bool)
    ensures
        yes == proved(output@),
{
    contains(output, "unsat")
}

/// What the driver does next.
#[derive(Debug)]
pub enum Step {
    /// Pose the script at this index and come back with the solver's output.
    Ask(usize),
    /// The analysis is over, with this result.
    Done(Result<(), AnalysisError>),
}

/// [`Step`] as a mathematical value.
pub enum SpecStep {
    Ask(nat),
    Done(Result<(), ErrorKind>),
}

impl View for Step {
    type V = SpecStep;

    open spec fn view(&self) -> SpecStep {
        match self {
            Step::Ask(index) => SpecStep::Ask(*index as nat),
            Step::Done(result) => SpecStep::Done(outcome(*result)),
        }
    }
}

/// The step before any script is posed, for an analysis that poses `n`
/// scripts and ends in `result`.
pub open spec fn first_step(n: nat, result: Result<(), ErrorKind>) -> SpecStep {
    if n == 0 {
        SpecStep::Done(result)
    } else {
        SpecStep::Ask(0)
    }
}

/// The step after the solver has answered script `asked` with `output`: a
/// goal that is not proved ends the analysis as failed, a proved one leads
/// to the next script, and after the last script to the result.
pub open spec fn next_step(n: nat, result: Result<(), ErrorKind>, asked: nat, output: Seq<char>) -> SpecStep {
    if asked >= n {
        SpecStep::Done(Err(ErrorKind::OutOfBounds(asked as usize)))
    } else if !proved(output) {
        SpecStep::Done(Err(ErrorKind::VerificationFailed))
    } else if asked + 1 < n {
        SpecStep::Ask(asked + 1)
    } else {
        SpecStep::Done(result)
    }
}

/// Whether one of the first `upto` outputs proves nothing.
pub open spec fn some_unproved(outputs: Seq<Seq<char>>, upto: int) -> bool {
    exists|i: int| 0 <= i < upto && i < outputs.len() && !proved(#[trigger] outputs[i])
}

/// What an analysis that poses `n` scripts and ends in `result` comes to,
/// where `outputs[i]` is the solver's output for script `i`: failed as soon
/// as one goal is not proved; else the result, provided that no output is
/// missing.
pub open spec fn verdict(n: nat, result: Result<(), ErrorKind>, outputs: Seq<Seq<char>>) -> Result<(), ErrorKind> {
    if some_unproved(outputs, n as int) {
        Err(ErrorKind::VerificationFailed)
    } else if outputs.len() < n {
        Err(ErrorKind::OutOfBounds(outputs.len() as usize))
    } else {
        result
    }
}

impl Analysis {
    /// The step before any script is posed.
    pub fn start(&self) -> (step: Step)
        ensures
            step@ == first_step(self.queries@.len(), outcome(self.result)),
    {
        if self.queries.len() == 0 {
            Step::Done(self.result_copy())
        } else {
            Step::Ask(0)
        }
    }

    /// The step after the solver has answered script `asked` with `output`.
    pub fn answer(&self, asked: usize, output: &str) -> (step: Step)
        ensures
            step@ == next_step(self.queries@.len(), outcome(self.result), asked as nat, output@),
    {
        if asked >= self.queries.len() {
            Step::Done(Err(AnalysisError::OutOfBounds(asked)))
        } else if !is_proved(output) {
            Step::Done(Err(AnalysisError::VerificationFailed))
        } else if asked + 1 < self.queries.len() {
            Step::Ask(asked + 1)
        } else {
            Step::Done(self.result_copy())
        }
    }

    /// What the analysis comes to, where `outputs[i]` is the solver's output
    /// for script `i`.
    pub fn conclude(&self, outputs: &Vec<String>) -> (res: Result<(), AnalysisError>)
        ensures
            outcome(res) == verdict(self.queries@.len(), outcome(self.result), strings_view(outputs@)),
    {
        let n = self.queries.len();
        let mut i: usize = 0;
        while i < n && i < outputs.len()
            invariant
                n == self.queries@.len(),
                i <= n,
                i <= outputs@.len(),
                !some_unproved(strings_view(outputs@), i as int),
            decreases n - i,
        {
            if !is_proved(outputs[i].as_str()) {
                assert(!proved(strings_view(outputs@)[i as int]));
                return Err(AnalysisError::VerificationFailed);
            }
            i += 1;
        }
        if outputs.len() < n {
            Err(AnalysisError::OutOfBounds(outputs.len()))
        } else {
            self.result_copy()
        }
    }

    fn result_copy(&self) -> (res: Result<(), AnalysisError>)
        ensures
            outcome(res) == outcome(self.result),
    {
        match &self.result {
            Ok(()) => Ok(()),
            Err(e) => Err(e.clone()),
        }
    }
}

} // verus!
