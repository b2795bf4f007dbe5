//! Statement-by-statement execution, and what a statement can end in.

use vstd::prelude::*;
use vstd::string::StringExecFns;
use crate::analyze::term::{SpecTerm, Term};
use crate::analyze::text::{decimal, push_decimal};
use crate::analyze::env::Env;
use crate::analyze::model;
use crate::analyze::text::strings_view;
use crate::analyze::util::realizes;
use crate::analyze::Analyzer;
use crate::thir::rthir::{LocalDefId, LocalVarId, RExpr, RExprKind, RThir};

verus! {

/// How a statement hands control on.
#[derive(Debug)]
pub enum AnalysisType {
    /// A `break`: the rest of the innermost block is skipped.
    Break,
    /// Control goes on to the next statement.
    Other,
    /// A `return`, with the term of the returned value where there is one.
    Return(Option<Term>),
}

/// [`AnalysisType`] as a mathematical value.
pub enum SpecAnalysisType {
    Break,
    Other,
    Return(Option<SpecTerm>),
}

impl View for AnalysisType {
    type V = SpecAnalysisType;

    open spec fn view(&self) -> SpecAnalysisType {
        match self {
            AnalysisType::Break => SpecAnalysisType::Break,
            AnalysisType::Other => SpecAnalysisType::Other,
            AnalysisType::Return(None) => SpecAnalysisType::Return(None),
            AnalysisType::Return(Some(term)) => SpecAnalysisType::Return(Some(term@)),
        }
    }
}

/// Why an analysis stopped.
#[derive(Debug)]
pub enum AnalysisError {
    /// The tree holds a shape that the analyzer does not model.
    Unsupported(String),
    /// The shape is known, but nothing handles it yet.
    Unimplemented(String),
    /// A variable was read or assigned before any binding of it.
    UnboundVariable(LocalVarId),
    /// A function of the analysed crate has no entry in the function table.
    FunctionNotFound(LocalDefId),
    /// The solver did not prove an assertion.
    VerificationFailed,
    /// An argument or a path segment was asked for at an index that is not there.
    OutOfBounds(usize),
    /// The expression draws a nondeterministic value; a `let` answers this
    /// with a fresh symbol, anywhere else it ends the analysis.
    RandFunctions,
}

/// An [`AnalysisError`] without its message.
pub enum ErrorKind {
    Unsupported,
    Unimplemented,
    UnboundVariable(LocalVarId),
    FunctionNotFound(LocalDefId),
    VerificationFailed,
    OutOfBounds(usize),
    RandFunctions,
}

impl View for AnalysisError {
    type V = ErrorKind;

    open spec fn view(&self) -> ErrorKind {
        match self {
            AnalysisError::Unsupported(_) => ErrorKind::Unsupported,
            AnalysisError::Unimplemented(_) => ErrorKind::Unimplemented,
            AnalysisError::UnboundVariable(id) => ErrorKind::UnboundVariable(*id),
            AnalysisError::FunctionNotFound(id) => ErrorKind::FunctionNotFound(*id),
            AnalysisError::VerificationFailed => ErrorKind::VerificationFailed,
            AnalysisError::OutOfBounds(idx) => ErrorKind::OutOfBounds(*idx),
            AnalysisError::RandFunctions => ErrorKind::RandFunctions,
        }
    }
}

impl Clone for AnalysisError {
    fn clone(&self) -> (res: Self)
        ensures
            res == *self,
    {
        match self {
            AnalysisError::Unsupported(message) => AnalysisError::Unsupported(message.clone()),
            AnalysisError::Unimplemented(message) => AnalysisError::Unimplemented(message.clone()),
            AnalysisError::UnboundVariable(id) => AnalysisError::UnboundVariable(*id),
            AnalysisError::FunctionNotFound(id) => AnalysisError::FunctionNotFound(*id),
            AnalysisError::VerificationFailed => AnalysisError::VerificationFailed,
            AnalysisError::OutOfBounds(idx) => AnalysisError::OutOfBounds(*idx),
            AnalysisError::RandFunctions => AnalysisError::RandFunctions,
        }
    }
}

impl AnalysisError {
    /// The line that a driver prints for this error.
    pub open spec fn spec_report(&self) -> Seq<char> {
        match self {
            AnalysisError::Unsupported(message) => "Unsupported: "@ + message@,
            AnalysisError::Unimplemented(message) => "Unimplemented: "@ + message@,
            AnalysisError::UnboundVariable(id) => "Unbound variable: "@ + decimal(id.0 as nat),
            AnalysisError::FunctionNotFound(id) => "Function not found: "@ + decimal(
                id.local_def_index as nat,
            ),
            AnalysisError::VerificationFailed => "Verification failed"@,
            AnalysisError::OutOfBounds(idx) => "Out of bounds: "@ + decimal(*idx as nat),
            AnalysisError::RandFunctions => "Rand functions"@,
        }
    }

    /// The line that a driver prints for this error.
    pub fn report(&self) -> (line: String)
        ensures
            line@ == self.spec_report(),
    {
        match self {
            AnalysisError::Unsupported(message) => {
                let mut line = String::from_str("Unsupported: ");
                line.append(message.as_str());
                line
            },
            AnalysisError::Unimplemented(message) => {
                let mut line = String::from_str("Unimplemented: ");
                line.append(message.as_str());
                line
            },
            AnalysisError::UnboundVariable(id) => {
                let mut line = String::from_str("Unbound variable: ");
                push_decimal(&mut line, id.0 as u128);
                line
            },
            AnalysisError::FunctionNotFound(id) => {
                let mut line = String::from_str("Function not found: ");
                push_decimal(&mut line, id.local_def_index as u128);
                line
            },
            AnalysisError::VerificationFailed => String::from_str("Verification failed"),
            AnalysisError::OutOfBounds(idx) => {
                let mut line = String::from_str("Out of bounds: ");
                push_decimal(&mut line, *idx as u128);
                line
            },
            AnalysisError::RandFunctions => String::from_str("Rand functions"),
        }
    }
}


impl Analyzer {
    /// The analysis of one function from its entry. Calls are inlined as
    /// deep as the table has functions, which no chain of calls without
    /// recursion exceeds.
    pub fn analyze_enter(&self, rthir: &RThir, queries: &mut Vec<String>) -> (res: Result<(), AnalysisError>)
        ensures
            ({
                let run = model::analyze_enter(self.fn_map@, *rthir, strings_view(old(queries)@));
                &&& strings_view(final(queries)@) == run.queries
                &&& crate::analyze::util::outcome(res) == run.res
            }),
    {
        match &rthir.body {
            Some(body) => {
                let mut main_env = Env::new();
                let depth = self.fn_map.len();
                self.analyze_block(body, &mut main_env, queries, depth)
            },
            None => Ok(()),
        }
    }

    /// The statements of a block, in order, until one hands control
    /// elsewhere. Statements that mark invariants are taken together with the
    /// loop that follows them; an invariant that no loop follows is an
    /// assumption like any other.
    pub fn run_stmts(&self, stmts: &Vec<RExpr>, env: &mut Env, queries: &mut Vec<String>, depth: usize) -> (res:
        Result<AnalysisType, AnalysisError>)
        ensures
            realizes(
                model::run_stmts(self.fn_map@, depth as nat, stmts@, 0, strings_view(old(queries)@), old(env)@),
                res,
                final(queries)@,
                *final(env),
            ),
        decreases depth, stmts@, stmts@.len(), stmts@.len() + 2,
    {
        let ghost whole = model::run_stmts(
            self.fn_map@,
            depth as nat,
            stmts@,
            0,
            strings_view(queries@),
            env@,
        );
        let mut i: usize = 0;
        while i < stmts.len()
            invariant
                whole == model::run_stmts(self.fn_map@, depth as nat, stmts@, 0, strings_view(old(queries)@), old(env)@),
                i <= stmts.len(),
                whole == model::run_stmts(
                    self.fn_map@,
                    depth as nat,
                    stmts@,
                    i as nat,
                    strings_view(queries@),
                    env@,
                ),
            decreases stmts.len() - i,
        {
            let k = if self.is_invariant(&stmts[i]) {
                self.invariants_end(stmts, i)
            } else {
                stmts.len()
            };
            let heads_loop = k < stmts.len() && match &stmts[k].kind {
                RExprKind::Loop { .. } => true,
                _ => false,
            };
            if heads_loop {
                match self.analyze_loop(stmts, i, k, env, queries, depth) {
                    Ok(()) => {},
                    Err(e) => {
                        return Err(e);
                    },
                }
                i = k + 1;
            } else {
                match self.analyze_expr(&stmts[i], env, queries, depth) {
                    Ok(AnalysisType::Other) => {},
                    Ok(signal) => {
                        return Ok(signal);
                    },
                    Err(e) => {
                        return Err(e);
                    },
                }
                i += 1;
            }
        }
        Ok(AnalysisType::Other)
    }

    /// A block as a statement.
    pub fn analyze_body(&self, body: &RExpr, env: &mut Env, queries: &mut Vec<String>, depth: usize) -> (res:
        Result<AnalysisType, AnalysisError>)
        ensures
            realizes(
                model::analyze_body(self.fn_map@, depth as nat, *body, strings_view(old(queries)@), old(env)@),
                res,
                final(queries)@,
                *final(env),
            ),
        decreases depth, body, 2nat, 0nat,
    {
        match &body.kind {
            RExprKind::Block { stmts, expr } => match self.run_stmts(stmts, env, queries, depth) {
                Ok(AnalysisType::Other) => match expr {
                    Some(expr) => match self.analyze_expr(expr, env, queries, depth) {
                        Ok(AnalysisType::Break) => Ok(AnalysisType::Other),
                        Ok(signal) => Ok(signal),
                        Err(e) => Err(e),
                    },
                    None => Ok(AnalysisType::Other),
                },
                Ok(AnalysisType::Break) => Ok(AnalysisType::Other),
                Ok(signal) => Ok(signal),
                Err(e) => Err(e),
            },
            _ => Err(AnalysisError::Unsupported(String::from_str("Only block expressions are supported"))),
        }
    }

    /// One statement.
    pub fn analyze_expr(&self, expr: &RExpr, env: &mut Env, queries: &mut Vec<String>, depth: usize) -> (res:
        Result<AnalysisType, AnalysisError>)
        ensures
            realizes(
                model::analyze_expr(self.fn_map@, depth as nat, *expr, strings_view(old(queries)@), old(env)@),
                res,
                final(queries)@,
                *final(env),
            ),
        decreases depth, expr, 5nat, 0nat,
    {
        match &expr.kind {
            RExprKind::Literal { .. } => match self.analyze_literal(expr) {
                Ok(_) => Ok(AnalysisType::Other),
                Err(e) => Err(e),
            },
            RExprKind::Binary { .. } => match self.analyze_binary(expr, env, queries, depth) {
                Ok(()) => Ok(AnalysisType::Other),
                Err(e) => Err(e),
            },
            RExprKind::Call { .. } => self.analyze_fn(expr, env, queries, depth),
            RExprKind::Block { .. } => self.analyze_body(expr, env, queries, depth),
            RExprKind::LetStmt { .. } => self.analyze_let_stmt(expr, env, queries, depth),
            RExprKind::Assign { .. } => self.analyze_assign(expr, env, queries, depth),
            RExprKind::AssignOp { .. } => self.analyze_assign_op(expr, env, queries, depth),
            RExprKind::Loop { body } => self.analyze_body(body, env, queries, depth),
            RExprKind::If { .. } => self.analyze_if(expr, env, queries, depth),
            RExprKind::Return { value } => match value {
                Some(value) => match self.expr_to_const(value, env, queries, depth) {
                    Ok(constraint) => Ok(AnalysisType::Return(Some(constraint))),
                    Err(e) => Err(e),
                },
                None => Ok(AnalysisType::Return(None)),
            },
            RExprKind::Break { .. } => Ok(AnalysisType::Break),
            _ => Err(AnalysisError::Unsupported(String::from_str("Unsupported expression"))),
        }
    }
}

} // verus!
