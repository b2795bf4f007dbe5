//! The annotations: assertions, assumptions, loop invariants and drops.

use vstd::prelude::*;
use vstd::string::StringExecFns;
use crate::analyze::env::Env;
use crate::analyze::flow::{AnalysisError, AnalysisType};
use crate::analyze::model;
use crate::analyze::term::Term;
use crate::analyze::text::strings_view;
use crate::analyze::util::realizes;
use crate::analyze::Analyzer;
use crate::thir::rthir::{RExpr, RExprKind};

verus! {

impl Analyzer {
    /// `assert(e)`: poses `e` as a goal and assumes it from then on.
    pub fn analyze_assert(&self, args: &Vec<RExpr>, env: &mut Env, queries: &mut Vec<String>, depth: usize) -> (res:
        Result<AnalysisType, AnalysisError>)
        ensures
            realizes(
                model::analyze_assert(self.fn_map@, depth as nat, args@, strings_view(old(queries)@), old(env)@),
                res,
                final(queries)@,
                *final(env),
            ),
        decreases depth, args@, 0nat, 0nat,
    {
        if args.len() == 0 {
            return Err(AnalysisError::OutOfBounds(0));
        }
        let constraint = match self.expr_to_const(&args[0], env, queries, depth) {
            Ok(constraint) => constraint,
            Err(e) => {
                return Err(e);
            },
        };
        match env.verify_z3(&constraint, queries) {
            Ok(()) => {},
            Err(e) => {
                return Err(e);
            },
        }
        env.add_smt_command(constraint);
        Ok(AnalysisType::Other)
    }

    /// `assume(e)`: assumes `e` from then on.
    pub fn analyze_assume(&self, args: &Vec<RExpr>, env: &mut Env, queries: &mut Vec<String>, depth: usize) -> (res:
        Result<AnalysisType, AnalysisError>)
        ensures
            realizes(
                model::analyze_assume(self.fn_map@, depth as nat, args@, strings_view(old(queries)@), old(env)@),
                res,
                final(queries)@,
                *final(env),
            ),
        decreases depth, args@, 0nat, 0nat,
    {
        if args.len() == 0 {
            return Err(AnalysisError::OutOfBounds(0));
        }
        let constraint = match self.expr_to_const(&args[0], env, queries, depth) {
            Ok(constraint) => constraint,
            Err(e) => {
                return Err(e);
            },
        };
        env.add_smt_command(constraint);
        Ok(AnalysisType::Other)
    }

    /// `invariant(e)` where no loop follows it: the same as an assumption.
    pub fn analyze_invariant(&self, args: &Vec<RExpr>, env: &mut Env, queries: &mut Vec<String>, depth: usize) -> (res:
        Result<AnalysisType, AnalysisError>)
        ensures
            realizes(
                model::analyze_assume(self.fn_map@, depth as nat, args@, strings_view(old(queries)@), old(env)@),
                res,
                final(queries)@,
                *final(env),
            ),
        decreases depth, args@, 0nat, 1nat,
    {
        self.analyze_assume(args, env, queries, depth)
    }

    /// `drop(x)`: from then on `x` stands for a fresh symbol without any constraint.
    pub fn analyze_drop(&self, args: &Vec<RExpr>, env: &mut Env) -> (res: Result<AnalysisType, AnalysisError>)
        ensures
            match model::analyze_drop(args@, old(env)@) {
                Ok(dropped) => res matches Ok(AnalysisType::Other) && final(env)@ == dropped,
                Err(e) => res matches Err(err) && err@ == e && final(env)@ == old(env)@,
            },
            args@.len() > 0 ==> old(env)@.is_new(model::dropped_name(old(env)@, args@[0].span)),
            crate::analyze::growth::keeps(final(env)@, old(env)@),
    {
        proof {
            if args@.len() > 0 && args@[0].kind is VarRef && env@.env_map.contains_key(args@[0].kind->id) {
                crate::analyze::growth::lemma_keeps_fresh_random(
                    env@,
                    env@.symbol_base("drop_"@, model::span_name(args@[0].span)),
                    env@.env_map[args@[0].kind->id].ty,
                    args@[0].kind->id,
                );
            }
            if args@.len() > 0 {
                crate::analyze::laws::lemma_declared_symbols_are_new(env@, args@[0].span, Seq::empty());
            }
        }
        if args.len() == 0 {
            return Err(AnalysisError::OutOfBounds(0));
        }
        match &args[0].kind {
            RExprKind::VarRef { id } => {
                let ty = match env.lookup(*id) {
                    Some(lir) => lir.ty,
                    None => {
                        return Err(AnalysisError::UnboundVariable(*id));
                    },
                };
                let base = env.symbol_base("drop_", &args[0].span);
                let name = env.fresh_symbol(base.as_str());
                env.add_random_var(ty, name.clone());
                match env.assign_value(*id, Term::symbol(name)) {
                    Ok(()) => Ok(AnalysisType::Other),
                    Err(e) => Err(e),
                }
            },
            _ => Err(AnalysisError::Unsupported(String::from_str("Drop target is not a variable"))),
        }
    }
}

} // verus!
