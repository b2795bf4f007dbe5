//! Symbolic execution of function bodies.
//!
//! The analyzer runs the statements of a body in order against an
//! environment ([`env`]), encodes expressions into constraint terms
//! ([`term`]), and poses a script for every goal that an assertion or a loop
//! invariant sets. It never waits for an answer: it goes on as if every goal
//! were proved, and [`oracle`] says afterwards what the solver's answers
//! make of the analysis.
//!
//! Every symbol that the analysis declares gets a name that is new to the
//! environment: the scope's name, the location and the least number that is
//! still free. Branches that would bring the same symbol into a merged
//! environment twice are not merged.
//!
//! Every step takes, besides the environment, the list of the scripts posed
//! so far, which it extends, and `depth`, the number of calls that may still
//! be opened for inlining. [`model`] says what each step computes; the
//! modules [`laws`], [`determinism`] and [`growth`] prove what holds of all
//! of them.

use std::collections::HashMap;
use vstd::prelude::*;
use vstd::string::StringExecFns;
use crate::analyze::env::Env;
use crate::analyze::flow::AnalysisError;
use crate::analyze::model::Intrinsic;
use crate::analyze::term::{SmtBinOp, Term};
use crate::analyze::text::strings_view;
use crate::analyze::util::{outcome, realizes};
use crate::thir::rthir::{LocalDefId, LocalVarId, RExpr, RExprKind, RThir, Ty};

pub mod annotate;
pub mod determinism;
pub mod env;
pub mod expr;
pub mod flow;
pub mod growth;
pub mod laws;
pub mod lir;
pub mod model;
pub mod oracle;
pub mod term;
pub mod text;
pub mod util;

verus! {

/// The analyzer: the table of the functions that calls may be inlined from,
/// keyed by the index of their local definition.
#[derive(Debug)]
pub struct Analyzer {
    pub fn_map: HashMap<u64, RThir>,
}

/// What the analysis of a function leaves for the solver to decide.
#[derive(Debug)]
pub struct Analysis {
    /// The scripts to pose, in order. Each asks whether a goal can fail; the
    /// goal is proved when the solver finds the script unsatisfiable.
    pub queries: Vec<String>,
    /// How the analysis ended, provided that every script before the end
    /// was found unsatisfiable.
    pub result: Result<(), AnalysisError>,
}

/// Analyses the function `main_id` against the functions of `fn_map`.
pub fn analyze(main_id: LocalDefId, fn_map: HashMap<u64, RThir>) -> (analysis: Analysis)
    ensures
        strings_view(analysis.queries@) == model::run(fn_map@, main_id).queries,
        outcome(analysis.result) == model::run(fn_map@, main_id).res,
{
    Analyzer::run(main_id, fn_map)
}

fn holds_var(vars: &Vec<LocalVarId>, id: LocalVarId) -> (found: bool)
    ensures
        found == vars@.contains(id),
{
    let mut i: usize = 0;
    while i < vars.len()
        invariant
            i <= vars.len(),
            forall|j: int| 0 <= j < i ==> vars@[j] != id,
        decreases vars.len() - i,
    {
        if vars[i] == id {
            return true;
        }
        i += 1;
    }
    false
}

impl Analyzer {
    /// An analyzer for the functions of `fn_map`.
    pub fn new(fn_map: HashMap<u64, RThir>) -> (analyzer: Self)
        ensures
            analyzer.fn_map == fn_map,
    {
        Self { fn_map }
    }

    /// Analyses the function `main_id` against the functions of `fn_map`.
    pub fn run(main_id: LocalDefId, fn_map: HashMap<u64, RThir>) -> (analysis: Analysis)
        ensures
            strings_view(analysis.queries@) == model::run(fn_map@, main_id).queries,
            outcome(analysis.result) == model::run(fn_map@, main_id).res,
    {
        let analyzer = Analyzer::new(fn_map);
        let mut queries: Vec<String> = Vec::new();
        assert(strings_view(queries@) =~= Seq::empty());
        let result = match analyzer.get_fn(main_id) {
            Ok(main) => analyzer.analyze_enter(main, &mut queries),
            Err(e) => Err(e),
        };
        Analysis { queries, result }
    }

    /// Whether a statement marks an invariant of the loop that follows it.
    pub fn is_invariant(&self, expr: &RExpr) -> (marks: bool)
        ensures
            marks == model::is_invariant(*expr),
    {
        match &expr.kind {
            RExprKind::Call { ty: Ty::FnDef(def_id), def_path, .. } => {
                if def_id.is_local() {
                    false
                } else {
                    let fn_info = self.get_fn_info(def_path.as_str());
                    match Analyzer::intrinsic(&fn_info) {
                        Ok(Intrinsic::Invariant) => true,
                        _ => false,
                    }
                }
            },
            _ => false,
        }
    }

    /// The index of the first statement from `i` on that marks no invariant.
    pub fn invariants_end(&self, stmts: &Vec<RExpr>, i: usize) -> (k: usize)
        ensures
            k == model::invariants_end(stmts@, i as nat),
    {
        let mut k: usize = i;
        while k < stmts.len() && self.is_invariant(&stmts[k])
            invariant
                i <= k,
                model::invariants_end(stmts@, i as nat) == model::invariants_end(stmts@, k as nat),
            decreases stmts.len() - k,
        {
            k += 1;
        }
        k
    }

    /// A loop with the invariants that the statements `i..k` mark;
    /// statement `k` is the loop. The base case and the inductive step run
    /// in copies of `env`.
    pub fn analyze_loop(
        &self,
        stmts: &Vec<RExpr>,
        i: usize,
        k: usize,
        env: &Env,
        queries: &mut Vec<String>,
        depth: usize,
    ) -> (res: Result<(), AnalysisError>)
        ensures
            realizes(
                model::analyze_loop(
                    self.fn_map@,
                    depth as nat,
                    stmts@,
                    i as nat,
                    k as nat,
                    strings_view(old(queries)@),
                    env@,
                ),
                res,
                final(queries)@,
                *env,
            ),
        decreases depth, stmts@, 0nat, stmts@.len() + 1,
    {
        if !(i < k && k < stmts.len()) {
            return Err(AnalysisError::Unsupported(String::from_str("No loop expression")));
        }
        let mut before_loop_env = match env.new_env_from_str("loop", &stmts[i].span) {
            Ok(before_loop_env) => before_loop_env,
            Err(e) => {
                return Err(e);
            },
        };
        match self.verify_before_loop(stmts, i, k, &mut before_loop_env, queries, depth) {
            Ok(()) => {},
            Err(e) => {
                return Err(e);
            },
        }
        let mut loop_env = match before_loop_env.new_env_from_str("inner_loop", &stmts[k].span) {
            Ok(loop_env) => loop_env,
            Err(e) => {
                return Err(e);
            },
        };
        self.verify_loop_internals(stmts, i, k, &mut loop_env, queries, depth)
    }

    /// The base case of a loop: each invariant is posed as a goal in `env`
    /// and then assumed there.
    pub fn verify_before_loop(
        &self,
        stmts: &Vec<RExpr>,
        i: usize,
        k: usize,
        env: &mut Env,
        queries: &mut Vec<String>,
        depth: usize,
    ) -> (res: Result<(), AnalysisError>)
        ensures
            realizes(
                model::verify_before_loop(
                    self.fn_map@,
                    depth as nat,
                    stmts@,
                    i as nat,
                    k as nat,
                    strings_view(old(queries)@),
                    old(env)@,
                ),
                res,
                final(queries)@,
                *final(env),
            ),
        decreases depth, stmts@, 0nat, k - i,
    {
        if k > stmts.len() {
            return Ok(());
        }
        let ghost whole = model::verify_before_loop(
            self.fn_map@,
            depth as nat,
            stmts@,
            i as nat,
            k as nat,
            strings_view(queries@),
            env@,
        );
        let mut j: usize = i;
        while j < k
            invariant
                whole == model::verify_before_loop(self.fn_map@, depth as nat, stmts@, i as nat, k as nat, strings_view(old(queries)@), old(env)@),
                k <= stmts@.len(),
                whole == model::verify_before_loop(
                    self.fn_map@,
                    depth as nat,
                    stmts@,
                    j as nat,
                    k as nat,
                    strings_view(queries@),
                    env@,
                ),
            decreases k - j,
        {
            match &stmts[j].kind {
                RExprKind::Call { args, .. } => match self.analyze_assert(args, env, queries, depth) {
                    Ok(_) => {},
                    Err(e) => {
                        return Err(e);
                    },
                },
                _ => {
                    return Err(AnalysisError::OutOfBounds(0));
                },
            }
            j += 1;
        }
        Ok(())
    }

    /// Assumes in `env` the invariants that the statements `i..k` mark.
    pub fn assume_invariants(
        &self,
        stmts: &Vec<RExpr>,
        i: usize,
        k: usize,
        env: &mut Env,
        queries: &mut Vec<String>,
        depth: usize,
    ) -> (res: Result<(), AnalysisError>)
        ensures
            realizes(
                model::assume_invariants(
                    self.fn_map@,
                    depth as nat,
                    stmts@,
                    i as nat,
                    k as nat,
                    strings_view(old(queries)@),
                    old(env)@,
                ),
                res,
                final(queries)@,
                *final(env),
            ),
        decreases depth, stmts@, 0nat, k - i,
    {
        if k > stmts.len() {
            return Ok(());
        }
        let ghost whole = model::assume_invariants(
            self.fn_map@,
            depth as nat,
            stmts@,
            i as nat,
            k as nat,
            strings_view(queries@),
            env@,
        );
        let mut j: usize = i;
        while j < k
            invariant
                whole == model::assume_invariants(self.fn_map@, depth as nat, stmts@, i as nat, k as nat, strings_view(old(queries)@), old(env)@),
                k <= stmts@.len(),
                whole == model::assume_invariants(
                    self.fn_map@,
                    depth as nat,
                    stmts@,
                    j as nat,
                    k as nat,
                    strings_view(queries@),
                    env@,
                ),
            decreases k - j,
        {
            match &stmts[j].kind {
                RExprKind::Call { args, .. } => match self.analyze_assume(args, env, queries, depth) {
                    Ok(_) => {},
                    Err(e) => {
                        return Err(e);
                    },
                },
                _ => {
                    return Err(AnalysisError::OutOfBounds(0));
                },
            }
            j += 1;
        }
        Ok(())
    }

    /// The conjunction of the invariants that the statements `i..k` mark, as
    /// they read in `env`.
    pub fn fold_invariants(
        &self,
        stmts: &Vec<RExpr>,
        i: usize,
        k: usize,
        env: &mut Env,
        queries: &mut Vec<String>,
        depth: usize,
    ) -> (res: Result<Term, AnalysisError>)
        ensures
            realizes(
                model::fold_invariants(
                    self.fn_map@,
                    depth as nat,
                    stmts@,
                    i as nat,
                    k as nat,
                    None,
                    strings_view(old(queries)@),
                    old(env)@,
                ),
                res,
                final(queries)@,
                *final(env),
            ),
        decreases depth, stmts@, 0nat, k - i,
    {
        if k > stmts.len() {
            return Ok(Term::Empty);
        }
        let ghost whole = model::fold_invariants(
            self.fn_map@,
            depth as nat,
            stmts@,
            i as nat,
            k as nat,
            None,
            strings_view(queries@),
            env@,
        );
        let mut acc: Option<Term> = None;
        let mut j: usize = i;
        while j < k
            invariant
                whole == model::fold_invariants(self.fn_map@, depth as nat, stmts@, i as nat, k as nat, None, strings_view(old(queries)@), old(env)@),
                k <= stmts@.len(),
                whole == model::fold_invariants(
                    self.fn_map@,
                    depth as nat,
                    stmts@,
                    j as nat,
                    k as nat,
                    match acc {
                        Some(acc) => Some(acc@),
                        None => None,
                    },
                    strings_view(queries@),
                    env@,
                ),
            decreases k - j,
        {
            let term = match &stmts[j].kind {
                RExprKind::Call { args, .. } => {
                    if args.len() == 0 {
                        return Err(AnalysisError::OutOfBounds(0));
                    }
                    match self.expr_to_const(&args[0], env, queries, depth) {
                        Ok(term) => term,
                        Err(e) => {
                            return Err(e);
                        },
                    }
                },
                _ => {
                    return Err(AnalysisError::OutOfBounds(0));
                },
            };
            acc = match acc {
                Some(acc) => Some(Term::binary(SmtBinOp::And, acc, term)),
                None => Some(term),
            };
            j += 1;
        }
        match acc {
            Some(acc) => Ok(acc),
            None => Ok(Term::Empty),
        }
    }

    /// The inductive step of a loop, in `env`, the copy made for the body:
    /// the variables that the body assigns to are refreshed, the invariants
    /// are assumed, the body is run once, and the conjunction of the
    /// invariants is posed as a goal.
    pub fn verify_loop_internals(
        &self,
        stmts: &Vec<RExpr>,
        i: usize,
        k: usize,
        env: &mut Env,
        queries: &mut Vec<String>,
        depth: usize,
    ) -> (res: Result<(), AnalysisError>)
        ensures
            realizes(
                model::verify_loop_internals(
                    self.fn_map@,
                    depth as nat,
                    stmts@,
                    i as nat,
                    k as nat,
                    strings_view(old(queries)@),
                    old(env)@,
                ),
                res,
                final(queries)@,
                *final(env),
            ),
        decreases depth, stmts@, 0nat, stmts@.len(),
    {
        if !(i < k && k < stmts.len()) {
            return Err(AnalysisError::Unsupported(String::from_str("No loop expression")));
        }
        match &stmts[k].kind {
            RExprKind::Loop { body } => {
                match self.set_var_map(stmts, i, k, body, env) {
                    Ok(()) => {},
                    Err(e) => {
                        return Err(e);
                    },
                }
                match self.assume_invariants(stmts, i, k, env, queries, depth) {
                    Ok(()) => {},
                    Err(e) => {
                        return Err(e);
                    },
                }
                match self.analyze_block(body, env, queries, depth) {
                    Ok(()) => {},
                    Err(e) => {
                        return Err(e);
                    },
                }
                let goal = match self.fold_invariants(stmts, i, k, env, queries, depth) {
                    Ok(goal) => goal,
                    Err(e) => {
                        return Err(e);
                    },
                };
                env.verify_z3(&goal, queries)
            },
            _ => Err(AnalysisError::Unsupported(String::from_str("The statement behind the invariants is no loop"))),
        }
    }

    /// Refreshes in `env` every variable that `body` assigns to and that the
    /// invariants marked by the statements `i..k` do not read.
    #[verifier::loop_isolation(false)]
    pub fn set_var_map(&self, stmts: &Vec<RExpr>, i: usize, k: usize, body: &RExpr, env: &mut Env) -> (res: Result<
        (),
        AnalysisError,
    >)
        ensures
            final(env)@ == model::set_var_map(old(env)@, stmts@, i as nat, k as nat, *body).env,
            outcome(res) == model::set_var_map(old(env)@, stmts@, i as nat, k as nat, *body).res,
            crate::analyze::growth::keeps(final(env)@, old(env)@),
    {
        proof {
            match (model::search_inv(stmts@, i as nat, k as nat, Seq::empty()), model::search_used_var(*body)) {
                (Ok(inv_vars), Ok(vars)) => {
                    crate::analyze::growth::lemma_refreshed(env@, vars, inv_vars, 0);
                },
                _ => {},
            }
        }
        let inv_varv = match Analyzer::search_inv(stmts, i, k) {
            Ok(inv_varv) => inv_varv,
            Err(e) => {
                return Err(e);
            },
        };
        let varv = match Analyzer::search_used_var(body) {
            Ok(varv) => varv,
            Err(e) => {
                return Err(e);
            },
        };
        let ghost whole = model::refreshed(env@, varv@, inv_varv@, 0);
        let mut n: usize = 0;
        while n < varv.len()
            invariant
                n <= varv.len(),
                whole == model::refreshed(env@, varv@, inv_varv@, n as nat),
            decreases varv.len() - n,
        {
            let var = varv[n];
            if !holds_var(&inv_varv, var) {
                let (ty, base) = match env.lookup(var) {
                    Some(lir) => {
                        let mut base = env.name.clone();
                        proof {
                            reveal_strlit("_");
                            assert("_"@ =~= seq!['_']);
                        }
                        base.append("_");
                        base.append("");
                        base.append(lir.name.as_str());
                        assert(base@ =~= env@.symbol_base(""@, lir.name@));
                        (lir.ty, base)
                    },
                    None => {
                        return Err(AnalysisError::UnboundVariable(var));
                    },
                };
                let new_name = env.fresh_symbol(base.as_str());
                env.add_random_var(ty, new_name.clone());
                match env.assign_value(var, Term::symbol(new_name)) {
                    Ok(()) => {},
                    Err(e) => {
                        return Err(e);
                    },
                }
            }
            n += 1;
        }
        Ok(())
    }

    /// The variables that the invariants marked by the statements `i..k` read.
    pub fn search_inv(stmts: &Vec<RExpr>, i: usize, k: usize) -> (res: Result<Vec<LocalVarId>, AnalysisError>)
        ensures
            match model::search_inv(stmts@, i as nat, k as nat, Seq::empty()) {
                Ok(vars) => res matches Ok(varv) && varv@ == vars,
                Err(e) => res matches Err(err) && err@ == e,
            },
    {
        let mut varv: Vec<LocalVarId> = Vec::new();
        if k > stmts.len() {
            return Ok(varv);
        }
        let ghost whole = model::search_inv(stmts@, i as nat, k as nat, varv@);
        let mut j: usize = i;
        while j < k
            invariant
                whole == model::search_inv(stmts@, i as nat, k as nat, Seq::<LocalVarId>::empty()),
                k <= stmts@.len(),
                whole == model::search_inv(stmts@, j as nat, k as nat, varv@),
            decreases k - j,
        {
            match &stmts[j].kind {
                RExprKind::Call { args, .. } => {
                    if args.len() == 0 {
                        return Err(AnalysisError::OutOfBounds(0));
                    }
                    match Analyzer::search_var(&args[0], &mut varv) {
                        Ok(()) => {},
                        Err(e) => {
                            return Err(e);
                        },
                    }
                },
                _ => {
                    return Err(AnalysisError::OutOfBounds(0));
                },
            }
            j += 1;
        }
        Ok(varv)
    }

    /// Puts the variables that an invariant reads at the end of `varv`.
    /// Fails on an invariant that holds more than variables, literals and
    /// operators.
    pub fn search_var(expr: &RExpr, varv: &mut Vec<LocalVarId>) -> (res: Result<(), AnalysisError>)
        ensures
            match model::search_var(*expr, old(varv)@) {
                Ok(vars) => res is Ok && final(varv)@ == vars,
                Err(e) => res matches Err(err) && err@ == e,
            },
        decreases expr,
    {
        match &expr.kind {
            RExprKind::VarRef { id } => {
                varv.push(*id);
                Ok(())
            },
            RExprKind::Literal { .. } => Ok(()),
            RExprKind::LogicalOp { lhs, rhs, .. } => {
                match Analyzer::search_var(lhs, varv) {
                    Ok(()) => {},
                    Err(e) => {
                        return Err(e);
                    },
                }
                Analyzer::search_var(rhs, varv)
            },
            RExprKind::Binary { lhs, rhs, .. } => {
                match Analyzer::search_var(lhs, varv) {
                    Ok(()) => {},
                    Err(e) => {
                        return Err(e);
                    },
                }
                Analyzer::search_var(rhs, varv)
            },
            RExprKind::Unary { arg, .. } => Analyzer::search_var(arg, varv),
            _ => Err(AnalysisError::Unsupported(String::from_str("Unknown invariant pattern"))),
        }
    }

    /// The variables that a loop body assigns to, each once, in the order in
    /// which they are first met.
    pub fn search_used_var(block: &RExpr) -> (res: Result<Vec<LocalVarId>, AnalysisError>)
        ensures
            match model::search_used_var(*block) {
                Ok(vars) => res matches Ok(varv) && varv@ == vars,
                Err(e) => res matches Err(err) && err@ == e,
            },
    {
        let mut varv: Vec<LocalVarId> = Vec::new();
        match &block.kind {
            RExprKind::Block { .. } => match Analyzer::search_var_expr(block, &mut varv, false) {
                Ok(()) => Ok(varv),
                Err(e) => Err(e),
            },
            _ => Ok(varv),
        }
    }

    /// Puts the variables that an expression assigns to at the end of
    /// `varv`, unless they are there. `is_assign` says that the expression
    /// stands on the left of an assignment.
    #[verifier::loop_isolation(false)]
    pub fn search_var_expr(expr: &RExpr, varv: &mut Vec<LocalVarId>, is_assign: bool) -> (res: Result<
        (),
        AnalysisError,
    >)
        ensures
            match model::search_var_expr(*expr, is_assign, old(varv)@) {
                Ok(vars) => res is Ok && final(varv)@ == vars,
                Err(e) => res matches Err(err) && err@ == e,
            },
        decreases expr, 0nat,
    {
        match &expr.kind {
            RExprKind::Literal { .. } => Ok(()),
            RExprKind::VarRef { id } => {
                if is_assign && !holds_var(varv, *id) {
                    varv.push(*id);
                }
                Ok(())
            },
            RExprKind::LogicalOp { lhs, rhs, .. } => {
                match Analyzer::search_var_expr(lhs, varv, is_assign) {
                    Ok(()) => {},
                    Err(e) => {
                        return Err(e);
                    },
                }
                Analyzer::search_var_expr(rhs, varv, is_assign)
            },
            RExprKind::Binary { lhs, rhs, .. } => {
                match Analyzer::search_var_expr(lhs, varv, is_assign) {
                    Ok(()) => {},
                    Err(e) => {
                        return Err(e);
                    },
                }
                Analyzer::search_var_expr(rhs, varv, is_assign)
            },
            RExprKind::Unary { arg, .. } => Analyzer::search_var_expr(arg, varv, is_assign),
            RExprKind::Call { .. } => Ok(()),
            RExprKind::If { then_expr, else_opt, .. } => {
                match Analyzer::search_var_expr(then_expr, varv, is_assign) {
                    Ok(()) => {},
                    Err(e) => {
                        return Err(e);
                    },
                }
                match else_opt {
                    Some(else_block) => Analyzer::search_var_expr(else_block, varv, is_assign),
                    None => Ok(()),
                }
            },
            RExprKind::LetStmt { init, .. } => match init {
                Some(init) => Analyzer::search_var_expr(init, varv, is_assign),
                None => Ok(()),
            },
            RExprKind::AssignOp { lhs, rhs, .. } => {
                match Analyzer::search_var_expr(lhs, varv, true) {
                    Ok(()) => {},
                    Err(e) => {
                        return Err(e);
                    },
                }
                Analyzer::search_var_expr(rhs, varv, false)
            },
            RExprKind::Assign { lhs, rhs } => {
                match Analyzer::search_var_expr(lhs, varv, true) {
                    Ok(()) => {},
                    Err(e) => {
                        return Err(e);
                    },
                }
                Analyzer::search_var_expr(rhs, varv, false)
            },
            RExprKind::Block { stmts, expr } => {
                let ghost whole = model::search_var_stmts(stmts@, 0, is_assign, varv@);
                let mut i: usize = 0;
                while i < stmts.len()
                    invariant
                        i <= stmts.len(),
                        whole == model::search_var_stmts(stmts@, i as nat, is_assign, varv@),
                    decreases stmts.len() - i,
                {
                    match Analyzer::search_var_expr(&stmts[i], varv, is_assign) {
                        Ok(()) => {},
                        Err(e) => {
                            return Err(e);
                        },
                    }
                    i += 1;
                }
                match expr {
                    Some(expr) => Analyzer::search_var_expr(expr, varv, false),
                    None => Ok(()),
                }
            },
            RExprKind::Break { .. } => Ok(()),
            _ => Err(AnalysisError::Unsupported(String::from_str("Unknown pattern in loop"))),
        }
    }
}

} // verus!
