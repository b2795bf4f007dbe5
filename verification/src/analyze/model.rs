//! What the analysis computes, as mathematical functions.
//!
//! Every step takes the scripts posed so far and the current environment,
//! and gives a [`Run`]: the scripts and the environment after the step, and
//! either the step's value or the error that ended the analysis. The
//! executable analyzer is held to these functions clause by clause.

use vstd::prelude::*;
use crate::analyze::env::SpecEnv;
use crate::analyze::flow::{ErrorKind, SpecAnalysisType};
use crate::analyze::term::{SmtBinOp, SmtUnOp, SpecTerm};
use crate::analyze::text::sanitize;
use crate::thir::rthir::{
    BinOp,
    Lit,
    LitKind,
    LocalDefId,
    LocalVarId,
    LogicalOp,
    RExpr,
    RExprKind,
    RParam,
    RPatKind,
    RThir,
    Span,
    Ty,
    UnOp,
};

verus! {

/// The state after a step of the analysis, and what the step came to.
pub struct Run<T> {
    /// The scripts posed to the solver so far, oldest first.
    pub queries: Seq<Seq<char>>,
    /// The environment after the step; after an error, as the error left it.
    pub env: SpecEnv,
    /// What the step came to: its value, or the error that ended the analysis.
    pub res: Result<T, ErrorKind>,
}

impl<T> Run<T> {
    /// A run that came to `value`.
    pub open spec fn done(queries: Seq<Seq<char>>, env: SpecEnv, value: T) -> Run<T> {
        Run { queries, env, res: Ok(value) }
    }

    /// A run that `error` ended.
    pub open spec fn fail(queries: Seq<Seq<char>>, env: SpecEnv, error: ErrorKind) -> Run<T> {
        Run { queries, env, res: Err(error) }
    }

    /// A failed run, as a run of another step that it ends.
    pub open spec fn passed_on<U>(self) -> Run<U> {
        Run { queries: self.queries, env: self.env, res: Err(self.res->Err_0) }
    }
}

/// The solver's operator for a binary operator of the tree.
pub open spec fn smt_bin_op(op: BinOp) -> Option<SmtBinOp> {
    match op {
        BinOp::Add => Some(SmtBinOp::Add),
        BinOp::Sub => Some(SmtBinOp::Sub),
        BinOp::Mul => Some(SmtBinOp::Mul),
        BinOp::Div => Some(SmtBinOp::Div),
        BinOp::Rem => Some(SmtBinOp::Rem),
        BinOp::Eq => Some(SmtBinOp::Eq),
        BinOp::Ne => Some(SmtBinOp::Distinct),
        BinOp::Lt => Some(SmtBinOp::Lt),
        BinOp::Le => Some(SmtBinOp::Le),
        BinOp::Gt => Some(SmtBinOp::Gt),
        BinOp::Ge => Some(SmtBinOp::Ge),
        _ => None,
    }
}

/// The solver's operator for a short-circuit operator of the tree.
pub open spec fn smt_logical_op(op: LogicalOp) -> SmtBinOp {
    match op {
        LogicalOp::And => SmtBinOp::And,
        LogicalOp::Or => SmtBinOp::Or,
    }
}

/// The solver's operator for a unary operator of the tree.
pub open spec fn smt_un_op(op: UnOp) -> Option<SmtUnOp> {
    match op {
        UnOp::Not => Some(SmtUnOp::Not),
        UnOp::Neg => Some(SmtUnOp::Neg),
        _ => None,
    }
}

/// `(op lhs rhs)`.
pub open spec fn binary(op: SmtBinOp, lhs: SpecTerm, rhs: SpecTerm) -> SpecTerm {
    SpecTerm::Binary { op, lhs: Box::new(lhs), rhs: Box::new(rhs) }
}

/// The term of a binary operation, where the solver has the operator.
pub open spec fn binop_to_const(op: BinOp, lhs: SpecTerm, rhs: SpecTerm) -> Result<SpecTerm, ErrorKind> {
    match smt_bin_op(op) {
        Some(op) => Ok(binary(op, lhs, rhs)),
        None => Err(ErrorKind::Unsupported),
    }
}

/// The term of a unary operation, where the solver has the operator.
pub open spec fn unop_to_const(op: UnOp, arg: SpecTerm) -> Result<SpecTerm, ErrorKind> {
    match smt_un_op(op) {
        Some(op) => Ok(SpecTerm::Unary { op, arg: Box::new(arg) }),
        None => Err(ErrorKind::Unsupported),
    }
}

/// The term of a literal: integers are encoded, truth values and floating
/// point numbers are known but not encoded yet, anything else is not modelled.
pub open spec fn literal_to_const(lit: Lit, neg: bool) -> Result<SpecTerm, ErrorKind> {
    match lit.node {
        LitKind::Int(value) => Ok(SpecTerm::Int { value: value as nat, neg }),
        LitKind::Bool(_) => Err(ErrorKind::Unimplemented),
        LitKind::Float => Err(ErrorKind::Unimplemented),
        _ => Err(ErrorKind::Unsupported),
    }
}

/// The symbol that names a source location.
pub open spec fn span_name(span: Span) -> Seq<char> {
    sanitize(span.text@)
}

/// The variable that an assignment's left side names.
pub open spec fn expr_to_var_id(expr: RExpr) -> Option<LocalVarId> {
    match expr.kind {
        RExprKind::VarRef { id } => Some(id),
        RExprKind::Deref { arg } => match arg.kind {
            RExprKind::VarRef { id } => Some(id),
            _ => None,
        },
        _ => None,
    }
}

/// The copy of `env` in which a branch of kind `kind`, opening at `span`,
/// runs under the assumption `guard`.
pub open spec fn branch_env(env: SpecEnv, kind: Seq<char>, span: Span, guard: SpecTerm) -> SpecEnv {
    env.renamed(SpecEnv::unique_name(kind, span_name(span))).with_assumption(guard)
}

/// The environment with `var` declared as `name` and bound to `term`, which
/// is also assumed equal to the new symbol.
pub open spec fn bound(env: SpecEnv, name: Seq<char>, var: LocalVarId, term: SpecTerm) -> SpecEnv {
    env.with_assumption(binary(SmtBinOp::Eq, SpecTerm::Symbol { name }, term)).with_value(var, term)
}

/// The name of the symbol that `env` declares for the pattern at `span`:
/// derived from the scope and the location, and new to the environment.
pub open spec fn declared_name(env: SpecEnv, span: Span) -> Seq<char> {
    env.fresh_symbol(env.symbol_base(""@, span_name(span)))
}

/// The name of the unconstrained symbol that `env` introduces for a
/// nondeterministic value bound at `span`; new to the environment.
pub open spec fn random_name(env: SpecEnv, span: Span) -> Seq<char> {
    env.fresh_symbol(env.symbol_base("rand_"@, span_name(span)))
}

/// The name of the unconstrained symbol that `env` introduces for a value
/// dropped at `span`; new to the environment.
pub open spec fn dropped_name(env: SpecEnv, span: Span) -> Seq<char> {
    env.fresh_symbol(env.symbol_base("drop_"@, span_name(span)))
}

/// The name of the unconstrained symbol that `env` introduces in place of
/// the symbol `symbol` of a refreshed variable; new to the environment.
pub open spec fn refreshed_name(env: SpecEnv, symbol: Seq<char>) -> Seq<char> {
    env.fresh_symbol(env.symbol_base(""@, symbol))
}

/// The term that stands for a variable.
pub open spec fn var_ref_to_const(id: LocalVarId, env: SpecEnv) -> Result<SpecTerm, ErrorKind> {
    if env.env_map.contains_key(id) {
        Ok(env.env_map[id].term)
    } else {
        Err(ErrorKind::UnboundVariable(id))
    }
}

/// Whether a character separates the segments of a definition path.
pub open spec fn is_separator(c: char) -> bool {
    c == ':' || c == '"' || c == '\\'
}

/// The segments that the first `n` characters of `path` complete, and the
/// characters of the segment that they leave open.
pub open spec fn scan_path(path: Seq<char>, n: nat) -> (Seq<Seq<char>>, Seq<char>)
    decreases n,
{
    if n == 0 || n > path.len() {
        (Seq::empty(), Seq::empty())
    } else {
        let before = scan_path(path, (n - 1) as nat);
        let c = path[n - 1];
        if is_separator(c) {
            if before.1.len() > 0 {
                (before.0.push(before.1), Seq::empty())
            } else {
                before
            }
        } else {
            (before.0, before.1.push(c))
        }
    }
}

/// The segments of a definition path: its maximal runs of characters that
/// are no separators, in order.
pub open spec fn fn_info(path: Seq<char>) -> Seq<Seq<char>> {
    let scanned = scan_path(path, path.len());
    if scanned.1.len() > 0 {
        scanned.0.push(scanned.1)
    } else {
        scanned.0
    }
}

/// The annotations and sources of nondeterminism that the analyzer knows.
#[derive(Clone, Copy, Debug, PartialEq, Eq)]
pub enum Intrinsic {
    Assert,
    Assume,
    Invariant,
    Drop,
    RandInt,
    RandBool,
    RandFloat,
}

/// The intrinsic that a definition path names. The path's first segment is
/// the annotation crate, its second the function.
pub open spec fn intrinsic_of(info: Seq<Seq<char>>) -> Result<Intrinsic, ErrorKind> {
    if info.len() == 0 {
        Err(ErrorKind::OutOfBounds(0))
    } else if info[0] != "verify_modules"@ {
        Err(ErrorKind::Unsupported)
    } else if info.len() < 2 {
        Err(ErrorKind::OutOfBounds(1))
    } else if info[1] == "Vassert"@ {
        Ok(Intrinsic::Assert)
    } else if info[1] == "Vassume"@ {
        Ok(Intrinsic::Assume)
    } else if info[1] == "Vinvariant"@ {
        Ok(Intrinsic::Invariant)
    } else if info[1] == "Vdrop"@ {
        Ok(Intrinsic::Drop)
    } else if info[1] == "Vrand_int"@ {
        Ok(Intrinsic::RandInt)
    } else if info[1] == "Vrand_bool"@ {
        Ok(Intrinsic::RandBool)
    } else if info[1] == "Vrand_float"@ {
        Ok(Intrinsic::RandFloat)
    } else {
        Err(ErrorKind::Unsupported)
    }
}

/// Whether a statement marks an invariant of the loop that follows it: a
/// call of the invariant annotation.
pub open spec fn is_invariant(expr: RExpr) -> bool {
    match expr.kind {
        RExprKind::Call { ty: Ty::FnDef(def_id), def_path, .. } => !def_id.is_local() && intrinsic_of(
            fn_info(def_path@),
        ) == Ok::<Intrinsic, ErrorKind>(Intrinsic::Invariant),
        _ => false,
    }
}

/// The index of the first statement from `i` on that marks no invariant.
pub open spec fn invariants_end(stmts: Seq<RExpr>, i: nat) -> nat
    decreases stmts.len() - i,
{
    if i < stmts.len() && is_invariant(stmts[i as int]) {
        invariants_end(stmts, i + 1)
    } else {
        i
    }
}

/// The statements from `i` up to [`invariants_end`], and no further, mark invariants.
pub proof fn lemma_invariants_end(stmts: Seq<RExpr>, i: nat)
    ensures
        i <= invariants_end(stmts, i),
        i <= stmts.len() ==> invariants_end(stmts, i) <= stmts.len(),
        forall|j: int| i <= j < invariants_end(stmts, i) ==> is_invariant(#[trigger] stmts[j]),
        invariants_end(stmts, i) < stmts.len() ==> !is_invariant(stmts[invariants_end(stmts, i) as int]),
    decreases stmts.len() - i,
{
    if i < stmts.len() && is_invariant(stmts[i as int]) {
        lemma_invariants_end(stmts, i + 1);
    }
}

/// The arguments of a call; none for any other expression.
pub open spec fn call_args(expr: RExpr) -> Seq<RExpr> {
    match expr.kind {
        RExprKind::Call { args, .. } => args@,
        _ => Seq::empty(),
    }
}

/// The variables that an invariant reads, put behind `acc`. An invariant is
/// made of variables, literals and operators alone.
pub open spec fn search_var(expr: RExpr, acc: Seq<LocalVarId>) -> Result<Seq<LocalVarId>, ErrorKind>
    decreases expr,
{
    match expr.kind {
        RExprKind::VarRef { id } => Ok(acc.push(id)),
        RExprKind::Literal { .. } => Ok(acc),
        RExprKind::LogicalOp { lhs, rhs, .. } => match search_var(*lhs, acc) {
            Ok(acc) => search_var(*rhs, acc),
            Err(e) => Err(e),
        },
        RExprKind::Binary { lhs, rhs, .. } => match search_var(*lhs, acc) {
            Ok(acc) => search_var(*rhs, acc),
            Err(e) => Err(e),
        },
        RExprKind::Unary { arg, .. } => search_var(*arg, acc),
        _ => Err(ErrorKind::Unsupported),
    }
}

/// The variables that the invariants marked by the statements `j..k` read.
pub open spec fn search_inv(stmts: Seq<RExpr>, j: nat, k: nat, acc: Seq<LocalVarId>) -> Result<
    Seq<LocalVarId>,
    ErrorKind,
>
    decreases k - j,
{
    if j >= k || k > stmts.len() {
        Ok(acc)
    } else if call_args(stmts[j as int]).len() == 0 {
        Err(ErrorKind::OutOfBounds(0))
    } else {
        match search_var(call_args(stmts[j as int])[0], acc) {
            Ok(acc) => search_inv(stmts, j + 1, k, acc),
            Err(e) => Err(e),
        }
    }
}

/// `acc` with `id` behind it, unless it holds `id` already.
pub open spec fn noted(acc: Seq<LocalVarId>, id: LocalVarId) -> Seq<LocalVarId> {
    if acc.contains(id) {
        acc
    } else {
        acc.push(id)
    }
}

/// The variables that an expression assigns to, each once, in the order in
/// which they are first met, put behind `acc`. `is_assign` says that the
/// expression stands on the left of an assignment.
pub open spec fn search_var_expr(expr: RExpr, is_assign: bool, acc: Seq<LocalVarId>) -> Result<
    Seq<LocalVarId>,
    ErrorKind,
>
    decreases expr, 0nat,
{
    match expr.kind {
        RExprKind::Literal { .. } => Ok(acc),
        RExprKind::VarRef { id } => if is_assign {
            Ok(noted(acc, id))
        } else {
            Ok(acc)
        },
        RExprKind::LogicalOp { lhs, rhs, .. } => match search_var_expr(*lhs, is_assign, acc) {
            Ok(acc) => search_var_expr(*rhs, is_assign, acc),
            Err(e) => Err(e),
        },
        RExprKind::Binary { lhs, rhs, .. } => match search_var_expr(*lhs, is_assign, acc) {
            Ok(acc) => search_var_expr(*rhs, is_assign, acc),
            Err(e) => Err(e),
        },
        RExprKind::Unary { arg, .. } => search_var_expr(*arg, is_assign, acc),
        RExprKind::Call { .. } => Ok(acc),
        RExprKind::If { then_expr, else_opt, .. } => match search_var_expr(*then_expr, is_assign, acc) {
            Ok(acc) => match else_opt {
                Some(else_expr) => search_var_expr(*else_expr, is_assign, acc),
                None => Ok(acc),
            },
            Err(e) => Err(e),
        },
        RExprKind::LetStmt { init, .. } => match init {
            Some(init) => search_var_expr(*init, is_assign, acc),
            None => Ok(acc),
        },
        RExprKind::AssignOp { lhs, rhs, .. } => match search_var_expr(*lhs, true, acc) {
            Ok(acc) => search_var_expr(*rhs, false, acc),
            Err(e) => Err(e),
        },
        RExprKind::Assign { lhs, rhs } => match search_var_expr(*lhs, true, acc) {
            Ok(acc) => search_var_expr(*rhs, false, acc),
            Err(e) => Err(e),
        },
        RExprKind::Block { stmts, expr: last } => match search_var_stmts(stmts@, 0, is_assign, acc) {
            Ok(acc) => match last {
                Some(last) => search_var_expr(*last, false, acc),
                None => Ok(acc),
            },
            Err(e) => Err(e),
        },
        RExprKind::Break { .. } => Ok(acc),
        _ => Err(ErrorKind::Unsupported),
    }
}

/// [`search_var_expr`] over the statements from index `i` on.
pub open spec fn search_var_stmts(stmts: Seq<RExpr>, i: nat, is_assign: bool, acc: Seq<LocalVarId>) -> Result<
    Seq<LocalVarId>,
    ErrorKind,
>
    decreases stmts, stmts.len() - i,
{
    if i >= stmts.len() {
        Ok(acc)
    } else {
        match search_var_expr(stmts[i as int], is_assign, acc) {
            Ok(acc) => search_var_stmts(stmts, i + 1, is_assign, acc),
            Err(e) => Err(e),
        }
    }
}

/// The variables that a loop body assigns to.
pub open spec fn search_used_var(block: RExpr) -> Result<Seq<LocalVarId>, ErrorKind> {
    match block.kind {
        RExprKind::Block { .. } => search_var_expr(block, false, Seq::empty()),
        _ => Ok(Seq::empty()),
    }
}

/// What refreshing comes to: the environment that it leaves, and the error
/// that ended it, if one did.
pub struct Refreshed {
    pub env: SpecEnv,
    pub res: Result<(), ErrorKind>,
}

/// `env` with every variable of `vars` from index `i` on that `inv_vars`
/// does not hold standing for a fresh symbol without any constraint, named
/// after the scope and the variable's own symbol and new to the environment. Refreshing ends at the
/// first variable without a record.
pub open spec fn refreshed(env: SpecEnv, vars: Seq<LocalVarId>, inv_vars: Seq<LocalVarId>, i: nat) -> Refreshed
    decreases vars.len() - i,
{
    if i >= vars.len() {
        Refreshed { env, res: Ok(()) }
    } else if inv_vars.contains(vars[i as int]) {
        refreshed(env, vars, inv_vars, i + 1)
    } else if !env.env_map.contains_key(vars[i as int]) {
        Refreshed { env, res: Err(ErrorKind::UnboundVariable(vars[i as int])) }
    } else {
        let lir = env.env_map[vars[i as int]];
        let name = refreshed_name(env, lir.name);
        refreshed(
            env.with_random_var(lir.ty, name).with_value(vars[i as int], SpecTerm::Symbol { name }),
            vars,
            inv_vars,
            i + 1,
        )
    }
}

/// The environment of a loop body at the start of an arbitrary iteration:
/// every variable that `body` assigns to and that the invariants marked by
/// the statements `i..k` do not read is [`refreshed`].
pub open spec fn set_var_map(env: SpecEnv, stmts: Seq<RExpr>, i: nat, k: nat, body: RExpr) -> Refreshed {
    match search_inv(stmts, i, k, Seq::empty()) {
        Err(e) => Refreshed { env, res: Err(e) },
        Ok(inv_vars) => match search_used_var(body) {
            Err(e) => Refreshed { env, res: Err(e) },
            Ok(vars) => refreshed(env, vars, inv_vars, 0),
        },
    }
}

/// The term of an expression, the scripts that encoding it poses, and the
/// environment that it leaves.
pub open spec fn expr_to_const(
    fns: Map<u64, RThir>,
    depth: nat,
    expr: RExpr,
    queries: Seq<Seq<char>>,
    env: SpecEnv,
) -> Run<SpecTerm>
    decreases depth, expr, 3nat, 0nat,
{
    match expr.kind {
        RExprKind::Literal { lit, neg } => Run { queries, env, res: literal_to_const(lit, neg) },
        RExprKind::Binary { op, lhs, rhs } => {
            let l = expr_to_const(fns, depth, *lhs, queries, env);
            if l.res is Err {
                l
            } else {
                let r = expr_to_const(fns, depth, *rhs, l.queries, l.env);
                if r.res is Err {
                    r
                } else {
                    Run { queries: r.queries, env: r.env, res: binop_to_const(op, l.res->Ok_0, r.res->Ok_0) }
                }
            }
        },
        RExprKind::LogicalOp { op, lhs, rhs } => {
            let l = expr_to_const(fns, depth, *lhs, queries, env);
            if l.res is Err {
                l
            } else {
                let r = expr_to_const(fns, depth, *rhs, l.queries, l.env);
                if r.res is Err {
                    r
                } else {
                    Run::done(r.queries, r.env, binary(smt_logical_op(op), l.res->Ok_0, r.res->Ok_0))
                }
            }
        },
        RExprKind::Unary { op, arg } => {
            let a = expr_to_const(fns, depth, *arg, queries, env);
            if a.res is Err {
                a
            } else {
                Run { queries: a.queries, env: a.env, res: unop_to_const(op, a.res->Ok_0) }
            }
        },
        RExprKind::If { .. } => if_to_const(fns, depth, expr, queries, env),
        RExprKind::Block { .. } => block_to_const(fns, depth, expr, queries, env),
        RExprKind::VarRef { id } => Run { queries, env, res: var_ref_to_const(id, env) },
        RExprKind::Call { .. } => fn_to_const(fns, depth, expr, queries, env),
        _ => Run::fail(queries, env, ErrorKind::Unsupported),
    }
}

/// The term of a conditional expression: `(ite c t e)`. The branches are
/// encoded in copies of the environment, which are merged afterwards.
pub open spec fn if_to_const(
    fns: Map<u64, RThir>,
    depth: nat,
    expr: RExpr,
    queries: Seq<Seq<char>>,
    env: SpecEnv,
) -> Run<SpecTerm>
    decreases depth, expr, 2nat, 0nat,
{
    match expr.kind {
        RExprKind::If { cond, then_expr, else_opt: Some(else_expr) } => {
            let c = expr_to_const(fns, depth, *cond, queries, env);
            if c.res is Err {
                c
            } else {
                let guard = c.res->Ok_0;
                let t = expr_to_const(
                    fns,
                    depth,
                    *then_expr,
                    c.queries,
                    branch_env(c.env, "then"@, then_expr.span, guard),
                );
                if t.res is Err {
                    Run::fail(t.queries, c.env, t.res->Err_0)
                } else {
                    let e = expr_to_const(
                        fns,
                        depth,
                        *else_expr,
                        t.queries,
                        branch_env(c.env, "else"@, else_expr.span, guard.negated()),
                    );
                    if e.res is Err {
                        Run::fail(e.queries, c.env, e.res->Err_0)
                    } else if c.env.clashes(t.env, Some(e.env)) {
                        Run::fail(e.queries, c.env, ErrorKind::Unsupported)
                    } else {
                        Run::done(
                            e.queries,
                            c.env.merged_ite(guard, t.env, Some(e.env)),
                            (t.res->Ok_0).chosen_if(guard, e.res->Ok_0),
                        )
                    }
                }
            }
        },
        _ => Run::fail(queries, env, ErrorKind::Unsupported),
    }
}

/// The term of a block: its statements are run, and its last expression
/// gives the term. A `return` among the statements gives the term instead;
/// a block that ends otherwise has the empty term.
pub open spec fn block_to_const(
    fns: Map<u64, RThir>,
    depth: nat,
    expr: RExpr,
    queries: Seq<Seq<char>>,
    env: SpecEnv,
) -> Run<SpecTerm>
    decreases depth, expr, 2nat, 0nat,
{
    match expr.kind {
        RExprKind::Block { stmts, expr: last } => {
            let s = run_stmts(fns, depth, stmts@, 0, queries, env);
            match s.res {
                Err(_) => s.passed_on(),
                Ok(SpecAnalysisType::Return(Some(term))) => Run::done(s.queries, s.env, term),
                Ok(SpecAnalysisType::Return(None)) => Run::done(s.queries, s.env, SpecTerm::Empty),
                Ok(SpecAnalysisType::Break) => Run::done(s.queries, s.env, SpecTerm::Empty),
                Ok(SpecAnalysisType::Other) => match last {
                    Some(last) => expr_to_const(fns, depth, *last, s.queries, s.env),
                    None => Run::done(s.queries, s.env, SpecTerm::Empty),
                },
            }
        },
        _ => Run::fail(queries, env, ErrorKind::Unsupported),
    }
}

/// The term of a call: a function of the analysed crate is inlined, a
/// source of nondeterminism asks for a fresh symbol.
pub open spec fn fn_to_const(
    fns: Map<u64, RThir>,
    depth: nat,
    expr: RExpr,
    queries: Seq<Seq<char>>,
    env: SpecEnv,
) -> Run<SpecTerm>
    decreases depth, expr, 2nat, 0nat,
{
    match expr.kind {
        RExprKind::Call { ty: Ty::FnDef(def_id), def_path, args } => if def_id.is_local() {
            if fns.contains_key(def_id.index) {
                local_fn_to_const(fns, depth, fns[def_id.index], args@, queries, env)
            } else {
                Run::fail(queries, env, ErrorKind::FunctionNotFound(def_id.expect_local()))
            }
        } else {
            Run { queries, env, res: annotate_fn_to_const(fn_info(def_path@)) }
        },
        _ => Run::fail(queries, env, ErrorKind::Unsupported),
    }
}

/// What a call of an intrinsic gives as a term: the sources of
/// nondeterminism ask for a fresh symbol, the annotations give none.
pub open spec fn annotate_fn_to_const(info: Seq<Seq<char>>) -> Result<SpecTerm, ErrorKind> {
    match intrinsic_of(info) {
        Ok(Intrinsic::RandInt) => Err(ErrorKind::RandFunctions),
        Ok(Intrinsic::RandBool) => Err(ErrorKind::RandFunctions),
        Ok(Intrinsic::RandFloat) => Err(ErrorKind::RandFunctions),
        Ok(_) => Err(ErrorKind::Unsupported),
        Err(e) => Err(e),
    }
}

/// The term of an inlined call of `rthir`: its parameters are bound to the
/// arguments and its body is encoded as a block. `depth` says how many more
/// calls may be open at once; at zero the call is not inlined and the
/// analysis ends as unsupported.
pub open spec fn local_fn_to_const(
    fns: Map<u64, RThir>,
    depth: nat,
    rthir: RThir,
    args: Seq<RExpr>,
    queries: Seq<Seq<char>>,
    env: SpecEnv,
) -> Run<SpecTerm>
    decreases depth, args, 1nat, 0nat,
{
    if depth == 0 {
        Run::fail(queries, env, ErrorKind::Unsupported)
    } else {
        let p = analyze_params(fns, depth, rthir.params@, args, 0, queries, env);
        if p.res is Err {
            p.passed_on()
        } else {
            match rthir.body {
                Some(body) => block_to_const(fns, (depth - 1) as nat, body, p.queries, p.env),
                None => Run::fail(p.queries, p.env, ErrorKind::Unsupported),
            }
        }
    }
}

/// The parameters from index `i` on, each declared as a symbol whose name
/// is new to the environment, and bound to the term of its argument: a
/// second inlining of a function declares other symbols than the first.
/// Parameters without an argument, and arguments without a parameter, are
/// passed over.
pub open spec fn analyze_params(
    fns: Map<u64, RThir>,
    depth: nat,
    params: Seq<RParam>,
    args: Seq<RExpr>,
    i: nat,
    queries: Seq<Seq<char>>,
    env: SpecEnv,
) -> Run<()>
    decreases depth, args, 0nat, args.len() - i,
{
    if i >= params.len() || i >= args.len() {
        Run::done(queries, env, ())
    } else {
        match params[i as int].pat {
            None => analyze_params(fns, depth, params, args, i + 1, queries, env),
            Some(pat) => match pat.kind {
                RExprKind::Pat { kind: RPatKind::Binding { var, ty, .. } } => {
                    let name = declared_name(env, pat.span);
                    let a = expr_to_const(fns, depth, args[i as int], queries, env.with_param(name, ty, var));
                    if a.res is Err {
                        a.passed_on()
                    } else if !a.env.env_map.contains_key(var) {
                        Run::fail(a.queries, a.env, ErrorKind::UnboundVariable(var))
                    } else {
                        analyze_params(
                            fns,
                            depth,
                            params,
                            args,
                            i + 1,
                            a.queries,
                            bound(a.env, name, var, a.res->Ok_0),
                        )
                    }
                },
                _ => Run::fail(queries, env, ErrorKind::Unsupported),
            },
        }
    }
}

/// Whether statement `i` is the first of the invariants of a loop: it
/// marks an invariant, and behind the invariants that follow it stands a loop.
pub open spec fn heads_loop(stmts: Seq<RExpr>, i: nat) -> bool {
    &&& i < stmts.len()
    &&& is_invariant(stmts[i as int])
    &&& invariants_end(stmts, i) < stmts.len()
    &&& stmts[invariants_end(stmts, i) as int].kind is Loop
}

/// The statements of a block from index `i` on, run in order until one of
/// them hands control elsewhere. Statements that mark invariants are taken
/// together with the loop that follows them; an invariant that no loop
/// follows is an assumption like any other.
pub open spec fn run_stmts(
    fns: Map<u64, RThir>,
    depth: nat,
    stmts: Seq<RExpr>,
    i: nat,
    queries: Seq<Seq<char>>,
    env: SpecEnv,
) -> Run<SpecAnalysisType>
    decreases depth, stmts, stmts.len() - i, stmts.len() + 2,
{
    if i >= stmts.len() {
        Run::done(queries, env, SpecAnalysisType::Other)
    } else if heads_loop(stmts, i) {
        let k = invariants_end(stmts, i);
        let l = analyze_loop(fns, depth, stmts, i, k, queries, env);
        if l.res is Err {
            l.passed_on()
        } else {
            proof {
                lemma_invariants_end(stmts, i);
            }
            run_stmts(fns, depth, stmts, k + 1, l.queries, l.env)
        }
    } else {
        let r = analyze_expr(fns, depth, stmts[i as int], queries, env);
        match r.res {
            Ok(SpecAnalysisType::Other) => run_stmts(fns, depth, stmts, i + 1, r.queries, r.env),
            _ => r,
        }
    }
}

/// A loop with its invariants, which the statements `i..k` mark; statement
/// `k` is the loop.
///
/// In a copy of the environment each invariant is posed as a goal and then
/// assumed. In a copy of that, the variables that the body assigns to and
/// the invariants do not read are given fresh symbols, the invariants are
/// assumed again, the body is run once, and the conjunction of the
/// invariants is posed as a goal. The environment itself stays as it was.
pub open spec fn analyze_loop(
    fns: Map<u64, RThir>,
    depth: nat,
    stmts: Seq<RExpr>,
    i: nat,
    k: nat,
    queries: Seq<Seq<char>>,
    env: SpecEnv,
) -> Run<()>
    decreases depth, stmts, 0nat, stmts.len() + 1,
{
    if i < k < stmts.len() {
        let loop_env = env.renamed(SpecEnv::unique_name("loop"@, span_name(stmts[i as int].span)));
        let b = verify_before_loop(fns, depth, stmts, i, k, queries, loop_env);
        if b.res is Err {
            Run::fail(b.queries, env, b.res->Err_0)
        } else {
            let inner_env = b.env.renamed(
                SpecEnv::unique_name("inner_loop"@, span_name(stmts[k as int].span)),
            );
            let v = verify_loop_internals(fns, depth, stmts, i, k, b.queries, inner_env);
            Run { queries: v.queries, env, res: v.res }
        }
    } else {
        Run::fail(queries, env, ErrorKind::Unsupported)
    }
}

/// The base case: each of the invariants that the statements `j..k` mark
/// is posed as a goal in `env` and then assumed there.
pub open spec fn verify_before_loop(
    fns: Map<u64, RThir>,
    depth: nat,
    stmts: Seq<RExpr>,
    j: nat,
    k: nat,
    queries: Seq<Seq<char>>,
    env: SpecEnv,
) -> Run<()>
    decreases depth, stmts, 0nat, k - j,
{
    if j >= k || k > stmts.len() {
        Run::done(queries, env, ())
    } else {
        let r = match stmts[j as int].kind {
            RExprKind::Call { args, .. } => analyze_assert(fns, depth, args@, queries, env),
            _ => Run::fail(queries, env, ErrorKind::OutOfBounds(0)),
        };
        if r.res is Err {
            r.passed_on()
        } else {
            verify_before_loop(fns, depth, stmts, j + 1, k, r.queries, r.env)
        }
    }
}

/// The invariants that the statements `j..k` mark, assumed in `env`.
pub open spec fn assume_invariants(
    fns: Map<u64, RThir>,
    depth: nat,
    stmts: Seq<RExpr>,
    j: nat,
    k: nat,
    queries: Seq<Seq<char>>,
    env: SpecEnv,
) -> Run<()>
    decreases depth, stmts, 0nat, k - j,
{
    if j >= k || k > stmts.len() {
        Run::done(queries, env, ())
    } else {
        let r = match stmts[j as int].kind {
            RExprKind::Call { args, .. } => analyze_assume(fns, depth, args@, queries, env),
            _ => Run::fail(queries, env, ErrorKind::OutOfBounds(0)),
        };
        if r.res is Err {
            r.passed_on()
        } else {
            assume_invariants(fns, depth, stmts, j + 1, k, r.queries, r.env)
        }
    }
}

/// `acc` and `term` in one conjunction; `term` alone where nothing came before.
pub open spec fn conjoined(acc: Option<SpecTerm>, term: SpecTerm) -> SpecTerm {
    match acc {
        Some(acc) => binary(SmtBinOp::And, acc, term),
        None => term,
    }
}

/// The conjunction of `acc` and the invariants that the statements `j..k`
/// mark, as they read in `env`.
pub open spec fn fold_invariants(
    fns: Map<u64, RThir>,
    depth: nat,
    stmts: Seq<RExpr>,
    j: nat,
    k: nat,
    acc: Option<SpecTerm>,
    queries: Seq<Seq<char>>,
    env: SpecEnv,
) -> Run<SpecTerm>
    decreases depth, stmts, 0nat, k - j,
{
    if j >= k || k > stmts.len() {
        Run::done(
            queries,
            env,
            match acc {
                Some(acc) => acc,
                None => SpecTerm::Empty,
            },
        )
    } else if call_args(stmts[j as int]).len() == 0 {
        Run::fail(queries, env, ErrorKind::OutOfBounds(0))
    } else {
        let c = expr_to_const(fns, depth, call_args(stmts[j as int])[0], queries, env);
        if c.res is Err {
            c
        } else {
            fold_invariants(fns, depth, stmts, j + 1, k, Some(conjoined(acc, c.res->Ok_0)), c.queries, c.env)
        }
    }
}

/// The inductive step of a loop, in `env`, the copy made for the body.
pub open spec fn verify_loop_internals(
    fns: Map<u64, RThir>,
    depth: nat,
    stmts: Seq<RExpr>,
    i: nat,
    k: nat,
    queries: Seq<Seq<char>>,
    env: SpecEnv,
) -> Run<()>
    decreases depth, stmts, 0nat, stmts.len(),
{
    if i < k < stmts.len() {
        match stmts[k as int].kind {
            RExprKind::Loop { body } => {
                let fresh = set_var_map(env, stmts, i, k, *body);
                if fresh.res is Err {
                    Run::fail(queries, fresh.env, fresh.res->Err_0)
                } else {
                    let a = assume_invariants(fns, depth, stmts, i, k, queries, fresh.env);
                    if a.res is Err {
                        a
                    } else {
                        let r = analyze_block(fns, depth, *body, a.queries, a.env);
                        if r.res is Err {
                            r
                        } else {
                            let f = fold_invariants(fns, depth, stmts, i, k, None, r.queries, r.env);
                            if f.res is Err {
                                f.passed_on()
                            } else if !f.env.renderable() {
                                Run::fail(f.queries, f.env, ErrorKind::Unsupported)
                            } else {
                                Run::done(f.queries.push(f.env.query(f.res->Ok_0)), f.env, ())
                            }
                        }
                    }
                }
            },
            _ => Run::fail(queries, env, ErrorKind::Unsupported),
        }
    } else {
        Run::fail(queries, env, ErrorKind::Unsupported)
    }
}

/// `assert(e)`: the goal `e` is posed to the solver and assumed from then on.
pub open spec fn analyze_assert(
    fns: Map<u64, RThir>,
    depth: nat,
    args: Seq<RExpr>,
    queries: Seq<Seq<char>>,
    env: SpecEnv,
) -> Run<SpecAnalysisType>
    decreases depth, args, 0nat, 0nat,
{
    if args.len() == 0 {
        Run::fail(queries, env, ErrorKind::OutOfBounds(0))
    } else {
        let c = expr_to_const(fns, depth, args[0], queries, env);
        if c.res is Err {
            c.passed_on()
        } else if !c.env.renderable() {
            Run::fail(c.queries, c.env, ErrorKind::Unsupported)
        } else {
            Run::done(
                c.queries.push(c.env.query(c.res->Ok_0)),
                c.env.with_assumption(c.res->Ok_0),
                SpecAnalysisType::Other,
            )
        }
    }
}

/// `assume(e)`: `e` is assumed from then on and never checked.
pub open spec fn analyze_assume(
    fns: Map<u64, RThir>,
    depth: nat,
    args: Seq<RExpr>,
    queries: Seq<Seq<char>>,
    env: SpecEnv,
) -> Run<SpecAnalysisType>
    decreases depth, args, 0nat, 0nat,
{
    if args.len() == 0 {
        Run::fail(queries, env, ErrorKind::OutOfBounds(0))
    } else {
        let c = expr_to_const(fns, depth, args[0], queries, env);
        if c.res is Err {
            c.passed_on()
        } else {
            Run::done(c.queries, c.env.with_assumption(c.res->Ok_0), SpecAnalysisType::Other)
        }
    }
}

/// `drop(x)`: `x` stands for a fresh symbol without any constraint, whose
/// name is new to the environment.
pub open spec fn analyze_drop(args: Seq<RExpr>, env: SpecEnv) -> Result<SpecEnv, ErrorKind> {
    if args.len() == 0 {
        Err(ErrorKind::OutOfBounds(0))
    } else {
        match args[0].kind {
            RExprKind::VarRef { id } => if env.env_map.contains_key(id) {
                let name = dropped_name(env, args[0].span);
                Ok(env.with_random_var(env.env_map[id].ty, name).with_value(id, SpecTerm::Symbol { name }))
            } else {
                Err(ErrorKind::UnboundVariable(id))
            },
            _ => Err(ErrorKind::Unsupported),
        }
    }
}

/// A call of an intrinsic as a statement.
pub open spec fn analyze_annotate_fn(
    fns: Map<u64, RThir>,
    depth: nat,
    info: Seq<Seq<char>>,
    args: Seq<RExpr>,
    queries: Seq<Seq<char>>,
    env: SpecEnv,
) -> Run<SpecAnalysisType>
    decreases depth, args, 1nat, 0nat,
{
    match intrinsic_of(info) {
        Ok(Intrinsic::Assert) => analyze_assert(fns, depth, args, queries, env),
        Ok(Intrinsic::Assume) => analyze_assume(fns, depth, args, queries, env),
        Ok(Intrinsic::Invariant) => analyze_assume(fns, depth, args, queries, env),
        Ok(Intrinsic::Drop) => match analyze_drop(args, env) {
            Ok(env) => Run::done(queries, env, SpecAnalysisType::Other),
            Err(e) => Run::fail(queries, env, e),
        },
        Ok(_) => Run::fail(queries, env, ErrorKind::Unsupported),
        Err(e) => Run::fail(queries, env, e),
    }
}

/// An inlined call of `rthir` as a statement; what it returns is dropped.
pub open spec fn analyze_local_fn(
    fns: Map<u64, RThir>,
    depth: nat,
    rthir: RThir,
    args: Seq<RExpr>,
    queries: Seq<Seq<char>>,
    env: SpecEnv,
) -> Run<SpecAnalysisType>
    decreases depth, args, 1nat, 0nat,
{
    if depth == 0 {
        Run::fail(queries, env, ErrorKind::Unsupported)
    } else {
        let p = analyze_params(fns, depth, rthir.params@, args, 0, queries, env);
        if p.res is Err {
            p.passed_on()
        } else {
            match rthir.body {
                Some(body) => {
                    let b = analyze_body(fns, (depth - 1) as nat, body, p.queries, p.env);
                    if b.res is Err {
                        b
                    } else {
                        Run::done(b.queries, b.env, SpecAnalysisType::Other)
                    }
                },
                None => Run::fail(p.queries, p.env, ErrorKind::Unsupported),
            }
        }
    }
}

/// A call as a statement.
pub open spec fn analyze_fn(
    fns: Map<u64, RThir>,
    depth: nat,
    expr: RExpr,
    queries: Seq<Seq<char>>,
    env: SpecEnv,
) -> Run<SpecAnalysisType>
    decreases depth, expr, 2nat, 0nat,
{
    match expr.kind {
        RExprKind::Call { ty: Ty::FnDef(def_id), def_path, args } => if def_id.is_local() {
            if fns.contains_key(def_id.index) {
                analyze_local_fn(fns, depth, fns[def_id.index], args@, queries, env)
            } else {
                Run::fail(queries, env, ErrorKind::FunctionNotFound(def_id.expect_local()))
            }
        } else {
            analyze_annotate_fn(fns, depth, fn_info(def_path@), args@, queries, env)
        },
        _ => Run::fail(queries, env, ErrorKind::Unsupported),
    }
}

/// What a block hands on: a `break` ends with the block.
pub open spec fn absorbed(signal: SpecAnalysisType) -> SpecAnalysisType {
    match signal {
        SpecAnalysisType::Break => SpecAnalysisType::Other,
        signal => signal,
    }
}

/// A block as a statement: its statements in order, then its last
/// expression. A `return` ends the block and is handed on.
pub open spec fn analyze_body(
    fns: Map<u64, RThir>,
    depth: nat,
    expr: RExpr,
    queries: Seq<Seq<char>>,
    env: SpecEnv,
) -> Run<SpecAnalysisType>
    decreases depth, expr, 2nat, 0nat,
{
    match expr.kind {
        RExprKind::Block { stmts, expr: last } => {
            let s = run_stmts(fns, depth, stmts@, 0, queries, env);
            match s.res {
                Ok(SpecAnalysisType::Other) => match last {
                    Some(last) => {
                        let r = analyze_expr(fns, depth, *last, s.queries, s.env);
                        match r.res {
                            Ok(signal) => Run::done(r.queries, r.env, absorbed(signal)),
                            Err(_) => r,
                        }
                    },
                    None => s,
                },
                Ok(signal) => Run::done(s.queries, s.env, absorbed(signal)),
                Err(_) => s,
            }
        },
        _ => Run::fail(queries, env, ErrorKind::Unsupported),
    }
}

/// A block run for its effects alone.
pub open spec fn analyze_block(
    fns: Map<u64, RThir>,
    depth: nat,
    expr: RExpr,
    queries: Seq<Seq<char>>,
    env: SpecEnv,
) -> Run<()>
    decreases depth, expr, 3nat, 0nat,
{
    let b = analyze_body(fns, depth, expr, queries, env);
    if b.res is Err {
        b.passed_on()
    } else {
        Run::done(b.queries, b.env, ())
    }
}

/// A `let`: the variable is declared as a symbol named after the scope and
/// the pattern's location, with a number that makes the name new to the
/// environment. With an initialiser it stands for the initialiser's term,
/// which is also assumed equal to the new symbol; where the initialiser
/// draws a nondeterministic value, it stands for an unconstrained symbol
/// whose name is new to the environment too. An else block is run afterwards.
pub open spec fn analyze_let_stmt(
    fns: Map<u64, RThir>,
    depth: nat,
    expr: RExpr,
    queries: Seq<Seq<char>>,
    env: SpecEnv,
) -> Run<SpecAnalysisType>
    decreases depth, expr, 2nat, 0nat,
{
    match expr.kind {
        RExprKind::LetStmt { pattern, init, else_block } => match pattern.kind {
            RExprKind::Pat { kind: RPatKind::Binding { var, ty, .. } } => {
                let name = declared_name(env, pattern.span);
                let declared = env.with_param(name, ty, var);
                let b = match init {
                    None => Run::done(queries, declared, ()),
                    Some(init) => {
                        let r = expr_to_const(fns, depth, *init, queries, declared);
                        match r.res {
                            Ok(term) => if r.env.env_map.contains_key(var) {
                                Run::done(r.queries, bound(r.env, name, var, term), ())
                            } else {
                                Run::fail(r.queries, r.env, ErrorKind::UnboundVariable(var))
                            },
                            Err(ErrorKind::RandFunctions) => if r.env.env_map.contains_key(var) {
                                let rand_name = random_name(r.env, pattern.span);
                                Run::done(
                                    r.queries,
                                    r.env.with_random_var(ty, rand_name).with_value(
                                        var,
                                        SpecTerm::Symbol { name: rand_name },
                                    ),
                                    (),
                                )
                            } else {
                                Run::fail(r.queries, r.env, ErrorKind::UnboundVariable(var))
                            },
                            Err(e) => Run::fail(r.queries, r.env, e),
                        }
                    },
                };
                if b.res is Err {
                    b.passed_on()
                } else {
                    match else_block {
                        Some(else_block) => {
                            let e = analyze_block(fns, depth, *else_block, b.queries, b.env);
                            if e.res is Err {
                                e.passed_on()
                            } else {
                                Run::done(e.queries, e.env, SpecAnalysisType::Other)
                            }
                        },
                        None => Run::done(b.queries, b.env, SpecAnalysisType::Other),
                    }
                }
            },
            _ => Run::fail(queries, env, ErrorKind::Unsupported),
        },
        _ => Run::fail(queries, env, ErrorKind::Unsupported),
    }
}

/// The record of the assigned variable with `term` standing for it.
pub open spec fn assigned(lhs: RExpr, term: SpecTerm, queries: Seq<Seq<char>>, env: SpecEnv) -> Run<
    SpecAnalysisType,
> {
    match expr_to_var_id(lhs) {
        Some(var) => if env.env_map.contains_key(var) {
            Run::done(queries, env.with_value(var, term), SpecAnalysisType::Other)
        } else {
            Run::fail(queries, env, ErrorKind::UnboundVariable(var))
        },
        None => Run::fail(queries, env, ErrorKind::Unsupported),
    }
}

/// An assignment: the variable on the left stands for the term of the right side.
pub open spec fn analyze_assign(
    fns: Map<u64, RThir>,
    depth: nat,
    expr: RExpr,
    queries: Seq<Seq<char>>,
    env: SpecEnv,
) -> Run<SpecAnalysisType>
    decreases depth, expr, 2nat, 0nat,
{
    match expr.kind {
        RExprKind::Assign { lhs, rhs } => {
            let r = expr_to_const(fns, depth, *rhs, queries, env);
            if r.res is Err {
                r.passed_on()
            } else {
                assigned(*lhs, r.res->Ok_0, r.queries, r.env)
            }
        },
        _ => Run::fail(queries, env, ErrorKind::Unsupported),
    }
}

/// A compound assignment: the variable on the left stands for the operator
/// applied to its term and the term of the right side.
pub open spec fn analyze_assign_op(
    fns: Map<u64, RThir>,
    depth: nat,
    expr: RExpr,
    queries: Seq<Seq<char>>,
    env: SpecEnv,
) -> Run<SpecAnalysisType>
    decreases depth, expr, 2nat, 0nat,
{
    match expr.kind {
        RExprKind::AssignOp { op, lhs, rhs } => {
            let l = expr_to_const(fns, depth, *lhs, queries, env);
            if l.res is Err {
                l.passed_on()
            } else {
                let r = expr_to_const(fns, depth, *rhs, l.queries, l.env);
                if r.res is Err {
                    r.passed_on()
                } else {
                    match binop_to_const(op, l.res->Ok_0, r.res->Ok_0) {
                        Ok(term) => assigned(*lhs, term, r.queries, r.env),
                        Err(e) => Run::fail(r.queries, r.env, e),
                    }
                }
            }
        },
        _ => Run::fail(queries, env, ErrorKind::Unsupported),
    }
}

/// A conditional as a statement: the condition is encoded in the
/// environment, each branch runs in a copy under the condition or its
/// negation, and the copies are merged back. Branches that both declared a
/// symbol of the same name cannot be merged; the analysis ends as unsupported.
pub open spec fn analyze_if(
    fns: Map<u64, RThir>,
    depth: nat,
    expr: RExpr,
    queries: Seq<Seq<char>>,
    env: SpecEnv,
) -> Run<SpecAnalysisType>
    decreases depth, expr, 2nat, 0nat,
{
    match expr.kind {
        RExprKind::If { cond, then_expr, else_opt } => {
            let c = expr_to_const(fns, depth, *cond, queries, env);
            if c.res is Err {
                c.passed_on()
            } else {
                let guard = c.res->Ok_0;
                let t = analyze_block(
                    fns,
                    depth,
                    *then_expr,
                    c.queries,
                    branch_env(c.env, "then"@, then_expr.span, guard),
                );
                if t.res is Err {
                    Run::fail(t.queries, c.env, t.res->Err_0)
                } else {
                    match else_opt {
                        Some(else_expr) => {
                            let e = analyze_block(
                                fns,
                                depth,
                                *else_expr,
                                t.queries,
                                branch_env(c.env, "else"@, else_expr.span, guard.negated()),
                            );
                            if e.res is Err {
                                Run::fail(e.queries, c.env, e.res->Err_0)
                            } else if c.env.clashes(t.env, Some(e.env)) {
                                Run::fail(e.queries, c.env, ErrorKind::Unsupported)
                            } else {
                                Run::done(
                                    e.queries,
                                    c.env.merged_ite(guard, t.env, Some(e.env)),
                                    SpecAnalysisType::Other,
                                )
                            }
                        },
                        None => Run::done(
                            t.queries,
                            c.env.merged_ite(guard, t.env, None),
                            SpecAnalysisType::Other,
                        ),
                    }
                }
            }
        },
        _ => Run::fail(queries, env, ErrorKind::Unsupported),
    }
}

/// One statement: what it does to the scripts and the environment, and how
/// it hands control on.
pub open spec fn analyze_expr(
    fns: Map<u64, RThir>,
    depth: nat,
    expr: RExpr,
    queries: Seq<Seq<char>>,
    env: SpecEnv,
) -> Run<SpecAnalysisType>
    decreases depth, expr, 5nat, 0nat,
{
    match expr.kind {
        RExprKind::Literal { lit, neg } => match literal_to_const(lit, neg) {
            Ok(_) => Run::done(queries, env, SpecAnalysisType::Other),
            Err(e) => Run::fail(queries, env, e),
        },
        RExprKind::Binary { .. } => {
            let r = expr_to_const(fns, depth, expr, queries, env);
            if r.res is Err {
                r.passed_on()
            } else {
                Run::done(r.queries, r.env, SpecAnalysisType::Other)
            }
        },
        RExprKind::Call { .. } => analyze_fn(fns, depth, expr, queries, env),
        RExprKind::Block { .. } => analyze_body(fns, depth, expr, queries, env),
        RExprKind::LetStmt { .. } => analyze_let_stmt(fns, depth, expr, queries, env),
        RExprKind::Assign { .. } => analyze_assign(fns, depth, expr, queries, env),
        RExprKind::AssignOp { .. } => analyze_assign_op(fns, depth, expr, queries, env),
        RExprKind::Loop { body } => analyze_body(fns, depth, *body, queries, env),
        RExprKind::If { .. } => analyze_if(fns, depth, expr, queries, env),
        RExprKind::Return { value } => match value {
            Some(value) => {
                let r = expr_to_const(fns, depth, *value, queries, env);
                if r.res is Err {
                    r.passed_on()
                } else {
                    Run::done(r.queries, r.env, SpecAnalysisType::Return(Some(r.res->Ok_0)))
                }
            },
            None => Run::done(queries, env, SpecAnalysisType::Return(None)),
        },
        RExprKind::Break { .. } => Run::done(queries, env, SpecAnalysisType::Break),
        _ => Run::fail(queries, env, ErrorKind::Unsupported),
    }
}

/// The analysis of one function from its entry: its body is run in the
/// root environment; a function without a body poses nothing.
///
/// As many calls may be open at once as the table has functions. A chain of
/// calls that is longer enters some function a second time, so it is
/// recursive, and the analysis ends as unsupported in place of inlining
/// without end.
pub open spec fn analyze_enter(fns: Map<u64, RThir>, rthir: RThir, queries: Seq<Seq<char>>) -> Run<()> {
    match rthir.body {
        Some(body) => analyze_block(fns, fns.len(), body, queries, SpecEnv::root()),
        None => Run::done(queries, SpecEnv::root(), ()),
    }
}

/// The analysis of the function `main_id` against the table `fns`.
pub open spec fn run(fns: Map<u64, RThir>, main_id: LocalDefId) -> Run<()> {
    if fns.contains_key(main_id.local_def_index) {
        analyze_enter(fns, fns[main_id.local_def_index], Seq::empty())
    } else {
        Run::fail(Seq::empty(), SpecEnv::root(), ErrorKind::FunctionNotFound(main_id))
    }
}

} // verus!
