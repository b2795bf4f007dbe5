//! An analysis only adds.
//!
//! No step withdraws a script, removes or reorders a fragment of the path,
//! forgets an unconstrained symbol, drops the record of a variable or
//! renames the scope. What a branch or a loop body did in its own copy of
//! the environment reaches the environment itself only by merging.

use vstd::prelude::*;
use crate::analyze::env::{lemma_fresh_symbol_is_new, lemma_new_is_unused, SpecEnv};
use crate::analyze::lir::SpecLirKind;
use crate::analyze::flow::ErrorKind;
use crate::analyze::model::{
    analyze_annotate_fn,
    analyze_assert,
    analyze_assign,
    analyze_assign_op,
    analyze_assume,
    analyze_block,
    analyze_body,
    analyze_expr,
    analyze_fn,
    analyze_if,
    analyze_let_stmt,
    analyze_local_fn,
    analyze_loop,
    analyze_params,
    assume_invariants,
    block_to_const,
    bound,
    branch_env,
    call_args,
    conjoined,
    expr_to_const,
    fn_info,
    fn_to_const,
    fold_invariants,
    if_to_const,
    intrinsic_of,
    invariants_end,
    heads_loop,
    lemma_invariants_end,
    local_fn_to_const,
    refreshed,
    run,
    run_stmts,
    search_inv,
    search_used_var,
    set_var_map,
    declared_name,
    random_name,
    refreshed_name,
    span_name,
    verify_before_loop,
    verify_loop_internals,
    Intrinsic,
    Run,
};
use crate::analyze::term::{SmtBinOp, SpecTerm};
use crate::thir::rthir::{LocalDefId, LocalVarId, RExpr, RExprKind, RParam, RPatKind, RThir, Span, Ty};

verus! {

/// Whether `longer` begins with `shorter`.
pub open spec fn extends<T>(longer: Seq<T>, shorter: Seq<T>) -> bool {
    &&& shorter.len() <= longer.len()
    &&& forall|i: int|
        #![trigger longer[i]]
        #![trigger shorter[i]]
        0 <= i < shorter.len() ==> longer[i] == shorter[i]
}

/// Whether the environment `after` holds all that `before` held: its path
/// and its unconstrained symbols begin with those of `before`, it knows
/// every variable that `before` knew, and it has the same name. And it
/// added no symbol twice: where no two symbols of `before` have the same
/// name, no two of `after` have, and every symbol that `after` has beyond
/// those of `before` has a name that is new to `before`.
pub open spec fn keeps(after: SpecEnv, before: SpecEnv) -> bool {
    &&& extends(after.path, before.path)
    &&& extends(after.vars, before.vars)
    &&& after.name == before.name
    &&& before.distinct() ==> after.distinct()
    &&& forall|i: int| before.vars.len() <= i < after.vars.len() ==> before.is_new((#[trigger] after.vars[i]).1)
    &&& forall|i: int, name: Seq<char>|
        before.path.len() <= i < after.path.len() && #[trigger] after.path[i].declares(name) ==> before.is_new(name)
    &&& forall|var: LocalVarId|
        #![trigger before.env_map.contains_key(var)]
        #![trigger after.env_map.contains_key(var)]
        before.env_map.contains_key(var) ==> after.env_map.contains_key(var)
}

/// Whether a run that started with the scripts `queries` and the
/// environment `env` only added to them.
pub open spec fn grown<T>(queries: Seq<Seq<char>>, env: SpecEnv, run: Run<T>) -> bool {
    extends(run.queries, queries) && keeps(run.env, env)
}

/// An unconstrained symbol of a new name leaves the symbols distinct.
pub proof fn lemma_distinct_random(env: SpecEnv, ty: Ty, name: Seq<char>)
    ensures
        env.distinct() && env.is_new(name) ==> env.with_random_var(ty, name).distinct(),
{
    let after = env.with_random_var(ty, name);
    if env.distinct() && env.is_new(name) {
        assert forall|i: int, j: int| 0 <= i < j < after.vars.len() implies (#[trigger] after.vars[i]).1 != (
        #[trigger] after.vars[j]).1 by {
            if j < env.vars.len() {
                assert(after.vars[i] == env.vars[i] && after.vars[j] == env.vars[j]);
            } else {
                assert(after.vars[i] == env.vars[i]);
            }
        }
        assert forall|i: int, j: int| 0 <= i < after.vars.len() && 0 <= j < after.path.len() implies !(
        #[trigger] after.path[j]).declares((#[trigger] after.vars[i]).1) by {
            if i < env.vars.len() {
                assert(after.vars[i] == env.vars[i]);
            }
        }
    }
}

/// A declaration of a new name leaves the symbols distinct.
pub proof fn lemma_distinct_param(env: SpecEnv, name: Seq<char>, ty: Ty, var: LocalVarId)
    ensures
        env.distinct() && env.is_new(name) ==> env.with_param(name, ty, var).distinct(),
{
    let after = env.with_param(name, ty, var);
    if env.distinct() && env.is_new(name) {
        assert forall|i: int, j: int, other: Seq<char>|
            0 <= i < j < after.path.len() && #[trigger] after.path[i].declares(other) implies !#[trigger] after.path[j].declares(other) by {
            assert(after.path[i] == env.path[i]);
            if j < env.path.len() {
                assert(after.path[j] == env.path[j]);
            }
        }
        assert forall|i: int, j: int| 0 <= i < after.vars.len() && 0 <= j < after.path.len() implies !(
        #[trigger] after.path[j]).declares((#[trigger] after.vars[i]).1) by {
            if j < env.path.len() {
                assert(after.path[j] == env.path[j]);
            }
        }
    }
}

/// An assumption leaves the symbols distinct.
pub proof fn lemma_distinct_assumption(env: SpecEnv, formula: SpecTerm)
    ensures
        env.distinct() ==> env.with_assumption(formula).distinct(),
{
    let after = env.with_assumption(formula);
    if env.distinct() {
        assert forall|i: int, j: int, other: Seq<char>|
            0 <= i < j < after.path.len() && #[trigger] after.path[i].declares(other) implies !#[trigger] after.path[j].declares(other) by {
            assert(after.path[i] == env.path[i]);
            if j < env.path.len() {
                assert(after.path[j] == env.path[j]);
            }
        }
        assert forall|i: int, j: int| 0 <= i < after.vars.len() && 0 <= j < after.path.len() implies !(
        #[trigger] after.path[j]).declares((#[trigger] after.vars[i]).1) by {
            if j < env.path.len() {
                assert(after.path[j] == env.path[j]);
            }
        }
    }
}

/// A fresh symbol, declared or unconstrained, leaves the symbols distinct.
pub proof fn lemma_distinct_fresh(env: SpecEnv, base: Seq<char>, ty: Ty, var: LocalVarId)
    ensures
        env.distinct() ==> env.with_param(env.fresh_symbol(base), ty, var).distinct(),
        env.distinct() ==> env.with_random_var(ty, env.fresh_symbol(base)).distinct(),
{
    lemma_fresh_symbol_is_new(env, base);
    lemma_new_is_unused(env, env.fresh_symbol(base));
    lemma_distinct_param(env, env.fresh_symbol(base), ty, var);
    lemma_distinct_random(env, ty, env.fresh_symbol(base));
}

/// Merging branches that declared no symbol of the same name leaves the
/// symbols distinct.
pub proof fn lemma_distinct_merged(parent: SpecEnv, cond: SpecTerm, then_env: SpecEnv, else_env: Option<SpecEnv>)
    requires
        then_env.distinct(),
        else_env matches Some(e) ==> e.distinct(),
        extends(then_env.path, parent.path),
        extends(then_env.vars, parent.vars),
        else_env matches Some(e) ==> extends(e.path, parent.path) && extends(e.vars, parent.vars),
        !parent.clashes(then_env, else_env),
    ensures
        parent.merged_ite(cond, then_env, else_env).distinct(),
{
    let merged = parent.merged_ite(cond, then_env, else_env);
    let vn = parent.vars.len() as int;
    let pn = parent.path.len() as int;
    let tv = then_env.vars.len() as int;
    let tp = then_env.path.len() as int;
    assert forall|i: int| 0 <= i < tv implies merged.vars[i] == #[trigger] then_env.vars[i] by {}
    assert forall|i: int, name: Seq<char>| 0 <= i < tp implies merged.path[i].declares(name) == #[trigger] then_env.path[i].declares(name) by {}
    match else_env {
        None => {
            assert(merged.vars.len() == tv);
            assert(merged.path.len() == tp);
            assert forall|i: int, j: int| 0 <= i < j < merged.vars.len() implies (#[trigger] merged.vars[i]).1 != (
            #[trigger] merged.vars[j]).1 by {
                assert(then_env.vars[i].1 != then_env.vars[j].1);
            }
            assert forall|i: int, j: int, name: Seq<char>|
                0 <= i < j < merged.path.len() && #[trigger] merged.path[i].declares(name) implies !#[trigger] merged.path[j].declares(name) by {
                assert(then_env.path[i].declares(name));
                assert(!then_env.path[j].declares(name));
            }
            assert forall|i: int, j: int| 0 <= i < merged.vars.len() && 0 <= j < merged.path.len() implies !(
            #[trigger] merged.path[j]).declares((#[trigger] merged.vars[i]).1) by {
                assert(!then_env.path[j].declares(then_env.vars[i].1));
            }
        },
        Some(e) => {
            let ev = e.vars.len() as int;
            let ep = e.path.len() as int;
            assert(merged.vars.len() == tv + ev - vn);
            assert(merged.path.len() == tp + ep - pn);
            assert forall|i: int| tv <= i < merged.vars.len() implies merged.vars[i] == #[trigger] e.vars[i - tv + vn] by {}
            assert forall|i: int, name: Seq<char>| tp <= i < merged.path.len() implies #[trigger] merged.path[i].declares(
                name,
            ) == e.path[i - tp + pn].declares(name) by {}
            // every symbol of the merged environment is one of a branch
            assert forall|i: int, j: int| 0 <= i < j < merged.vars.len() implies (#[trigger] merged.vars[i]).1 != (
            #[trigger] merged.vars[j]).1 by {
                let name = merged.vars[i].1;
                if j < tv {
                    assert(then_env.vars[i].1 != then_env.vars[j].1);
                } else if i >= tv {
                    assert(e.vars[i - tv + vn].1 != e.vars[j - tv + vn].1);
                } else if i < vn {
                    assert(e.vars[i] == parent.vars[i] && then_env.vars[i] == parent.vars[i]);
                    assert(e.vars[i].1 != e.vars[j - tv + vn].1);
                } else {
                    assert(then_env.vars[i].1 == name);
                    assert(then_env.adds(vn as nat, pn as nat, name));
                    if e.vars[j - tv + vn].1 == name {
                        assert(e.adds(vn as nat, pn as nat, name));
                    }
                }
            }
            assert forall|i: int, j: int, name: Seq<char>|
                0 <= i < j < merged.path.len() && #[trigger] merged.path[i].declares(name) implies !#[trigger] merged.path[j].declares(name) by {
                if j < tp {
                    assert(then_env.path[i].declares(name));
                    assert(!then_env.path[j].declares(name));
                } else if i >= tp {
                    assert(e.path[i - tp + pn].declares(name));
                    assert(!e.path[j - tp + pn].declares(name));
                } else if i < pn {
                    assert(then_env.path[i] == parent.path[i] && e.path[i] == parent.path[i]);
                    assert(then_env.path[i].declares(name));
                    assert(!e.path[j - tp + pn].declares(name));
                } else {
                    assert(then_env.path[i].declares(name));
                    assert(then_env.adds(vn as nat, pn as nat, name));
                    if e.path[j - tp + pn].declares(name) {
                        assert(e.adds(vn as nat, pn as nat, name));
                    }
                }
            }
            assert forall|i: int, j: int| 0 <= i < merged.vars.len() && 0 <= j < merged.path.len() implies !(
            #[trigger] merged.path[j]).declares((#[trigger] merged.vars[i]).1) by {
                let name = merged.vars[i].1;
                if i < tv && j < tp {
                    assert(!then_env.path[j].declares(then_env.vars[i].1));
                } else if i >= tv && j >= tp {
                    assert(!e.path[j - tp + pn].declares(e.vars[i - tv + vn].1));
                } else if i < tv && j >= tp {
                    if i < vn {
                        assert(e.vars[i] == parent.vars[i] && then_env.vars[i] == parent.vars[i]);
                        assert(!e.path[j - tp + pn].declares(e.vars[i].1));
                    } else {
                        assert(then_env.vars[i].1 == name);
                        assert(then_env.adds(vn as nat, pn as nat, name));
                        if e.path[j - tp + pn].declares(name) {
                            assert(e.adds(vn as nat, pn as nat, name));
                        }
                    }
                } else {
                    // a symbol of the else branch, a fragment of the then branch
                    assert(e.vars[i - tv + vn].1 == name);
                    if j < pn {
                        assert(then_env.path[j] == parent.path[j] && e.path[j] == parent.path[j]);
                        assert(!e.path[j].declares(e.vars[i - tv + vn].1));
                    } else {
                        assert(e.adds(vn as nat, pn as nat, name));
                        if then_env.path[j].declares(name) {
                            assert(then_env.adds(vn as nat, pn as nat, name));
                        }
                    }
                }
            }
        },
    }
}

/// A branch that kept what its start held extends the path and the
/// unconstrained symbols of the environment that it was copied from.
pub proof fn lemma_branch_extends(parent: SpecEnv, kind: Seq<char>, span: Span, guard: SpecTerm, after: SpecEnv)
    requires
        keeps(after, branch_env(parent, kind, span, guard)),
    ensures
        extends(after.path, parent.path),
        extends(after.vars, parent.vars),
{
    let start = branch_env(parent, kind, span, guard);
    assert forall|i: int| 0 <= i < parent.path.len() implies after.path[i] == #[trigger] parent.path[i] by {
        assert(start.path[i] == parent.path[i]);
    }
}

/// Keeping is transitive.
pub proof fn lemma_keeps_transitive(after: SpecEnv, mid: SpecEnv, before: SpecEnv)
    requires
        keeps(after, mid),
        keeps(mid, before),
    ensures
        keeps(after, before),
{
    assert forall|i: int| before.vars.len() <= i < after.vars.len() implies before.is_new(
        (#[trigger] after.vars[i]).1,
    ) by {
        if i < mid.vars.len() {
            assert(after.vars[i] == mid.vars[i]);
        } else {
            lemma_new_to_smaller(mid, before, after.vars[i].1);
        }
    }
    assert forall|i: int, name: Seq<char>|
        before.path.len() <= i < after.path.len() && #[trigger] after.path[i].declares(name) implies before.is_new(
        name,
    ) by {
        if i < mid.path.len() {
            assert(after.path[i] == mid.path[i]);
        } else {
            lemma_new_to_smaller(mid, before, name);
        }
    }
}

/// A name that is new to an environment is new to every environment that
/// it extends.
pub proof fn lemma_new_to_smaller(larger: SpecEnv, smaller: SpecEnv, name: Seq<char>)
    requires
        extends(larger.vars, smaller.vars),
        extends(larger.path, smaller.path),
        larger.is_new(name),
    ensures
        smaller.is_new(name),
{
    assert forall|i: int| 0 <= i < smaller.vars.len() implies (#[trigger] smaller.vars[i]).1 != name by {
        assert(larger.vars[i] == smaller.vars[i]);
    }
    assert forall|i: int| 0 <= i < smaller.path.len() implies !((#[trigger] smaller.path[i])
        matches SpecLirKind::Declaration { name: declared, .. } && declared == name) by {
        assert(larger.path[i] == smaller.path[i]);
    }
}

/// Declaring a fresh symbol keeps what the environment held.
proof fn lemma_keeps_fresh_param(env: SpecEnv, base: Seq<char>, ty: Ty, var: LocalVarId)
    ensures
        keeps(env.with_param(env.fresh_symbol(base), ty, var), env),
{
    lemma_distinct_fresh(env, base, ty, var);
    lemma_fresh_symbol_is_new(env, base);
    lemma_new_is_unused(env, env.fresh_symbol(base));
}

/// Introducing a fresh unconstrained symbol for a variable keeps what the
/// environment held.
pub proof fn lemma_keeps_fresh_random(env: SpecEnv, base: Seq<char>, ty: Ty, var: LocalVarId)
    ensures
        keeps(
            env.with_random_var(ty, env.fresh_symbol(base)).with_value(
                var,
                SpecTerm::Symbol { name: env.fresh_symbol(base) },
            ),
            env,
        ),
{
    lemma_distinct_fresh(env, base, ty, var);
    lemma_fresh_symbol_is_new(env, base);
    lemma_new_is_unused(env, env.fresh_symbol(base));
}

/// Binding a declared variable keeps what the environment held.
proof fn lemma_keeps_bound(env: SpecEnv, name: Seq<char>, var: LocalVarId, term: SpecTerm)
    ensures
        keeps(bound(env, name, var, term), env),
{
    lemma_distinct_bound(env, name, var, term);
}

/// The symbols of a branch's copy are distinct where those of the
/// environment are.
proof fn lemma_distinct_branch(env: SpecEnv, kind: Seq<char>, span: Span, guard: SpecTerm)
    ensures
        env.distinct() ==> branch_env(env, kind, span, guard).distinct(),
{
    lemma_distinct_assumption(env.renamed(SpecEnv::unique_name(kind, span_name(span))), guard);
}

/// Binding a declared variable leaves the symbols distinct.
proof fn lemma_distinct_bound(env: SpecEnv, name: Seq<char>, var: LocalVarId, term: SpecTerm)
    ensures
        env.distinct() ==> bound(env, name, var, term).distinct(),
{
    lemma_distinct_assumption(env, crate::analyze::model::binary(SmtBinOp::Eq, SpecTerm::Symbol { name }, term));
}

/// Merging the branches of a conditional that ran in copies of `env`
/// leaves the symbols distinct.
proof fn lemma_distinct_after_branches(
    env: SpecEnv,
    guard: SpecTerm,
    then_span: Span,
    then_env: SpecEnv,
    else_span: Span,
    else_env: Option<SpecEnv>,
)
    requires
        keeps(then_env, branch_env(env, "then"@, then_span, guard)),
        else_env matches Some(e) ==> keeps(e, branch_env(env, "else"@, else_span, guard.negated())),
        !env.clashes(then_env, else_env),
    ensures
        keeps(env.merged_ite(guard, then_env, else_env), env),
{
    lemma_branch_extends(env, "then"@, then_span, guard, then_env);
    lemma_distinct_branch(env, "then"@, then_span, guard);
    match else_env {
        Some(e) => {
            lemma_branch_extends(env, "else"@, else_span, guard.negated(), e);
            lemma_distinct_branch(env, "else"@, else_span, guard.negated());
        },
        None => {},
    }
    if env.distinct() {
        lemma_distinct_merged(env, guard, then_env, else_env);
    }
}

/// Refreshing variables only adds to the environment, and adds no symbol twice.
pub proof fn lemma_refreshed(env: SpecEnv, vars: Seq<LocalVarId>, inv_vars: Seq<LocalVarId>, i: nat)
    ensures
        keeps(refreshed(env, vars, inv_vars, i).env, env),
    decreases vars.len() - i,
{
    if i >= vars.len() {
    } else if inv_vars.contains(vars[i as int]) {
        lemma_refreshed(env, vars, inv_vars, i + 1);
    } else if !env.env_map.contains_key(vars[i as int]) {
    } else {
        let lir = env.env_map[vars[i as int]];
        let name = refreshed_name(env, lir.name);
        let mid = env.with_random_var(lir.ty, name).with_value(vars[i as int], SpecTerm::Symbol { name });
        lemma_keeps_fresh_random(env, env.symbol_base(""@, lir.name), lir.ty, vars[i as int]);
        lemma_refreshed(mid, vars, inv_vars, i + 1);
        lemma_keeps_transitive(refreshed(mid, vars, inv_vars, i + 1).env, mid, env);
    }
}

proof fn lemma_expr_to_const(fns: Map<u64, RThir>, depth: nat, expr: RExpr, q: Seq<Seq<char>>, env: SpecEnv)
    ensures
        grown(q, env, expr_to_const(fns, depth, expr, q, env)),
    decreases depth, expr, 3nat, 0nat,
{
    match expr.kind {
        RExprKind::Binary { op, lhs, rhs } => {
            lemma_expr_to_const(fns, depth, *lhs, q, env);
            let l = expr_to_const(fns, depth, *lhs, q, env);
            if l.res is Ok {
                lemma_expr_to_const(fns, depth, *rhs, l.queries, l.env);
            }
        },
        RExprKind::LogicalOp { op, lhs, rhs } => {
            lemma_expr_to_const(fns, depth, *lhs, q, env);
            let l = expr_to_const(fns, depth, *lhs, q, env);
            if l.res is Ok {
                lemma_expr_to_const(fns, depth, *rhs, l.queries, l.env);
            }
        },
        RExprKind::Unary { op, arg } => {
            lemma_expr_to_const(fns, depth, *arg, q, env);
        },
        RExprKind::If { .. } => {
            lemma_if_to_const(fns, depth, expr, q, env);
        },
        RExprKind::Block { .. } => {
            lemma_block_to_const(fns, depth, expr, q, env);
        },
        RExprKind::Call { .. } => {
            lemma_fn_to_const(fns, depth, expr, q, env);
        },
        _ => {},
    }
}

proof fn lemma_if_to_const(fns: Map<u64, RThir>, depth: nat, expr: RExpr, q: Seq<Seq<char>>, env: SpecEnv)
    ensures
        grown(q, env, if_to_const(fns, depth, expr, q, env)),
    decreases depth, expr, 2nat, 0nat,
{
    match expr.kind {
        RExprKind::If { cond, then_expr, else_opt: Some(else_expr) } => {
            lemma_expr_to_const(fns, depth, *cond, q, env);
            let c = expr_to_const(fns, depth, *cond, q, env);
            if c.res is Ok {
                let guard = c.res->Ok_0;
                let then_env = branch_env(c.env, "then"@, then_expr.span, guard);
                lemma_expr_to_const(fns, depth, *then_expr, c.queries, then_env);
                let t = expr_to_const(fns, depth, *then_expr, c.queries, then_env);
                if t.res is Ok {
                    let else_env = branch_env(c.env, "else"@, else_expr.span, guard.negated());
                    lemma_expr_to_const(fns, depth, *else_expr, t.queries, else_env);
                    let e = expr_to_const(fns, depth, *else_expr, t.queries, else_env);
                    if e.res is Ok && !c.env.clashes(t.env, Some(e.env)) {
                        lemma_distinct_after_branches(
                            c.env,
                            guard,
                            then_expr.span,
                            t.env,
                            else_expr.span,
                            Some(e.env),
                        );
                    }
                }
            }
        },
        _ => {},
    }
}

proof fn lemma_block_to_const(fns: Map<u64, RThir>, depth: nat, expr: RExpr, q: Seq<Seq<char>>, env: SpecEnv)
    ensures
        grown(q, env, block_to_const(fns, depth, expr, q, env)),
    decreases depth, expr, 2nat, 0nat,
{
    match expr.kind {
        RExprKind::Block { stmts, expr: last } => {
            lemma_run_stmts(fns, depth, stmts@, 0, q, env);
            let s = run_stmts(fns, depth, stmts@, 0, q, env);
            if s.res is Ok {
                match last {
                    Some(last) => {
                        lemma_expr_to_const(fns, depth, *last, s.queries, s.env);
                    },
                    None => {},
                }
            }
        },
        _ => {},
    }
}

proof fn lemma_fn_to_const(fns: Map<u64, RThir>, depth: nat, expr: RExpr, q: Seq<Seq<char>>, env: SpecEnv)
    ensures
        grown(q, env, fn_to_const(fns, depth, expr, q, env)),
    decreases depth, expr, 2nat, 0nat,
{
    match expr.kind {
        RExprKind::Call { ty: Ty::FnDef(def_id), def_path, args } => {
            if def_id.is_local() && fns.contains_key(def_id.index) {
                lemma_local_fn_to_const(fns, depth, fns[def_id.index], args@, q, env);
            }
        },
        _ => {},
    }
}

proof fn lemma_analyze_fn(fns: Map<u64, RThir>, depth: nat, expr: RExpr, q: Seq<Seq<char>>, env: SpecEnv)
    ensures
        grown(q, env, analyze_fn(fns, depth, expr, q, env)),
    decreases depth, expr, 2nat, 0nat,
{
    match expr.kind {
        RExprKind::Call { ty: Ty::FnDef(def_id), def_path, args } => {
            if def_id.is_local() {
                if fns.contains_key(def_id.index) {
                    lemma_analyze_local_fn(fns, depth, fns[def_id.index], args@, q, env);
                }
            } else {
                lemma_analyze_annotate_fn(fns, depth, fn_info(def_path@), args@, q, env);
            }
        },
        _ => {},
    }
}

proof fn lemma_analyze_body(fns: Map<u64, RThir>, depth: nat, expr: RExpr, q: Seq<Seq<char>>, env: SpecEnv)
    ensures
        grown(q, env, analyze_body(fns, depth, expr, q, env)),
    decreases depth, expr, 2nat, 0nat,
{
    match expr.kind {
        RExprKind::Block { stmts, expr: last } => {
            lemma_run_stmts(fns, depth, stmts@, 0, q, env);
            let s = run_stmts(fns, depth, stmts@, 0, q, env);
            if s.res is Ok {
                match last {
                    Some(last) => {
                        lemma_analyze_expr(fns, depth, *last, s.queries, s.env);
                    },
                    None => {},
                }
            }
        },
        _ => {},
    }
}

proof fn lemma_analyze_block(fns: Map<u64, RThir>, depth: nat, expr: RExpr, q: Seq<Seq<char>>, env: SpecEnv)
    ensures
        grown(q, env, analyze_block(fns, depth, expr, q, env)),
    decreases depth, expr, 3nat, 0nat,
{
    lemma_analyze_body(fns, depth, expr, q, env);
}

/// A `let` only adds to the scripts and to the environment, and adds no
/// symbol twice.
pub proof fn lemma_analyze_let_stmt(fns: Map<u64, RThir>, depth: nat, expr: RExpr, q: Seq<Seq<char>>, env: SpecEnv)
    ensures
        grown(q, env, analyze_let_stmt(fns, depth, expr, q, env)),
    decreases depth, expr, 2nat, 0nat,
{
    match expr.kind {
        RExprKind::LetStmt { pattern, init, else_block } => match pattern.kind {
            RExprKind::Pat { kind: RPatKind::Binding { var, ty, .. } } => {
                let name = declared_name(env, pattern.span);
                let declared = env.with_param(name, ty, var);
                lemma_keeps_fresh_param(env, env.symbol_base(""@, span_name(pattern.span)), ty, var);
                let b = match init {
                    None => Run::done(q, declared, ()),
                    Some(init) => {
                        let r = expr_to_const(fns, depth, *init, q, declared);
                        match r.res {
                            Ok(term) => if r.env.env_map.contains_key(var) {
                                Run::done(r.queries, bound(r.env, name, var, term), ())
                            } else {
                                Run::fail(r.queries, r.env, ErrorKind::UnboundVariable(var))
                            },
                            Err(ErrorKind::RandFunctions) => if r.env.env_map.contains_key(var) {
                                let rand_name = random_name(r.env, pattern.span);
                                Run::done(
                                    r.queries,
                                    r.env.with_random_var(ty, rand_name).with_value(
                                        var,
                                        SpecTerm::Symbol { name: rand_name },
                                    ),
                                    (),
                                )
                            } else {
                                Run::fail(r.queries, r.env, ErrorKind::UnboundVariable(var))
                            },
                            Err(e) => Run::fail(r.queries, r.env, e),
                        }
                    },
                };
                match init {
                    Some(init) => {
                        lemma_expr_to_const(fns, depth, *init, q, declared);
                        let r = expr_to_const(fns, depth, *init, q, declared);
                        lemma_keeps_transitive(r.env, declared, env);
                        lemma_keeps_fresh_random(r.env, r.env.symbol_base("rand_"@, span_name(pattern.span)), ty, var);
                        if r.res is Ok {
                            lemma_keeps_bound(r.env, name, var, r.res->Ok_0);
                        }
                        lemma_keeps_transitive(b.env, r.env, env);
                    },
                    None => {},
                }
                if b.res is Ok {
                    match else_block {
                        Some(else_block) => {
                            lemma_analyze_block(fns, depth, *else_block, b.queries, b.env);
                            lemma_keeps_transitive(
                                analyze_block(fns, depth, *else_block, b.queries, b.env).env,
                                b.env,
                                env,
                            );
                        },
                        None => {},
                    }
                }
            },
            _ => {},
        },
        _ => {},
    }
}

proof fn lemma_analyze_assign(fns: Map<u64, RThir>, depth: nat, expr: RExpr, q: Seq<Seq<char>>, env: SpecEnv)
    ensures
        grown(q, env, analyze_assign(fns, depth, expr, q, env)),
    decreases depth, expr, 2nat, 0nat,
{
    match expr.kind {
        RExprKind::Assign { lhs, rhs } => {
            lemma_expr_to_const(fns, depth, *rhs, q, env);
        },
        _ => {},
    }
}

proof fn lemma_analyze_assign_op(fns: Map<u64, RThir>, depth: nat, expr: RExpr, q: Seq<Seq<char>>, env: SpecEnv)
    ensures
        grown(q, env, analyze_assign_op(fns, depth, expr, q, env)),
    decreases depth, expr, 2nat, 0nat,
{
    match expr.kind {
        RExprKind::AssignOp { op, lhs, rhs } => {
            lemma_expr_to_const(fns, depth, *lhs, q, env);
            let l = expr_to_const(fns, depth, *lhs, q, env);
            if l.res is Ok {
                lemma_expr_to_const(fns, depth, *rhs, l.queries, l.env);
            }
        },
        _ => {},
    }
}

proof fn lemma_analyze_if(fns: Map<u64, RThir>, depth: nat, expr: RExpr, q: Seq<Seq<char>>, env: SpecEnv)
    ensures
        grown(q, env, analyze_if(fns, depth, expr, q, env)),
    decreases depth, expr, 2nat, 0nat,
{
    match expr.kind {
        RExprKind::If { cond, then_expr, else_opt } => {
            lemma_expr_to_const(fns, depth, *cond, q, env);
            let c = expr_to_const(fns, depth, *cond, q, env);
            if c.res is Ok {
                let guard = c.res->Ok_0;
                let then_env = branch_env(c.env, "then"@, then_expr.span, guard);
                lemma_analyze_block(fns, depth, *then_expr, c.queries, then_env);
                let t = analyze_block(fns, depth, *then_expr, c.queries, then_env);
                if t.res is Ok {
                    match else_opt {
                        Some(else_expr) => {
                            let else_env = branch_env(c.env, "else"@, else_expr.span, guard.negated());
                            lemma_analyze_block(fns, depth, *else_expr, t.queries, else_env);
                            let e = analyze_block(fns, depth, *else_expr, t.queries, else_env);
                            if e.res is Ok && !c.env.clashes(t.env, Some(e.env)) {
                                lemma_distinct_after_branches(
                                    c.env,
                                    guard,
                                    then_expr.span,
                                    t.env,
                                    else_expr.span,
                                    Some(e.env),
                                );
                            }
                        },
                        None => {
                            lemma_distinct_after_branches(c.env, guard, then_expr.span, t.env, then_expr.span, None);
                        },
                    }
                }
            }
        },
        _ => {},
    }
}

proof fn lemma_analyze_expr(fns: Map<u64, RThir>, depth: nat, expr: RExpr, q: Seq<Seq<char>>, env: SpecEnv)
    ensures
        grown(q, env, analyze_expr(fns, depth, expr, q, env)),
    decreases depth, expr, 5nat, 0nat,
{
    match expr.kind {
        RExprKind::Binary { .. } => {
            lemma_expr_to_const(fns, depth, expr, q, env);
        },
        RExprKind::Call { .. } => {
            lemma_analyze_fn(fns, depth, expr, q, env);
        },
        RExprKind::Block { .. } => {
            lemma_analyze_body(fns, depth, expr, q, env);
        },
        RExprKind::LetStmt { .. } => {
            lemma_analyze_let_stmt(fns, depth, expr, q, env);
        },
        RExprKind::Assign { .. } => {
            lemma_analyze_assign(fns, depth, expr, q, env);
        },
        RExprKind::AssignOp { .. } => {
            lemma_analyze_assign_op(fns, depth, expr, q, env);
        },
        RExprKind::Loop { body } => {
            lemma_analyze_body(fns, depth, *body, q, env);
        },
        RExprKind::If { .. } => {
            lemma_analyze_if(fns, depth, expr, q, env);
        },
        RExprKind::Return { value } => match value {
            Some(value) => {
                lemma_expr_to_const(fns, depth, *value, q, env);
            },
            None => {},
        },
        _ => {},
    }
}

proof fn lemma_local_fn_to_const(
    fns: Map<u64, RThir>,
    depth: nat,
    rthir: RThir,
    args: Seq<RExpr>,
    q: Seq<Seq<char>>,
    env: SpecEnv,
)
    ensures
        grown(q, env, local_fn_to_const(fns, depth, rthir, args, q, env)),
    decreases depth, args, 1nat, 0nat,
{
    if depth > 0 {
        lemma_analyze_params(fns, depth, rthir.params@, args, 0, q, env);
        let p = analyze_params(fns, depth, rthir.params@, args, 0, q, env);
        if p.res is Ok {
            match rthir.body {
                Some(body) => {
                    lemma_block_to_const(fns, (depth - 1) as nat, body, p.queries, p.env);
                },
                None => {},
            }
        }
    }
}

proof fn lemma_analyze_local_fn(
    fns: Map<u64, RThir>,
    depth: nat,
    rthir: RThir,
    args: Seq<RExpr>,
    q: Seq<Seq<char>>,
    env: SpecEnv,
)
    ensures
        grown(q, env, analyze_local_fn(fns, depth, rthir, args, q, env)),
    decreases depth, args, 1nat, 0nat,
{
    if depth > 0 {
        lemma_analyze_params(fns, depth, rthir.params@, args, 0, q, env);
        let p = analyze_params(fns, depth, rthir.params@, args, 0, q, env);
        if p.res is Ok {
            match rthir.body {
                Some(body) => {
                    lemma_analyze_body(fns, (depth - 1) as nat, body, p.queries, p.env);
                },
                None => {},
            }
        }
    }
}

/// Binding parameters only adds to the scripts and to the environment, and
/// adds no symbol twice.
pub proof fn lemma_analyze_params(
    fns: Map<u64, RThir>,
    depth: nat,
    params: Seq<RParam>,
    args: Seq<RExpr>,
    i: nat,
    q: Seq<Seq<char>>,
    env: SpecEnv,
)
    ensures
        grown(q, env, analyze_params(fns, depth, params, args, i, q, env)),
    decreases depth, args, 0nat, args.len() - i,
{
    if i >= params.len() || i >= args.len() {
    } else {
        match params[i as int].pat {
            None => {
                lemma_analyze_params(fns, depth, params, args, i + 1, q, env);
            },
            Some(pat) => match pat.kind {
                RExprKind::Pat { kind: RPatKind::Binding { var, ty, .. } } => {
                    let name = declared_name(env, pat.span);
                    let declared = env.with_param(name, ty, var);
                    lemma_keeps_fresh_param(env, env.symbol_base(""@, span_name(pat.span)), ty, var);
                    lemma_expr_to_const(fns, depth, args[i as int], q, declared);
                    let a = expr_to_const(fns, depth, args[i as int], q, declared);
                    lemma_keeps_transitive(a.env, declared, env);
                    if a.res is Ok && a.env.env_map.contains_key(var) {
                        let next = bound(a.env, name, var, a.res->Ok_0);
                        lemma_keeps_bound(a.env, name, var, a.res->Ok_0);
                        lemma_keeps_transitive(next, a.env, env);
                        lemma_analyze_params(
                            fns,
                            depth,
                            params,
                            args,
                            i + 1,
                            a.queries,
                            bound(a.env, name, var, a.res->Ok_0),
                        );
                        lemma_keeps_transitive(
                            analyze_params(fns, depth, params, args, i + 1, a.queries, next).env,
                            next,
                            env,
                        );
                    }
                },
                _ => {},
            },
        }
    }
}

proof fn lemma_run_stmts(
    fns: Map<u64, RThir>,
    depth: nat,
    stmts: Seq<RExpr>,
    i: nat,
    q: Seq<Seq<char>>,
    env: SpecEnv,
)
    ensures
        grown(q, env, run_stmts(fns, depth, stmts, i, q, env)),
    decreases depth, stmts, stmts.len() - i, stmts.len() + 2,
{
    if i >= stmts.len() {
    } else if heads_loop(stmts, i) {
        let k = invariants_end(stmts, i);
        lemma_analyze_loop(fns, depth, stmts, i, k, q, env);
        let l = analyze_loop(fns, depth, stmts, i, k, q, env);
        if l.res is Ok {
            lemma_invariants_end(stmts, i);
            lemma_run_stmts(fns, depth, stmts, k + 1, l.queries, l.env);
        }
    } else {
        lemma_analyze_expr(fns, depth, stmts[i as int], q, env);
        let r = analyze_expr(fns, depth, stmts[i as int], q, env);
        if r.res is Ok {
            lemma_run_stmts(fns, depth, stmts, i + 1, r.queries, r.env);
        }
    }
}

proof fn lemma_analyze_loop(
    fns: Map<u64, RThir>,
    depth: nat,
    stmts: Seq<RExpr>,
    i: nat,
    k: nat,
    q: Seq<Seq<char>>,
    env: SpecEnv,
)
    ensures
        extends(analyze_loop(fns, depth, stmts, i, k, q, env).queries, q),
        analyze_loop(fns, depth, stmts, i, k, q, env).env == env,
    decreases depth, stmts, 0nat, stmts.len() + 1,
{
    if i < k < stmts.len() {
        let loop_env = env.renamed(SpecEnv::unique_name("loop"@, span_name(stmts[i as int].span)));
        lemma_verify_before_loop(fns, depth, stmts, i, k, q, loop_env);
        let b = verify_before_loop(fns, depth, stmts, i, k, q, loop_env);
        if b.res is Ok {
            let inner_env = b.env.renamed(
                SpecEnv::unique_name("inner_loop"@, span_name(stmts[k as int].span)),
            );
            lemma_verify_loop_internals(fns, depth, stmts, i, k, b.queries, inner_env);
        }
    }
}

proof fn lemma_verify_before_loop(
    fns: Map<u64, RThir>,
    depth: nat,
    stmts: Seq<RExpr>,
    j: nat,
    k: nat,
    q: Seq<Seq<char>>,
    env: SpecEnv,
)
    ensures
        grown(q, env, verify_before_loop(fns, depth, stmts, j, k, q, env)),
    decreases depth, stmts, 0nat, k - j,
{
    if j >= k || k > stmts.len() {
    } else {
        match stmts[j as int].kind {
            RExprKind::Call { args, .. } => {
                lemma_analyze_assert(fns, depth, args@, q, env);
                let r = analyze_assert(fns, depth, args@, q, env);
                if r.res is Ok {
                    lemma_verify_before_loop(fns, depth, stmts, j + 1, k, r.queries, r.env);
                }
            },
            _ => {},
        }
    }
}

proof fn lemma_assume_invariants(
    fns: Map<u64, RThir>,
    depth: nat,
    stmts: Seq<RExpr>,
    j: nat,
    k: nat,
    q: Seq<Seq<char>>,
    env: SpecEnv,
)
    ensures
        grown(q, env, assume_invariants(fns, depth, stmts, j, k, q, env)),
    decreases depth, stmts, 0nat, k - j,
{
    if j >= k || k > stmts.len() {
    } else {
        match stmts[j as int].kind {
            RExprKind::Call { args, .. } => {
                lemma_analyze_assume(fns, depth, args@, q, env);
                let r = analyze_assume(fns, depth, args@, q, env);
                if r.res is Ok {
                    lemma_assume_invariants(fns, depth, stmts, j + 1, k, r.queries, r.env);
                }
            },
            _ => {},
        }
    }
}

proof fn lemma_fold_invariants(
    fns: Map<u64, RThir>,
    depth: nat,
    stmts: Seq<RExpr>,
    j: nat,
    k: nat,
    acc: Option<SpecTerm>,
    q: Seq<Seq<char>>,
    env: SpecEnv,
)
    ensures
        grown(q, env, fold_invariants(fns, depth, stmts, j, k, acc, q, env)),
    decreases depth, stmts, 0nat, k - j,
{
    if j >= k || k > stmts.len() {
    } else if call_args(stmts[j as int]).len() == 0 {
    } else {
        let arg = call_args(stmts[j as int])[0];
        lemma_expr_to_const(fns, depth, arg, q, env);
        let c = expr_to_const(fns, depth, arg, q, env);
        if c.res is Ok {
            lemma_fold_invariants(fns, depth, stmts, j + 1, k, Some(conjoined(acc, c.res->Ok_0)), c.queries, c.env);
        }
    }
}

proof fn lemma_verify_loop_internals(
    fns: Map<u64, RThir>,
    depth: nat,
    stmts: Seq<RExpr>,
    i: nat,
    k: nat,
    q: Seq<Seq<char>>,
    env: SpecEnv,
)
    ensures
        grown(q, env, verify_loop_internals(fns, depth, stmts, i, k, q, env)),
    decreases depth, stmts, 0nat, stmts.len(),
{
    if i < k < stmts.len() {
        match stmts[k as int].kind {
            RExprKind::Loop { body } => {
                match search_inv(stmts, i, k, Seq::empty()) {
                    Ok(inv_vars) => match search_used_var(*body) {
                        Ok(vars) => {
                            lemma_refreshed(env, vars, inv_vars, 0);
                        },
                        Err(_) => {},
                    },
                    Err(_) => {},
                }
                let fresh = set_var_map(env, stmts, i, k, *body);
                if fresh.res is Ok {
                    lemma_assume_invariants(fns, depth, stmts, i, k, q, fresh.env);
                    let a = assume_invariants(fns, depth, stmts, i, k, q, fresh.env);
                    if a.res is Ok {
                        lemma_analyze_block(fns, depth, *body, a.queries, a.env);
                        let r = analyze_block(fns, depth, *body, a.queries, a.env);
                        if r.res is Ok {
                            lemma_fold_invariants(fns, depth, stmts, i, k, None, r.queries, r.env);
                        }
                    }
                }
            },
            _ => {},
        }
    }
}

proof fn lemma_analyze_assert(fns: Map<u64, RThir>, depth: nat, args: Seq<RExpr>, q: Seq<Seq<char>>, env: SpecEnv)
    ensures
        grown(q, env, analyze_assert(fns, depth, args, q, env)),
    decreases depth, args, 0nat, 0nat,
{
    if args.len() > 0 {
        lemma_expr_to_const(fns, depth, args[0], q, env);
    }
}

proof fn lemma_analyze_assume(fns: Map<u64, RThir>, depth: nat, args: Seq<RExpr>, q: Seq<Seq<char>>, env: SpecEnv)
    ensures
        grown(q, env, analyze_assume(fns, depth, args, q, env)),
    decreases depth, args, 0nat, 0nat,
{
    if args.len() > 0 {
        lemma_expr_to_const(fns, depth, args[0], q, env);
    }
}

proof fn lemma_analyze_annotate_fn(
    fns: Map<u64, RThir>,
    depth: nat,
    info: Seq<Seq<char>>,
    args: Seq<RExpr>,
    q: Seq<Seq<char>>,
    env: SpecEnv,
)
    ensures
        grown(q, env, analyze_annotate_fn(fns, depth, info, args, q, env)),
    decreases depth, args, 1nat, 0nat,
{
    match intrinsic_of(info) {
        Ok(Intrinsic::Assert) => {
            lemma_analyze_assert(fns, depth, args, q, env);
        },
        Ok(Intrinsic::Assume) => {
            lemma_analyze_assume(fns, depth, args, q, env);
        },
        Ok(Intrinsic::Invariant) => {
            lemma_analyze_assume(fns, depth, args, q, env);
        },
        Ok(Intrinsic::Drop) => {
            if args.len() > 0 {
                match args[0].kind {
                    RExprKind::VarRef { id } => {
                        if env.env_map.contains_key(id) {
                            lemma_keeps_fresh_random(
                                env,
                                env.symbol_base("drop_"@, span_name(args[0].span)),
                                env.env_map[id].ty,
                                id,
                            );
                        }
                    },
                    _ => {},
                }
            }
        },
        _ => {},
    }
}

/// The analysis of a function declares no symbol twice: in the environment
/// that it ends in, no two symbols have the same name.
pub proof fn lemma_run_declares_no_symbol_twice(fns: Map<u64, RThir>, main_id: LocalDefId)
    ensures
        run(fns, main_id).env.distinct(),
{
    if fns.contains_key(main_id.local_def_index) {
        match fns[main_id.local_def_index].body {
            Some(body) => {
                lemma_analyze_block(fns, fns.len(), body, Seq::empty(), SpecEnv::root());
            },
            None => {},
        }
    }
}

/// Encoding an expression only adds to the scripts and to the environment,
/// and adds no symbol twice.
pub proof fn lemma_encoding_only_adds(
    fns: Map<u64, RThir>,
    depth: nat,
    expr: RExpr,
    queries: Seq<Seq<char>>,
    env: SpecEnv,
)
    ensures
        grown(queries, env, expr_to_const(fns, depth, expr, queries, env)),
{
    lemma_expr_to_const(fns, depth, expr, queries, env);
}

/// Running a statement only adds to the scripts and to the environment,
/// and adds no symbol twice.
pub proof fn lemma_statement_only_adds(
    fns: Map<u64, RThir>,
    depth: nat,
    expr: RExpr,
    queries: Seq<Seq<char>>,
    env: SpecEnv,
)
    ensures
        grown(queries, env, analyze_expr(fns, depth, expr, queries, env)),
{
    lemma_analyze_expr(fns, depth, expr, queries, env);
}

/// Running a block for its effects only adds to the scripts and to the
/// environment.
pub proof fn lemma_block_only_adds(
    fns: Map<u64, RThir>,
    depth: nat,
    expr: RExpr,
    queries: Seq<Seq<char>>,
    env: SpecEnv,
)
    ensures
        grown(queries, env, analyze_block(fns, depth, expr, queries, env)),
{
    lemma_analyze_block(fns, depth, expr, queries, env);
}

/// A loop with its invariants leaves the environment as it was, and only
/// adds to the scripts.
pub proof fn lemma_loop_leaves_environment(
    fns: Map<u64, RThir>,
    depth: nat,
    stmts: Seq<RExpr>,
    i: nat,
    k: nat,
    queries: Seq<Seq<char>>,
    env: SpecEnv,
)
    ensures
        extends(analyze_loop(fns, depth, stmts, i, k, queries, env).queries, queries),
        analyze_loop(fns, depth, stmts, i, k, queries, env).env == env,
{
    lemma_analyze_loop(fns, depth, stmts, i, k, queries, env);
}

} // verus!
