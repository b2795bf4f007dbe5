//! The terms of an analysis depend on the records of the variables, the
//! name of the scope and the names of the symbols in use, and on nothing
//! else.
//!
//! Two runs of a step that start from environments that are alike in these
//! give the same result and leave environments that are alike, whatever the
//! assumptions of the paths and the scripts posed so far. The paths matter
//! in one place only: a goal can be posed only where every declaration has
//! a sort, so one of the runs may end there as unsupported where the other
//! goes on.

use vstd::prelude::*;
use crate::analyze::env::{lemma_fresh_symbol_by_uses, tail_from, SpecEnv};
use crate::analyze::growth::{extends, lemma_block_only_adds, lemma_branch_extends, lemma_encoding_only_adds};
use crate::analyze::lir::SpecLirKind;
use crate::analyze::flow::ErrorKind;
use crate::analyze::model::{
    analyze_annotate_fn,
    analyze_assert,
    analyze_assign,
    analyze_assign_op,
    analyze_assume,
    analyze_block,
    analyze_body,
    analyze_expr,
    analyze_fn,
    analyze_if,
    analyze_let_stmt,
    analyze_local_fn,
    analyze_loop,
    analyze_params,
    assume_invariants,
    binop_to_const,
    block_to_const,
    bound,
    branch_env,
    call_args,
    conjoined,
    expr_to_const,
    expr_to_var_id,
    fn_info,
    fn_to_const,
    fold_invariants,
    if_to_const,
    intrinsic_of,
    invariants_end,
    heads_loop,
    lemma_invariants_end,
    local_fn_to_const,
    refreshed,
    run_stmts,
    search_inv,
    search_used_var,
    set_var_map,
    declared_name,
    random_name,
    refreshed_name,
    span_name,
    verify_before_loop,
    verify_loop_internals,
    Intrinsic,
    Run,
};
use crate::analyze::term::{SmtBinOp, SpecTerm};
use crate::thir::rthir::{LocalVarId, RExpr, RExprKind, RParam, RPatKind, RThir, Span, Ty};

verus! {

/// Whether a run ended as unsupported.
pub open spec fn gave_up<T>(run: Run<T>) -> bool {
    run.res == Err::<T, ErrorKind>(ErrorKind::Unsupported)
}

/// Whether two environments declare symbols of the same names.
pub open spec fn same_uses(a: SpecEnv, b: SpecEnv) -> bool {
    forall|name: Seq<char>|
        #![trigger a.uses(name)]
        #![trigger b.uses(name)]
        a.uses(name) == b.uses(name)
}

/// Whether two environments are alike in all that terms depend on: the
/// records of the variables, the name of the scope, and the names of the
/// symbols in use.
pub open spec fn alike(a: SpecEnv, b: SpecEnv) -> bool {
    a.env_map == b.env_map && a.name == b.name && same_uses(a, b)
}

/// Whether two runs agree: they came to the same result, a value or an
/// error, and left environments that are alike, unless one of them ended as
/// unsupported.
pub open spec fn agree<T>(a: Run<T>, b: Run<T>) -> bool {
    gave_up(a) || gave_up(b) || (a.res == b.res && alike(a.env, b.env))
}

/// Whether a list of unconstrained symbols holds one of this name.
pub open spec fn among(vars: Seq<(Ty, Seq<char>)>, name: Seq<char>) -> bool {
    exists|i: int| 0 <= i < vars.len() && (#[trigger] vars[i]).1 == name
}

/// Whether a path declares a symbol of this name.
pub open spec fn declares(path: Seq<SpecLirKind>, name: Seq<char>) -> bool {
    exists|i: int| 0 <= i < path.len() && declared_at(path, i) == Some(name)
}

/// The name that fragment `i` of a path declares, if it declares one.
pub open spec fn declared_at(path: Seq<SpecLirKind>, i: int) -> Option<Seq<char>> {
    match path[i] {
        SpecLirKind::Declaration { name, .. } => Some(name),
        SpecLirKind::Assume(_) => None,
    }
}

proof fn lemma_uses_split(env: SpecEnv, name: Seq<char>)
    ensures
        env.uses(name) == (among(env.vars, name) || declares(env.path, name)),
{
    let symbols = env.symbols();
    if env.uses(name) {
        let i = choose|i: int| 0 <= i < symbols.len() && symbols[i] == Some(name);
        if i < env.vars.len() {
            assert(env.vars[i].1 == name);
        } else {
            assert(declared_at(env.path, i - env.vars.len()) == Some(name));
        }
    }
    if among(env.vars, name) {
        let i = choose|i: int| 0 <= i < env.vars.len() && (#[trigger] env.vars[i]).1 == name;
        assert(symbols[i] == Some(name));
    }
    if declares(env.path, name) {
        let i = choose|i: int| 0 <= i < env.path.len() && declared_at(env.path, i) == Some(name);
        assert(symbols[env.vars.len() + i] == Some(name));
    }
}

proof fn lemma_among_concat(a: Seq<(Ty, Seq<char>)>, b: Seq<(Ty, Seq<char>)>, name: Seq<char>)
    ensures
        among(a + b, name) == (among(a, name) || among(b, name)),
{
    let whole = a + b;
    if among(whole, name) {
        let i = choose|i: int| 0 <= i < whole.len() && (#[trigger] whole[i]).1 == name;
        if i < a.len() {
            assert(a[i].1 == name);
        } else {
            assert(b[i - a.len()].1 == name);
        }
    }
    if among(a, name) {
        let i = choose|i: int| 0 <= i < a.len() && (#[trigger] a[i]).1 == name;
        assert(whole[i].1 == name);
    }
    if among(b, name) {
        let i = choose|i: int| 0 <= i < b.len() && (#[trigger] b[i]).1 == name;
        assert(whole[a.len() + i].1 == name);
    }
}

proof fn lemma_declares_concat(a: Seq<SpecLirKind>, b: Seq<SpecLirKind>, name: Seq<char>)
    ensures
        declares(a + b, name) == (declares(a, name) || declares(b, name)),
{
    let whole = a + b;
    if declares(whole, name) {
        let i = choose|i: int| 0 <= i < whole.len() && declared_at(whole, i) == Some(name);
        if i < a.len() {
            assert(declared_at(a, i) == Some(name));
        } else {
            assert(declared_at(b, i - a.len()) == Some(name));
        }
    }
    if declares(a, name) {
        let i = choose|i: int| 0 <= i < a.len() && declared_at(a, i) == Some(name);
        assert(declared_at(whole, i) == Some(name));
    }
    if declares(b, name) {
        let i = choose|i: int| 0 <= i < b.len() && declared_at(b, i) == Some(name);
        assert(declared_at(whole, a.len() + i) == Some(name));
    }
}

/// What an environment uses depends on its unconstrained symbols and its
/// path alone.
proof fn lemma_same_parts(a: SpecEnv, b: SpecEnv)
    requires
        a.vars == b.vars,
        a.path == b.path,
    ensures
        same_uses(a, b),
{
    assert(a.symbols() =~= b.symbols());
}

proof fn lemma_uses_assumption(env: SpecEnv, formula: SpecTerm)
    ensures
        same_uses(env.with_assumption(formula), env),
{
    let after = env.with_assumption(formula);
    assert forall|name: Seq<char>| after.uses(name) == env.uses(name) by {
        lemma_uses_split(after, name);
        lemma_uses_split(env, name);
        assert(after.path =~= env.path + seq![SpecLirKind::Assume(formula)]);
        lemma_declares_concat(env.path, seq![SpecLirKind::Assume(formula)], name);
        if declares(seq![SpecLirKind::Assume(formula)], name) {
            let i = choose|i: int| 0 <= i < 1 && declared_at(seq![SpecLirKind::Assume(formula)], i) == Some(name);
        }
    }
}

proof fn lemma_uses_param(env: SpecEnv, symbol: Seq<char>, ty: Ty, var: LocalVarId)
    ensures
        forall|name: Seq<char>|
            #[trigger] env.with_param(symbol, ty, var).uses(name) == (env.uses(name) || name == symbol),
{
    let after = env.with_param(symbol, ty, var);
    let one = seq![SpecLirKind::Declaration { name: symbol, ty }];
    assert forall|name: Seq<char>| after.uses(name) == (env.uses(name) || name == symbol) by {
        lemma_uses_split(after, name);
        lemma_uses_split(env, name);
        assert(after.path =~= env.path + one);
        lemma_declares_concat(env.path, one, name);
        if declares(one, name) {
            let i = choose|i: int| 0 <= i < 1 && declared_at(one, i) == Some(name);
        }
        if name == symbol {
            assert(declared_at(one, 0) == Some(name));
        }
    }
}

proof fn lemma_uses_random(env: SpecEnv, ty: Ty, symbol: Seq<char>)
    ensures
        forall|name: Seq<char>|
            #[trigger] env.with_random_var(ty, symbol).uses(name) == (env.uses(name) || name == symbol),
{
    let after = env.with_random_var(ty, symbol);
    let one = seq![(ty, symbol)];
    assert forall|name: Seq<char>| after.uses(name) == (env.uses(name) || name == symbol) by {
        lemma_uses_split(after, name);
        lemma_uses_split(env, name);
        assert(after.vars =~= env.vars + one);
        lemma_among_concat(env.vars, one, name);
        if among(one, name) {
            let i = choose|i: int| 0 <= i < 1 && (#[trigger] one[i]).1 == name;
        }
        if name == symbol {
            assert(one[0].1 == name);
        }
    }
}

/// What a merged environment uses is what its branches use.
proof fn lemma_uses_merged(parent: SpecEnv, cond: SpecTerm, then_env: SpecEnv, else_env: Option<SpecEnv>)
    requires
        extends(then_env.path, parent.path),
        extends(then_env.vars, parent.vars),
        else_env matches Some(e) ==> extends(e.path, parent.path) && extends(e.vars, parent.vars),
    ensures
        forall|name: Seq<char>|
            #[trigger] parent.merged_ite(cond, then_env, else_env).uses(name) == (then_env.uses(name) || match else_env {
                Some(e) => e.uses(name),
                None => false,
            }),
{
    let merged = parent.merged_ite(cond, then_env, else_env);
    let then_path = then_env.contribution(cond, parent);
    let then_vars = tail_from(then_env.vars, parent.vars.len());
    assert forall|name: Seq<char>|
        merged.uses(name) == (then_env.uses(name) || match else_env {
            Some(e) => e.uses(name),
            None => false,
        }) by {
        lemma_uses_split(merged, name);
        lemma_uses_split(then_env, name);
        lemma_uses_split(parent, name);
        // the then branch: the parent's part and what the branch added
        assert(then_env.vars =~= parent.vars + then_vars);
        lemma_among_concat(parent.vars, then_vars, name);
        lemma_tail_declares(then_env, cond, parent, name);
        match else_env {
            Some(e) => {
                let else_path = e.contribution(cond.negated(), parent);
                let else_vars = tail_from(e.vars, parent.vars.len());
                lemma_uses_split(e, name);
                assert(e.vars =~= parent.vars + else_vars);
                lemma_among_concat(parent.vars, else_vars, name);
                lemma_tail_declares(e, cond.negated(), parent, name);
                assert(merged.vars =~= (parent.vars + then_vars) + else_vars);
                lemma_among_concat(parent.vars + then_vars, else_vars, name);
                assert(merged.path =~= (parent.path + then_path) + else_path);
                lemma_declares_concat(parent.path + then_path, else_path, name);
                lemma_declares_concat(parent.path, then_path, name);
                lemma_declares_concat(parent.path, else_path, name);
            },
            None => {
                assert(merged.vars =~= parent.vars + then_vars);
                assert(merged.path =~= parent.path + then_path);
                lemma_declares_concat(parent.path, then_path, name);
            },
        }
    }
}

/// A branch declares what its parent declares and what it contributes.
proof fn lemma_tail_declares(branch: SpecEnv, guard: SpecTerm, parent: SpecEnv, name: Seq<char>)
    requires
        extends(branch.path, parent.path),
    ensures
        declares(branch.path, name) == (declares(parent.path, name) || declares(
            branch.contribution(guard, parent),
            name,
        )),
{
    let tail = branch.contribution(guard, parent);
    let n = parent.path.len() as int;
    assert(tail.len() == branch.path.len() - n);
    assert forall|i: int| 0 <= i < tail.len() implies declared_at(tail, i) == declared_at(branch.path, n + i) by {
        assert(tail[i] == branch.path[n + i].guarded(guard));
    }
    if declares(branch.path, name) {
        let i = choose|i: int| 0 <= i < branch.path.len() && declared_at(branch.path, i) == Some(name);
        if i < n {
            assert(declared_at(parent.path, i) == Some(name));
        } else {
            assert(declared_at(tail, i - n) == Some(name));
        }
    }
    if declares(parent.path, name) {
        let i = choose|i: int| 0 <= i < parent.path.len() && declared_at(parent.path, i) == Some(name);
        assert(declared_at(branch.path, i) == Some(name));
    }
    if declares(tail, name) {
        let i = choose|i: int| 0 <= i < tail.len() && declared_at(tail, i) == Some(name);
        assert(declared_at(branch.path, n + i) == Some(name));
    }
}

proof fn lemma_alike_assumption(a: SpecEnv, b: SpecEnv, formula: SpecTerm)
    requires
        alike(a, b),
    ensures
        alike(a.with_assumption(formula), b.with_assumption(formula)),
{
    lemma_uses_assumption(a, formula);
    lemma_uses_assumption(b, formula);
}

proof fn lemma_alike_value(a: SpecEnv, b: SpecEnv, var: LocalVarId, term: SpecTerm)
    requires
        alike(a, b),
    ensures
        alike(a.with_value(var, term), b.with_value(var, term)),
{
    lemma_same_parts(a.with_value(var, term), a);
    lemma_same_parts(b.with_value(var, term), b);
}

proof fn lemma_alike_renamed(a: SpecEnv, b: SpecEnv, name: Seq<char>)
    requires
        same_uses(a, b),
        a.env_map == b.env_map,
    ensures
        alike(a.renamed(name), b.renamed(name)),
{
    lemma_same_parts(a.renamed(name), a);
    lemma_same_parts(b.renamed(name), b);
}

proof fn lemma_alike_bound(a: SpecEnv, b: SpecEnv, name: Seq<char>, var: LocalVarId, term: SpecTerm)
    requires
        alike(a, b),
    ensures
        alike(bound(a, name, var, term), bound(b, name, var, term)),
{
    let formula = crate::analyze::model::binary(SmtBinOp::Eq, SpecTerm::Symbol { name }, term);
    lemma_alike_assumption(a, b, formula);
    lemma_alike_value(a.with_assumption(formula), b.with_assumption(formula), var, term);
}

proof fn lemma_alike_param(a: SpecEnv, b: SpecEnv, base: Seq<char>, ty: Ty, var: LocalVarId)
    requires
        alike(a, b),
    ensures
        a.fresh_symbol(base) == b.fresh_symbol(base),
        alike(a.with_param(a.fresh_symbol(base), ty, var), b.with_param(b.fresh_symbol(base), ty, var)),
{
    lemma_fresh_symbol_by_uses(a, b, base);
    lemma_uses_param(a, a.fresh_symbol(base), ty, var);
    lemma_uses_param(b, b.fresh_symbol(base), ty, var);
}

proof fn lemma_alike_random(a: SpecEnv, b: SpecEnv, base: Seq<char>, ty: Ty, var: LocalVarId)
    requires
        alike(a, b),
    ensures
        a.fresh_symbol(base) == b.fresh_symbol(base),
        alike(
            a.with_random_var(ty, a.fresh_symbol(base)).with_value(
                var,
                SpecTerm::Symbol { name: a.fresh_symbol(base) },
            ),
            b.with_random_var(ty, b.fresh_symbol(base)).with_value(
                var,
                SpecTerm::Symbol { name: b.fresh_symbol(base) },
            ),
        ),
{
    lemma_fresh_symbol_by_uses(a, b, base);
    let name = a.fresh_symbol(base);
    lemma_uses_random(a, ty, name);
    lemma_uses_random(b, ty, name);
    lemma_alike_value(a.with_random_var(ty, name), b.with_random_var(ty, name), var, SpecTerm::Symbol { name });
}

proof fn lemma_alike_branch(a: SpecEnv, b: SpecEnv, kind: Seq<char>, span: Span, guard: SpecTerm)
    requires
        alike(a, b),
    ensures
        alike(branch_env(a, kind, span, guard), branch_env(b, kind, span, guard)),
{
    let name = SpecEnv::unique_name(kind, span_name(span));
    lemma_alike_renamed(a, b, name);
    lemma_alike_assumption(a.renamed(name), b.renamed(name), guard);
}

proof fn lemma_alike_merged(
    p1: SpecEnv,
    p2: SpecEnv,
    cond: SpecTerm,
    t1: SpecEnv,
    t2: SpecEnv,
    e1: Option<SpecEnv>,
    e2: Option<SpecEnv>,
)
    requires
        alike(p1, p2),
        t1.env_map == t2.env_map,
        same_uses(t1, t2),
        e1 is Some == e2 is Some,
        e1 matches Some(x) ==> x.env_map == e2->Some_0.env_map && same_uses(x, e2->Some_0),
        extends(t1.path, p1.path) && extends(t1.vars, p1.vars),
        extends(t2.path, p2.path) && extends(t2.vars, p2.vars),
        e1 matches Some(x) ==> extends(x.path, p1.path) && extends(x.vars, p1.vars),
        e2 matches Some(x) ==> extends(x.path, p2.path) && extends(x.vars, p2.vars),
    ensures
        alike(p1.merged_ite(cond, t1, e1), p2.merged_ite(cond, t2, e2)),
{
    lemma_uses_merged(p1, cond, t1, e1);
    lemma_uses_merged(p2, cond, t2, e2);
}

proof fn lemma_refreshed(a: SpecEnv, b: SpecEnv, vars: Seq<LocalVarId>, inv_vars: Seq<LocalVarId>, i: nat)
    requires
        alike(a, b),
    ensures
        refreshed(a, vars, inv_vars, i).res == refreshed(b, vars, inv_vars, i).res,
        alike(refreshed(a, vars, inv_vars, i).env, refreshed(b, vars, inv_vars, i).env),
    decreases vars.len() - i,
{
    if i >= vars.len() {
    } else if inv_vars.contains(vars[i as int]) {
        lemma_refreshed(a, b, vars, inv_vars, i + 1);
    } else if !a.env_map.contains_key(vars[i as int]) {
    } else {
        let lir = a.env_map[vars[i as int]];
        lemma_alike_random(a, b, a.symbol_base(""@, lir.name), lir.ty, vars[i as int]);
        let name = refreshed_name(a, lir.name);
        lemma_refreshed(
            a.with_random_var(lir.ty, name).with_value(vars[i as int], SpecTerm::Symbol { name }),
            b.with_random_var(lir.ty, name).with_value(vars[i as int], SpecTerm::Symbol { name }),
            vars,
            inv_vars,
            i + 1,
        );
    }
}

proof fn lemma_expr_to_const(
    fns: Map<u64, RThir>,
    depth: nat,
    expr: RExpr,
    q1: Seq<Seq<char>>,
    e1: SpecEnv,
    q2: Seq<Seq<char>>,
    e2: SpecEnv,
)
    requires
        alike(e1, e2),
    ensures
        agree(expr_to_const(fns, depth, expr, q1, e1), expr_to_const(fns, depth, expr, q2, e2)),
    decreases depth, expr, 3nat, 0nat,
{
    match expr.kind {
        RExprKind::Binary { op, lhs, rhs } => {
            lemma_expr_to_const(fns, depth, *lhs, q1, e1, q2, e2);
            let l1 = expr_to_const(fns, depth, *lhs, q1, e1);
            let l2 = expr_to_const(fns, depth, *lhs, q2, e2);
            if l1.res is Ok && l2.res is Ok {
                lemma_expr_to_const(fns, depth, *rhs, l1.queries, l1.env, l2.queries, l2.env);
            }
        },
        RExprKind::LogicalOp { op, lhs, rhs } => {
            lemma_expr_to_const(fns, depth, *lhs, q1, e1, q2, e2);
            let l1 = expr_to_const(fns, depth, *lhs, q1, e1);
            let l2 = expr_to_const(fns, depth, *lhs, q2, e2);
            if l1.res is Ok && l2.res is Ok {
                lemma_expr_to_const(fns, depth, *rhs, l1.queries, l1.env, l2.queries, l2.env);
            }
        },
        RExprKind::Unary { op, arg } => {
            lemma_expr_to_const(fns, depth, *arg, q1, e1, q2, e2);
        },
        RExprKind::If { .. } => {
            lemma_if_to_const(fns, depth, expr, q1, e1, q2, e2);
        },
        RExprKind::Block { .. } => {
            lemma_block_to_const(fns, depth, expr, q1, e1, q2, e2);
        },
        RExprKind::Call { .. } => {
            lemma_fn_to_const(fns, depth, expr, q1, e1, q2, e2);
        },
        _ => {},
    }
}

proof fn lemma_if_to_const(
    fns: Map<u64, RThir>,
    depth: nat,
    expr: RExpr,
    q1: Seq<Seq<char>>,
    e1: SpecEnv,
    q2: Seq<Seq<char>>,
    e2: SpecEnv,
)
    requires
        alike(e1, e2),
    ensures
        agree(if_to_const(fns, depth, expr, q1, e1), if_to_const(fns, depth, expr, q2, e2)),
    decreases depth, expr, 2nat, 0nat,
{
    match expr.kind {
        RExprKind::If { cond, then_expr, else_opt: Some(else_expr) } => {
            lemma_expr_to_const(fns, depth, *cond, q1, e1, q2, e2);
            let c1 = expr_to_const(fns, depth, *cond, q1, e1);
            let c2 = expr_to_const(fns, depth, *cond, q2, e2);
            if c1.res is Ok && c2.res is Ok {
                let guard = c1.res->Ok_0;
                let t1 = branch_env(c1.env, "then"@, then_expr.span, guard);
                let t2 = branch_env(c2.env, "then"@, then_expr.span, guard);
                lemma_alike_branch(c1.env, c2.env, "then"@, then_expr.span, guard);
                lemma_expr_to_const(fns, depth, *then_expr, c1.queries, t1, c2.queries, t2);
                let r1 = expr_to_const(fns, depth, *then_expr, c1.queries, t1);
                let r2 = expr_to_const(fns, depth, *then_expr, c2.queries, t2);
                if r1.res is Ok && r2.res is Ok {
                    let f1 = branch_env(c1.env, "else"@, else_expr.span, guard.negated());
                    let f2 = branch_env(c2.env, "else"@, else_expr.span, guard.negated());
                    lemma_alike_branch(c1.env, c2.env, "else"@, else_expr.span, guard.negated());
                    lemma_expr_to_const(fns, depth, *else_expr, r1.queries, f1, r2.queries, f2);
                    let s1 = expr_to_const(fns, depth, *else_expr, r1.queries, f1);
                    let s2 = expr_to_const(fns, depth, *else_expr, r2.queries, f2);
                    if s1.res is Ok && s2.res is Ok {
                        lemma_encoding_only_adds(fns, depth, *then_expr, c1.queries, t1);
                        lemma_encoding_only_adds(fns, depth, *then_expr, c2.queries, t2);
                        lemma_encoding_only_adds(fns, depth, *else_expr, r1.queries, f1);
                        lemma_encoding_only_adds(fns, depth, *else_expr, r2.queries, f2);
                        lemma_branch_extends(c1.env, "then"@, then_expr.span, guard, r1.env);
                        lemma_branch_extends(c2.env, "then"@, then_expr.span, guard, r2.env);
                        lemma_branch_extends(c1.env, "else"@, else_expr.span, guard.negated(), s1.env);
                        lemma_branch_extends(c2.env, "else"@, else_expr.span, guard.negated(), s2.env);
                        lemma_alike_merged(c1.env, c2.env, guard, r1.env, r2.env, Some(s1.env), Some(s2.env));
                    }
                }
            }
        },
        _ => {},
    }
}

proof fn lemma_block_to_const(
    fns: Map<u64, RThir>,
    depth: nat,
    expr: RExpr,
    q1: Seq<Seq<char>>,
    e1: SpecEnv,
    q2: Seq<Seq<char>>,
    e2: SpecEnv,
)
    requires
        alike(e1, e2),
    ensures
        agree(block_to_const(fns, depth, expr, q1, e1), block_to_const(fns, depth, expr, q2, e2)),
    decreases depth, expr, 2nat, 0nat,
{
    match expr.kind {
        RExprKind::Block { stmts, expr: last } => {
            lemma_run_stmts(fns, depth, stmts@, 0, q1, e1, q2, e2);
            let s1 = run_stmts(fns, depth, stmts@, 0, q1, e1);
            let s2 = run_stmts(fns, depth, stmts@, 0, q2, e2);
            if s1.res is Ok && s2.res is Ok {
                match last {
                    Some(last) => {
                        lemma_expr_to_const(fns, depth, *last, s1.queries, s1.env, s2.queries, s2.env);
                    },
                    None => {},
                }
            }
        },
        _ => {},
    }
}

proof fn lemma_fn_to_const(
    fns: Map<u64, RThir>,
    depth: nat,
    expr: RExpr,
    q1: Seq<Seq<char>>,
    e1: SpecEnv,
    q2: Seq<Seq<char>>,
    e2: SpecEnv,
)
    requires
        alike(e1, e2),
    ensures
        agree(fn_to_const(fns, depth, expr, q1, e1), fn_to_const(fns, depth, expr, q2, e2)),
    decreases depth, expr, 2nat, 0nat,
{
    match expr.kind {
        RExprKind::Call { ty: Ty::FnDef(def_id), def_path, args } => {
            if def_id.is_local() && fns.contains_key(def_id.index) {
                lemma_local_fn_to_const(fns, depth, fns[def_id.index], args@, q1, e1, q2, e2);
            }
        },
        _ => {},
    }
}

proof fn lemma_local_fn_to_const(
    fns: Map<u64, RThir>,
    depth: nat,
    rthir: RThir,
    args: Seq<RExpr>,
    q1: Seq<Seq<char>>,
    e1: SpecEnv,
    q2: Seq<Seq<char>>,
    e2: SpecEnv,
)
    requires
        alike(e1, e2),
    ensures
        agree(
            local_fn_to_const(fns, depth, rthir, args, q1, e1),
            local_fn_to_const(fns, depth, rthir, args, q2, e2),
        ),
    decreases depth, args, 1nat, 0nat,
{
    if depth > 0 {
        lemma_analyze_params(fns, depth, rthir.params@, args, 0, q1, e1, q2, e2);
        let p1 = analyze_params(fns, depth, rthir.params@, args, 0, q1, e1);
        let p2 = analyze_params(fns, depth, rthir.params@, args, 0, q2, e2);
        if p1.res is Ok && p2.res is Ok {
            match rthir.body {
                Some(body) => {
                    lemma_block_to_const(fns, (depth - 1) as nat, body, p1.queries, p1.env, p2.queries, p2.env);
                },
                None => {},
            }
        }
    }
}

proof fn lemma_analyze_params(
    fns: Map<u64, RThir>,
    depth: nat,
    params: Seq<RParam>,
    args: Seq<RExpr>,
    i: nat,
    q1: Seq<Seq<char>>,
    e1: SpecEnv,
    q2: Seq<Seq<char>>,
    e2: SpecEnv,
)
    requires
        alike(e1, e2),
    ensures
        agree(
            analyze_params(fns, depth, params, args, i, q1, e1),
            analyze_params(fns, depth, params, args, i, q2, e2),
        ),
    decreases depth, args, 0nat, args.len() - i,
{
    if i >= params.len() || i >= args.len() {
    } else {
        match params[i as int].pat {
            None => {
                lemma_analyze_params(fns, depth, params, args, i + 1, q1, e1, q2, e2);
            },
            Some(pat) => match pat.kind {
                RExprKind::Pat { kind: RPatKind::Binding { var, ty, .. } } => {
                    lemma_alike_param(e1, e2, e1.symbol_base(""@, span_name(pat.span)), ty, var);
                    let name = declared_name(e1, pat.span);
                    let d1 = e1.with_param(name, ty, var);
                    let d2 = e2.with_param(name, ty, var);
                    lemma_expr_to_const(fns, depth, args[i as int], q1, d1, q2, d2);
                    let a1 = expr_to_const(fns, depth, args[i as int], q1, d1);
                    let a2 = expr_to_const(fns, depth, args[i as int], q2, d2);
                    if a1.res is Ok && a2.res is Ok && a1.env.env_map.contains_key(var) {
                        lemma_alike_bound(a1.env, a2.env, name, var, a1.res->Ok_0);
                        lemma_analyze_params(
                            fns,
                            depth,
                            params,
                            args,
                            i + 1,
                            a1.queries,
                            bound(a1.env, name, var, a1.res->Ok_0),
                            a2.queries,
                            bound(a2.env, name, var, a2.res->Ok_0),
                        );
                    }
                },
                _ => {},
            },
        }
    }
}

proof fn lemma_run_stmts(
    fns: Map<u64, RThir>,
    depth: nat,
    stmts: Seq<RExpr>,
    i: nat,
    q1: Seq<Seq<char>>,
    e1: SpecEnv,
    q2: Seq<Seq<char>>,
    e2: SpecEnv,
)
    requires
        alike(e1, e2),
    ensures
        agree(run_stmts(fns, depth, stmts, i, q1, e1), run_stmts(fns, depth, stmts, i, q2, e2)),
    decreases depth, stmts, stmts.len() - i, stmts.len() + 2,
{
    if i >= stmts.len() {
    } else if heads_loop(stmts, i) {
        let k = invariants_end(stmts, i);
        lemma_analyze_loop(fns, depth, stmts, i, k, q1, e1, q2, e2);
        let l1 = analyze_loop(fns, depth, stmts, i, k, q1, e1);
        let l2 = analyze_loop(fns, depth, stmts, i, k, q2, e2);
        if l1.res is Ok && l2.res is Ok {
            lemma_invariants_end(stmts, i);
            lemma_run_stmts(fns, depth, stmts, k + 1, l1.queries, l1.env, l2.queries, l2.env);
        }
    } else {
        lemma_analyze_expr(fns, depth, stmts[i as int], q1, e1, q2, e2);
        let r1 = analyze_expr(fns, depth, stmts[i as int], q1, e1);
        let r2 = analyze_expr(fns, depth, stmts[i as int], q2, e2);
        if r1.res is Ok && r2.res is Ok {
            lemma_run_stmts(fns, depth, stmts, i + 1, r1.queries, r1.env, r2.queries, r2.env);
        }
    }
}

proof fn lemma_analyze_loop(
    fns: Map<u64, RThir>,
    depth: nat,
    stmts: Seq<RExpr>,
    i: nat,
    k: nat,
    q1: Seq<Seq<char>>,
    e1: SpecEnv,
    q2: Seq<Seq<char>>,
    e2: SpecEnv,
)
    requires
        alike(e1, e2),
    ensures
        agree(analyze_loop(fns, depth, stmts, i, k, q1, e1), analyze_loop(fns, depth, stmts, i, k, q2, e2)),
    decreases depth, stmts, 0nat, stmts.len() + 1,
{
    if i < k < stmts.len() {
        let name = SpecEnv::unique_name("loop"@, span_name(stmts[i as int].span));
        lemma_alike_renamed(e1, e2, name);
        lemma_verify_before_loop(fns, depth, stmts, i, k, q1, e1.renamed(name), q2, e2.renamed(name));
        let b1 = verify_before_loop(fns, depth, stmts, i, k, q1, e1.renamed(name));
        let b2 = verify_before_loop(fns, depth, stmts, i, k, q2, e2.renamed(name));
        if b1.res is Ok && b2.res is Ok {
            let inner = SpecEnv::unique_name("inner_loop"@, span_name(stmts[k as int].span));
            lemma_alike_renamed(b1.env, b2.env, inner);
            lemma_verify_loop_internals(
                fns,
                depth,
                stmts,
                i,
                k,
                b1.queries,
                b1.env.renamed(inner),
                b2.queries,
                b2.env.renamed(inner),
            );
        }
    }
}

proof fn lemma_verify_before_loop(
    fns: Map<u64, RThir>,
    depth: nat,
    stmts: Seq<RExpr>,
    j: nat,
    k: nat,
    q1: Seq<Seq<char>>,
    e1: SpecEnv,
    q2: Seq<Seq<char>>,
    e2: SpecEnv,
)
    requires
        alike(e1, e2),
    ensures
        agree(
            verify_before_loop(fns, depth, stmts, j, k, q1, e1),
            verify_before_loop(fns, depth, stmts, j, k, q2, e2),
        ),
    decreases depth, stmts, 0nat, k - j,
{
    if j >= k || k > stmts.len() {
    } else {
        match stmts[j as int].kind {
            RExprKind::Call { args, .. } => {
                lemma_analyze_assert(fns, depth, args@, q1, e1, q2, e2);
                let r1 = analyze_assert(fns, depth, args@, q1, e1);
                let r2 = analyze_assert(fns, depth, args@, q2, e2);
                if r1.res is Ok && r2.res is Ok {
                    lemma_verify_before_loop(fns, depth, stmts, j + 1, k, r1.queries, r1.env, r2.queries, r2.env);
                }
            },
            _ => {},
        }
    }
}

proof fn lemma_assume_invariants(
    fns: Map<u64, RThir>,
    depth: nat,
    stmts: Seq<RExpr>,
    j: nat,
    k: nat,
    q1: Seq<Seq<char>>,
    e1: SpecEnv,
    q2: Seq<Seq<char>>,
    e2: SpecEnv,
)
    requires
        alike(e1, e2),
    ensures
        agree(
            assume_invariants(fns, depth, stmts, j, k, q1, e1),
            assume_invariants(fns, depth, stmts, j, k, q2, e2),
        ),
    decreases depth, stmts, 0nat, k - j,
{
    if j >= k || k > stmts.len() {
    } else {
        match stmts[j as int].kind {
            RExprKind::Call { args, .. } => {
                lemma_analyze_assume(fns, depth, args@, q1, e1, q2, e2);
                let r1 = analyze_assume(fns, depth, args@, q1, e1);
                let r2 = analyze_assume(fns, depth, args@, q2, e2);
                if r1.res is Ok && r2.res is Ok {
                    lemma_assume_invariants(fns, depth, stmts, j + 1, k, r1.queries, r1.env, r2.queries, r2.env);
                }
            },
            _ => {},
        }
    }
}

proof fn lemma_fold_invariants(
    fns: Map<u64, RThir>,
    depth: nat,
    stmts: Seq<RExpr>,
    j: nat,
    k: nat,
    acc: Option<SpecTerm>,
    q1: Seq<Seq<char>>,
    e1: SpecEnv,
    q2: Seq<Seq<char>>,
    e2: SpecEnv,
)
    requires
        alike(e1, e2),
    ensures
        agree(
            fold_invariants(fns, depth, stmts, j, k, acc, q1, e1),
            fold_invariants(fns, depth, stmts, j, k, acc, q2, e2),
        ),
    decreases depth, stmts, 0nat, k - j,
{
    if j >= k || k > stmts.len() {
    } else if call_args(stmts[j as int]).len() == 0 {
    } else {
        let arg = call_args(stmts[j as int])[0];
        lemma_expr_to_const(fns, depth, arg, q1, e1, q2, e2);
        let c1 = expr_to_const(fns, depth, arg, q1, e1);
        let c2 = expr_to_const(fns, depth, arg, q2, e2);
        if c1.res is Ok && c2.res is Ok {
            lemma_fold_invariants(
                fns,
                depth,
                stmts,
                j + 1,
                k,
                Some(conjoined(acc, c1.res->Ok_0)),
                c1.queries,
                c1.env,
                c2.queries,
                c2.env,
            );
        }
    }
}

proof fn lemma_verify_loop_internals(
    fns: Map<u64, RThir>,
    depth: nat,
    stmts: Seq<RExpr>,
    i: nat,
    k: nat,
    q1: Seq<Seq<char>>,
    e1: SpecEnv,
    q2: Seq<Seq<char>>,
    e2: SpecEnv,
)
    requires
        alike(e1, e2),
    ensures
        agree(
            verify_loop_internals(fns, depth, stmts, i, k, q1, e1),
            verify_loop_internals(fns, depth, stmts, i, k, q2, e2),
        ),
    decreases depth, stmts, 0nat, stmts.len(),
{
    if i < k < stmts.len() {
        match stmts[k as int].kind {
            RExprKind::Loop { body } => {
                match search_inv(stmts, i, k, Seq::empty()) {
                    Ok(inv_vars) => match search_used_var(*body) {
                        Ok(vars) => {
                            lemma_refreshed(e1, e2, vars, inv_vars, 0);
                        },
                        Err(_) => {},
                    },
                    Err(_) => {},
                }
                let f1 = set_var_map(e1, stmts, i, k, *body);
                let f2 = set_var_map(e2, stmts, i, k, *body);
                if f1.res is Ok {
                    lemma_assume_invariants(fns, depth, stmts, i, k, q1, f1.env, q2, f2.env);
                    let a1 = assume_invariants(fns, depth, stmts, i, k, q1, f1.env);
                    let a2 = assume_invariants(fns, depth, stmts, i, k, q2, f2.env);
                    if a1.res is Ok && a2.res is Ok {
                        lemma_analyze_block(fns, depth, *body, a1.queries, a1.env, a2.queries, a2.env);
                        let r1 = analyze_block(fns, depth, *body, a1.queries, a1.env);
                        let r2 = analyze_block(fns, depth, *body, a2.queries, a2.env);
                        if r1.res is Ok && r2.res is Ok {
                            lemma_fold_invariants(
                                fns,
                                depth,
                                stmts,
                                i,
                                k,
                                None,
                                r1.queries,
                                r1.env,
                                r2.queries,
                                r2.env,
                            );
                        }
                    }
                }
            },
            _ => {},
        }
    }
}

proof fn lemma_analyze_assert(
    fns: Map<u64, RThir>,
    depth: nat,
    args: Seq<RExpr>,
    q1: Seq<Seq<char>>,
    e1: SpecEnv,
    q2: Seq<Seq<char>>,
    e2: SpecEnv,
)
    requires
        alike(e1, e2),
    ensures
        agree(analyze_assert(fns, depth, args, q1, e1), analyze_assert(fns, depth, args, q2, e2)),
    decreases depth, args, 0nat, 0nat,
{
    if args.len() > 0 {
        lemma_expr_to_const(fns, depth, args[0], q1, e1, q2, e2);
        let c1 = expr_to_const(fns, depth, args[0], q1, e1);
        let c2 = expr_to_const(fns, depth, args[0], q2, e2);
        if c1.res is Ok && c2.res is Ok {
            lemma_alike_assumption(c1.env, c2.env, c1.res->Ok_0);
        }
    }
}

proof fn lemma_analyze_assume(
    fns: Map<u64, RThir>,
    depth: nat,
    args: Seq<RExpr>,
    q1: Seq<Seq<char>>,
    e1: SpecEnv,
    q2: Seq<Seq<char>>,
    e2: SpecEnv,
)
    requires
        alike(e1, e2),
    ensures
        agree(analyze_assume(fns, depth, args, q1, e1), analyze_assume(fns, depth, args, q2, e2)),
    decreases depth, args, 0nat, 0nat,
{
    if args.len() > 0 {
        lemma_expr_to_const(fns, depth, args[0], q1, e1, q2, e2);
        let c1 = expr_to_const(fns, depth, args[0], q1, e1);
        let c2 = expr_to_const(fns, depth, args[0], q2, e2);
        if c1.res is Ok && c2.res is Ok {
            lemma_alike_assumption(c1.env, c2.env, c1.res->Ok_0);
        }
    }
}

proof fn lemma_analyze_annotate_fn(
    fns: Map<u64, RThir>,
    depth: nat,
    info: Seq<Seq<char>>,
    args: Seq<RExpr>,
    q1: Seq<Seq<char>>,
    e1: SpecEnv,
    q2: Seq<Seq<char>>,
    e2: SpecEnv,
)
    requires
        alike(e1, e2),
    ensures
        agree(
            analyze_annotate_fn(fns, depth, info, args, q1, e1),
            analyze_annotate_fn(fns, depth, info, args, q2, e2),
        ),
    decreases depth, args, 1nat, 0nat,
{
    match intrinsic_of(info) {
        Ok(Intrinsic::Assert) => {
            lemma_analyze_assert(fns, depth, args, q1, e1, q2, e2);
        },
        Ok(Intrinsic::Assume) => {
            lemma_analyze_assume(fns, depth, args, q1, e1, q2, e2);
        },
        Ok(Intrinsic::Invariant) => {
            lemma_analyze_assume(fns, depth, args, q1, e1, q2, e2);
        },
        Ok(Intrinsic::Drop) => {
            if args.len() > 0 {
                match args[0].kind {
                    RExprKind::VarRef { id } => {
                        if e1.env_map.contains_key(id) {
                            lemma_alike_random(
                                e1,
                                e2,
                                e1.symbol_base("drop_"@, span_name(args[0].span)),
                                e1.env_map[id].ty,
                                id,
                            );
                        }
                    },
                    _ => {},
                }
            }
        },
        _ => {},
    }
}

proof fn lemma_analyze_local_fn(
    fns: Map<u64, RThir>,
    depth: nat,
    rthir: RThir,
    args: Seq<RExpr>,
    q1: Seq<Seq<char>>,
    e1: SpecEnv,
    q2: Seq<Seq<char>>,
    e2: SpecEnv,
)
    requires
        alike(e1, e2),
    ensures
        agree(
            analyze_local_fn(fns, depth, rthir, args, q1, e1),
            analyze_local_fn(fns, depth, rthir, args, q2, e2),
        ),
    decreases depth, args, 1nat, 0nat,
{
    if depth > 0 {
        lemma_analyze_params(fns, depth, rthir.params@, args, 0, q1, e1, q2, e2);
        let p1 = analyze_params(fns, depth, rthir.params@, args, 0, q1, e1);
        let p2 = analyze_params(fns, depth, rthir.params@, args, 0, q2, e2);
        if p1.res is Ok && p2.res is Ok {
            match rthir.body {
                Some(body) => {
                    lemma_analyze_body(fns, (depth - 1) as nat, body, p1.queries, p1.env, p2.queries, p2.env);
                },
                None => {},
            }
        }
    }
}

proof fn lemma_analyze_fn(
    fns: Map<u64, RThir>,
    depth: nat,
    expr: RExpr,
    q1: Seq<Seq<char>>,
    e1: SpecEnv,
    q2: Seq<Seq<char>>,
    e2: SpecEnv,
)
    requires
        alike(e1, e2),
    ensures
        agree(analyze_fn(fns, depth, expr, q1, e1), analyze_fn(fns, depth, expr, q2, e2)),
    decreases depth, expr, 2nat, 0nat,
{
    match expr.kind {
        RExprKind::Call { ty: Ty::FnDef(def_id), def_path, args } => {
            if def_id.is_local() {
                if fns.contains_key(def_id.index) {
                    lemma_analyze_local_fn(fns, depth, fns[def_id.index], args@, q1, e1, q2, e2);
                }
            } else {
                lemma_analyze_annotate_fn(fns, depth, fn_info(def_path@), args@, q1, e1, q2, e2);
            }
        },
        _ => {},
    }
}

proof fn lemma_analyze_body(
    fns: Map<u64, RThir>,
    depth: nat,
    expr: RExpr,
    q1: Seq<Seq<char>>,
    e1: SpecEnv,
    q2: Seq<Seq<char>>,
    e2: SpecEnv,
)
    requires
        alike(e1, e2),
    ensures
        agree(analyze_body(fns, depth, expr, q1, e1), analyze_body(fns, depth, expr, q2, e2)),
    decreases depth, expr, 2nat, 0nat,
{
    match expr.kind {
        RExprKind::Block { stmts, expr: last } => {
            lemma_run_stmts(fns, depth, stmts@, 0, q1, e1, q2, e2);
            let s1 = run_stmts(fns, depth, stmts@, 0, q1, e1);
            let s2 = run_stmts(fns, depth, stmts@, 0, q2, e2);
            if s1.res is Ok && s2.res is Ok {
                match last {
                    Some(last) => {
                        lemma_analyze_expr(fns, depth, *last, s1.queries, s1.env, s2.queries, s2.env);
                    },
                    None => {},
                }
            }
        },
        _ => {},
    }
}

proof fn lemma_analyze_block(
    fns: Map<u64, RThir>,
    depth: nat,
    expr: RExpr,
    q1: Seq<Seq<char>>,
    e1: SpecEnv,
    q2: Seq<Seq<char>>,
    e2: SpecEnv,
)
    requires
        alike(e1, e2),
    ensures
        agree(analyze_block(fns, depth, expr, q1, e1), analyze_block(fns, depth, expr, q2, e2)),
    decreases depth, expr, 3nat, 0nat,
{
    lemma_analyze_body(fns, depth, expr, q1, e1, q2, e2);
}

proof fn lemma_analyze_let_stmt(
    fns: Map<u64, RThir>,
    depth: nat,
    expr: RExpr,
    q1: Seq<Seq<char>>,
    e1: SpecEnv,
    q2: Seq<Seq<char>>,
    e2: SpecEnv,
)
    requires
        alike(e1, e2),
    ensures
        agree(analyze_let_stmt(fns, depth, expr, q1, e1), analyze_let_stmt(fns, depth, expr, q2, e2)),
    decreases depth, expr, 2nat, 0nat,
{
    match expr.kind {
        RExprKind::LetStmt { pattern, init, else_block } => match pattern.kind {
            RExprKind::Pat { kind: RPatKind::Binding { var, ty, .. } } => {
                lemma_alike_param(e1, e2, e1.symbol_base(""@, span_name(pattern.span)), ty, var);
                let name = declared_name(e1, pattern.span);
                let d1 = e1.with_param(name, ty, var);
                let d2 = e2.with_param(name, ty, var);
                match init {
                    None => {
                        match else_block {
                            Some(else_block) => {
                                lemma_analyze_block(fns, depth, *else_block, q1, d1, q2, d2);
                            },
                            None => {},
                        }
                    },
                    Some(init) => {
                        lemma_expr_to_const(fns, depth, *init, q1, d1, q2, d2);
                        let r1 = expr_to_const(fns, depth, *init, q1, d1);
                        let r2 = expr_to_const(fns, depth, *init, q2, d2);
                        if r1.res == r2.res && alike(r1.env, r2.env) && r1.env.env_map.contains_key(var) {
                            match r1.res {
                                Ok(term) => {
                                    lemma_alike_bound(r1.env, r2.env, name, var, term);
                                    match else_block {
                                        Some(else_block) => {
                                            lemma_analyze_block(
                                                fns,
                                                depth,
                                                *else_block,
                                                r1.queries,
                                                bound(r1.env, name, var, term),
                                                r2.queries,
                                                bound(r2.env, name, var, term),
                                            );
                                        },
                                        None => {},
                                    }
                                },
                                Err(ErrorKind::RandFunctions) => {
                                    let base = r1.env.symbol_base("rand_"@, span_name(pattern.span));
                                    lemma_alike_random(r1.env, r2.env, base, ty, var);
                                    let rand_name = random_name(r1.env, pattern.span);
                                    match else_block {
                                        Some(else_block) => {
                                            lemma_analyze_block(
                                                fns,
                                                depth,
                                                *else_block,
                                                r1.queries,
                                                r1.env.with_random_var(ty, rand_name).with_value(
                                                    var,
                                                    SpecTerm::Symbol { name: rand_name },
                                                ),
                                                r2.queries,
                                                r2.env.with_random_var(ty, rand_name).with_value(
                                                    var,
                                                    SpecTerm::Symbol { name: rand_name },
                                                ),
                                            );
                                        },
                                        None => {},
                                    }
                                },
                                Err(_) => {},
                            }
                        }
                    },
                }
            },
            _ => {},
        },
        _ => {},
    }
}

proof fn lemma_analyze_assign(
    fns: Map<u64, RThir>,
    depth: nat,
    expr: RExpr,
    q1: Seq<Seq<char>>,
    e1: SpecEnv,
    q2: Seq<Seq<char>>,
    e2: SpecEnv,
)
    requires
        alike(e1, e2),
    ensures
        agree(analyze_assign(fns, depth, expr, q1, e1), analyze_assign(fns, depth, expr, q2, e2)),
    decreases depth, expr, 2nat, 0nat,
{
    match expr.kind {
        RExprKind::Assign { lhs, rhs } => {
            lemma_expr_to_const(fns, depth, *rhs, q1, e1, q2, e2);
            let r1 = expr_to_const(fns, depth, *rhs, q1, e1);
            let r2 = expr_to_const(fns, depth, *rhs, q2, e2);
            if r1.res is Ok && r2.res is Ok {
                match expr_to_var_id(*lhs) {
                    Some(var) => {
                        lemma_alike_value(r1.env, r2.env, var, r1.res->Ok_0);
                    },
                    None => {},
                }
            }
        },
        _ => {},
    }
}

proof fn lemma_analyze_assign_op(
    fns: Map<u64, RThir>,
    depth: nat,
    expr: RExpr,
    q1: Seq<Seq<char>>,
    e1: SpecEnv,
    q2: Seq<Seq<char>>,
    e2: SpecEnv,
)
    requires
        alike(e1, e2),
    ensures
        agree(analyze_assign_op(fns, depth, expr, q1, e1), analyze_assign_op(fns, depth, expr, q2, e2)),
    decreases depth, expr, 2nat, 0nat,
{
    match expr.kind {
        RExprKind::AssignOp { op, lhs, rhs } => {
            lemma_expr_to_const(fns, depth, *lhs, q1, e1, q2, e2);
            let l1 = expr_to_const(fns, depth, *lhs, q1, e1);
            let l2 = expr_to_const(fns, depth, *lhs, q2, e2);
            if l1.res is Ok && l2.res is Ok {
                lemma_expr_to_const(fns, depth, *rhs, l1.queries, l1.env, l2.queries, l2.env);
                let r1 = expr_to_const(fns, depth, *rhs, l1.queries, l1.env);
                let r2 = expr_to_const(fns, depth, *rhs, l2.queries, l2.env);
                if r1.res is Ok && r2.res is Ok {
                    match (binop_to_const(op, l1.res->Ok_0, r1.res->Ok_0), expr_to_var_id(*lhs)) {
                        (Ok(term), Some(var)) => {
                            lemma_alike_value(r1.env, r2.env, var, term);
                        },
                        _ => {},
                    }
                }
            }
        },
        _ => {},
    }
}

proof fn lemma_analyze_if(
    fns: Map<u64, RThir>,
    depth: nat,
    expr: RExpr,
    q1: Seq<Seq<char>>,
    e1: SpecEnv,
    q2: Seq<Seq<char>>,
    e2: SpecEnv,
)
    requires
        alike(e1, e2),
    ensures
        agree(analyze_if(fns, depth, expr, q1, e1), analyze_if(fns, depth, expr, q2, e2)),
    decreases depth, expr, 2nat, 0nat,
{
    match expr.kind {
        RExprKind::If { cond, then_expr, else_opt } => {
            lemma_expr_to_const(fns, depth, *cond, q1, e1, q2, e2);
            let c1 = expr_to_const(fns, depth, *cond, q1, e1);
            let c2 = expr_to_const(fns, depth, *cond, q2, e2);
            if c1.res is Ok && c2.res is Ok {
                let guard = c1.res->Ok_0;
                let t1 = branch_env(c1.env, "then"@, then_expr.span, guard);
                let t2 = branch_env(c2.env, "then"@, then_expr.span, guard);
                lemma_alike_branch(c1.env, c2.env, "then"@, then_expr.span, guard);
                lemma_analyze_block(fns, depth, *then_expr, c1.queries, t1, c2.queries, t2);
                let r1 = analyze_block(fns, depth, *then_expr, c1.queries, t1);
                let r2 = analyze_block(fns, depth, *then_expr, c2.queries, t2);
                if r1.res is Ok && r2.res is Ok {
                    lemma_block_only_adds(fns, depth, *then_expr, c1.queries, t1);
                    lemma_block_only_adds(fns, depth, *then_expr, c2.queries, t2);
                    lemma_branch_extends(c1.env, "then"@, then_expr.span, guard, r1.env);
                    lemma_branch_extends(c2.env, "then"@, then_expr.span, guard, r2.env);
                    match else_opt {
                        Some(else_expr) => {
                            let f1 = branch_env(c1.env, "else"@, else_expr.span, guard.negated());
                            let f2 = branch_env(c2.env, "else"@, else_expr.span, guard.negated());
                            lemma_alike_branch(c1.env, c2.env, "else"@, else_expr.span, guard.negated());
                            lemma_analyze_block(fns, depth, *else_expr, r1.queries, f1, r2.queries, f2);
                            let s1 = analyze_block(fns, depth, *else_expr, r1.queries, f1);
                            let s2 = analyze_block(fns, depth, *else_expr, r2.queries, f2);
                            if s1.res is Ok && s2.res is Ok {
                                lemma_block_only_adds(fns, depth, *else_expr, r1.queries, f1);
                                lemma_block_only_adds(fns, depth, *else_expr, r2.queries, f2);
                                lemma_branch_extends(c1.env, "else"@, else_expr.span, guard.negated(), s1.env);
                                lemma_branch_extends(c2.env, "else"@, else_expr.span, guard.negated(), s2.env);
                                lemma_alike_merged(
                                    c1.env,
                                    c2.env,
                                    guard,
                                    r1.env,
                                    r2.env,
                                    Some(s1.env),
                                    Some(s2.env),
                                );
                            }
                        },
                        None => {
                            lemma_alike_merged(c1.env, c2.env, guard, r1.env, r2.env, None, None);
                        },
                    }
                }
            }
        },
        _ => {},
    }
}

proof fn lemma_analyze_expr(
    fns: Map<u64, RThir>,
    depth: nat,
    expr: RExpr,
    q1: Seq<Seq<char>>,
    e1: SpecEnv,
    q2: Seq<Seq<char>>,
    e2: SpecEnv,
)
    requires
        alike(e1, e2),
    ensures
        agree(analyze_expr(fns, depth, expr, q1, e1), analyze_expr(fns, depth, expr, q2, e2)),
    decreases depth, expr, 5nat, 0nat,
{
    match expr.kind {
        RExprKind::Binary { .. } => {
            lemma_expr_to_const(fns, depth, expr, q1, e1, q2, e2);
        },
        RExprKind::Call { .. } => {
            lemma_analyze_fn(fns, depth, expr, q1, e1, q2, e2);
        },
        RExprKind::Block { .. } => {
            lemma_analyze_body(fns, depth, expr, q1, e1, q2, e2);
        },
        RExprKind::LetStmt { .. } => {
            lemma_analyze_let_stmt(fns, depth, expr, q1, e1, q2, e2);
        },
        RExprKind::Assign { .. } => {
            lemma_analyze_assign(fns, depth, expr, q1, e1, q2, e2);
        },
        RExprKind::AssignOp { .. } => {
            lemma_analyze_assign_op(fns, depth, expr, q1, e1, q2, e2);
        },
        RExprKind::Loop { body } => {
            lemma_analyze_body(fns, depth, *body, q1, e1, q2, e2);
        },
        RExprKind::If { .. } => {
            lemma_analyze_if(fns, depth, expr, q1, e1, q2, e2);
        },
        RExprKind::Return { value } => match value {
            Some(value) => {
                lemma_expr_to_const(fns, depth, *value, q1, e1, q2, e2);
            },
            None => {},
        },
        _ => {},
    }
}

/// Encoding an expression under two environments that are alike (the same
/// records, the same scope name, the same symbols in use) gives the same
/// term, or the same error, and leaves environments that are alike, unless
/// one of the encodings ends as unsupported.
pub proof fn lemma_encoding_is_determined_by_bindings(
    fns: Map<u64, RThir>,
    depth: nat,
    expr: RExpr,
    queries_a: Seq<Seq<char>>,
    env_a: SpecEnv,
    queries_b: Seq<Seq<char>>,
    env_b: SpecEnv,
)
    requires
        alike(env_a, env_b),
    ensures
        ({
            let a = expr_to_const(fns, depth, expr, queries_a, env_a);
            let b = expr_to_const(fns, depth, expr, queries_b, env_b);
            &&& !gave_up(a) && !gave_up(b) ==> a.res == b.res && alike(a.env, b.env)
            &&& a.res is Ok && b.res is Ok ==> a.res->Ok_0 == b.res->Ok_0
        }),
{
    lemma_expr_to_const(fns, depth, expr, queries_a, env_a, queries_b, env_b);
}

/// Running a statement under two environments that are alike hands control
/// on in the same way, with the same term where it returns one, or ends in
/// the same error, and leaves environments that are alike, unless one of the
/// runs ends as unsupported.
pub proof fn lemma_statement_is_determined_by_bindings(
    fns: Map<u64, RThir>,
    depth: nat,
    expr: RExpr,
    queries_a: Seq<Seq<char>>,
    env_a: SpecEnv,
    queries_b: Seq<Seq<char>>,
    env_b: SpecEnv,
)
    requires
        alike(env_a, env_b),
    ensures
        ({
            let a = analyze_expr(fns, depth, expr, queries_a, env_a);
            let b = analyze_expr(fns, depth, expr, queries_b, env_b);
            &&& !gave_up(a) && !gave_up(b) ==> a.res == b.res && alike(a.env, b.env)
            &&& a.res is Ok && b.res is Ok ==> a.res->Ok_0 == b.res->Ok_0
        }),
{
    lemma_analyze_expr(fns, depth, expr, queries_a, env_a, queries_b, env_b);
}

} // verus!
