//! What holds of the analysis, whatever the program.

use vstd::prelude::*;
use crate::analyze::env::{lemma_fresh_symbol_is_new, lemma_new_is_unused, merged_binding, SpecEnv};
use crate::analyze::growth::{extends, keeps};
use crate::analyze::lir::{SpecLir, SpecLirKind};
use crate::analyze::model::{
    declared_name,
    dropped_name,
    fn_info,
    is_separator,
    random_name,
    refreshed_name,
    scan_path,
    span_name,
};
use crate::analyze::flow::ErrorKind;
use crate::analyze::oracle::{proved, some_unproved, verdict};
use crate::analyze::term::{eval, holds, SmtBinOp, SpecTerm, Value};
use crate::analyze::text::{is_alphanumeric, sanitize};
use crate::thir::rthir::{LocalVarId, Span, Ty};

verus! {

/// A term `(ite cond t e)` has the value of `t` in every model that makes
/// `cond` true, and the value of `e` in every model that makes it false.
pub proof fn lemma_ite_selects(
    cond: SpecTerm,
    then_term: SpecTerm,
    else_term: SpecTerm,
    model: Map<Seq<char>, Value>,
)
    ensures
        holds(cond, model) ==> eval(then_term.chosen_if(cond, else_term), model) == eval(then_term, model),
        holds(cond.negated(), model) ==> eval(then_term.chosen_if(cond, else_term), model) == eval(
            else_term,
            model,
        ),
{
}

/// After a conditional, a variable that both branches know has, in every
/// model that makes the condition true, the value that the then branch left
/// it with, and in every model that makes the condition false, the value
/// that the else branch left it with. Without an else branch the second
/// value is the one it had before the conditional.
pub proof fn lemma_merged_binding_selects(
    var: LocalVarId,
    parent: Map<LocalVarId, SpecLir>,
    cond: SpecTerm,
    then_map: Map<LocalVarId, SpecLir>,
    else_map: Option<Map<LocalVarId, SpecLir>>,
    model: Map<Seq<char>, Value>,
)
    requires
        then_map.contains_key(var),
        else_map matches Some(else_map) ==> else_map.contains_key(var),
    ensures
        holds(cond, model) ==> eval(merged_binding(var, parent, cond, then_map, else_map).term, model)
            == eval(then_map[var].term, model),
        holds(cond.negated(), model) ==> eval(
            merged_binding(var, parent, cond, then_map, else_map).term,
            model,
        ) == eval(
            match else_map {
                Some(else_map) => else_map[var].term,
                None => parent[var].term,
            },
            model,
        ),
        merged_binding(var, parent, cond, then_map, else_map).name == parent[var].name,
        merged_binding(var, parent, cond, then_map, else_map).ty == parent[var].ty,
{
}

/// In the environment that merging the branches of a conditional gives, a
/// variable that the environment and both branches know has the value that
/// the then branch left it with in every model that makes the condition
/// true, and the value that the else branch left it with in every model
/// that makes the condition false.
pub proof fn lemma_merged_env_selects(
    parent: SpecEnv,
    cond: SpecTerm,
    then_env: SpecEnv,
    else_env: SpecEnv,
    var: LocalVarId,
    model: Map<Seq<char>, Value>,
)
    requires
        parent.env_map.contains_key(var),
        then_env.env_map.contains_key(var),
        else_env.env_map.contains_key(var),
    ensures
        parent.merged_ite(cond, then_env, Some(else_env)).env_map.contains_key(var),
        holds(cond, model) ==> eval(parent.merged_ite(cond, then_env, Some(else_env)).env_map[var].term, model)
            == eval(then_env.env_map[var].term, model),
        holds(cond.negated(), model) ==> eval(
            parent.merged_ite(cond, then_env, Some(else_env)).env_map[var].term,
            model,
        ) == eval(else_env.env_map[var].term, model),
{
}

/// Whether a value is a truth value.
pub open spec fn is_truth_value(value: Option<Value>) -> bool {
    value matches Some(Value::Bool(_))
}

/// A fragment that a branch contributes holds, in every model that makes
/// the branch's guard true, exactly when the fragment itself holds; in a
/// model that makes the guard false it holds whatever truth value the
/// fragment has.
pub proof fn lemma_guarded_fragment(formula: SpecTerm, guard: SpecTerm, model: Map<Seq<char>, Value>)
    ensures
        SpecLirKind::Assume(formula).guarded(guard) matches SpecLirKind::Assume(guarded) && {
            &&& holds(guard, model) ==> (holds(guarded, model) <==> holds(formula, model))
            &&& holds(guard.negated(), model) && is_truth_value(eval(formula, model)) ==> holds(
                guarded,
                model,
            )
        },
{
    reveal_with_fuel(eval, 3);
}

/// Merging the branches of a conditional keeps the path of the environment
/// and puts behind it what the then branch added, then what the else branch
/// added, each in its own order and each fragment guarded by its branch's
/// condition.
pub proof fn lemma_merge_keeps_order(parent: SpecEnv, cond: SpecTerm, then_env: SpecEnv, else_env: Option<SpecEnv>)
    requires
        extends(then_env.path, parent.path),
        else_env matches Some(else_env) ==> extends(else_env.path, parent.path),
    ensures
        extends(parent.merged_ite(cond, then_env, else_env).path, parent.path),
        forall|i: int|
            parent.path.len() <= i < then_env.path.len() ==> #[trigger] parent.merged_ite(
                cond,
                then_env,
                else_env,
            ).path[i] == then_env.path[i].guarded(cond),
        else_env matches Some(else_env) ==> forall|i: int|
            parent.path.len() <= i < else_env.path.len() ==> parent.merged_ite(
                cond,
                then_env,
                Some(else_env),
            ).path[then_env.path.len() + i - parent.path.len()] == (#[trigger] else_env.path[i]).guarded(
                cond.negated(),
            ),
        parent.merged_ite(cond, then_env, else_env).path.len() == then_env.path.len() + match else_env {
            Some(else_env) => else_env.path.len() - parent.path.len(),
            None => 0,
        },
{
}

/// Whether `model` makes every assumption of `path` true.
pub open spec fn satisfies(model: Map<Seq<char>, Value>, path: Seq<SpecLirKind>) -> bool {
    forall|i: int|
        0 <= i < path.len() ==> ((#[trigger] path[i]) matches SpecLirKind::Assume(formula) ==> holds(
            formula,
            model,
        ))
}

/// What a proved goal means. A script asks for a model of the path that
/// makes the negated goal true. Where there is none, the goal is true in
/// every model of the path in which it has a truth value, and assuming the
/// goal from then on loses no such model.
pub proof fn lemma_unsat_means_proved(path: Seq<SpecLirKind>, goal: SpecTerm, model: Map<Seq<char>, Value>)
    requires
        forall|m: Map<Seq<char>, Value>| !(#[trigger] satisfies(m, path) && holds(goal.negated(), m)),
        satisfies(model, path),
        is_truth_value(eval(goal, model)),
    ensures
        holds(goal, model),
        satisfies(model, path.push(SpecLirKind::Assume(goal))),
{
    assert(!holds(goal.negated(), model));
}

/// Whether a goal can fail on a path: some model makes every assumption
/// of the path true and the goal false. The script of such a goal is
/// satisfiable, so a solver that answers rightly does not call it `unsat`.
pub open spec fn refutable(path: Seq<SpecLirKind>, goal: SpecTerm) -> bool {
    exists|model: Map<Seq<char>, Value>| satisfies(model, path) && holds(goal.negated(), model)
}

/// The base case of a loop whose invariant asks more than holds before the
/// loop can fail: on a path that assumes no more than `x == 0`, the goal
/// `x >= 1` is refutable.
pub proof fn lemma_false_base_case_is_refutable(path: Seq<SpecLirKind>, x: Seq<char>)
    requires
        forall|i: int|
            0 <= i < path.len() ==> ((#[trigger] path[i]) matches SpecLirKind::Assume(formula) ==> formula == (
            SpecTerm::Binary {
                op: SmtBinOp::Eq,
                lhs: Box::new(SpecTerm::Symbol { name: x }),
                rhs: Box::new(SpecTerm::Int { value: 0, neg: false }),
            })),
    ensures
        refutable(
            path,
            SpecTerm::Binary {
                op: SmtBinOp::Ge,
                lhs: Box::new(SpecTerm::Symbol { name: x }),
                rhs: Box::new(SpecTerm::Int { value: 1, neg: false }),
            },
        ),
{
    reveal_with_fuel(eval, 3);
    let model = Map::<Seq<char>, Value>::empty().insert(x, Value::Int(0));
    let goal = SpecTerm::Binary {
        op: SmtBinOp::Ge,
        lhs: Box::new(SpecTerm::Symbol { name: x }),
        rhs: Box::new(SpecTerm::Int { value: 1, neg: false }),
    };
    assert(satisfies(model, path));
    assert(holds(goal.negated(), model));
}

/// A goal that the solver does not prove fails the analysis, whatever
/// would come after it: where the output for the first script that is not
/// proved is at hand, the verdict is that verification failed.
pub proof fn lemma_unproved_goal_fails(n: nat, result: Result<(), ErrorKind>, outputs: Seq<Seq<char>>, at: int)
    requires
        0 <= at < n,
        at < outputs.len(),
        !proved(outputs[at]),
    ensures
        verdict(n, result, outputs) == Err::<(), ErrorKind>(ErrorKind::VerificationFailed),
{
    assert(some_unproved(outputs, n as int));
}

/// Whether a segment holds no separator.
pub open spec fn holds_no_separator(segment: Seq<char>) -> bool {
    forall|i: int| 0 <= i < segment.len() ==> !is_separator(#[trigger] segment[i])
}

proof fn lemma_scan_path(path: Seq<char>, n: nat)
    ensures
        holds_no_separator(scan_path(path, n).1),
        forall|k: int|
            0 <= k < scan_path(path, n).0.len() ==> (#[trigger] scan_path(path, n).0[k]).len() > 0
                && holds_no_separator(scan_path(path, n).0[k]),
    decreases n,
{
    if n == 0 || n > path.len() {
    } else {
        lemma_scan_path(path, (n - 1) as nat);
    }
}

/// Every segment of a definition path holds a character, and none holds a
/// separator.
pub proof fn lemma_segments_are_whole(path: Seq<char>)
    ensures
        forall|k: int|
            0 <= k < fn_info(path).len() ==> (#[trigger] fn_info(path)[k]).len() > 0 && holds_no_separator(
                fn_info(path)[k],
            ),
{
    lemma_scan_path(path, path.len());
}

/// Every name that the analysis gives a symbol is new to the environment
/// in which it declares the symbol: no earlier declaration of the path has
/// it and no unconstrained symbol.
pub proof fn lemma_declared_symbols_are_new(env: SpecEnv, span: Span, symbol: Seq<char>)
    ensures
        env.is_new(declared_name(env, span)),
        env.is_new(random_name(env, span)),
        env.is_new(dropped_name(env, span)),
        env.is_new(refreshed_name(env, symbol)),
{
    lemma_fresh_symbol_is_new(env, env.symbol_base(""@, span_name(span)));
    lemma_fresh_symbol_is_new(env, env.symbol_base("rand_"@, span_name(span)));
    lemma_fresh_symbol_is_new(env, env.symbol_base("drop_"@, span_name(span)));
    lemma_fresh_symbol_is_new(env, env.symbol_base(""@, symbol));
    lemma_new_is_unused(env, declared_name(env, span));
    lemma_new_is_unused(env, random_name(env, span));
    lemma_new_is_unused(env, dropped_name(env, span));
    lemma_new_is_unused(env, refreshed_name(env, symbol));
}

/// A symbol that is declared later never has the name of a symbol that
/// was declared before it: where an environment kept all that an earlier
/// one held after declaring `name`, whatever it derives next differs from
/// `name`. So a callee that is inlined twice gets different symbols.
pub proof fn lemma_later_symbol_differs(
    earlier: SpecEnv,
    name: Seq<char>,
    ty: Ty,
    var: LocalVarId,
    later: SpecEnv,
    base: Seq<char>,
)
    requires
        keeps(later, earlier.with_param(name, ty, var)) || keeps(later, earlier.with_random_var(ty, name)),
    ensures
        later.fresh_symbol(base) != name,
{
    lemma_fresh_symbol_is_new(later, base);
    lemma_new_is_unused(later, later.fresh_symbol(base));
    if keeps(later, earlier.with_param(name, ty, var)) {
        let at = earlier.path.len() as int;
        assert(earlier.with_param(name, ty, var).path[at] == later.path[at]);
    } else {
        let at = earlier.vars.len() as int;
        assert(earlier.with_random_var(ty, name).vars[at] == later.vars[at]);
    }
}

/// Whether a name is one of the kinds of scope that the analysis opens.
pub open spec fn is_scope_kind(kind: Seq<char>) -> bool {
    kind == "then"@ || kind == "else"@ || kind == "loop"@ || kind == "inner_loop"@
}

/// Two locations have the same name only if their texts are equally long
/// and agree wherever both hold a letter or a digit.
pub proof fn lemma_span_names_differ(a: Span, b: Span)
    requires
        span_name(a) == span_name(b),
    ensures
        a.text@.len() == b.text@.len(),
        forall|i: int|
            0 <= i < a.text@.len() && is_alphanumeric(a.text@[i]) && is_alphanumeric(b.text@[i])
                ==> a.text@[i] == b.text@[i],
{
    assert(sanitize(a.text@).len() == a.text@.len());
    assert(sanitize(b.text@).len() == b.text@.len());
    assert forall|i: int|
        0 <= i < a.text@.len() && is_alphanumeric(a.text@[i]) && is_alphanumeric(
            b.text@[i],
        ) implies a.text@[i] == b.text@[i] by {
        assert(sanitize(a.text@)[i] == a.text@[i]);
        assert(sanitize(b.text@)[i] == b.text@[i]);
    }
}

/// The names of two scopes collide only if the scopes are of the same kind
/// and open at locations of the same name: scopes of different kinds, and
/// scopes that open at differently named locations, never share a name.
/// The symbols that a scope declares are kept apart by their numbers, see
/// [`lemma_declared_symbols_are_new`].
pub proof fn lemma_scope_names_unique(kind_a: Seq<char>, span_a: Span, kind_b: Seq<char>, span_b: Span)
    requires
        is_scope_kind(kind_a),
        is_scope_kind(kind_b),
    ensures
        SpecEnv::unique_name(kind_a, span_name(span_a)) == SpecEnv::unique_name(kind_b, span_name(span_b)) <==> (
        kind_a == kind_b && span_name(span_a) == span_name(span_b)),
{
    reveal_strlit("then");
    reveal_strlit("else");
    reveal_strlit("loop");
    reveal_strlit("inner_loop");
    let name_a = SpecEnv::unique_name(kind_a, span_name(span_a));
    let name_b = SpecEnv::unique_name(kind_b, span_name(span_b));
    if name_a == name_b {
        assert(name_a[0] == kind_a[0]);
        assert(name_b[0] == kind_b[0]);
        assert(kind_a == kind_b);
        let n = kind_a.len() as int;
        assert(span_name(span_a) =~= name_a.subrange(n + 1, name_a.len() as int));
        assert(span_name(span_b) =~= name_b.subrange(n + 1, name_b.len() as int));
    }
}

} // verus!
