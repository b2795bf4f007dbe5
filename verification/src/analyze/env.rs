//! The symbolic environment of one scope.
//!
//! An environment holds the path condition of a straight-line scope, the
//! record of every variable in reach, and the symbols that were introduced
//! without any constraint. Entering a branch or a loop body copies the
//! environment; leaving a branch merges the copies back.

use std::collections::HashMap;
use vstd::pervasive::VecAdditionalExecFns;
use vstd::prelude::*;
use vstd::std_specs::hash::{axiom_spec_hash_map_iter, spec_hash_map_iter};
use vstd::std_specs::iter::IteratorSpec;
use vstd::string::StringExecFns;
use crate::analyze::flow::{AnalysisError, ErrorKind};
use crate::analyze::model::span_name;
use crate::analyze::lir::{
    assertion_line,
    declaration_line,
    has_sort,
    push_assertion,
    push_declaration,
    Lir,
    LirKind,
    SpecLir,
    SpecLirKind,
};
use crate::analyze::term::{SmtBinOp, SpecTerm, Term};
use crate::analyze::text::{fresh_name, lemma_fresh_names_differ, push_decimal, strings_view};
use crate::analyze::Analyzer;
use crate::thir::rthir::{LocalVarId, Span, Ty};

verus! {

/// The environment of one scope.
#[derive(Debug)]
pub struct Env {
    /// The scope's name, from which names of fresh symbols are derived.
    pub name: String,
    /// The path condition, in the order in which it grew.
    pub path: Vec<LirKind>,
    /// The symbols introduced without a constraint, each declared before the path.
    pub vars: Vec<(Ty, String)>,
    /// The records of the variables in reach, keyed by the variables' numbers.
    pub env_map: HashMap<u64, Lir>,
}

/// An environment as a mathematical value.
pub struct SpecEnv {
    pub name: Seq<char>,
    pub path: Seq<SpecLirKind>,
    pub vars: Seq<(Ty, Seq<char>)>,
    pub env_map: Map<LocalVarId, SpecLir>,
}

/// The fragments of a path as mathematical values.
pub open spec fn path_view(path: Seq<LirKind>) -> Seq<SpecLirKind> {
    Seq::new(path.len(), |i: int| path[i]@)
}

/// The unconstrained symbols as mathematical values.
pub open spec fn vars_view(vars: Seq<(Ty, String)>) -> Seq<(Ty, Seq<char>)> {
    Seq::new(vars.len(), |i: int| (vars[i].0, vars[i].1@))
}

/// The records of the variables as mathematical values, keyed by the variables.
pub open spec fn bindings(records: Map<u64, Lir>) -> Map<LocalVarId, SpecLir> {
    Map::new(|var: LocalVarId| records.contains_key(var.0), |var: LocalVarId| records[var.0]@)
}

impl View for Env {
    type V = SpecEnv;

    open spec fn view(&self) -> SpecEnv {
        SpecEnv {
            name: self.name@,
            path: path_view(self.path@),
            vars: vars_view(self.vars@),
            env_map: bindings(self.env_map@),
        }
    }
}

/// The lines joined by line ends, with none behind the last.
pub open spec fn joined(lines: Seq<Seq<char>>) -> Seq<char>
    decreases lines.len(),
{
    if lines.len() == 0 {
        Seq::empty()
    } else if lines.len() == 1 {
        lines[0]
    } else {
        joined(lines.drop_last()) + seq!['\n'] + lines.last()
    }
}

/// The declarations of the unconstrained symbols, in their order.
pub open spec fn vars_lines(vars: Seq<(Ty, Seq<char>)>) -> Seq<Seq<char>>
    decreases vars.len(),
{
    if vars.len() == 0 {
        Seq::empty()
    } else {
        vars_lines(vars.drop_last()).push(declaration_line(vars.last().1, vars.last().0))
    }
}

/// The declarations that a path holds, in the path's order.
pub open spec fn declarations_lines(path: Seq<SpecLirKind>) -> Seq<Seq<char>>
    decreases path.len(),
{
    if path.len() == 0 {
        Seq::empty()
    } else if path.last() is Declaration {
        declarations_lines(path.drop_last()).push(path.last().text())
    } else {
        declarations_lines(path.drop_last())
    }
}

/// The assumptions that a path holds, in the path's order.
pub open spec fn assumptions_lines(path: Seq<SpecLirKind>) -> Seq<Seq<char>>
    decreases path.len(),
{
    if path.len() == 0 {
        Seq::empty()
    } else if path.last() is Assume {
        assumptions_lines(path.drop_last()).push(path.last().text())
    } else {
        assumptions_lines(path.drop_last())
    }
}

/// What is left of `s` after its first `n` items; nothing where it has fewer.
pub open spec fn tail_from<T>(s: Seq<T>, n: nat) -> Seq<T> {
    if n <= s.len() {
        s.subrange(n as int, s.len() as int)
    } else {
        Seq::empty()
    }
}

/// The record of `var` after a conditional, where the branches were run in
/// copies of an environment with the records `parent`.
///
/// A variable that both branches know stands for `(ite cond t e)`, with `t`
/// and `e` its terms at the end of the branches. Without an else branch `e`
/// is the term that the variable had before. A variable that a branch does
/// not know keeps its record.
pub open spec fn merged_binding(
    var: LocalVarId,
    parent: Map<LocalVarId, SpecLir>,
    cond: SpecTerm,
    then_map: Map<LocalVarId, SpecLir>,
    else_map: Option<Map<LocalVarId, SpecLir>>,
) -> SpecLir {
    match else_map {
        Some(else_map) => if then_map.contains_key(var) && else_map.contains_key(var) {
            parent[var].with_assume(then_map[var].term.chosen_if(cond, else_map[var].term))
        } else {
            parent[var]
        },
        None => if then_map.contains_key(var) {
            parent[var].with_assume(then_map[var].term.chosen_if(cond, parent[var].term))
        } else {
            parent[var]
        },
    }
}

/// The records after a conditional: [`merged_binding`] for every variable of `parent`.
pub open spec fn merged_bindings(
    parent: Map<LocalVarId, SpecLir>,
    cond: SpecTerm,
    then_map: Map<LocalVarId, SpecLir>,
    else_map: Option<Map<LocalVarId, SpecLir>>,
) -> Map<LocalVarId, SpecLir> {
    Map::new(
        |var: LocalVarId| parent.contains_key(var),
        |var: LocalVarId| merged_binding(var, parent, cond, then_map, else_map),
    )
}

/// The records of an optional environment.
pub open spec fn bindings_of(env: Option<SpecEnv>) -> Option<Map<LocalVarId, SpecLir>> {
    match env {
        Some(env) => Some(env.env_map),
        None => None,
    }
}

impl SpecEnv {
    /// The environment at the entry of the analysed function.
    pub open spec fn root() -> SpecEnv {
        SpecEnv { name: "main"@, path: Seq::empty(), vars: Seq::empty(), env_map: Map::empty() }
    }

    /// The environment with `formula` assumed at the end of its path.
    pub open spec fn with_assumption(self, formula: SpecTerm) -> SpecEnv {
        SpecEnv { path: self.path.push(SpecLirKind::Assume(formula)), ..self }
    }

    /// The environment with one more unconstrained symbol.
    pub open spec fn with_random_var(self, ty: Ty, name: Seq<char>) -> SpecEnv {
        SpecEnv { vars: self.vars.push((ty, name)), ..self }
    }

    /// The environment with `var` declared as the symbol `name`, standing for that symbol.
    pub open spec fn with_param(self, name: Seq<char>, ty: Ty, var: LocalVarId) -> SpecEnv {
        SpecEnv {
            path: self.path.push(SpecLirKind::Declaration { name, ty }),
            env_map: self.env_map.insert(var, SpecLir::declared(name, ty)),
            ..self
        }
    }

    /// The environment with `term` standing for `var`, which has a record.
    pub open spec fn with_value(self, var: LocalVarId, term: SpecTerm) -> SpecEnv {
        SpecEnv { env_map: self.env_map.insert(var, self.env_map[var].with_assume(term)), ..self }
    }

    /// The name of a scope of kind `name` that opens at the location named `span_name`.
    pub open spec fn unique_name(name: Seq<char>, span_name: Seq<char>) -> Seq<char> {
        name + seq!['_'] + span_name
    }

    /// A copy of the environment under another name.
    pub open spec fn renamed(self, name: Seq<char>) -> SpecEnv {
        SpecEnv { name, ..self }
    }

    /// Whether every declaration of the environment has a sort.
    pub open spec fn renderable(self) -> bool {
        &&& forall|i: int| 0 <= i < self.vars.len() ==> has_sort(#[trigger] self.vars[i].0)
        &&& forall|i: int| 0 <= i < self.path.len() ==> (#[trigger] self.path[i]).renderable()
    }

    /// The commands of the environment: the declarations of the
    /// unconstrained symbols, then the declarations of the path, then its
    /// assumptions.
    pub open spec fn command_lines(self) -> Seq<Seq<char>> {
        vars_lines(self.vars) + declarations_lines(self.path) + assumptions_lines(self.path)
    }

    /// The environment as solver commands, joined by line ends.
    pub open spec fn commands(self) -> Seq<char> {
        joined(self.command_lines())
    }

    /// The script that asks whether `goal` follows from the path: the
    /// commands, the negated goal and the request to check, each on a line
    /// of its own, and a line end behind the last.
    pub open spec fn query(self, goal: SpecTerm) -> Seq<char> {
        joined(self.command_lines().push(assertion_line(goal.negated())).push("(check-sat)"@)) + seq![
            '\n',
        ]
    }

    /// The symbols that the environment declares, one place for each
    /// unconstrained symbol and each fragment of the path; an assumption's
    /// place holds none.
    pub open spec fn symbols(self) -> Seq<Option<Seq<char>>> {
        Seq::new(
            self.vars.len() + self.path.len(),
            |i: int|
                if i < self.vars.len() {
                    Some(self.vars[i].1)
                } else {
                    match self.path[i - self.vars.len()] {
                        SpecLirKind::Declaration { name, .. } => Some(name),
                        SpecLirKind::Assume(_) => None,
                    }
                },
        )
    }

    /// Whether the environment declares a symbol of this name, as an
    /// unconstrained symbol or on its path.
    pub open spec fn uses(self, name: Seq<char>) -> bool {
        self.symbols().contains(Some(name))
    }

    /// Whether a name is new to the environment: no unconstrained symbol has
    /// it and no declaration of the path. The same as not being in use.
    pub open spec fn is_new(self, name: Seq<char>) -> bool {
        &&& forall|i: int| 0 <= i < self.vars.len() ==> (#[trigger] self.vars[i]).1 != name
        &&& forall|i: int|
            0 <= i < self.path.len() ==> !((#[trigger] self.path[i]) matches SpecLirKind::Declaration {
                name: declared,
                ..
            } && declared == name)
    }

    /// Whether no two symbols of the environment have the same name: no two
    /// unconstrained symbols, no two declarations of the path, and no
    /// unconstrained symbol and declaration.
    pub open spec fn distinct(self) -> bool {
        &&& forall|i: int, j: int|
            0 <= i < j < self.vars.len() ==> (#[trigger] self.vars[i]).1 != (#[trigger] self.vars[j]).1
        &&& forall|i: int, j: int, name: Seq<char>|
            0 <= i < j < self.path.len() && #[trigger] self.path[i].declares(name) ==> !#[trigger] self.path[j].declares(name)
        &&& forall|i: int, j: int|
            0 <= i < self.vars.len() && 0 <= j < self.path.len() ==> !(#[trigger] self.path[j]).declares(
                (#[trigger] self.vars[i]).1,
            )
    }

    /// Whether the environment declares a symbol of this name beyond its
    /// first `vars_from` unconstrained symbols and its first `path_from`
    /// fragments.
    pub open spec fn adds(self, vars_from: nat, path_from: nat, name: Seq<char>) -> bool {
        ||| exists|i: int| vars_from <= i < self.vars.len() && (#[trigger] self.vars[i]).1 == name
        ||| exists|i: int| path_from <= i < self.path.len() && #[trigger] self.path[i].declares(name)
    }

    /// Whether the branches of a conditional, copied from this environment,
    /// both declared a symbol of the same name.
    pub open spec fn clashes(self, then_env: SpecEnv, else_env: Option<SpecEnv>) -> bool {
        else_env matches Some(else_env) && exists|name: Seq<char>|
            #![trigger then_env.adds(self.vars.len(), self.path.len(), name)]
            then_env.adds(self.vars.len(), self.path.len(), name) && else_env.adds(
                self.vars.len(),
                self.path.len(),
                name,
            )
    }

    /// The first number from `n` on, among the next `budget`, whose name
    /// derived from `base` the environment does not use; `n + budget` where
    /// it uses them all.
    pub open spec fn first_unused(self, base: Seq<char>, n: nat, budget: nat) -> nat
        decreases budget,
    {
        if budget == 0 || !self.uses(fresh_name(base, n)) {
            n
        } else {
            self.first_unused(base, n + 1, (budget - 1) as nat)
        }
    }

    /// The name of a fresh symbol derived from `base`: the base with the
    /// least number whose name the environment does not use.
    pub open spec fn fresh_symbol(self, base: Seq<char>) -> Seq<char> {
        fresh_name(base, self.first_unused(base, 0, self.vars.len() + self.path.len()))
    }

    /// The base of the names of the symbols that the scope derives for the
    /// location named `span_name`: the scope's name, an underscore, the tag
    /// and the location.
    pub open spec fn symbol_base(self, tag: Seq<char>, span_name: Seq<char>) -> Seq<char> {
        SpecEnv::unique_name(self.name, tag + span_name)
    }

    /// The environment with every fragment from index `from` on guarded by `cond`.
    pub open spec fn adapted(self, cond: SpecTerm, from: nat) -> SpecEnv {
        SpecEnv {
            path: Seq::new(
                self.path.len(),
                |i: int|
                    if i >= from {
                        self.path[i].guarded(cond)
                    } else {
                        self.path[i]
                    },
            ),
            ..self
        }
    }

    /// The environment with the records merged after a conditional.
    pub open spec fn merged(self, cond: SpecTerm, then_env: SpecEnv, else_env: Option<SpecEnv>) -> SpecEnv {
        SpecEnv {
            env_map: merged_bindings(self.env_map, cond, then_env.env_map, bindings_of(else_env)),
            ..self
        }
    }

    /// The fragments that a branch adds to its parent's path: those past the
    /// parent's, each guarded.
    pub open spec fn contribution(self, guard: SpecTerm, parent: SpecEnv) -> Seq<SpecLirKind> {
        tail_from(self.adapted(guard, parent.path.len()).path, parent.path.len())
    }

    /// The environment after a conditional on `cond` whose branches ended in
    /// `then_env` and `else_env`: the records are merged, and the parent's
    /// path and unconstrained symbols are followed by what the then branch
    /// added, guarded by `cond`, and then by what the else branch added,
    /// guarded by `(not cond)`.
    pub open spec fn merged_ite(self, cond: SpecTerm, then_env: SpecEnv, else_env: Option<SpecEnv>) -> SpecEnv {
        SpecEnv {
            name: self.name,
            path: self.path + then_env.contribution(cond, self) + match else_env {
                Some(else_env) => else_env.contribution(cond.negated(), self),
                None => Seq::empty(),
            },
            vars: self.vars + tail_from(then_env.vars, self.vars.len()) + match else_env {
                Some(else_env) => tail_from(else_env.vars, self.vars.len()),
                None => Seq::empty(),
            },
            env_map: merged_bindings(self.env_map, cond, then_env.env_map, bindings_of(else_env)),
        }
    }
}


/// The view of an optional environment.
pub open spec fn option_view(env: Option<Env>) -> Option<SpecEnv> {
    match env {
        Some(env) => Some(env@),
        None => None,
    }
}

/// The view of an optional reference to an environment.
pub open spec fn option_ref_view(env: Option<&Env>) -> Option<SpecEnv> {
    match env {
        Some(env) => Some(env@),
        None => None,
    }
}

fn append_path_tail(dst: &mut Vec<LirKind>, src: &Vec<LirKind>, from: usize)
    ensures
        path_view(final(dst)@) == path_view(old(dst)@) + tail_from(path_view(src@), from as nat),
{
    let mut i: usize = from;
    assert(path_view(dst@) =~= path_view(old(dst)@) + tail_from(path_view(src@), from as nat).take(0));
    while i < src.len()
        invariant
            from <= i,
            from <= src.len() ==> i <= src.len(),
            from <= src.len() ==> path_view(dst@) == path_view(old(dst)@) + tail_from(
                path_view(src@),
                from as nat,
            ).take(i - from),
            from > src.len() ==> dst@ == old(dst)@,
        decreases src.len() - i,
    {
        let ghost before = dst@;
        dst.push(src[i].clone());
        assert(path_view(dst@) =~= path_view(before).push(src@[i as int]@));
        assert(tail_from(path_view(src@), from as nat).take(i + 1 - from) =~= tail_from(
            path_view(src@),
            from as nat,
        ).take(i - from).push(src@[i as int]@));
        i += 1;
    }
    if from <= src.len() {
        assert(tail_from(path_view(src@), from as nat).take(i - from) =~= tail_from(
            path_view(src@),
            from as nat,
        ));
    } else {
        assert(path_view(dst@) =~= path_view(old(dst)@) + tail_from(path_view(src@), from as nat));
    }
}

fn append_vars_tail(dst: &mut Vec<(Ty, String)>, src: &Vec<(Ty, String)>, from: usize)
    ensures
        vars_view(final(dst)@) == vars_view(old(dst)@) + tail_from(vars_view(src@), from as nat),
{
    let mut i: usize = from;
    assert(vars_view(dst@) =~= vars_view(old(dst)@) + tail_from(vars_view(src@), from as nat).take(0));
    while i < src.len()
        invariant
            from <= i,
            from <= src.len() ==> i <= src.len(),
            from <= src.len() ==> vars_view(dst@) == vars_view(old(dst)@) + tail_from(
                vars_view(src@),
                from as nat,
            ).take(i - from),
            from > src.len() ==> dst@ == old(dst)@,
        decreases src.len() - i,
    {
        let ghost before = dst@;
        dst.push((src[i].0, src[i].1.clone()));
        assert(vars_view(dst@) =~= vars_view(before).push((src@[i as int].0, src@[i as int].1@)));
        assert(tail_from(vars_view(src@), from as nat).take(i + 1 - from) =~= tail_from(
            vars_view(src@),
            from as nat,
        ).take(i - from).push((src@[i as int].0, src@[i as int].1@)));
        i += 1;
    }
    if from <= src.len() {
        assert(tail_from(vars_view(src@), from as nat).take(i - from) =~= tail_from(
            vars_view(src@),
            from as nat,
        ));
    } else {
        assert(vars_view(dst@) =~= vars_view(old(dst)@) + tail_from(vars_view(src@), from as nat));
    }
}

proof fn lemma_pigeonhole(slots: Seq<Option<Seq<char>>>, base: Seq<char>, count: nat)
    requires
        forall|j: nat| j < count ==> slots.contains(Some(#[trigger] fresh_name(base, j))),
    ensures
        count <= slots.len(),
    decreases count,
{
    if count > 0 {
        let last = (count - 1) as nat;
        assert(slots.contains(Some(fresh_name(base, last))));
        let i = choose|i: int| 0 <= i < slots.len() && slots[i] == Some(fresh_name(base, last));
        let rest = slots.remove(i);
        assert forall|j: nat| j < last implies rest.contains(Some(#[trigger] fresh_name(base, j))) by {
            assert(slots.contains(Some(fresh_name(base, j))));
            let k = choose|k: int| 0 <= k < slots.len() && slots[k] == Some(fresh_name(base, j));
            if k == i {
                lemma_fresh_names_differ(base, j, base, last);
            }
            if k < i {
                assert(rest[k] == slots[k]);
            } else {
                assert(rest[k - 1] == slots[k]);
            }
        }
        lemma_pigeonhole(rest, base, last);
    }
}

proof fn lemma_first_unused(env: SpecEnv, base: Seq<char>, n: nat, budget: nat)
    ensures
        n <= env.first_unused(base, n, budget) <= n + budget,
        forall|j: nat| n <= j < env.first_unused(base, n, budget) ==> env.uses(#[trigger] fresh_name(base, j)),
        env.first_unused(base, n, budget) < n + budget ==> !env.uses(
            fresh_name(base, env.first_unused(base, n, budget)),
        ),
    decreases budget,
{
    if budget == 0 || !env.uses(fresh_name(base, n)) {
    } else {
        lemma_first_unused(env, base, n + 1, (budget - 1) as nat);
    }
}

/// The name of a fresh symbol is new to the environment: no unconstrained
/// symbol and no declaration of the path has it. Its number is the least
/// with that property.
pub proof fn lemma_fresh_symbol_is_new(env: SpecEnv, base: Seq<char>)
    ensures
        !env.uses(env.fresh_symbol(base)),
        forall|j: nat|
            j < env.first_unused(base, 0, env.vars.len() + env.path.len()) ==> env.uses(
                #[trigger] fresh_name(base, j),
            ),
{
    let budget = env.vars.len() + env.path.len();
    let r = env.first_unused(base, 0, budget);
    lemma_first_unused(env, base, 0, budget);
    if r == budget && env.uses(fresh_name(base, r)) {
        assert forall|j: nat| j < budget + 1 implies env.symbols().contains(
            Some(#[trigger] fresh_name(base, j)),
        ) by {}
        lemma_pigeonhole(env.symbols(), base, budget + 1);
    }
}

/// A name is new to an environment exactly when the environment does not use it.
pub proof fn lemma_new_is_unused(env: SpecEnv, name: Seq<char>)
    ensures
        env.is_new(name) == !env.uses(name),
{
    let symbols = env.symbols();
    if env.uses(name) {
        let i = choose|i: int| 0 <= i < symbols.len() && symbols[i] == Some(name);
        if i < env.vars.len() {
            assert(env.vars[i].1 == name);
        } else {
            assert(env.path[i - env.vars.len()] matches SpecLirKind::Declaration { name: declared, .. } && declared
                == name);
        }
    } else {
        assert forall|i: int| 0 <= i < env.vars.len() implies (#[trigger] env.vars[i]).1 != name by {
            assert(symbols[i] == Some(env.vars[i].1));
        }
        assert forall|i: int| 0 <= i < env.path.len() implies !((#[trigger] env.path[i])
            matches SpecLirKind::Declaration { name: declared, .. } && declared == name) by {
            assert(symbols[env.vars.len() + i] == match env.path[i] {
                SpecLirKind::Declaration { name, .. } => Some(name),
                SpecLirKind::Assume(_) => None,
            });
        }
    }
}

/// Two environments that use the same names give a fresh symbol the same name.
pub proof fn lemma_fresh_symbol_by_uses(a: SpecEnv, b: SpecEnv, base: Seq<char>)
    requires
        forall|name: Seq<char>| a.uses(name) == b.uses(name),
    ensures
        a.fresh_symbol(base) == b.fresh_symbol(base),
{
    lemma_fresh_symbol_is_new(a, base);
    lemma_fresh_symbol_is_new(b, base);
    let ra = a.first_unused(base, 0, a.vars.len() + a.path.len());
    let rb = b.first_unused(base, 0, b.vars.len() + b.path.len());
    if ra < rb {
        assert(b.uses(fresh_name(base, ra)));
    }
    if rb < ra {
        assert(a.uses(fresh_name(base, rb)));
    }
}

proof fn lemma_bindings_insert(records: Map<u64, Lir>, var: LocalVarId, lir: Lir)
    ensures
        bindings(records.insert(var.0, lir)) == bindings(records).insert(var, lir@),
{
    assert(bindings(records.insert(var.0, lir)) =~= bindings(records).insert(var, lir@));
}

proof fn lemma_joined_push(lines: Seq<Seq<char>>, line: Seq<char>)
    ensures
        joined(lines.push(line)) == if lines.len() == 0 {
            line
        } else {
            joined(lines) + seq!['\n'] + line
        },
{
    assert(lines.push(line).drop_last() =~= lines);
}

proof fn lemma_vars_lines_push(vars: Seq<(Ty, Seq<char>)>, var: (Ty, Seq<char>))
    ensures
        vars_lines(vars.push(var)) == vars_lines(vars).push(declaration_line(var.1, var.0)),
{
    assert(vars.push(var).drop_last() =~= vars);
}

proof fn lemma_declarations_lines_push(path: Seq<SpecLirKind>, fragment: SpecLirKind)
    ensures
        declarations_lines(path.push(fragment)) == if fragment is Declaration {
            declarations_lines(path).push(fragment.text())
        } else {
            declarations_lines(path)
        },
{
    assert(path.push(fragment).drop_last() =~= path);
}

proof fn lemma_assumptions_lines_push(path: Seq<SpecLirKind>, fragment: SpecLirKind)
    ensures
        assumptions_lines(path.push(fragment)) == if fragment is Assume {
            assumptions_lines(path).push(fragment.text())
        } else {
            assumptions_lines(path)
        },
{
    assert(path.push(fragment).drop_last() =~= path);
}

/// Puts a line end behind the text, where a line stands before.
fn begin_line(out: &mut String, Ghost(lines): Ghost<Seq<Seq<char>>>, any: bool)
    requires
        old(out)@ == joined(lines),
        any == (lines.len() > 0),
    ensures
        forall|line: Seq<char>| final(out)@ + line == #[trigger] joined(lines.push(line)),
{
    if any {
        proof {
            reveal_strlit("\n");
            assert("\n"@ =~= seq!['\n']);
        }
        out.append("\n");
    }
    assert forall|line: Seq<char>| out@ + line == #[trigger] joined(lines.push(line)) by {
        lemma_joined_push(lines, line);
        if !any {
            assert(out@ + line =~= line);
        }
    }
}

fn clone_vars(vars: &Vec<(Ty, String)>) -> (res: Vec<(Ty, String)>)
    ensures
        res@ == vars@,
{
    let mut res: Vec<(Ty, String)> = Vec::new();
    let mut i: usize = 0;
    while i < vars.len()
        invariant
            i <= vars.len(),
            res@ == vars@.take(i as int),
        decreases vars.len() - i,
    {
        res.push((vars[i].0, vars[i].1.clone()));
        assert(vars@.take(i + 1) =~= vars@.take(i as int).push(vars@[i as int]));
        i += 1;
    }
    assert(vars@.take(i as int) =~= vars@);
    res
}

fn clone_entries(entries: &HashMap<u64, Lir>) -> (res: HashMap<u64, Lir>)
    ensures
        res@ == entries@,
{
    broadcast use {axiom_spec_hash_map_iter, vstd::std_specs::hash::group_hash_axioms};

    let mut res: HashMap<u64, Lir> = HashMap::new();
    for entry in it: entries.iter()
        invariant
            it.seq() == spec_hash_map_iter(entries).remaining(),
            forall|k: u64| #[trigger] res@.contains_key(k) ==> entries@.contains_key(k) && res@[k] == entries@[k],
            forall|j: int| 0 <= j < it.index() ==> res@.contains_key(*(#[trigger] it.seq()[j]).0),
    {
        let ghost all = spec_hash_map_iter(entries).remaining();
        assert(entry == it.seq()[it.index() as int]);
        assert(entries@.contains_key(*all[it.index() as int].0) && entries@[*all[it.index() as int].0]
            == *all[it.index() as int].1);
        let key = *entry.0;
        let lir = entry.1.clone();
        res.insert(key, lir);
    }
    assert forall|k: u64| entries@.contains_key(k) implies res@.contains_key(k) by {
        let all = spec_hash_map_iter(entries).remaining();
        assert(all.contains((&k, &entries@[k])));
        let j = choose|j: int| 0 <= j < all.len() && all[j] == (&k, &entries@[k]);
        assert(res@.contains_key(*all[j].0));
    }
    assert(res@ =~= entries@);
    res
}

fn clone_path(path: &Vec<LirKind>) -> (res: Vec<LirKind>)
    ensures
        res@ == path@,
{
    let mut res: Vec<LirKind> = Vec::new();
    let mut i: usize = 0;
    while i < path.len()
        invariant
            i <= path.len(),
            res@ == path@.take(i as int),
        decreases path.len() - i,
    {
        res.push(path[i].clone());
        assert(path@.take(i + 1) =~= path@.take(i as int).push(path@[i as int]));
        i += 1;
    }
    assert(path@.take(i as int) =~= path@);
    res
}

impl Clone for Env {
    fn clone(&self) -> (res: Self)
        ensures
            res@ == self@,
            res.name == self.name,
            res.path@ == self.path@,
            res.vars@ == self.vars@,
            res.env_map@ == self.env_map@,
    {
        Env {
            name: self.name.clone(),
            path: clone_path(&self.path),
            vars: clone_vars(&self.vars),
            env_map: clone_entries(&self.env_map),
        }
    }
}

impl Env {
    /// The environment at the entry of the analysed function.
    pub fn new() -> (env: Self)
        ensures
            env@ == SpecEnv::root(),
    {
        let env = Self {
            name: String::from_str("main"),
            path: Vec::new(),
            vars: Vec::new(),
            env_map: HashMap::new(),
        };
        assert(env@.path =~= Seq::empty());
        assert(env@.vars =~= Seq::empty());
        assert(env@.env_map =~= Map::empty());
        env
    }

    /// An environment made of its parts.
    pub fn from(
        name: String,
        path: Vec<LirKind>,
        env_map: HashMap<u64, Lir>,
        vars: Vec<(Ty, String)>,
    ) -> (env: Self)
        ensures
            env.name == name,
            env.path == path,
            env.env_map == env_map,
            env.vars == vars,
    {
        Self { name, path, vars, env_map }
    }

    /// The number of fragments on the path.
    pub fn len(&self) -> (n: usize)
        ensures
            n == self@.path.len(),
    {
        self.path.len()
    }

    /// Assumes `constraint` from here on.
    pub fn add_smt_command(&mut self, constraint: Term)
        ensures
            final(self)@ == old(self)@.with_assumption(constraint@),
    {
        self.path.push(LirKind::Assume(constraint));
        assert(final(self)@.path =~= old(self)@.path.push(SpecLirKind::Assume(constraint@)));
    }

    /// Introduces the symbol `name` without any constraint.
    pub fn add_random_var(&mut self, ty: Ty, name: String)
        ensures
            final(self)@ == old(self)@.with_random_var(ty, name@),
    {
        self.vars.push((ty, name));
        assert(final(self)@.vars =~= old(self)@.vars.push((ty, name@)));
    }

    /// The record of `var`, where it has one.
    pub fn lookup(&self, var: LocalVarId) -> (found: Option<&Lir>)
        ensures
            found is Some <==> self@.env_map.contains_key(var),
            found matches Some(lir) ==> lir@ == self@.env_map[var],
    {
        broadcast use vstd::std_specs::hash::group_hash_axioms;

        self.env_map.get(&var.0)
    }

    /// Makes `lir` the record of `var`.
    fn bind(&mut self, var: LocalVarId, lir: Lir)
        ensures
            final(self)@ == (SpecEnv { env_map: old(self)@.env_map.insert(var, lir@), ..old(self)@ }),
            final(self).name == old(self).name,
            final(self).path == old(self).path,
            final(self).vars == old(self).vars,
    {
        broadcast use vstd::std_specs::hash::group_hash_axioms;

        proof {
            lemma_bindings_insert(self.env_map@, var, lir);
        }
        self.env_map.insert(var.0, lir);
    }

    /// Declares the symbol `name` for the variable `var_id`, which stands
    /// for that symbol until a value is assigned to it.
    pub fn add_param(&mut self, name: String, ty: Ty, var_id: LocalVarId)
        ensures
            final(self)@ == old(self)@.with_param(name@, ty, var_id),
    {
        let symbol = Term::symbol(name.clone());
        let lir = Lir::new_param(name.clone(), ty, symbol);
        self.path.push(LirKind::Declaration { name, ty });
        assert(path_view(self.path@) =~= old(self)@.path.push(
            SpecLirKind::Declaration { name: name@, ty },
        ));
        self.bind(var_id, lir);
    }

    /// Makes `constraint` the term of `var_id`. Fails where the variable has no record.
    pub fn assign_value(&mut self, var_id: LocalVarId, constraint: Term) -> (res: Result<
        (),
        AnalysisError,
    >)
        ensures
            res is Ok <==> old(self)@.env_map.contains_key(var_id),
            res is Ok ==> final(self)@ == old(self)@.with_value(var_id, constraint@),
            res matches Err(e) ==> e@ == ErrorKind::UnboundVariable(var_id) && final(self)@ == old(
                self,
            )@,
    {
        let lir = match self.lookup(var_id) {
            Some(lir) => Lir::new_param(lir.name.clone(), lir.ty, constraint),
            None => {
                return Err(AnalysisError::UnboundVariable(var_id));
            },
        };
        self.bind(var_id, lir);
        assert(self@.env_map =~= old(self)@.with_value(var_id, constraint@).env_map);
        Ok(())
    }

    /// Whether the environment declares a symbol of this name, as an
    /// unconstrained symbol or on its path.
    pub fn is_used(&self, name: &String) -> (used: bool)
        ensures
            used == self@.uses(name@),
    {
        let mut i: usize = 0;
        while i < self.vars.len()
            invariant
                i <= self.vars.len(),
                forall|j: int| 0 <= j < i ==> self@.symbols()[j] != Some(name@),
            decreases self.vars.len() - i,
        {
            if self.vars[i].1 == *name {
                assert(self@.symbols()[i as int] == Some(name@));
                return true;
            }
            i += 1;
        }
        let mut k: usize = 0;
        while k < self.path.len()
            invariant
                k <= self.path.len(),
                forall|j: int| 0 <= j < self.vars@.len() + k ==> self@.symbols()[j] != Some(name@),
            decreases self.path.len() - k,
        {
            match &self.path[k] {
                LirKind::Declaration { name: declared, .. } => {
                    if *declared == *name {
                        assert(self@.symbols()[self.vars@.len() + k] == Some(name@));
                        return true;
                    }
                },
                LirKind::Assume(_) => {},
            }
            k += 1;
        }
        false
    }

    /// Whether the environment declares a symbol of this name beyond its
    /// first `vars_from` unconstrained symbols and its first `path_from`
    /// fragments.
    pub fn adds(&self, vars_from: usize, path_from: usize, name: &String) -> (found: bool)
        ensures
            found == self@.adds(vars_from as nat, path_from as nat, name@),
    {
        let mut i: usize = vars_from;
        while i < self.vars.len()
            invariant
                vars_from <= i,
                forall|j: int| vars_from <= j < i && j < self.vars@.len() ==> (#[trigger] self@.vars[j]).1 != name@,
            decreases self.vars.len() - i,
        {
            if self.vars[i].1 == *name {
                assert(self@.vars[i as int].1 == name@);
                return true;
            }
            i += 1;
        }
        let mut k: usize = path_from;
        while k < self.path.len()
            invariant
                path_from <= k,
                forall|j: int| vars_from <= j < self.vars@.len() ==> (#[trigger] self@.vars[j]).1 != name@,
                forall|j: int|
                    path_from <= j < k && j < self.path@.len() ==> !(#[trigger] self@.path[j]).declares(name@),
            decreases self.path.len() - k,
        {
            match &self.path[k] {
                LirKind::Declaration { name: declared, .. } => {
                    if *declared == *name {
                        assert(self@.path[k as int].declares(name@));
                        return true;
                    }
                },
                LirKind::Assume(_) => {},
            }
            k += 1;
        }
        false
    }

    /// Whether two branches of a conditional, copied from this environment,
    /// both declared a symbol of the same name.
    pub fn clashes(&self, then_env: &Env, else_env: &Env) -> (found: bool)
        ensures
            found == self@.clashes(then_env@, Some(else_env@)),
    {
        let vars_from = self.vars.len();
        let path_from = self.path.len();
        let mut i: usize = vars_from;
        while i < else_env.vars.len()
            invariant
                vars_from == self@.vars.len(),
                path_from == self@.path.len(),
                vars_from <= i,
                forall|j: int|
                    vars_from <= j < i && j < else_env@.vars.len() ==> !then_env@.adds(
                        vars_from as nat,
                        path_from as nat,
                        (#[trigger] else_env@.vars[j]).1,
                    ),
            decreases else_env.vars.len() - i,
        {
            if then_env.adds(vars_from, path_from, &else_env.vars[i].1) {
                assert(else_env@.adds(vars_from as nat, path_from as nat, else_env@.vars[i as int].1));
                return true;
            }
            i += 1;
        }
        let mut k: usize = path_from;
        while k < else_env.path.len()
            invariant
                vars_from == self@.vars.len(),
                path_from == self@.path.len(),
                path_from <= k,
                forall|j: int|
                    vars_from <= j < else_env@.vars.len() ==> !then_env@.adds(
                        vars_from as nat,
                        path_from as nat,
                        (#[trigger] else_env@.vars[j]).1,
                    ),
                forall|j: int, name: Seq<char>|
                    path_from <= j < k && j < else_env@.path.len() && (#[trigger] else_env@.path[j]).declares(name)
                        ==> !#[trigger] then_env@.adds(vars_from as nat, path_from as nat, name),
            decreases else_env.path.len() - k,
        {
            match &else_env.path[k] {
                LirKind::Declaration { name, .. } => {
                    if then_env.adds(vars_from, path_from, name) {
                        assert(else_env@.path[k as int].declares(name@));
                        assert(else_env@.adds(vars_from as nat, path_from as nat, name@));
                        return true;
                    }
                },
                LirKind::Assume(_) => {},
            }
            k += 1;
        }
        false
    }

    /// The name of a fresh symbol derived from `base`: the base, an
    /// underscore and the least number that gives a name new to the
    /// environment.
    #[verifier::loop_isolation(false)]
    pub fn fresh_symbol(&self, base: &str) -> (name: String)
        ensures
            name@ == self@.fresh_symbol(base@),
            !self@.uses(name@),
            self@.is_new(name@),
    {
        proof {
            lemma_fresh_symbol_is_new(self@, base@);
            lemma_new_is_unused(self@, self@.fresh_symbol(base@));
            reveal_strlit("_");
            assert("_"@ =~= seq!['_']);
        }
        let ghost whole = self@.first_unused(base@, 0, self@.vars.len() + self@.path.len());
        let mut left: u128 = self.vars.len() as u128 + self.path.len() as u128;
        let mut n: u128 = 0;
        while left > 0
            invariant
                n + left == self.vars@.len() + self.path@.len(),
                whole == self@.first_unused(base@, n as nat, left as nat),
            decreases left,
        {
            let mut candidate = String::from_str(base);
            candidate.append("_");
            push_decimal(&mut candidate, n);
            if !self.is_used(&candidate) {
                return candidate;
            }
            n += 1;
            left -= 1;
        }
        let mut name = String::from_str(base);
        name.append("_");
        push_decimal(&mut name, n);
        name
    }

    /// The base of the names of the symbols that the scope derives for `span`.
    pub fn symbol_base(&self, tag: &str, span: &Span) -> (base: String)
        ensures
            base@ == self@.symbol_base(tag@, span_name(*span)),
    {
        let mut base = self.name.clone();
        let span_str = Analyzer::get_name_from_span(span);
        proof {
            reveal_strlit("_");
            assert("_"@ =~= seq!['_']);
        }
        base.append("_");
        base.append(tag);
        base.append(span_str.as_str());
        assert(base@ =~= self@.symbol_base(tag@, span_name(*span)));
        base
    }

    /// The name of a scope of kind `name` that opens at `span`.
    pub fn get_unique_name(&self, name: &str, span: &Span) -> (unique: String)
        ensures
            unique@ == SpecEnv::unique_name(name@, span_name(*span)),
    {
        let mut unique = String::from_str(name);
        let span_str = Analyzer::get_name_from_span(span);
        proof {
            reveal_strlit("_");
            assert("_"@ =~= seq!['_']);
        }
        unique.append("_");
        unique.append(span_str.as_str());
        unique
    }

    /// A copy of the environment for a scope of kind `name` that opens at `span`.
    pub fn new_env_from_str(&self, name: &str, span: &Span) -> (res: Result<Env, AnalysisError>)
        ensures
            res matches Ok(env) && env@ == self@.renamed(
                SpecEnv::unique_name(name@, span_name(*span)),
            ),
    {
        let name = self.get_unique_name(name, span);
        Ok(Env::from(name, clone_path(&self.path), clone_entries(&self.env_map), clone_vars(&self.vars)))
    }

    /// The declaration of an unconstrained symbol as a solver command.
    pub fn var_to_smt(&self, var: &(Ty, String)) -> (res: Result<String, AnalysisError>)
        ensures
            res is Ok <==> has_sort(var.0),
            res matches Ok(text) ==> text@ == declaration_line(var.1@, var.0),
            res matches Err(e) ==> e@ is Unsupported,
    {
        let mut out = String::new();
        match push_declaration(&mut out, var.1.as_str(), var.0) {
            Ok(()) => {
                assert(Seq::<char>::empty() + declaration_line(var.1@, var.0) =~= declaration_line(
                    var.1@,
                    var.0,
                ));
                Ok(out)
            },
            Err(e) => Err(e),
        }
    }

    /// A fragment of the path as a solver command.
    pub fn path_to_smt(&self, path: &LirKind) -> (res: Result<String, AnalysisError>)
        ensures
            res is Ok <==> path@.renderable(),
            res matches Ok(text) ==> text@ == path@.text(),
            res matches Err(e) ==> e@ is Unsupported,
    {
        path.to_smt()
    }

    /// The commands of the environment joined by line ends, and whether
    /// there is any. Fails where a declaration has no sort.
    fn write_commands(&self) -> (res: Result<(String, bool), AnalysisError>)
        ensures
            res is Ok <==> self@.renderable(),
            res matches Ok(written) ==> written.0@ == self@.commands() && written.1 == (
            self@.command_lines().len() > 0),
            res matches Err(e) ==> e@ is Unsupported,
    {
        let mut out = String::new();
        let mut any = false;
        let ghost mut lines: Seq<Seq<char>> = Seq::empty();
        let mut i: usize = 0;
        assert(self@.vars.take(0) =~= Seq::empty());
        while i < self.vars.len()
            invariant
                i <= self.vars.len(),
                out@ == joined(lines),
                any == (lines.len() > 0),
                lines == vars_lines(self@.vars.take(i as int)),
                forall|j: int| 0 <= j < i ==> has_sort(#[trigger] self@.vars[j].0),
            decreases self.vars.len() - i,
        {
            proof {
                lemma_vars_lines_push(self@.vars.take(i as int), self@.vars[i as int]);
                assert(self@.vars.take(i + 1) =~= self@.vars.take(i as int).push(self@.vars[i as int]));
            }
            begin_line(&mut out, Ghost(lines), any);
            match push_declaration(&mut out, self.vars[i].1.as_str(), self.vars[i].0) {
                Ok(()) => {},
                Err(e) => {
                    assert(!has_sort(self@.vars[i as int].0));
                    return Err(e);
                },
            }
            proof {
                lines = lines.push(declaration_line(self@.vars[i as int].1, self@.vars[i as int].0));
            }
            any = true;
            i += 1;
        }
        assert(self@.vars.take(i as int) =~= self@.vars);
        let ghost vars_done = lines;
        let mut k: usize = 0;
        assert(self@.path.take(0) =~= Seq::empty());
        assert(vars_done + Seq::<Seq<char>>::empty() =~= vars_done);
        while k < self.path.len()
            invariant
                k <= self.path.len(),
                out@ == joined(lines),
                any == (lines.len() > 0),
                lines == vars_done + declarations_lines(self@.path.take(k as int)),
                forall|j: int| 0 <= j < k ==> (#[trigger] self@.path[j]).renderable(),
            decreases self.path.len() - k,
        {
            proof {
                lemma_declarations_lines_push(self@.path.take(k as int), self@.path[k as int]);
                assert(self@.path.take(k + 1) =~= self@.path.take(k as int).push(self@.path[k as int]));
            }
            match &self.path[k] {
                LirKind::Declaration { name, ty } => {
                    begin_line(&mut out, Ghost(lines), any);
                    match push_declaration(&mut out, name.as_str(), *ty) {
                        Ok(()) => {},
                        Err(e) => {
                            assert(!self@.path[k as int].renderable());
                            return Err(e);
                        },
                    }
                    proof {
                        assert(vars_done + declarations_lines(self@.path.take(k as int)).push(
                            self@.path[k as int].text(),
                        ) =~= lines.push(self@.path[k as int].text()));
                        lines = lines.push(self@.path[k as int].text());
                    }
                    any = true;
                },
                LirKind::Assume(_) => {},
            }
            k += 1;
        }
        assert(self@.path.take(k as int) =~= self@.path);
        let ghost decls_done = lines;
        let mut m: usize = 0;
        assert(decls_done + Seq::<Seq<char>>::empty() =~= decls_done);
        while m < self.path.len()
            invariant
                m <= self.path.len(),
                out@ == joined(lines),
                any == (lines.len() > 0),
                lines == decls_done + assumptions_lines(self@.path.take(m as int)),
            decreases self.path.len() - m,
        {
            proof {
                lemma_assumptions_lines_push(self@.path.take(m as int), self@.path[m as int]);
                assert(self@.path.take(m + 1) =~= self@.path.take(m as int).push(self@.path[m as int]));
            }
            match &self.path[m] {
                LirKind::Declaration { .. } => {},
                LirKind::Assume(formula) => {
                    begin_line(&mut out, Ghost(lines), any);
                    push_assertion(&mut out, formula);
                    proof {
                        assert(decls_done + assumptions_lines(self@.path.take(m as int)).push(
                            self@.path[m as int].text(),
                        ) =~= lines.push(self@.path[m as int].text()));
                        lines = lines.push(self@.path[m as int].text());
                    }
                    any = true;
                },
            }
            m += 1;
        }
        assert(self@.path.take(m as int) =~= self@.path);
        assert(lines =~= self@.command_lines());
        Ok((out, any))
    }

    /// The environment as solver commands, joined by line ends. Fails where
    /// a declaration has no sort.
    pub fn get_smt_commands(&self) -> (res: Result<String, AnalysisError>)
        ensures
            res is Ok <==> self@.renderable(),
            res matches Ok(text) ==> text@ == self@.commands(),
            res matches Err(e) ==> e@ is Unsupported,
    {
        match self.write_commands() {
            Ok(written) => Ok(written.0),
            Err(e) => Err(e),
        }
    }

    /// Poses `goal` to the solver: the script that asks whether the goal
    /// follows from the path is put at the end of `queries`. Fails, and
    /// leaves `queries` as it is, where a declaration has no sort.
    pub fn verify_z3(&self, goal: &Term, queries: &mut Vec<String>) -> (res: Result<(), AnalysisError>)
        ensures
            res is Ok <==> self@.renderable(),
            res is Ok ==> strings_view(final(queries)@) == strings_view(old(queries)@).push(
                self@.query(goal@),
            ),
            res matches Err(e) ==> e@ is Unsupported && final(queries)@ == old(queries)@,
    {
        let (mut script, any) = match self.write_commands() {
            Ok(written) => written,
            Err(e) => {
                return Err(e);
            },
        };
        let ghost lines = self@.command_lines();
        begin_line(&mut script, Ghost(lines), any);
        push_assertion(&mut script, &Term::not(goal.clone()));
        proof {
            reveal_strlit("\n(check-sat)\n");
            reveal_strlit("(check-sat)");
            lemma_joined_push(lines.push(assertion_line(goal@.negated())), "(check-sat)"@);
            assert("\n(check-sat)\n"@ =~= seq!['\n'] + "(check-sat)"@ + seq!['\n']);
        }
        script.append("\n(check-sat)\n");
        assert(script@ =~= self@.query(goal@));
        queries.push(script);
        assert(strings_view(queries@) =~= strings_view(old(queries)@).push(self@.query(goal@)));
        Ok(())
    }

    /// Guards by `cond` every fragment that the environment has beyond `path`,
    /// the path of the scope it was copied from.
    pub fn adapt_cond(&mut self, cond: &Term, path: &Vec<LirKind>)
        ensures
            final(self)@ == old(self)@.adapted(cond@, path@.len()),
    {
        let from = path.len();
        let mut i: usize = from;
        while i < self.path.len()
            invariant
                from <= i,
                from == path@.len(),
                self.path@.len() == old(self).path@.len(),
                self.name == old(self).name,
                self.vars == old(self).vars,
                self.env_map == old(self).env_map,
                forall|j: int|
                    0 <= j < self.path@.len() ==> (#[trigger] self.path@[j])@ == (if from <= j < i {
                        old(self).path@[j]@.guarded(cond@)
                    } else {
                        old(self).path@[j]@
                    }),
            decreases self.path.len() - i,
        {
            let fragment = self.path[i].clone();
            self.path.set(i, fragment.adopt_assume(SmtBinOp::Or, Term::not(cond.clone())));
            i += 1;
        }
        assert(self@.path =~= old(self)@.adapted(cond@, path@.len()).path);
    }

    /// Merges the records after a conditional on `cond` whose branches ended
    /// in `then_env` and `else_env`.
    pub fn merge_env(&mut self, cond: &Term, then_env: &Env, else_env: Option<&Env>)
        ensures
            final(self)@ == old(self)@.merged(cond@, then_env@, option_ref_view(else_env)),
            final(self).name == old(self).name,
            final(self).path == old(self).path,
            final(self).vars == old(self).vars,
    {
        broadcast use {axiom_spec_hash_map_iter, vstd::std_specs::hash::group_hash_axioms};

        let ghost parent = bindings(self.env_map@);
        let ghost else_map = bindings_of(option_ref_view(else_env));
        let mut merged: HashMap<u64, Lir> = HashMap::new();
        for entry in it: self.env_map.iter()
            invariant
                *self == *old(self),
                parent == bindings(self.env_map@),
                else_map == bindings_of(option_ref_view(else_env)),
                it.seq() == spec_hash_map_iter(&self.env_map).remaining(),
                forall|k: u64| #[trigger]
                    merged@.contains_key(k) ==> self.env_map@.contains_key(k) && merged@[k]@ == merged_binding(
                        LocalVarId(k),
                        parent,
                        cond@,
                        then_env@.env_map,
                        else_map,
                    ),
                forall|j: int| 0 <= j < it.index() ==> merged@.contains_key(*(#[trigger] it.seq()[j]).0),
        {
            let ghost all = spec_hash_map_iter(&self.env_map).remaining();
            assert(entry == it.seq()[it.index() as int]);
            assert(self.env_map@.contains_key(*all[it.index() as int].0) && self.env_map@[*all[it.index() as int].0]
                == *all[it.index() as int].1);
            let key = *entry.0;
            let own = entry.1;
            let var = LocalVarId(key);
            let then_lir = then_env.lookup(var);
            let lir = match else_env {
                Some(else_env) => match (then_lir, else_env.lookup(var)) {
                    (Some(then_lir), Some(else_lir)) => Lir::new_param(
                        own.name.clone(),
                        own.ty,
                        Term::ite(cond.clone(), then_lir.term.clone(), else_lir.term.clone()),
                    ),
                    _ => own.clone(),
                },
                None => match then_lir {
                    Some(then_lir) => Lir::new_param(
                        own.name.clone(),
                        own.ty,
                        Term::ite(cond.clone(), then_lir.term.clone(), own.term.clone()),
                    ),
                    None => own.clone(),
                },
            };
            assert(lir@ == merged_binding(var, parent, cond@, then_env@.env_map, else_map));
            merged.insert(key, lir);
        }
        assert forall|k: u64| self.env_map@.contains_key(k) implies merged@.contains_key(k) by {
            let all = spec_hash_map_iter(&self.env_map).remaining();
            assert(all.contains((&k, &self.env_map@[k])));
            let j = choose|j: int| 0 <= j < all.len() && all[j] == (&k, &self.env_map@[k]);
            assert(merged@.contains_key(*all[j].0));
        }
        self.env_map = merged;
        assert(self@.env_map =~= old(self)@.merged(cond@, then_env@, option_ref_view(else_env)).env_map);
    }

    /// Merges the branches of a conditional on `cond` back into the
    /// environment that they were copied from, unless both branches declared
    /// a symbol of the same name: the records are merged, and
    /// what each branch added to the path and to the unconstrained symbols
    /// is taken over, the fragments of the then branch guarded by `cond`, those
    /// of the else branch by `(not cond)`.
    pub fn merge_ite_env(&mut self, cond: &Term, then_env: Env, else_env: Option<Env>) -> (res: Result<
        (),
        AnalysisError,
    >)
        ensures
            res is Ok <==> !old(self)@.clashes(then_env@, option_view(else_env)),
            res is Ok ==> final(self)@ == old(self)@.merged_ite(cond@, then_env@, option_view(else_env)),
            res matches Err(e) ==> e@ is Unsupported && final(self)@ == old(self)@,
    {
        match &else_env {
            Some(else_env) => {
                if self.clashes(&then_env, else_env) {
                    return Err(
                        AnalysisError::Unsupported(String::from_str("The branches declare the same symbol")),
                    );
                }
            },
            None => {},
        }
        let mut then_env = then_env;
        then_env.adapt_cond(cond, &self.path);
        let else_env = match else_env {
            Some(else_env) => {
                let mut else_env = else_env;
                else_env.adapt_cond(&Term::not(cond.clone()), &self.path);
                Some(else_env)
            },
            None => None,
        };
        let path_len = self.path.len();
        let vars_len = self.vars.len();
        match &else_env {
            Some(else_env) => {
                self.merge_env(cond, &then_env, Some(else_env));
            },
            None => {
                self.merge_env(cond, &then_env, None);
            },
        }
        append_path_tail(&mut self.path, &then_env.path, path_len);
        append_vars_tail(&mut self.vars, &then_env.vars, vars_len);
        match &else_env {
            Some(else_env) => {
                append_path_tail(&mut self.path, &else_env.path, path_len);
                append_vars_tail(&mut self.vars, &else_env.vars, vars_len);
            },
            None => {
                assert(self@.path + Seq::<SpecLirKind>::empty() =~= self@.path);
                assert(self@.vars + Seq::<(Ty, Seq<char>)>::empty() =~= self@.vars);
            },
        }
        Ok(())
    }
}

} // verus!
