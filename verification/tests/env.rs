use rust_verifier::analyze::env::Env;
use rust_verifier::analyze::flow::AnalysisError;
use rust_verifier::analyze::lir::{Lir, LirKind};
use rust_verifier::analyze::term::{SmtBinOp, Term};
use rust_verifier::thir::rthir::{LocalVarId, Span, Ty};
use std::collections::HashMap;

fn sym(name: &str) -> Term {
    Term::symbol(name.to_string())
}

fn num(value: u128) -> Term {
    Term::Int { value, neg: false }
}

fn at(text: &str) -> Span {
    Span::new(text.to_string())
}

fn term_of(env: &Env, id: u64) -> String {
    env.lookup(LocalVarId(id)).expect("bound").get_assume().to_smt()
}

#[test]
fn new_environment_is_empty_and_named_main() {
    let env = Env::new();
    assert_eq!(env.name, "main");
    assert_eq!(env.len(), 0);
    assert!(env.vars.is_empty());
    assert!(env.lookup(LocalVarId(0)).is_none());
    assert_eq!(env.get_smt_commands().unwrap(), "");
}

#[test]
fn declared_variable_stands_for_its_symbol() {
    let mut env = Env::new();
    env.add_param("x".to_string(), Ty::Int, LocalVarId(1));
    assert_eq!(env.len(), 1);
    let lir = env.lookup(LocalVarId(1)).unwrap();
    assert_eq!(lir.name, "x");
    assert_eq!(lir.ty, Ty::Int);
    assert_eq!(term_of(&env, 1), "x");
    assert_eq!(env.get_smt_commands().unwrap(), "(declare-const x Int)");
}

#[test]
fn assignment_replaces_the_term_and_keeps_the_declaration() {
    let mut env = Env::new();
    env.add_param("x".to_string(), Ty::Int, LocalVarId(1));
    env.add_param("y".to_string(), Ty::Bool, LocalVarId(2));
    assert!(env.assign_value(LocalVarId(1), num(7)).is_ok());
    assert_eq!(term_of(&env, 1), "7");
    assert_eq!(term_of(&env, 2), "y");
    assert!(env.assign_value(LocalVarId(1), num(8)).is_ok());
    assert_eq!(term_of(&env, 1), "8");
    assert_eq!(env.lookup(LocalVarId(1)).unwrap().name, "x");
    assert_eq!(env.env_map.len(), 2);
}

#[test]
fn assignment_to_unknown_variable_fails() {
    let mut env = Env::new();
    match env.assign_value(LocalVarId(3), num(1)) {
        Err(AnalysisError::UnboundVariable(id)) => assert_eq!(id, LocalVarId(3)),
        _ => panic!("expected UnboundVariable"),
    }
    assert!(env.env_map.is_empty());
}

#[test]
fn redeclaration_overrides() {
    let mut env = Env::new();
    env.add_param("x".to_string(), Ty::Int, LocalVarId(1));
    env.assign_value(LocalVarId(1), num(7)).unwrap();
    env.add_param("x2".to_string(), Ty::Bool, LocalVarId(1));
    let lir = env.lookup(LocalVarId(1)).unwrap();
    assert_eq!(lir.name, "x2");
    assert_eq!(lir.ty, Ty::Bool);
    assert_eq!(term_of(&env, 1), "x2");
}

#[test]
fn environment_made_of_its_parts() {
    let mut records = HashMap::new();
    records.insert(1, Lir::new_param("a".to_string(), Ty::Int, num(1)));
    records.insert(2, Lir::new_param("b".to_string(), Ty::Bool, sym("t")));
    let env = Env::from("s".to_string(), Vec::new(), records, vec![(Ty::Int, "r".to_string())]);
    assert_eq!(env.name, "s");
    assert_eq!(term_of(&env, 1), "1");
    assert_eq!(term_of(&env, 2), "t");
    assert!(env.lookup(LocalVarId(3)).is_none());
    assert_eq!(env.get_smt_commands().unwrap(), "(declare-const r Int)");
}

#[test]
fn used_names_are_those_of_symbols_and_declarations() {
    let mut env = Env::new();
    env.add_random_var(Ty::Int, "r".to_string());
    env.add_param("x".to_string(), Ty::Int, LocalVarId(1));
    env.add_smt_command(sym("p"));
    assert!(env.is_used(&"r".to_string()));
    assert!(env.is_used(&"x".to_string()));
    // a name that only an assumption mentions, or a record, is not declared
    assert!(!env.is_used(&"p".to_string()));
    assert!(!env.is_used(&"".to_string()));
    env.assign_value(LocalVarId(1), sym("q")).unwrap();
    assert!(!env.is_used(&"q".to_string()));
}

#[test]
fn fresh_symbol_takes_the_least_unused_number() {
    let mut env = Env::new();
    assert_eq!(env.fresh_symbol("b"), "b_0");
    env.add_random_var(Ty::Int, "b_0".to_string());
    assert_eq!(env.fresh_symbol("b"), "b_1");
    env.add_param("b_1".to_string(), Ty::Int, LocalVarId(1));
    env.add_param("b_3".to_string(), Ty::Int, LocalVarId(2));
    assert_eq!(env.fresh_symbol("b"), "b_2");
    env.add_random_var(Ty::Int, "b_2".to_string());
    assert_eq!(env.fresh_symbol("b"), "b_4");
    assert_eq!(env.fresh_symbol("c"), "c_0");
    assert_eq!(env.fresh_symbol(""), "_0");
    // the search goes past ten
    for n in 4..12 {
        env.add_random_var(Ty::Int, format!("b_{}", n));
    }
    assert_eq!(env.fresh_symbol("b"), "b_12");
}

#[test]
fn symbol_base_is_scope_tag_and_location() {
    let env = Env::new();
    assert_eq!(env.symbol_base("", &at("m.rs:1:2")), "main_m_rs_1_2");
    assert_eq!(env.symbol_base("rand_", &at("m.rs:1:2")), "main_rand_m_rs_1_2");
    let child = env.new_env_from_str("then", &at("t")).unwrap();
    assert_eq!(child.symbol_base("drop_", &at("d")), "then_t_drop_d");
}

#[test]
fn commands_list_symbols_then_declarations_then_assumptions() {
    let mut env = Env::new();
    env.add_smt_command(Term::binary(SmtBinOp::Gt, sym("r"), num(0)));
    env.add_param("x".to_string(), Ty::Int, LocalVarId(1));
    env.add_random_var(Ty::Float, "r".to_string());
    env.add_smt_command(Term::binary(SmtBinOp::Eq, sym("x"), sym("r")));
    env.add_param("b".to_string(), Ty::Bool, LocalVarId(2));
    assert_eq!(
        env.get_smt_commands().unwrap(),
        "(declare-const r Real)\n\
         (declare-const x Int)\n(declare-const b Bool)\n\
         (assert (> r 0))\n(assert (= x r))"
    );
}

#[test]
fn unsupported_sort_stops_rendering() {
    let mut env = Env::new();
    env.add_param("s".to_string(), Ty::Other, LocalVarId(1));
    assert!(matches!(env.get_smt_commands(), Err(AnalysisError::Unsupported(_))));
    let mut env = Env::new();
    env.add_random_var(Ty::Other, "r".to_string());
    assert!(matches!(env.get_smt_commands(), Err(AnalysisError::Unsupported(_))));
    let mut queries = vec!["kept".to_string()];
    assert!(matches!(env.verify_z3(&num(1), &mut queries), Err(AnalysisError::Unsupported(_))));
    assert_eq!(queries, vec!["kept".to_string()]);
}

#[test]
fn fragments_and_symbols_render_one_by_one() {
    let env = Env::new();
    assert_eq!(env.var_to_smt(&(Ty::Bool, "b".to_string())).unwrap(), "(declare-const b Bool)");
    assert_eq!(env.var_to_smt(&(Ty::Int, "i".to_string())).unwrap(), "(declare-const i Int)");
    assert_eq!(env.var_to_smt(&(Ty::Float, "f".to_string())).unwrap(), "(declare-const f Real)");
    assert!(matches!(env.var_to_smt(&(Ty::Other, "o".to_string())), Err(AnalysisError::Unsupported(_))));
    assert_eq!(env.path_to_smt(&LirKind::Assume(sym("p"))).unwrap(), "(assert p)");
    let declaration = LirKind::Declaration { name: "d".to_string(), ty: Ty::Int };
    assert_eq!(env.path_to_smt(&declaration).unwrap(), "(declare-const d Int)");
    assert_eq!(declaration.to_smt().unwrap(), "(declare-const d Int)");
    let other = LirKind::Declaration { name: "d".to_string(), ty: Ty::Other };
    assert!(matches!(other.to_smt(), Err(AnalysisError::Unsupported(_))));
}

#[test]
fn query_negates_the_goal_and_asks() {
    let mut env = Env::new();
    env.add_smt_command(sym("p"));
    let mut queries = Vec::new();
    env.verify_z3(&sym("q"), &mut queries).unwrap();
    assert_eq!(queries, vec!["(assert p)\n(assert (not q))\n(check-sat)\n".to_string()]);
    // posing a goal changes nothing in the environment
    assert_eq!(env.len(), 1);
}

#[test]
fn scope_names_are_kind_and_location() {
    let env = Env::new();
    assert_eq!(env.get_unique_name("then", &at("src/main.rs:3:5: 3:9 (#0)")), "then_src_main_rs_3_5__3_9___0_");
    assert_eq!(env.get_unique_name("else", &at("a")), "else_a");
}

#[test]
fn scopes_at_different_locations_have_different_names() {
    let env = Env::new();
    let names = vec![
        env.get_unique_name("then", &at("m.rs:1:1")),
        env.get_unique_name("then", &at("m.rs:2:1")),
        env.get_unique_name("else", &at("m.rs:1:1")),
        env.get_unique_name("loop", &at("m.rs:1:1")),
        env.get_unique_name("inner_loop", &at("m.rs:1:1")),
        env.get_unique_name("inner_loop", &at("m.rs:1:2")),
    ];
    for i in 0..names.len() {
        for j in 0..names.len() {
            assert_eq!(i == j, names[i] == names[j]);
        }
    }
}

#[test]
fn child_environment_is_a_renamed_copy() {
    let mut env = Env::new();
    env.add_param("x".to_string(), Ty::Int, LocalVarId(1));
    env.add_random_var(Ty::Int, "r".to_string());
    let mut child = env.new_env_from_str("then", &at("l:1")).unwrap();
    assert_eq!(child.name, "then_l_1");
    assert_eq!(child.len(), 1);
    assert_eq!(child.vars, env.vars);
    assert_eq!(term_of(&child, 1), "x");
    child.assign_value(LocalVarId(1), num(1)).unwrap();
    child.add_smt_command(sym("p"));
    // the copy is independent
    assert_eq!(term_of(&env, 1), "x");
    assert_eq!(env.len(), 1);
    let copy = child.clone();
    assert_eq!(copy.name, child.name);
    assert_eq!(copy.get_smt_commands().unwrap(), child.get_smt_commands().unwrap());
    assert_eq!(term_of(&copy, 1), "1");
}

#[test]
fn adapt_cond_guards_only_new_assumptions() {
    let mut parent = Env::new();
    parent.add_smt_command(sym("old"));
    let mut child = parent.new_env_from_str("then", &at("l")).unwrap();
    child.add_smt_command(sym("c"));
    child.add_param("x".to_string(), Ty::Int, LocalVarId(1));
    child.add_smt_command(sym("new"));
    child.adapt_cond(&sym("c"), &parent.path);
    assert_eq!(
        child.get_smt_commands().unwrap(),
        "(declare-const x Int)\n(assert old)\n(assert (or c (not c)))\n(assert (or new (not c)))"
    );
    // a path that is no longer than the parent's stays as it is
    let mut same = parent.clone();
    same.adapt_cond(&sym("c"), &child.path);
    assert_eq!(same.get_smt_commands().unwrap(), "(assert old)");
}

#[test]
fn adopt_assume_joins_formula_and_argument() {
    let fragment = LirKind::Assume(sym("f")).adopt_assume(SmtBinOp::And, sym("g"));
    assert_eq!(fragment.to_smt().unwrap(), "(assert (and f g))");
    let declaration = LirKind::Declaration { name: "d".to_string(), ty: Ty::Int }.adopt_assume(SmtBinOp::Or, sym("g"));
    assert_eq!(declaration.to_smt().unwrap(), "(declare-const d Int)");
}

fn branches() -> (Env, Env, Env) {
    let mut parent = Env::new();
    parent.add_param("x".to_string(), Ty::Int, LocalVarId(1));
    parent.add_param("y".to_string(), Ty::Int, LocalVarId(2));
    parent.assign_value(LocalVarId(1), num(1)).unwrap();
    let mut then_env = parent.new_env_from_str("then", &at("t")).unwrap();
    then_env.add_smt_command(sym("c"));
    then_env.assign_value(LocalVarId(1), num(2)).unwrap();
    then_env.add_random_var(Ty::Int, "rt".to_string());
    then_env.add_param("z".to_string(), Ty::Int, LocalVarId(3));
    let mut else_env = parent.new_env_from_str("else", &at("e")).unwrap();
    else_env.add_smt_command(Term::not(sym("c")));
    else_env.assign_value(LocalVarId(1), num(3)).unwrap();
    else_env.add_smt_command(sym("q"));
    else_env.add_random_var(Ty::Bool, "re".to_string());
    (parent, then_env, else_env)
}

#[test]
fn merge_env_builds_ite_terms() {
    let (mut parent, then_env, else_env) = branches();
    parent.merge_env(&sym("c"), &then_env, Some(&else_env));
    assert_eq!(term_of(&parent, 1), "(ite c 2 3)");
    assert_eq!(term_of(&parent, 2), "(ite c y y)");
    // a variable that only a branch declared does not reach the parent
    assert!(parent.lookup(LocalVarId(3)).is_none());
    assert_eq!(parent.lookup(LocalVarId(1)).unwrap().name, "x");
    // the path is untouched
    assert_eq!(parent.len(), 2);
}

#[test]
fn merge_env_without_else_uses_prior_term() {
    let (mut parent, then_env, _) = branches();
    parent.merge_env(&sym("c"), &then_env, None);
    assert_eq!(term_of(&parent, 1), "(ite c 2 1)");
    assert_eq!(term_of(&parent, 2), "(ite c y y)");
}

#[test]
fn merge_env_keeps_variable_that_a_branch_does_not_know() {
    let (mut parent, then_env, _) = branches();
    let stranger = Env::new();
    parent.merge_env(&sym("c"), &then_env, Some(&stranger));
    assert_eq!(term_of(&parent, 1), "1");
    assert_eq!(term_of(&parent, 2), "y");
}

#[test]
fn merge_ite_env_splices_guarded_fragments_in_order() {
    let (mut parent, then_env, else_env) = branches();
    parent.merge_ite_env(&sym("c"), then_env, Some(else_env)).unwrap();
    assert_eq!(
        parent.get_smt_commands().unwrap(),
        "(declare-const rt Int)\n(declare-const re Bool)\n\
         (declare-const x Int)\n(declare-const y Int)\n(declare-const z Int)\n\
         (assert (or c (not c)))\n\
         (assert (or (not c) (not (not c))))\n\
         (assert (or q (not (not c))))"
    );
    assert_eq!(term_of(&parent, 1), "(ite c 2 3)");
    assert_eq!(parent.name, "main");
}

#[test]
fn merge_ite_env_without_else() {
    let (mut parent, then_env, _) = branches();
    parent.merge_ite_env(&sym("c"), then_env, None).unwrap();
    assert_eq!(
        parent.get_smt_commands().unwrap(),
        "(declare-const rt Int)\n\
         (declare-const x Int)\n(declare-const y Int)\n(declare-const z Int)\n\
         (assert (or c (not c)))"
    );
    assert_eq!(term_of(&parent, 1), "(ite c 2 1)");
}

#[test]
fn lir_holds_and_changes_its_term() {
    let mut lir = Lir::new_param("x".to_string(), Ty::Int, num(1));
    assert_eq!(lir.get_assume().to_smt(), "1");
    lir.set_assume(num(2));
    assert_eq!(lir.get_assume().to_smt(), "2");
    assert_eq!(lir.name, "x");
    let copy = lir.clone();
    assert_eq!(copy.get_assume().to_smt(), "2");
    assert_eq!(copy.ty, Ty::Int);
}

#[test]
fn merge_refuses_branches_with_a_common_new_symbol() {
    let mut parent = Env::new();
    parent.add_random_var(Ty::Int, "old".to_string());
    let mut then_env = parent.new_env_from_str("then", &at("t")).unwrap();
    then_env.add_param("s".to_string(), Ty::Int, LocalVarId(1));
    let mut else_env = parent.new_env_from_str("else", &at("e")).unwrap();
    else_env.add_random_var(Ty::Int, "s".to_string());
    assert!(parent.clashes(&then_env, &else_env));
    assert!(then_env.adds(1, 0, &"s".to_string()));
    assert!(!then_env.adds(1, 0, &"old".to_string()));
    assert!(then_env.adds(0, 0, &"old".to_string()));
    assert!(matches!(
        parent.merge_ite_env(&sym("c"), then_env, Some(else_env)),
        Err(AnalysisError::Unsupported(_))
    ));
    // the environment stays as it was
    assert_eq!(parent.get_smt_commands().unwrap(), "(declare-const old Int)");
    let (mut parent, then_env, else_env) = branches();
    assert!(!parent.clashes(&then_env, &else_env));
    assert!(parent.merge_ite_env(&sym("c"), then_env, Some(else_env)).is_ok());
}
