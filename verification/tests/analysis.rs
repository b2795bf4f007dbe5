use rust_verifier::analyze::env::Env;
use rust_verifier::analyze::flow::{AnalysisError, AnalysisType};
use rust_verifier::analyze::term::Term;
use rust_verifier::analyze::oracle::{is_proved, Step};
use rust_verifier::analyze::{analyze, Analysis, Analyzer};
use rust_verifier::thir::rthir::{
    BinOp, DefId, Lit, LitKind, LocalDefId, LocalVarId, LogicalOp, RExpr, RExprKind, RParam, RPatKind, RThir, Span,
    Ty, UnOp,
};
use std::collections::HashMap;

const MAIN: LocalDefId = LocalDefId { local_def_index: 0 };

fn at(kind: RExprKind, text: &str) -> RExpr {
    RExpr::new(kind, Span::new(text.to_string()))
}

fn num(value: u128) -> RExpr {
    at(RExprKind::Literal { lit: Lit { node: LitKind::Int(value) }, neg: false }, "lit")
}

fn var(id: u64) -> RExpr {
    at(RExprKind::VarRef { id: LocalVarId(id) }, "var")
}

fn bin(op: BinOp, lhs: RExpr, rhs: RExpr) -> RExpr {
    at(RExprKind::Binary { op, lhs: Box::new(lhs), rhs: Box::new(rhs) }, "bin")
}

fn not(arg: RExpr) -> RExpr {
    at(RExprKind::Unary { op: UnOp::Not, arg: Box::new(arg) }, "not")
}

fn pattern(id: u64, ty: Ty, text: &str) -> RExpr {
    at(
        RExprKind::Pat {
            kind: RPatKind::Binding { var: LocalVarId(id), ty, subpattern: None, is_primary: true },
        },
        text,
    )
}

fn let_stmt(id: u64, ty: Ty, text: &str, init: Option<RExpr>) -> RExpr {
    at(
        RExprKind::LetStmt {
            pattern: Box::new(pattern(id, ty, text)),
            init: init.map(Box::new),
            else_block: None,
        },
        "let",
    )
}

fn intrinsic(name: &str, args: Vec<RExpr>, text: &str) -> RExpr {
    at(
        RExprKind::Call {
            ty: Ty::FnDef(DefId { krate: 20, index: 7 }),
            def_path: format!("verify_modules::{}", name),
            args,
        },
        text,
    )
}

fn local_call(index: u64, args: Vec<RExpr>) -> RExpr {
    at(
        RExprKind::Call { ty: Ty::FnDef(DefId { krate: 0, index }), def_path: format!("f{}", index), args },
        "call",
    )
}

fn assign(id: u64, rhs: RExpr) -> RExpr {
    at(RExprKind::Assign { lhs: Box::new(var(id)), rhs: Box::new(rhs) }, "assign")
}

fn block(stmts: Vec<RExpr>, last: Option<RExpr>, text: &str) -> RExpr {
    at(RExprKind::Block { stmts, expr: last.map(Box::new) }, text)
}

fn function(params: Vec<RParam>, body: RExpr) -> RThir {
    let mut rthir = RThir::new();
    rthir.set_params(params);
    rthir.set_body(Some(body));
    rthir
}

fn run_main(stmts: Vec<RExpr>) -> Analysis {
    let mut fn_map = HashMap::new();
    fn_map.insert(0, function(Vec::new(), block(stmts, None, "body")));
    analyze(MAIN, fn_map)
}

fn answers(outputs: &[&str]) -> Vec<String> {
    outputs.iter().map(|s| s.to_string()).collect()
}

fn failed(result: &Result<(), AnalysisError>) -> bool {
    matches!(result, Err(AnalysisError::VerificationFailed))
}

fn unsupported(result: &Result<(), AnalysisError>) -> bool {
    matches!(result, Err(AnalysisError::Unsupported(_)))
}

#[test]
fn let_and_assert_pose_one_query() {
    let analysis = run_main(vec![
        let_stmt(1, Ty::Int, "main.rs:2:9: 2:10", Some(num(5))),
        intrinsic("Vassert", vec![bin(BinOp::Gt, var(1), num(0))], "a"),
    ]);
    assert!(analysis.result.is_ok());
    assert_eq!(
        analysis.queries,
        vec![
            "(declare-const main_main_rs_2_9__2_10_0 Int)\n\
             (assert (= main_main_rs_2_9__2_10_0 5))\n\
             (assert (not (> 5 0)))\n\
             (check-sat)\n"
                .to_string()
        ]
    );
    assert!(analysis.conclude(&answers(&["unsat\n"])).is_ok());
    assert!(failed(&analysis.conclude(&answers(&["sat\n"]))));
}

#[test]
fn assertion_after_contrary_assumption_fails_when_the_solver_says_so() {
    // x is unconstrained; assert(x > 0); assume(!(x > 0)); assert(x > 0)
    let e = || bin(BinOp::Gt, var(1), num(0));
    let analysis = run_main(vec![
        let_stmt(1, Ty::Int, "x", Some(intrinsic("Vrand_int", vec![], "r"))),
        intrinsic("Vassert", vec![e()], "a1"),
        intrinsic("Vassume", vec![not(e())], "a2"),
        intrinsic("Vassert", vec![e()], "a3"),
    ]);
    assert!(analysis.result.is_ok());
    assert_eq!(analysis.queries.len(), 2);
    assert_eq!(
        analysis.queries[0],
        "(declare-const main_rand_x_0 Int)\n(declare-const main_x_0 Int)\n(assert (not (> main_rand_x_0 0)))\n(check-sat)\n"
    );
    assert_eq!(
        analysis.queries[1],
        "(declare-const main_rand_x_0 Int)\n(declare-const main_x_0 Int)\n\
         (assert (> main_rand_x_0 0))\n(assert (not (> main_rand_x_0 0)))\n\
         (assert (not (> main_rand_x_0 0)))\n(check-sat)\n"
    );
    assert!(failed(&analysis.conclude(&answers(&["unsat", "sat"]))));
    assert!(failed(&analysis.conclude(&answers(&["sat"]))));
}

fn counting_loop(bound: u128) -> Vec<RExpr> {
    // let x = rand_int(); assume(x == 0); invariant(x >= bound); loop { x = x + 1; }
    vec![
        let_stmt(1, Ty::Int, "x", Some(intrinsic("Vrand_int", vec![], "r"))),
        intrinsic("Vassume", vec![bin(BinOp::Eq, var(1), num(0))], "a"),
        intrinsic("Vinvariant", vec![bin(BinOp::Ge, var(1), num(bound))], "inv"),
        at(
            RExprKind::Loop {
                body: Box::new(block(vec![assign(1, bin(BinOp::Add, var(1), num(1)))], None, "b")),
            },
            "lp",
        ),
    ]
}

#[test]
fn loop_with_true_invariant_succeeds() {
    let analysis = run_main(counting_loop(0));
    assert!(analysis.result.is_ok());
    assert_eq!(analysis.queries.len(), 2);
    // base case: the invariant follows from what held before the loop
    assert_eq!(
        analysis.queries[0],
        "(declare-const main_rand_x_0 Int)\n(declare-const main_x_0 Int)\n\
         (assert (= main_rand_x_0 0))\n\
         (assert (not (>= main_rand_x_0 0)))\n(check-sat)\n"
    );
    // inductive step: the body keeps the invariant
    assert_eq!(
        analysis.queries[1],
        "(declare-const main_rand_x_0 Int)\n(declare-const main_x_0 Int)\n\
         (assert (= main_rand_x_0 0))\n(assert (>= main_rand_x_0 0))\n(assert (>= main_rand_x_0 0))\n\
         (assert (not (>= (+ main_rand_x_0 1) 0)))\n(check-sat)\n"
    );
    assert!(analysis.conclude(&answers(&["unsat", "unsat"])).is_ok());
}

#[test]
fn loop_with_false_base_case_fails() {
    let analysis = run_main(counting_loop(1));
    assert_eq!(analysis.queries.len(), 2);
    assert!(analysis.queries[0].ends_with("(assert (not (>= main_rand_x_0 1)))\n(check-sat)\n"));
    // 0 >= 1 is false: the solver finds the base case satisfiable
    assert!(failed(&analysis.conclude(&answers(&["sat"]))));
    match analysis.start() {
        Step::Ask(0) => {},
        _ => panic!("the base case is posed first"),
    }
    match analysis.answer(0, "sat") {
        Step::Done(result) => assert!(failed(&result)),
        Step::Ask(_) => panic!("a failed goal ends the analysis"),
    }
}

#[test]
fn loop_refreshes_what_the_body_assigns_and_the_invariant_does_not_read() {
    // let x = 0; let y = 0; invariant(x >= 0); loop { y = y + 1; }; assert(y == 0)
    let analysis = run_main(vec![
        let_stmt(1, Ty::Int, "x", Some(num(0))),
        let_stmt(2, Ty::Int, "y", Some(num(0))),
        intrinsic("Vinvariant", vec![bin(BinOp::Ge, var(1), num(0))], "inv"),
        at(
            RExprKind::Loop {
                body: Box::new(block(
                    vec![
                        assign(2, bin(BinOp::Add, var(2), num(1))),
                        intrinsic("Vassert", vec![bin(BinOp::Gt, var(2), num(0))], "in"),
                    ],
                    None,
                    "b",
                )),
            },
            "lp",
        ),
        intrinsic("Vassert", vec![bin(BinOp::Eq, var(2), num(0))], "after"),
    ]);
    assert!(analysis.result.is_ok());
    assert_eq!(analysis.queries.len(), 4);
    // inside the loop y stands for a fresh symbol, named after the scope
    assert!(analysis.queries[1].starts_with("(declare-const inner_loop_lp_main_y_0_0 Int)\n"));
    assert!(analysis.queries[1].ends_with("(assert (not (> (+ inner_loop_lp_main_y_0_0 1) 0)))\n(check-sat)\n"));
    // after the loop the environment is the one from before it
    assert!(!analysis.queries[3].contains("inner_loop"));
    assert!(analysis.queries[3].ends_with("(assert (not (= 0 0)))\n(check-sat)\n"));
}

#[test]
fn invariant_without_a_loop_is_an_assumption() {
    let analysis = run_main(vec![
        let_stmt(1, Ty::Int, "x", Some(intrinsic("Vrand_int", vec![], "r"))),
        intrinsic("Vinvariant", vec![bin(BinOp::Ge, var(1), num(0))], "inv"),
        assign(1, bin(BinOp::Add, var(1), num(1))),
        intrinsic("Vassert", vec![bin(BinOp::Gt, var(1), num(0))], "a"),
    ]);
    assert!(analysis.result.is_ok());
    assert_eq!(
        analysis.queries,
        vec![
            "(declare-const main_rand_x_0 Int)\n(declare-const main_x_0 Int)\n\
             (assert (>= main_rand_x_0 0))\n\
             (assert (not (> (+ main_rand_x_0 1) 0)))\n(check-sat)\n"
                .to_string()
        ]
    );
}

fn twice_called() -> Analysis {
    // fn f(p) { let q = rand_int(); drop(q); }  main: f(1); f(2); assert(..)
    let callee = function(
        vec![RParam::new(Some(pattern(10, Ty::Int, "p")))],
        block(
            vec![
                let_stmt(11, Ty::Int, "q", Some(intrinsic("Vrand_int", vec![], "r"))),
                intrinsic("Vdrop", vec![at(RExprKind::VarRef { id: LocalVarId(11) }, "d")], "c"),
            ],
            None,
            "f",
        ),
    );
    let main = function(
        Vec::new(),
        block(
            vec![
                local_call(1, vec![num(1)]),
                local_call(1, vec![num(2)]),
                intrinsic("Vassert", vec![bin(BinOp::Eq, var(10), num(2))], "a"),
            ],
            None,
            "body",
        ),
    );
    let mut fn_map = HashMap::new();
    fn_map.insert(0, main);
    fn_map.insert(1, callee);
    analyze(MAIN, fn_map)
}

#[test]
fn second_inlining_declares_new_symbols() {
    let analysis = twice_called();
    assert!(analysis.result.is_ok());
    assert_eq!(
        analysis.queries,
        vec![
            "(declare-const main_rand_q_0 Int)\n(declare-const main_drop_d_0 Int)\n\
             (declare-const main_rand_q_1 Int)\n(declare-const main_drop_d_1 Int)\n\
             (declare-const main_p_0 Int)\n(declare-const main_q_0 Int)\n\
             (declare-const main_p_1 Int)\n(declare-const main_q_1 Int)\n\
             (assert (= main_p_0 1))\n(assert (= main_p_1 2))\n\
             (assert (not (= 2 2)))\n(check-sat)\n"
                .to_string()
        ]
    );
}

#[test]
fn declared_symbols_never_repeat() {
    let script = &twice_called().queries[0];
    let names: Vec<&str> = script
        .lines()
        .filter(|line| line.starts_with("(declare-const "))
        .map(|line| line.split(' ').nth(1).unwrap())
        .collect();
    assert_eq!(names.len(), 8);
    for i in 0..names.len() {
        for j in 0..i {
            assert_ne!(names[i], names[j]);
        }
    }
}

#[test]
fn several_invariants_are_checked_one_by_one_and_folded() {
    let analysis = run_main(vec![
        let_stmt(1, Ty::Int, "x", Some(num(3))),
        intrinsic("Vinvariant", vec![bin(BinOp::Ge, var(1), num(0))], "i1"),
        intrinsic("Vinvariant", vec![bin(BinOp::Le, var(1), num(9))], "i2"),
        at(RExprKind::Loop { body: Box::new(block(vec![], None, "b")) }, "lp"),
    ]);
    assert!(analysis.result.is_ok());
    assert_eq!(analysis.queries.len(), 3);
    assert!(analysis.queries[0].ends_with("(assert (not (>= 3 0)))\n(check-sat)\n"));
    assert!(analysis.queries[1].ends_with("(assert (>= 3 0))\n(assert (not (<= 3 9)))\n(check-sat)\n"));
    assert!(analysis.queries[2].ends_with("(assert (not (and (>= 3 0) (<= 3 9))))\n(check-sat)\n"));
}

fn conditional(else_branch: bool) -> Vec<RExpr> {
    // let c = rand_int(); let x = 1; if c > 0 { x = 2 } [else { x = 3 }]; assert(x > 0)
    let else_opt = if else_branch {
        Some(Box::new(block(vec![assign(2, num(3))], None, "e")))
    } else {
        None
    };
    vec![
        let_stmt(1, Ty::Int, "c", Some(intrinsic("Vrand_int", vec![], "r"))),
        let_stmt(2, Ty::Int, "x", Some(num(1))),
        at(
            RExprKind::If {
                cond: Box::new(bin(BinOp::Gt, var(1), num(0))),
                then_expr: Box::new(block(vec![assign(2, num(2))], None, "t")),
                else_opt,
            },
            "if",
        ),
        intrinsic("Vassert", vec![bin(BinOp::Gt, var(2), num(0))], "a"),
    ]
}

#[test]
fn branches_merge_into_ite() {
    let analysis = run_main(conditional(true));
    assert!(analysis.result.is_ok());
    assert_eq!(analysis.queries.len(), 1);
    assert_eq!(
        analysis.queries[0],
        "(declare-const main_rand_c_0 Int)\n(declare-const main_c_0 Int)\n(declare-const main_x_0 Int)\n\
         (assert (= main_x_0 1))\n\
         (assert (or (> main_rand_c_0 0) (not (> main_rand_c_0 0))))\n\
         (assert (or (not (> main_rand_c_0 0)) (not (not (> main_rand_c_0 0)))))\n\
         (assert (not (> (ite (> main_rand_c_0 0) 2 3) 0)))\n(check-sat)\n"
    );
}

#[test]
fn branch_without_else_keeps_prior_term() {
    let analysis = run_main(conditional(false));
    assert!(analysis.result.is_ok());
    assert_eq!(analysis.queries.len(), 1);
    assert!(analysis.queries[0].ends_with("(assert (not (> (ite (> main_rand_c_0 0) 2 1) 0)))\n(check-sat)\n"));
}

#[test]
fn assertion_inside_a_branch_sees_the_condition() {
    let analysis = run_main(vec![
        let_stmt(1, Ty::Int, "c", Some(intrinsic("Vrand_int", vec![], "r"))),
        at(
            RExprKind::If {
                cond: Box::new(bin(BinOp::Gt, var(1), num(5))),
                then_expr: Box::new(block(
                    vec![intrinsic("Vassert", vec![bin(BinOp::Gt, var(1), num(0))], "a")],
                    None,
                    "t",
                )),
                else_opt: None,
            },
            "if",
        ),
        intrinsic("Vassert", vec![bin(BinOp::Ge, var(1), num(0))], "b"),
    ]);
    assert!(analysis.result.is_ok());
    assert_eq!(analysis.queries.len(), 2);
    assert_eq!(
        analysis.queries[0],
        "(declare-const main_rand_c_0 Int)\n(declare-const main_c_0 Int)\n\
         (assert (> main_rand_c_0 5))\n\
         (assert (not (> main_rand_c_0 0)))\n(check-sat)\n"
    );
    // what the branch learned comes back guarded by the condition, and every
    // variable that the branch knows is merged, changed or not
    assert_eq!(
        analysis.queries[1],
        "(declare-const main_rand_c_0 Int)\n(declare-const main_c_0 Int)\n\
         (assert (or (> main_rand_c_0 5) (not (> main_rand_c_0 5))))\n\
         (assert (or (> main_rand_c_0 0) (not (> main_rand_c_0 5))))\n\
         (assert (not (>= (ite (> main_rand_c_0 5) main_rand_c_0 main_rand_c_0) 0)))\n(check-sat)\n"
    );
}

#[test]
fn if_expression_gives_ite_term() {
    let cond = bin(BinOp::Lt, var(1), num(0));
    let choice = at(
        RExprKind::If {
            cond: Box::new(cond),
            then_expr: Box::new(at(RExprKind::Unary { op: UnOp::Neg, arg: Box::new(var(1)) }, "t")),
            else_opt: Some(Box::new(var(1))),
        },
        "if",
    );
    let analysis = run_main(vec![
        let_stmt(1, Ty::Int, "x", Some(intrinsic("Vrand_int", vec![], "r"))),
        let_stmt(2, Ty::Int, "y", Some(choice)),
        intrinsic("Vassert", vec![bin(BinOp::Ge, var(2), num(0))], "a"),
    ]);
    assert!(analysis.result.is_ok());
    assert!(analysis.queries[0]
        .ends_with("(assert (not (>= (ite (< main_rand_x_0 0) (- main_rand_x_0) main_rand_x_0) 0)))\n(check-sat)\n"));
}

#[test]
fn call_is_inlined_with_its_argument() {
    // fn inc(p) { return p + 1; }  main: let y = inc(4); assert(y == 5)
    let inc = function(
        vec![RParam::new(Some(pattern(10, Ty::Int, "p")))],
        block(
            vec![at(RExprKind::Return { value: Some(Box::new(bin(BinOp::Add, var(10), num(1)))) }, "ret")],
            None,
            "inc",
        ),
    );
    let main = function(
        Vec::new(),
        block(
            vec![
                let_stmt(1, Ty::Int, "y", Some(local_call(1, vec![num(4)]))),
                intrinsic("Vassert", vec![bin(BinOp::Eq, var(1), num(5))], "a"),
            ],
            None,
            "body",
        ),
    );
    let mut fn_map = HashMap::new();
    fn_map.insert(0, main);
    fn_map.insert(1, inc);
    let analysis = analyze(MAIN, fn_map);
    assert!(analysis.result.is_ok());
    assert_eq!(
        analysis.queries,
        vec![
            "(declare-const main_y_0 Int)\n(declare-const main_p_0 Int)\n\
             (assert (= main_p_0 4))\n(assert (= main_y_0 (+ 4 1)))\n\
             (assert (not (= (+ 4 1) 5)))\n(check-sat)\n"
                .to_string()
        ]
    );
}

#[test]
fn callee_tail_expression_is_the_result() {
    let twice = function(
        vec![RParam::new(Some(pattern(10, Ty::Int, "p")))],
        block(vec![], Some(bin(BinOp::Mul, var(10), num(2))), "twice"),
    );
    let main = function(
        Vec::new(),
        block(
            vec![
                let_stmt(1, Ty::Int, "y", Some(local_call(1, vec![num(4)]))),
                intrinsic("Vassert", vec![bin(BinOp::Eq, var(1), num(8))], "a"),
            ],
            None,
            "body",
        ),
    );
    let mut fn_map = HashMap::new();
    fn_map.insert(0, main);
    fn_map.insert(1, twice);
    let analysis = analyze(MAIN, fn_map);
    assert!(analysis.result.is_ok());
    assert!(analysis.queries[0].ends_with("(assert (not (= (* 4 2) 8)))\n(check-sat)\n"));
}

#[test]
fn recursion_is_rejected() {
    let looping = function(Vec::new(), block(vec![local_call(1, vec![])], None, "f"));
    let main = function(Vec::new(), block(vec![local_call(1, vec![])], None, "body"));
    let mut fn_map = HashMap::new();
    fn_map.insert(0, main);
    fn_map.insert(1, looping);
    let analysis = analyze(MAIN, fn_map);
    assert!(unsupported(&analysis.result));
}

#[test]
fn missing_entry_function_is_reported() {
    let analysis = analyze(LocalDefId { local_def_index: 3 }, HashMap::new());
    match analysis.result {
        Err(AnalysisError::FunctionNotFound(id)) => assert_eq!(id.local_def_index, 3),
        _ => panic!("expected FunctionNotFound"),
    }
    assert!(analysis.queries.is_empty());
}

#[test]
fn missing_callee_is_reported() {
    let analysis = run_main(vec![local_call(9, vec![])]);
    match analysis.result {
        Err(AnalysisError::FunctionNotFound(id)) => assert_eq!(id.local_def_index, 9),
        _ => panic!("expected FunctionNotFound"),
    }
}

#[test]
fn unbound_variable_is_reported() {
    let analysis = run_main(vec![intrinsic("Vassert", vec![bin(BinOp::Gt, var(7), num(0))], "a")]);
    match analysis.result {
        Err(AnalysisError::UnboundVariable(id)) => assert_eq!(id, LocalVarId(7)),
        _ => panic!("expected UnboundVariable"),
    }
    let analysis = run_main(vec![assign(7, num(1))]);
    assert!(matches!(analysis.result, Err(AnalysisError::UnboundVariable(LocalVarId(7)))));
}

#[test]
fn unsupported_operator_is_reported() {
    let analysis = run_main(vec![
        let_stmt(1, Ty::Int, "x", Some(num(1))),
        intrinsic("Vassert", vec![bin(BinOp::BitXor, var(1), num(0))], "a"),
    ]);
    assert!(unsupported(&analysis.result));
    assert!(analysis.queries.is_empty());
}

#[test]
fn bool_literal_is_unimplemented() {
    let truth = at(RExprKind::Literal { lit: Lit { node: LitKind::Bool(true) }, neg: false }, "t");
    let analysis = run_main(vec![intrinsic("Vassert", vec![truth], "a")]);
    assert!(matches!(analysis.result, Err(AnalysisError::Unimplemented(_))));
    let float = at(RExprKind::Literal { lit: Lit { node: LitKind::Float }, neg: false }, "f");
    let analysis = run_main(vec![intrinsic("Vassert", vec![float], "a")]);
    assert!(matches!(analysis.result, Err(AnalysisError::Unimplemented(_))));
    let text = at(RExprKind::Literal { lit: Lit { node: LitKind::Str }, neg: false }, "s");
    let analysis = run_main(vec![intrinsic("Vassert", vec![text], "a")]);
    assert!(unsupported(&analysis.result));
}

#[test]
fn annotation_without_argument_is_out_of_bounds() {
    let analysis = run_main(vec![intrinsic("Vassert", vec![], "a")]);
    assert!(matches!(analysis.result, Err(AnalysisError::OutOfBounds(0))));
}

#[test]
fn path_without_function_segment_is_out_of_bounds() {
    let call = at(
        RExprKind::Call {
            ty: Ty::FnDef(DefId { krate: 20, index: 7 }),
            def_path: "verify_modules".to_string(),
            args: vec![],
        },
        "c",
    );
    let analysis = run_main(vec![call]);
    assert!(matches!(analysis.result, Err(AnalysisError::OutOfBounds(1))));
}

#[test]
fn unknown_extern_function_is_unsupported() {
    let call = at(
        RExprKind::Call {
            ty: Ty::FnDef(DefId { krate: 2, index: 7 }),
            def_path: "std::mem::swap".to_string(),
            args: vec![],
        },
        "c",
    );
    assert!(unsupported(&run_main(vec![call]).result));
    assert!(unsupported(&run_main(vec![intrinsic("Vother", vec![], "c")]).result));
}

#[test]
fn nondeterministic_value_outside_let_is_an_error() {
    let analysis = run_main(vec![intrinsic("Vrand_int", vec![], "r")]);
    assert!(unsupported(&analysis.result));
    let analysis = run_main(vec![intrinsic(
        "Vassert",
        vec![bin(BinOp::Gt, intrinsic("Vrand_int", vec![], "r"), num(0))],
        "a",
    )]);
    assert!(matches!(analysis.result, Err(AnalysisError::RandFunctions)));
}

#[test]
fn rand_bool_declares_a_bool_symbol() {
    let analysis = run_main(vec![
        let_stmt(1, Ty::Bool, "b", Some(intrinsic("Vrand_bool", vec![], "r"))),
        intrinsic("Vassert", vec![var(1)], "a"),
    ]);
    assert!(analysis.result.is_ok());
    assert_eq!(
        analysis.queries[0],
        "(declare-const main_rand_b_0 Bool)\n(declare-const main_b_0 Bool)\n(assert (not main_rand_b_0))\n(check-sat)\n"
    );
}

#[test]
fn rand_float_declares_a_real_symbol() {
    let analysis = run_main(vec![
        let_stmt(1, Ty::Float, "f", Some(intrinsic("Vrand_float", vec![], "r"))),
        intrinsic("Vassert", vec![bin(BinOp::Ge, var(1), var(1))], "a"),
    ]);
    assert!(analysis.queries[0].starts_with("(declare-const main_rand_f_0 Real)\n(declare-const main_f_0 Real)\n"));
}

#[test]
fn variable_of_unsupported_type_cannot_be_declared() {
    let analysis = run_main(vec![
        let_stmt(1, Ty::Other, "s", None),
        let_stmt(2, Ty::Int, "x", Some(num(1))),
        intrinsic("Vassert", vec![bin(BinOp::Gt, var(2), num(0))], "a"),
    ]);
    assert!(unsupported(&analysis.result));
    assert!(analysis.queries.is_empty());
}

#[test]
fn drop_forgets_the_value() {
    let analysis = run_main(vec![
        let_stmt(1, Ty::Int, "x", Some(num(1))),
        intrinsic("Vdrop", vec![at(RExprKind::VarRef { id: LocalVarId(1) }, "d:1")], "c"),
        intrinsic("Vassert", vec![bin(BinOp::Eq, var(1), num(1))], "a"),
    ]);
    assert!(analysis.result.is_ok());
    assert_eq!(
        analysis.queries[0],
        "(declare-const main_drop_d_1_0 Int)\n(declare-const main_x_0 Int)\n(assert (= main_x_0 1))\n\
         (assert (not (= main_drop_d_1_0 1)))\n(check-sat)\n"
    );
    let analysis = run_main(vec![intrinsic("Vdrop", vec![num(1)], "c")]);
    assert!(unsupported(&analysis.result));
}

#[test]
fn compound_assignment_combines_terms() {
    let add = at(RExprKind::AssignOp { op: BinOp::Add, lhs: Box::new(var(1)), rhs: Box::new(num(2)) }, "op");
    let analysis = run_main(vec![
        let_stmt(1, Ty::Int, "x", Some(num(1))),
        add,
        intrinsic("Vassert", vec![bin(BinOp::Eq, var(1), num(3))], "a"),
    ]);
    assert!(analysis.queries[0].ends_with("(assert (not (= (+ 1 2) 3)))\n(check-sat)\n"));
}

#[test]
fn assignment_through_dereference() {
    let store = at(
        RExprKind::Assign {
            lhs: Box::new(at(RExprKind::Deref { arg: Box::new(var(1)) }, "d")),
            rhs: Box::new(num(9)),
        },
        "st",
    );
    let analysis = run_main(vec![
        let_stmt(1, Ty::Int, "x", Some(num(1))),
        store,
        intrinsic("Vassert", vec![bin(BinOp::Eq, var(1), num(9))], "a"),
    ]);
    assert!(analysis.queries[0].ends_with("(assert (not (= 9 9)))\n(check-sat)\n"));
}

#[test]
fn logical_operators_and_distinct() {
    let both = at(
        RExprKind::LogicalOp {
            op: LogicalOp::And,
            lhs: Box::new(bin(BinOp::Ne, var(1), num(0))),
            rhs: Box::new(at(
                RExprKind::LogicalOp {
                    op: LogicalOp::Or,
                    lhs: Box::new(bin(BinOp::Le, var(1), num(3))),
                    rhs: Box::new(bin(BinOp::Rem, var(1), num(2))),
                },
                "or",
            )),
        },
        "and",
    );
    let analysis = run_main(vec![
        let_stmt(1, Ty::Int, "x", Some(num(1))),
        intrinsic("Vassert", vec![both], "a"),
    ]);
    assert!(analysis.queries[0]
        .ends_with("(assert (not (and (distinct 1 0) (or (<= 1 3) (% 1 2)))))\n(check-sat)\n"));
}

#[test]
fn return_ends_the_function() {
    let analysis = run_main(vec![
        let_stmt(1, Ty::Int, "x", Some(num(1))),
        at(RExprKind::Return { value: None }, "ret"),
        intrinsic("Vassert", vec![bin(BinOp::Eq, var(1), num(2))], "a"),
    ]);
    assert!(analysis.result.is_ok());
    assert!(analysis.queries.is_empty());
}

#[test]
fn break_ends_the_innermost_block_only() {
    let inner = block(
        vec![
            at(RExprKind::Break { value: None }, "brk"),
            intrinsic("Vassert", vec![bin(BinOp::Eq, var(1), num(2))], "skipped"),
        ],
        None,
        "inner",
    );
    let analysis = run_main(vec![
        let_stmt(1, Ty::Int, "x", Some(num(1))),
        inner,
        intrinsic("Vassert", vec![bin(BinOp::Eq, var(1), num(1))], "a"),
    ]);
    assert!(analysis.result.is_ok());
    assert_eq!(analysis.queries.len(), 1);
    assert!(analysis.queries[0].ends_with("(assert (not (= 1 1)))\n(check-sat)\n"));
}

#[test]
fn function_without_body_poses_nothing() {
    let mut fn_map = HashMap::new();
    fn_map.insert(0, RThir::new());
    let analysis = analyze(MAIN, fn_map);
    assert!(analysis.result.is_ok());
    assert!(analysis.queries.is_empty());
    match analysis.start() {
        Step::Done(result) => assert!(result.is_ok()),
        Step::Ask(_) => panic!("nothing to ask"),
    }
}

#[test]
fn same_tree_gives_same_queries() {
    let first = run_main(conditional(true));
    let second = run_main(conditional(true));
    assert_eq!(first.queries, second.queries);
}

#[test]
fn steps_walk_through_the_queries() {
    let analysis = run_main(counting_loop(0));
    assert!(matches!(analysis.start(), Step::Ask(0)));
    assert!(matches!(analysis.answer(0, "unsat\n"), Step::Ask(1)));
    match analysis.answer(1, "unsat\n") {
        Step::Done(result) => assert!(result.is_ok()),
        Step::Ask(_) => panic!("no third query"),
    }
    assert!(matches!(analysis.answer(2, "unsat\n"), Step::Done(Err(AnalysisError::OutOfBounds(2)))));
    assert!(matches!(
        analysis.conclude(&answers(&["unsat"])),
        Err(AnalysisError::OutOfBounds(1))
    ));
}

#[test]
fn only_unsat_counts_as_proved() {
    assert!(is_proved("unsat"));
    assert!(is_proved("unsat\n"));
    assert!(is_proved("(error \"x\")\nunsat\n"));
    assert!(!is_proved("sat"));
    assert!(!is_proved("sat\n"));
    assert!(!is_proved("unknown"));
    assert!(!is_proved(""));
    assert!(!is_proved("unsa"));
    assert!(!is_proved("(error \"line 1\")"));
}

fn two_envs_with_same_bindings() -> (Env, Env) {
    let mut a = Env::new();
    a.add_param("x".to_string(), Ty::Int, LocalVarId(1));
    a.assign_value(LocalVarId(1), Term::Int { value: 4, neg: false }).unwrap();
    let mut b = Env::from("other".to_string(), Vec::new(), HashMap::new(), Vec::new());
    b.add_smt_command(Term::symbol("p".to_string()));
    b.add_random_var(Ty::Bool, "p".to_string());
    b.add_param("x".to_string(), Ty::Int, LocalVarId(1));
    b.assign_value(LocalVarId(1), Term::Int { value: 4, neg: false }).unwrap();
    (a, b)
}

#[test]
fn same_bindings_give_the_same_term() {
    let analyzer = Analyzer::new(HashMap::new());
    let expr = at(
        RExprKind::If {
            cond: Box::new(bin(BinOp::Lt, var(1), num(9))),
            then_expr: Box::new(bin(BinOp::Sub, var(1), num(1))),
            else_opt: Some(Box::new(block(vec![assign(1, num(0))], Some(var(1)), "b"))),
        },
        "if",
    );
    let (mut a, mut b) = two_envs_with_same_bindings();
    let mut queries_a = Vec::new();
    let mut queries_b = vec!["earlier".to_string()];
    let term_a = analyzer.expr_to_const(&expr, &mut a, &mut queries_a, 0).unwrap();
    let term_b = analyzer.expr_to_const(&expr, &mut b, &mut queries_b, 0).unwrap();
    assert_eq!(term_a.to_smt(), "(ite (< 4 9) (- 4 1) 0)");
    assert_eq!(term_a.to_smt(), term_b.to_smt());
    let after_a = a.lookup(LocalVarId(1)).unwrap().get_assume().to_smt();
    let after_b = b.lookup(LocalVarId(1)).unwrap().get_assume().to_smt();
    assert_eq!(after_a, "(ite (< 4 9) 4 0)");
    assert_eq!(after_a, after_b);
    assert_eq!(a.name, "main");
    assert_eq!(b.name, "other");
    assert_eq!(queries_b, vec!["earlier".to_string()]);
}

#[test]
fn block_without_last_expression_has_the_empty_term() {
    let analyzer = Analyzer::new(HashMap::new());
    let mut env = Env::new();
    let mut queries = Vec::new();
    let empty = block(vec![], None, "b");
    assert_eq!(analyzer.block_to_const(&empty, &mut env, &mut queries, 0).unwrap().to_smt(), "");
    let returning = block(vec![at(RExprKind::Return { value: Some(Box::new(num(3))) }, "r")], Some(num(4)), "b");
    assert_eq!(analyzer.block_to_const(&returning, &mut env, &mut queries, 0).unwrap().to_smt(), "3");
    let last = block(vec![], Some(num(4)), "b");
    assert_eq!(analyzer.expr_to_const(&last, &mut env, &mut queries, 0).unwrap().to_smt(), "4");
    assert!(unsupported(&analyzer.block_to_const(&num(1), &mut env, &mut queries, 0).map(|_| ())));
}

#[test]
fn if_expression_needs_an_else() {
    let analyzer = Analyzer::new(HashMap::new());
    let mut env = Env::new();
    let mut queries = Vec::new();
    let lonely = at(
        RExprKind::If { cond: Box::new(num(1)), then_expr: Box::new(num(2)), else_opt: None },
        "if",
    );
    assert!(unsupported(&analyzer.if_to_const(&lonely, &mut env, &mut queries, 0).map(|_| ())));
}

#[test]
fn statements_hand_control_on() {
    let analyzer = Analyzer::new(HashMap::new());
    let mut env = Env::new();
    let mut queries = Vec::new();
    let ret = at(RExprKind::Return { value: Some(Box::new(num(3))) }, "r");
    match analyzer.analyze_expr(&ret, &mut env, &mut queries, 0) {
        Ok(AnalysisType::Return(Some(term))) => assert_eq!(term.to_smt(), "3"),
        _ => panic!("expected a return"),
    }
    let brk = at(RExprKind::Break { value: None }, "b");
    assert!(matches!(analyzer.analyze_expr(&brk, &mut env, &mut queries, 0), Ok(AnalysisType::Break)));
    assert!(matches!(analyzer.analyze_expr(&num(1), &mut env, &mut queries, 0), Ok(AnalysisType::Other)));
    let cont = at(RExprKind::Continue, "c");
    assert!(matches!(
        analyzer.analyze_expr(&cont, &mut env, &mut queries, 0),
        Err(AnalysisError::Unsupported(_))
    ));
    assert!(matches!(
        analyzer.analyze_expr(&var(1), &mut env, &mut queries, 0),
        Err(AnalysisError::Unsupported(_))
    ));
    // a break ends the block that holds it and goes no further
    let body = block(vec![brk_stmt(), ret_stmt()], None, "b");
    assert!(matches!(analyzer.analyze_body(&body, &mut env, &mut queries, 0), Ok(AnalysisType::Other)));
    let body = block(vec![ret_stmt(), brk_stmt()], None, "b");
    assert!(matches!(
        analyzer.analyze_body(&body, &mut env, &mut queries, 0),
        Ok(AnalysisType::Return(Some(_)))
    ));
}

fn brk_stmt() -> RExpr {
    at(RExprKind::Break { value: None }, "b")
}

fn ret_stmt() -> RExpr {
    at(RExprKind::Return { value: Some(Box::new(num(3))) }, "r")
}

#[test]
fn variables_that_a_loop_body_assigns() {
    let body = block(
        vec![
            assign(2, bin(BinOp::Add, var(1), num(1))),
            assign(3, var(2)),
            at(RExprKind::AssignOp { op: BinOp::Add, lhs: Box::new(var(2)), rhs: Box::new(var(4)) }, "op"),
            let_stmt(5, Ty::Int, "l", Some(var(6))),
        ],
        None,
        "b",
    );
    assert_eq!(Analyzer::search_used_var(&body).unwrap(), vec![LocalVarId(2), LocalVarId(3)]);
    assert_eq!(Analyzer::search_used_var(&num(1)).unwrap(), Vec::<LocalVarId>::new());
    let inner_loop = block(vec![at(RExprKind::Loop { body: Box::new(block(vec![], None, "i")) }, "lp")], None, "b");
    assert!(unsupported(&Analyzer::search_used_var(&inner_loop).map(|_| ())));
    let mut read = Vec::new();
    Analyzer::search_var(&bin(BinOp::Ge, var(1), bin(BinOp::Add, var(2), var(1))), &mut read).unwrap();
    assert_eq!(read, vec![LocalVarId(1), LocalVarId(2), LocalVarId(1)]);
    assert!(unsupported(&Analyzer::search_var(&block(vec![], None, "b"), &mut read)));
}

#[test]
fn nondeterministic_let_avoids_a_symbol_in_use() {
    let analyzer = Analyzer::new(HashMap::new());
    let mut env = Env::new();
    env.add_random_var(Ty::Int, "main_rand_x_0".to_string());
    env.add_smt_command(Term::symbol("main_rand_x_0".to_string()));
    let mut queries = Vec::new();
    let stmt = let_stmt(1, Ty::Int, "x", Some(intrinsic("Vrand_int", vec![], "r")));
    assert!(analyzer.analyze_let_stmt(&stmt, &mut env, &mut queries, 0).is_ok());
    assert_eq!(env.lookup(LocalVarId(1)).unwrap().get_assume().to_smt(), "main_rand_x_1");
    assert_eq!(env.vars.len(), 2);
    assert_eq!(env.vars[1], (Ty::Int, "main_rand_x_1".to_string()));
}

#[test]
fn drop_avoids_a_symbol_in_use() {
    let analyzer = Analyzer::new(HashMap::new());
    let mut env = Env::new();
    env.add_param("main_drop_d_0".to_string(), Ty::Int, LocalVarId(1));
    let args = vec![at(RExprKind::VarRef { id: LocalVarId(1) }, "d")];
    assert!(analyzer.analyze_drop(&args, &mut env).is_ok());
    assert_eq!(env.lookup(LocalVarId(1)).unwrap().get_assume().to_smt(), "main_drop_d_1");
    assert_eq!(env.vars, vec![(Ty::Int, "main_drop_d_1".to_string())]);
}

fn nested(then_span: &str, id: u64) -> RExpr {
    // if c > 0 { let v; }   with the inner block at `then_span`
    at(
        RExprKind::If {
            cond: Box::new(bin(BinOp::Gt, var(1), num(0))),
            then_expr: Box::new(block(vec![let_stmt(id, Ty::Int, "v", None)], None, then_span)),
            else_opt: None,
        },
        "inner",
    )
}

fn two_branches(then_inner: &str, else_inner: &str) -> Analysis {
    run_main(vec![
        let_stmt(1, Ty::Int, "c", Some(intrinsic("Vrand_int", vec![], "r"))),
        at(
            RExprKind::If {
                cond: Box::new(bin(BinOp::Lt, var(1), num(9))),
                then_expr: Box::new(block(vec![nested(then_inner, 2)], None, "t")),
                else_opt: Some(Box::new(block(vec![nested(else_inner, 3)], None, "e"))),
            },
            "outer",
        ),
        intrinsic("Vassert", vec![bin(BinOp::Ge, var(1), var(1))], "a"),
    ])
}

#[test]
fn branches_declare_their_own_symbols() {
    let analysis = two_branches("a:1", "a:2");
    assert!(analysis.result.is_ok());
    let script = &analysis.queries[0];
    assert!(script.contains("(declare-const then_a_1_v_0 Int)\n"));
    assert!(script.contains("(declare-const then_a_2_v_0 Int)\n"));
}

#[test]
fn branches_that_declare_the_same_symbol_cannot_be_merged() {
    // the two inner blocks stand at locations that differ in punctuation only
    let analysis = two_branches("a:1", "a.1");
    assert!(unsupported(&analysis.result));
    assert!(analysis.queries.is_empty());
}
