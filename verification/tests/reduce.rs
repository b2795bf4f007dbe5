use rust_verifier::analyze::analyze;
use rust_verifier::analyze::flow::AnalysisError;
use rust_verifier::thir::arena::{Block, Expr, ExprKind, Param, Pat, PatKind, Stmt, StmtKind, Thir};
use rust_verifier::thir::reduce::{reduce_thir, Reducer};
use rust_verifier::thir::rthir::{
    BinOp, DefId, Lit, LitKind, LocalDefId, LocalVarId, RExpr, RExprKind, RPatKind, Span, Ty,
};
use std::collections::HashMap;

fn at(text: &str) -> Span {
    Span::new(text.to_string())
}

fn expr(kind: ExprKind, text: &str) -> Expr {
    Expr { kind, span: at(text) }
}

fn lit(value: u128, text: &str) -> Expr {
    expr(ExprKind::Literal { lit: Lit { node: LitKind::Int(value) }, neg: false }, text)
}

fn binding(id: u64, text: &str) -> Pat {
    Pat {
        kind: PatKind::Binding { var: LocalVarId(id), ty: Ty::Int, subpattern: None, is_primary: true },
        span: at(text),
    }
}

fn body_of(exprs: Vec<Expr>, blocks: Vec<Block>, stmts: Vec<Stmt>) -> Result<RExpr, AnalysisError> {
    let thir = Thir { params: Vec::new(), exprs, blocks, stmts };
    reduce_thir(thir).map(|rthir| rthir.body.expect("a body"))
}

fn int_of(node: &RExpr) -> u128 {
    match &node.kind {
        RExprKind::Literal { lit: Lit { node: LitKind::Int(value) }, .. } => *value,
        other => panic!("not an integer literal: {:?}", other),
    }
}

#[test]
fn body_is_the_last_expression() {
    let body = body_of(vec![lit(1, "a"), lit(2, "b")], vec![], vec![]).unwrap();
    assert_eq!(int_of(&body), 2);
    assert_eq!(body.span.text, "b");
}

#[test]
fn function_without_expressions_has_no_body() {
    let rthir = reduce_thir(Thir { params: vec![], exprs: vec![], blocks: vec![], stmts: vec![] }).unwrap();
    assert!(rthir.body.is_none());
    assert!(rthir.params.is_empty());
}

#[test]
fn children_become_subtrees() {
    let exprs = vec![
        lit(1, "l"),
        lit(2, "r"),
        expr(ExprKind::Binary { op: BinOp::Add, lhs: 0, rhs: 1 }, "sum"),
    ];
    let body = body_of(exprs, vec![], vec![]).unwrap();
    assert_eq!(body.span.text, "sum");
    match &body.kind {
        RExprKind::Binary { op, lhs, rhs } => {
            assert_eq!(*op, BinOp::Add);
            assert_eq!(int_of(lhs), 1);
            assert_eq!(lhs.span.text, "l");
            assert_eq!(int_of(rhs), 2);
        }
        other => panic!("not a binary node: {:?}", other),
    }
}

#[test]
fn scope_use_and_never_give_way_to_what_they_hold() {
    let exprs = vec![
        lit(7, "inner"),
        expr(ExprKind::Scope { value: 0 }, "scope"),
        expr(ExprKind::Use { source: 1 }, "use"),
        expr(ExprKind::NeverToAny { source: 2 }, "never"),
    ];
    let body = body_of(exprs, vec![], vec![]).unwrap();
    // the kind comes from the innermost expression, the location from the outermost
    assert_eq!(int_of(&body), 7);
    assert_eq!(body.span.text, "never");
}

#[test]
fn block_holds_statements_and_last_expression() {
    let exprs = vec![
        lit(5, "init"),
        lit(6, "stmt"),
        lit(7, "last"),
        expr(ExprKind::Block { block: 1 }, "block"),
    ];
    let blocks = vec![
        Block { stmts: vec![], expr: None },
        Block { stmts: vec![0, 1], expr: Some(2) },
    ];
    let stmts = vec![
        Stmt {
            kind: StmtKind::Let {
                pattern: binding(1, "pat"),
                initializer: Some(0),
                else_block: Some(0),
                span: at("let"),
            },
        },
        Stmt { kind: StmtKind::Expr { expr: 1 } },
    ];
    let body = body_of(exprs, blocks, stmts).unwrap();
    match &body.kind {
        RExprKind::Block { stmts, expr } => {
            assert_eq!(stmts.len(), 2);
            assert_eq!(stmts[0].span.text, "let");
            match &stmts[0].kind {
                RExprKind::LetStmt { pattern, init, else_block } => {
                    assert_eq!(pattern.span.text, "pat");
                    assert!(matches!(
                        &pattern.kind,
                        RExprKind::Pat { kind: RPatKind::Binding { var: LocalVarId(1), ty: Ty::Int, .. } }
                    ));
                    assert_eq!(int_of(init.as_ref().unwrap()), 5);
                    let else_block = else_block.as_ref().unwrap();
                    assert_eq!(else_block.span.text, "let");
                    assert!(matches!(&else_block.kind, RExprKind::Block { stmts, expr: None } if stmts.is_empty()));
                }
                other => panic!("not a let: {:?}", other),
            }
            assert_eq!(int_of(&stmts[1]), 6);
            assert_eq!(int_of(expr.as_ref().unwrap()), 7);
        }
        other => panic!("not a block: {:?}", other),
    }
}

#[test]
fn call_keeps_path_and_arguments() {
    let exprs = vec![
        lit(1, "a"),
        lit(2, "b"),
        expr(ExprKind::Call { ty: Ty::Other, def_path: "m::f".to_string(), args: vec![1, 0] }, "call"),
    ];
    match body_of(exprs, vec![], vec![]).unwrap().kind {
        RExprKind::Call { ty, def_path, args } => {
            assert_eq!(ty, Ty::Other);
            assert_eq!(def_path, "m::f");
            assert_eq!(args.iter().map(int_of).collect::<Vec<_>>(), vec![2, 1]);
        }
        other => panic!("not a call: {:?}", other),
    }
}

#[test]
fn optional_children() {
    let exprs = vec![
        lit(1, "c"),
        lit(2, "t"),
        expr(ExprKind::If { cond: 0, then_expr: 1, else_opt: None }, "if"),
        expr(ExprKind::Return { value: Some(2) }, "ret"),
    ];
    match body_of(exprs, vec![], vec![]).unwrap().kind {
        RExprKind::Return { value: Some(value) } => match &value.kind {
            RExprKind::If { cond, then_expr, else_opt } => {
                assert_eq!(int_of(cond), 1);
                assert_eq!(int_of(then_expr), 2);
                assert!(else_opt.is_none());
            }
            other => panic!("not a conditional: {:?}", other),
        },
        other => panic!("not a return: {:?}", other),
    }
}

#[test]
fn reference_that_does_not_go_back_is_out_of_bounds() {
    // an expression that refers to itself
    let exprs = vec![expr(ExprKind::Deref { arg: 0 }, "d")];
    assert!(matches!(body_of(exprs, vec![], vec![]), Err(AnalysisError::OutOfBounds(0))));
    // a reference forward
    let exprs = vec![expr(ExprKind::Scope { value: 1 }, "s"), expr(ExprKind::Scope { value: 0 }, "t")];
    assert!(matches!(body_of(exprs, vec![], vec![]), Err(AnalysisError::OutOfBounds(1))));
    // a reference to nothing
    let exprs = vec![lit(1, "a"), expr(ExprKind::Binary { op: BinOp::Add, lhs: 0, rhs: 9 }, "b")];
    assert!(matches!(body_of(exprs, vec![], vec![]), Err(AnalysisError::OutOfBounds(9))));
    let exprs = vec![expr(ExprKind::Block { block: 3 }, "b")];
    assert!(matches!(body_of(exprs, vec![], vec![]), Err(AnalysisError::OutOfBounds(3))));
    let exprs = vec![expr(ExprKind::Block { block: 0 }, "b")];
    let blocks = vec![Block { stmts: vec![4], expr: None }];
    assert!(matches!(body_of(exprs, blocks, vec![]), Err(AnalysisError::OutOfBounds(4))));
}

#[test]
fn else_block_must_stand_before_its_block() {
    let exprs = vec![expr(ExprKind::Block { block: 0 }, "b")];
    let blocks = vec![Block { stmts: vec![0], expr: None }];
    let stmts = vec![Stmt {
        kind: StmtKind::Let { pattern: binding(1, "p"), initializer: None, else_block: Some(0), span: at("l") },
    }];
    assert!(matches!(body_of(exprs, blocks, stmts), Err(AnalysisError::OutOfBounds(0))));
}

#[test]
fn expression_in_a_block_must_stand_before_the_block_expression() {
    let exprs = vec![expr(ExprKind::Block { block: 0 }, "b")];
    let blocks = vec![Block { stmts: vec![], expr: Some(0) }];
    assert!(matches!(body_of(exprs, blocks, vec![]), Err(AnalysisError::OutOfBounds(0))));
}

#[test]
fn kinds_without_reduced_form_are_unimplemented() {
    let exprs = vec![expr(ExprKind::Other, "o")];
    assert!(matches!(body_of(exprs, vec![], vec![]), Err(AnalysisError::Unimplemented(_))));
    let thir = Thir {
        params: vec![Param { pat: Some(Pat { kind: PatKind::Other, span: at("p") }) }],
        exprs: vec![],
        blocks: vec![],
        stmts: vec![],
    };
    assert!(matches!(reduce_thir(thir), Err(AnalysisError::Unimplemented(_))));
}

#[test]
fn parameters_keep_their_patterns() {
    let or = Pat {
        kind: PatKind::Or {
            pats: vec![
                Pat { kind: PatKind::Wild, span: at("w") },
                Pat { kind: PatKind::Deref { subpattern: Box::new(binding(3, "inner")) }, span: at("d") },
            ],
        },
        span: at("or"),
    };
    let thir = Thir {
        params: vec![Param { pat: None }, Param { pat: Some(binding(2, "p")) }, Param { pat: Some(or) }],
        exprs: vec![lit(1, "body")],
        blocks: vec![],
        stmts: vec![],
    };
    let reducer = Reducer::new(thir);
    let rthir = reducer.reduce().unwrap();
    assert_eq!(rthir.params.len(), 3);
    assert!(rthir.params[0].pat.is_none());
    let second = rthir.params[1].pat.as_ref().unwrap();
    assert_eq!(second.span.text, "p");
    assert!(matches!(&second.kind, RExprKind::Pat { kind: RPatKind::Binding { var: LocalVarId(2), .. } }));
    match &rthir.params[2].pat.as_ref().unwrap().kind {
        RExprKind::Pat { kind: RPatKind::Or { pats } } => {
            assert_eq!(pats.len(), 2);
            assert!(matches!(&pats[0].kind, RExprKind::Pat { kind: RPatKind::Wild }));
            match &pats[1].kind {
                RExprKind::Pat { kind: RPatKind::Deref { subpattern } } => assert_eq!(subpattern.span.text, "inner"),
                other => panic!("not a deref pattern: {:?}", other),
            }
        }
        other => panic!("not an or pattern: {:?}", other),
    }
    assert_eq!(int_of(rthir.body.as_ref().unwrap()), 1);
}

#[test]
fn let_expression_becomes_let_binding() {
    let exprs = vec![lit(1, "v"), expr(ExprKind::Let { expr: 0, pat: binding(4, "p") }, "let")];
    match body_of(exprs, vec![], vec![]).unwrap().kind {
        RExprKind::LetBinding { expr, pat } => {
            assert_eq!(int_of(&expr), 1);
            assert_eq!(pat.span.text, "p");
        }
        other => panic!("not a let binding: {:?}", other),
    }
}

#[test]
fn reduced_body_is_ready_for_analysis() {
    // { let x = 5; Vassert(x > 0); }
    let exprs = vec![
        lit(5, "five"),
        expr(ExprKind::VarRef { id: LocalVarId(1) }, "x"),
        lit(0, "zero"),
        expr(ExprKind::Binary { op: BinOp::Gt, lhs: 1, rhs: 2 }, "gt"),
        expr(ExprKind::Use { source: 3 }, "use"),
        expr(
            ExprKind::Call {
                ty: Ty::FnDef(DefId { krate: 20, index: 3 }),
                def_path: "verify_modules::Vassert".to_string(),
                args: vec![4],
            },
            "call",
        ),
        expr(ExprKind::Scope { value: 5 }, "scope"),
        expr(ExprKind::Block { block: 0 }, "block"),
        expr(ExprKind::Scope { value: 7 }, "body"),
    ];
    let blocks = vec![Block { stmts: vec![0, 1], expr: None }];
    let stmts = vec![
        Stmt {
            kind: StmtKind::Let {
                pattern: binding(1, "m.rs:2:9"),
                initializer: Some(0),
                else_block: None,
                span: at("let"),
            },
        },
        Stmt { kind: StmtKind::Expr { expr: 6 } },
    ];
    let rthir = reduce_thir(Thir { params: vec![], exprs, blocks, stmts }).unwrap();
    let mut fn_map = HashMap::new();
    fn_map.insert(0, rthir);
    let analysis = analyze(LocalDefId { local_def_index: 0 }, fn_map);
    assert!(analysis.result.is_ok());
    assert_eq!(
        analysis.queries,
        vec!["(declare-const main_m_rs_2_9_0 Int)\n(assert (= main_m_rs_2_9_0 5))\n(assert (not (> 5 0)))\n(check-sat)\n"
            .to_string()]
    );
}
