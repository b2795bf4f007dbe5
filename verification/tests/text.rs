use rust_verifier::analyze::flow::AnalysisError;
use rust_verifier::analyze::model::Intrinsic;
use rust_verifier::analyze::text::{contains, push_decimal, push_sanitized, str_equal};
use rust_verifier::analyze::Analyzer;
use rust_verifier::drive::{summary, Options};
use rust_verifier::thir::rthir::{DefId, LocalDefId, LocalVarId, RExpr, RExprKind, RThir, Span};
use rust_verifier::verify_modules::{Vassert, Vassume, Vdrop, Vinvariant, Vrand_bool, Vrand_int};
use std::collections::HashMap;

fn decimal(n: u128) -> String {
    let mut out = String::new();
    push_decimal(&mut out, n);
    out
}

fn analyzer() -> Analyzer {
    Analyzer::new(HashMap::new())
}

fn info(path: &str) -> Vec<String> {
    analyzer().get_fn_info(path)
}

fn strings(parts: &[&str]) -> Vec<String> {
    parts.iter().map(|s| s.to_string()).collect()
}

#[test]
fn decimal_numerals() {
    assert_eq!(decimal(0), "0");
    assert_eq!(decimal(9), "9");
    assert_eq!(decimal(10), "10");
    assert_eq!(decimal(1234567890123456789), "1234567890123456789");
    let mut out = "n=".to_string();
    push_decimal(&mut out, 407);
    assert_eq!(out, "n=407");
}

#[test]
fn sanitizing_keeps_letters_and_digits_only() {
    let mut out = String::new();
    push_sanitized(&mut out, "src/main.rs:12:9: 12:10 (#0)");
    assert_eq!(out, "src_main_rs_12_9__12_10___0_");
    let mut out = "x".to_string();
    push_sanitized(&mut out, "é-ß_7");
    assert_eq!(out, "xé_ß_7");
}

#[test]
fn name_of_span() {
    let span = Span::new("lib.rs:1:2".to_string());
    assert_eq!(Analyzer::get_name_from_span(&span), "lib_rs_1_2");
    assert_eq!(Analyzer::get_name_from_span(&Span::new(String::new())), "");
}

#[test]
fn locations_that_differ_only_in_punctuation_share_a_name() {
    let a = Analyzer::get_name_from_span(&Span::new("a:1".to_string()));
    let b = Analyzer::get_name_from_span(&Span::new("a.1".to_string()));
    assert_eq!(a, b);
    let c = Analyzer::get_name_from_span(&Span::new("a:2".to_string()));
    assert_ne!(a, c);
}

#[test]
fn substring_search() {
    assert!(contains("xunsaty", "unsat"));
    assert!(contains("unsat", "unsat"));
    assert!(contains("abc", ""));
    assert!(contains("", ""));
    assert!(!contains("", "a"));
    assert!(!contains("unsa", "unsat"));
    assert!(!contains("un sat", "unsat"));
    assert!(contains("ééunsat", "unsat"));
}

#[test]
fn string_equality() {
    assert!(str_equal("", ""));
    assert!(str_equal("Vassert", "Vassert"));
    assert!(!str_equal("Vassert", "Vassume"));
    assert!(!str_equal("Vassert", "Vasser"));
    assert!(!str_equal("a", "ab"));
}

#[test]
fn definition_path_segments() {
    assert_eq!(info("verify_modules::Vassert"), strings(&["verify_modules", "Vassert"]));
    assert_eq!(info("a::b::c"), strings(&["a", "b", "c"]));
    assert_eq!(info("::a:::b:"), strings(&["a", "b"]));
    assert_eq!(info("a\"b\\c"), strings(&["a", "b", "c"]));
    assert_eq!(info("plain"), strings(&["plain"]));
    assert_eq!(info(""), Vec::<String>::new());
    assert_eq!(info("::::"), Vec::<String>::new());
}

#[test]
fn intrinsics_are_known_by_path() {
    let known = |path: &str| Analyzer::intrinsic(&info(path));
    assert!(matches!(known("verify_modules::Vassert"), Ok(Intrinsic::Assert)));
    assert!(matches!(known("verify_modules::Vassume"), Ok(Intrinsic::Assume)));
    assert!(matches!(known("verify_modules::Vinvariant"), Ok(Intrinsic::Invariant)));
    assert!(matches!(known("verify_modules::Vdrop"), Ok(Intrinsic::Drop)));
    assert!(matches!(known("verify_modules::Vrand_int"), Ok(Intrinsic::RandInt)));
    assert!(matches!(known("verify_modules::Vrand_bool"), Ok(Intrinsic::RandBool)));
    assert!(matches!(known("verify_modules::Vrand_float"), Ok(Intrinsic::RandFloat)));
    assert!(matches!(known("verify_modules::Vassert::<T>"), Ok(Intrinsic::Assert)));
    assert!(matches!(known("verify_modules::assert"), Err(AnalysisError::Unsupported(_))));
    assert!(matches!(known("other::Vassert"), Err(AnalysisError::Unsupported(_))));
    assert!(matches!(known("verify_modules"), Err(AnalysisError::OutOfBounds(1))));
    assert!(matches!(known(""), Err(AnalysisError::OutOfBounds(0))));
}

#[test]
fn rand_intrinsics_ask_for_a_fresh_symbol() {
    let a = analyzer();
    assert!(matches!(a.annotate_fn_to_const(&info("verify_modules::Vrand_int")), Err(AnalysisError::RandFunctions)));
    assert!(matches!(a.annotate_fn_to_const(&info("verify_modules::Vrand_bool")), Err(AnalysisError::RandFunctions)));
    assert!(matches!(
        a.annotate_fn_to_const(&info("verify_modules::Vrand_float")),
        Err(AnalysisError::RandFunctions)
    ));
    assert!(matches!(a.annotate_fn_to_const(&info("verify_modules::Vassert")), Err(AnalysisError::Unsupported(_))));
    assert!(matches!(a.annotate_fn_to_const(&info("x::y")), Err(AnalysisError::Unsupported(_))));
}

#[test]
fn function_table_lookup() {
    let mut fn_map = HashMap::new();
    fn_map.insert(4, RThir::new());
    let a = Analyzer::new(fn_map);
    assert!(a.get_fn(LocalDefId { local_def_index: 4 }).is_ok());
    assert!(matches!(
        a.get_fn(LocalDefId { local_def_index: 5 }),
        Err(AnalysisError::FunctionNotFound(LocalDefId { local_def_index: 5 }))
    ));
    assert!(matches!(a.get_local_fn(&DefId { krate: 0, index: 4 }), Ok(Some(_))));
    assert!(matches!(a.get_local_fn(&DefId { krate: 3, index: 4 }), Ok(None)));
    assert!(matches!(a.get_local_fn(&DefId { krate: 0, index: 9 }), Err(AnalysisError::FunctionNotFound(_))));
}

#[test]
fn def_id_locality() {
    let local = DefId { krate: 0, index: 12 };
    assert!(local.is_local());
    assert_eq!(local.expect_local(), LocalDefId { local_def_index: 12 });
    assert!(!DefId { krate: 1, index: 12 }.is_local());
}

#[test]
fn left_side_of_assignment() {
    let var = || RExpr::new(RExprKind::VarRef { id: LocalVarId(5) }, Span::new("v".to_string()));
    assert_eq!(Analyzer::expr_to_var_id(&var()), Some(LocalVarId(5)));
    let deref = RExpr::new(RExprKind::Deref { arg: Box::new(var()) }, Span::new("d".to_string()));
    assert_eq!(Analyzer::expr_to_var_id(&deref), Some(LocalVarId(5)));
    let twice = RExpr::new(RExprKind::Deref { arg: Box::new(deref) }, Span::new("d".to_string()));
    assert_eq!(Analyzer::expr_to_var_id(&twice), None);
    let other = RExpr::new(RExprKind::Continue, Span::new("c".to_string()));
    assert_eq!(Analyzer::expr_to_var_id(&other), None);
}

#[test]
fn error_reports() {
    assert_eq!(AnalysisError::Unsupported("shape".to_string()).report(), "Unsupported: shape");
    assert_eq!(AnalysisError::Unimplemented("later".to_string()).report(), "Unimplemented: later");
    assert_eq!(AnalysisError::UnboundVariable(LocalVarId(12)).report(), "Unbound variable: 12");
    assert_eq!(
        AnalysisError::FunctionNotFound(LocalDefId { local_def_index: 3 }).report(),
        "Function not found: 3"
    );
    assert_eq!(AnalysisError::VerificationFailed.report(), "Verification failed");
    assert_eq!(AnalysisError::OutOfBounds(40).report(), "Out of bounds: 40");
    assert_eq!(AnalysisError::RandFunctions.report(), "Rand functions");
    let copy = AnalysisError::Unsupported("shape".to_string()).clone();
    assert_eq!(copy.report(), "Unsupported: shape");
}

#[test]
fn run_summary_and_options() {
    assert_eq!(summary(&Ok(())), "Verification succeeded");
    assert_eq!(summary(&Err(AnalysisError::VerificationFailed)), "Verification failed");
    assert_eq!(Options::default().output_file, "output.smt2");
}

#[test]
fn annotations_do_nothing_at_run_time() {
    Vassert(false);
    Vassume(false);
    Vinvariant(true);
    Vdrop(vec![1, 2, 3]);
    let n: i64 = Vrand_int();
    assert_eq!(n, 0);
    let b: bool = Vrand_bool();
    assert!(!b);
}
