use rust_verifier::analyze::term::{SmtBinOp, SmtUnOp, Term};

fn lit(value: u128) -> Term {
    Term::Int { value, neg: false }
}

#[test]
fn literal_renders_as_decimal() {
    assert_eq!(lit(0).to_smt(), "0");
    assert_eq!(lit(5).to_smt(), "5");
    assert_eq!(lit(1234567890).to_smt(), "1234567890");
    assert_eq!(lit(u128::MAX).to_smt(), "340282366920938463463374607431768211455");
}

#[test]
fn negated_literal_has_minus_sign() {
    assert_eq!(Term::Int { value: 42, neg: true }.to_smt(), "-42");
}

#[test]
fn binary_term_is_prefix_application() {
    let term = Term::binary(SmtBinOp::Gt, lit(5), lit(0));
    assert_eq!(term.to_smt(), "(> 5 0)");
}

#[test]
fn every_binary_operator_has_its_symbol() {
    let cases = vec![
        (SmtBinOp::Add, "+"),
        (SmtBinOp::Sub, "-"),
        (SmtBinOp::Mul, "*"),
        (SmtBinOp::Div, "/"),
        (SmtBinOp::Rem, "%"),
        (SmtBinOp::Eq, "="),
        (SmtBinOp::Distinct, "distinct"),
        (SmtBinOp::Lt, "<"),
        (SmtBinOp::Le, "<="),
        (SmtBinOp::Gt, ">"),
        (SmtBinOp::Ge, ">="),
        (SmtBinOp::And, "and"),
        (SmtBinOp::Or, "or"),
    ];
    for (op, symbol) in cases {
        assert_eq!(op.as_str(), symbol);
        assert_eq!(Term::binary(op, lit(1), lit(2)).to_smt(), format!("({} 1 2)", symbol));
    }
}

#[test]
fn unary_terms() {
    let x = Term::symbol("x".to_string());
    assert_eq!(Term::unary(SmtUnOp::Neg, x.clone()).to_smt(), "(- x)");
    assert_eq!(Term::not(x).to_smt(), "(not x)");
}

#[test]
fn ite_term() {
    let term = Term::ite(Term::symbol("c".to_string()), lit(1), lit(2));
    assert_eq!(term.to_smt(), "(ite c 1 2)");
}

#[test]
fn nested_terms_render_inside_out() {
    let sum = Term::binary(SmtBinOp::Add, Term::symbol("x0".to_string()), lit(1));
    let goal = Term::binary(SmtBinOp::Ge, sum, lit(0));
    assert_eq!(Term::not(goal).to_smt(), "(not (>= (+ x0 1) 0))");
}

#[test]
fn empty_term_has_no_text() {
    assert_eq!(Term::Empty.to_smt(), "");
}
