//! Constraint terms: the formulas that scripts are made of.
//!
//! A term is built bottom-up from literals and symbols with a fixed set of
//! operators. Its view, [`SpecTerm`], is the same tree over mathematical
//! values; [`SpecTerm::text`] is what the solver reads and [`eval`] what the
//! term means under an assignment of its symbols.

use vstd::prelude::*;
use vstd::string::StringExecFns;
use crate::analyze::text::{decimal, push_decimal};

verus! {

/// The solver's binary operators.
#[derive(Clone, Copy, Debug, PartialEq, Eq, Structural)]
pub enum SmtBinOp {
    Add,
    Sub,
    Mul,
    Div,
    Rem,
    Eq,
    Distinct,
    Lt,
    Le,
    Gt,
    Ge,
    And,
    Or,
}

impl SmtBinOp {
    /// The operator as the solver writes it.
    pub open spec fn symbol(self) -> Seq<char> {
        match self {
            SmtBinOp::Add => "+"@,
            SmtBinOp::Sub => "-"@,
            SmtBinOp::Mul => "*"@,
            SmtBinOp::Div => "/"@,
            SmtBinOp::Rem => "%"@,
            SmtBinOp::Eq => "="@,
            SmtBinOp::Distinct => "distinct"@,
            SmtBinOp::Lt => "<"@,
            SmtBinOp::Le => "<="@,
            SmtBinOp::Gt => ">"@,
            SmtBinOp::Ge => ">="@,
            SmtBinOp::And => "and"@,
            SmtBinOp::Or => "or"@,
        }
    }

    pub fn as_str(self) -> (s: &'static str)
        ensures
            s@ == self.symbol(),
    {
        match self {
            SmtBinOp::Add => "+",
            SmtBinOp::Sub => "-",
            SmtBinOp::Mul => "*",
            SmtBinOp::Div => "/",
            SmtBinOp::Rem => "%",
            SmtBinOp::Eq => "=",
            SmtBinOp::Distinct => "distinct",
            SmtBinOp::Lt => "<",
            SmtBinOp::Le => "<=",
            SmtBinOp::Gt => ">",
            SmtBinOp::Ge => ">=",
            SmtBinOp::And => "and",
            SmtBinOp::Or => "or",
        }
    }
}

/// The solver's unary operators.
#[derive(Clone, Copy, Debug, PartialEq, Eq, Structural)]
pub enum SmtUnOp {
    Not,
    Neg,
}

impl SmtUnOp {
    /// The operator as the solver writes it.
    pub open spec fn symbol(self) -> Seq<char> {
        match self {
            SmtUnOp::Not => "not"@,
            SmtUnOp::Neg => "-"@,
        }
    }

    pub fn as_str(self) -> (s: &'static str)
        ensures
            s@ == self.symbol(),
    {
        match self {
            SmtUnOp::Not => "not",
            SmtUnOp::Neg => "-",
        }
    }
}

/// A constraint term.
#[derive(Debug)]
#[allow(inconsistent_fields)]
pub enum Term {
    /// The term of a block that ends without an expression; its text is empty.
    Empty,
    /// An integer literal; `neg` puts a minus sign before the numeral.
    Int { value: u128, neg: bool },
    Symbol { name: String },
    Unary { op: SmtUnOp, arg: Box<Term> },
    Binary { op: SmtBinOp, lhs: Box<Term>, rhs: Box<Term> },
    Ite { cond: Box<Term>, then_term: Box<Term>, else_term: Box<Term> },
}

/// A constraint term as a mathematical value.
#[allow(inconsistent_fields)]
pub enum SpecTerm {
    Empty,
    Int { value: nat, neg: bool },
    Symbol { name: Seq<char> },
    Unary { op: SmtUnOp, arg: Box<SpecTerm> },
    Binary { op: SmtBinOp, lhs: Box<SpecTerm>, rhs: Box<SpecTerm> },
    Ite { cond: Box<SpecTerm>, then_term: Box<SpecTerm>, else_term: Box<SpecTerm> },
}

impl Term {
    /// The term as a mathematical value; `@` gives the same.
    pub open spec fn model(&self) -> SpecTerm
        decreases self,
    {
        match self {
            Term::Empty => SpecTerm::Empty,
            Term::Int { value, neg } => SpecTerm::Int { value: *value as nat, neg: *neg },
            Term::Symbol { name } => SpecTerm::Symbol { name: name@ },
            Term::Unary { op, arg } => SpecTerm::Unary { op: *op, arg: Box::new(arg.model()) },
            Term::Binary { op, lhs, rhs } => SpecTerm::Binary {
                op: *op,
                lhs: Box::new(lhs.model()),
                rhs: Box::new(rhs.model()),
            },
            Term::Ite { cond, then_term, else_term } => SpecTerm::Ite {
                cond: Box::new(cond.model()),
                then_term: Box::new(then_term.model()),
                else_term: Box::new(else_term.model()),
            },
        }
    }
}

impl View for Term {
    type V = SpecTerm;

    open spec fn view(&self) -> SpecTerm {
        self.model()
    }
}

impl SpecTerm {
    /// The term in the solver's syntax.
    pub open spec fn text(self) -> Seq<char>
        decreases self,
    {
        match self {
            SpecTerm::Empty => Seq::empty(),
            SpecTerm::Int { value, neg } => if neg {
                seq!['-'] + decimal(value)
            } else {
                decimal(value)
            },
            SpecTerm::Symbol { name } => name,
            SpecTerm::Unary { op, arg } => seq!['('] + op.symbol() + seq![' '] + arg.text() + seq![')'],
            SpecTerm::Binary { op, lhs, rhs } => seq!['('] + op.symbol() + seq![' '] + lhs.text()
                + seq![' '] + rhs.text() + seq![')'],
            SpecTerm::Ite { cond, then_term, else_term } => "(ite "@ + cond.text() + seq![' ']
                + then_term.text() + seq![' '] + else_term.text() + seq![')'],
        }
    }

    /// `(not self)`.
    pub open spec fn negated(self) -> SpecTerm {
        SpecTerm::Unary { op: SmtUnOp::Not, arg: Box::new(self) }
    }

    /// `(ite cond self other)`.
    pub open spec fn chosen_if(self, cond: SpecTerm, other: SpecTerm) -> SpecTerm {
        SpecTerm::Ite { cond: Box::new(cond), then_term: Box::new(self), else_term: Box::new(other) }
    }
}

impl Clone for Term {
    fn clone(&self) -> (res: Self)
        ensures
            res == *self,
        decreases self,
    {
        match self {
            Term::Empty => Term::Empty,
            Term::Int { value, neg } => Term::Int { value: *value, neg: *neg },
            Term::Symbol { name } => Term::Symbol { name: name.clone() },
            Term::Unary { op, arg } => Term::Unary { op: *op, arg: Box::new((&**arg).clone()) },
            Term::Binary { op, lhs, rhs } => Term::Binary {
                op: *op,
                lhs: Box::new((&**lhs).clone()),
                rhs: Box::new((&**rhs).clone()),
            },
            Term::Ite { cond, then_term, else_term } => Term::Ite {
                cond: Box::new((&**cond).clone()),
                then_term: Box::new((&**then_term).clone()),
                else_term: Box::new((&**else_term).clone()),
            },
        }
    }
}

impl Term {
    /// The symbol `name`.
    pub fn symbol(name: String) -> (term: Term)
        ensures
            term@ == (SpecTerm::Symbol { name: name@ }),
    {
        Term::Symbol { name }
    }

    /// `(op arg)`.
    pub fn unary(op: SmtUnOp, arg: Term) -> (term: Term)
        ensures
            term@ == (SpecTerm::Unary { op, arg: Box::new(arg@) }),
    {
        Term::Unary { op, arg: Box::new(arg) }
    }

    /// `(op lhs rhs)`.
    pub fn binary(op: SmtBinOp, lhs: Term, rhs: Term) -> (term: Term)
        ensures
            term@ == (SpecTerm::Binary { op, lhs: Box::new(lhs@), rhs: Box::new(rhs@) }),
    {
        Term::Binary { op, lhs: Box::new(lhs), rhs: Box::new(rhs) }
    }

    /// `(not arg)`.
    pub fn not(arg: Term) -> (term: Term)
        ensures
            term@ == arg@.negated(),
    {
        Term::Unary { op: SmtUnOp::Not, arg: Box::new(arg) }
    }

    /// `(ite cond then_term else_term)`.
    pub fn ite(cond: Term, then_term: Term, else_term: Term) -> (term: Term)
        ensures
            term@ == then_term@.chosen_if(cond@, else_term@),
    {
        Term::Ite {
            cond: Box::new(cond),
            then_term: Box::new(then_term),
            else_term: Box::new(else_term),
        }
    }

    /// Appends the term's text to `out`.
    pub fn write_to(&self, out: &mut String)
        ensures
            final(out)@ == old(out)@ + self@.text(),
        decreases self,
    {
        match self {
            Term::Empty => {},
            Term::Int { value, neg } => {
                if *neg {
                    out.append("-");
                    proof {
                        reveal_strlit("-");
                        assert("-"@ =~= seq!['-']);
                    }
                }
                push_decimal(out, *value);
            },
            Term::Symbol { name } => {
                out.append(name.as_str());
            },
            Term::Unary { op, arg } => {
                proof {
                    reveal_strlit("(");
                    reveal_strlit(" ");
                    reveal_strlit(")");
                    assert("("@ =~= seq!['(']);
                    assert(" "@ =~= seq![' ']);
                    assert(")"@ =~= seq![')']);
                }
                out.append("(");
                out.append(op.as_str());
                out.append(" ");
                arg.write_to(out);
                out.append(")");
            },
            Term::Binary { op, lhs, rhs } => {
                proof {
                    reveal_strlit("(");
                    reveal_strlit(" ");
                    reveal_strlit(")");
                    assert("("@ =~= seq!['(']);
                    assert(" "@ =~= seq![' ']);
                    assert(")"@ =~= seq![')']);
                }
                out.append("(");
                out.append(op.as_str());
                out.append(" ");
                lhs.write_to(out);
                out.append(" ");
                rhs.write_to(out);
                out.append(")");
            },
            Term::Ite { cond, then_term, else_term } => {
                proof {
                    reveal_strlit(" ");
                    reveal_strlit(")");
                    assert(" "@ =~= seq![' ']);
                    assert(")"@ =~= seq![')']);
                }
                out.append("(ite ");
                cond.write_to(out);
                out.append(" ");
                then_term.write_to(out);
                out.append(" ");
                else_term.write_to(out);
                out.append(")");
            },
        }
    }

    /// The term in the solver's syntax.
    pub fn to_smt(&self) -> (text: String)
        ensures
            text@ == self@.text(),
    {
        let mut out = String::new();
        self.write_to(&mut out);
        assert(Seq::<char>::empty() + self@.text() =~= self@.text());
        out
    }
}

/// What a term stands for under a model: an integer or a truth value.
pub enum Value {
    Int(int),
    Bool(bool),
}

/// The value of `lhs op rhs`, where the operator applies to such values.
/// Division and remainder are integer division and modulus, undefined at zero.
pub open spec fn apply_binary(op: SmtBinOp, lhs: Value, rhs: Value) -> Option<Value> {
    match (lhs, rhs) {
        (Value::Int(a), Value::Int(b)) => match op {
            SmtBinOp::Add => Some(Value::Int(a + b)),
            SmtBinOp::Sub => Some(Value::Int(a - b)),
            SmtBinOp::Mul => Some(Value::Int(a * b)),
            SmtBinOp::Div => if b != 0 {
                Some(Value::Int(a / b))
            } else {
                None
            },
            SmtBinOp::Rem => if b != 0 {
                Some(Value::Int(a % b))
            } else {
                None
            },
            SmtBinOp::Eq => Some(Value::Bool(a == b)),
            SmtBinOp::Distinct => Some(Value::Bool(a != b)),
            SmtBinOp::Lt => Some(Value::Bool(a < b)),
            SmtBinOp::Le => Some(Value::Bool(a <= b)),
            SmtBinOp::Gt => Some(Value::Bool(a > b)),
            SmtBinOp::Ge => Some(Value::Bool(a >= b)),
            _ => None,
        },
        (Value::Bool(a), Value::Bool(b)) => match op {
            SmtBinOp::Eq => Some(Value::Bool(a == b)),
            SmtBinOp::Distinct => Some(Value::Bool(a != b)),
            SmtBinOp::And => Some(Value::Bool(a && b)),
            SmtBinOp::Or => Some(Value::Bool(a || b)),
            _ => None,
        },
        _ => None,
    }
}

/// The value of a term under `model`, which assigns values to symbols.
/// `None` where the term is ill-sorted, reads a symbol that the model lacks,
/// or divides by zero.
pub open spec fn eval(term: SpecTerm, model: Map<Seq<char>, Value>) -> Option<Value>
    decreases term,
{
    match term {
        SpecTerm::Empty => None,
        SpecTerm::Int { value, neg } => Some(
            Value::Int(
                if neg {
                    -(value as int)
                } else {
                    value as int
                },
            ),
        ),
        SpecTerm::Symbol { name } => if model.contains_key(name) {
            Some(model[name])
        } else {
            None
        },
        SpecTerm::Unary { op, arg } => match (op, eval(*arg, model)) {
            (SmtUnOp::Not, Some(Value::Bool(b))) => Some(Value::Bool(!b)),
            (SmtUnOp::Neg, Some(Value::Int(i))) => Some(Value::Int(-i)),
            _ => None,
        },
        SpecTerm::Binary { op, lhs, rhs } => match (eval(*lhs, model), eval(*rhs, model)) {
            (Some(a), Some(b)) => apply_binary(op, a, b),
            _ => None,
        },
        SpecTerm::Ite { cond, then_term, else_term } => match eval(*cond, model) {
            Some(Value::Bool(true)) => eval(*then_term, model),
            Some(Value::Bool(false)) => eval(*else_term, model),
            _ => None,
        },
    }
}

/// Whether `model` makes the formula `term` true.
pub open spec fn holds(term: SpecTerm, model: Map<Seq<char>, Value>) -> bool {
    eval(term, model) == Some(Value::Bool(true))
}

} // verus!
