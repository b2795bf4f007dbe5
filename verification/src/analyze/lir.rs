//! Path fragments and variable records.
//!
//! A path is a sequence of fragments: declarations of solver symbols and
//! assumed formulas. This module only writes them down in the solver's
//! syntax; it checks nothing about what they mean.

use vstd::prelude::*;
use vstd::string::StringExecFns;
use crate::analyze::flow::AnalysisError;
use crate::analyze::term::{SmtBinOp, SpecTerm, Term};
use crate::thir::rthir::Ty;

verus! {

/// Whether the solver has a sort for the type.
pub open spec fn has_sort(ty: Ty) -> bool {
    ty is Bool || ty is Int || ty is Float
}

/// The solver's sort for a type that has one.
pub open spec fn sort_text(ty: Ty) -> Seq<char> {
    match ty {
        Ty::Bool => "Bool"@,
        Ty::Int => "Int"@,
        Ty::Float => "Real"@,
        _ => Seq::empty(),
    }
}

/// The command that declares the symbol `name` of type `ty`.
pub open spec fn declaration_line(name: Seq<char>, ty: Ty) -> Seq<char> {
    "(declare-const "@ + name + seq![' '] + sort_text(ty) + ")"@
}

/// The command that asserts `formula`.
pub open spec fn assertion_line(formula: SpecTerm) -> Seq<char> {
    "(assert "@ + formula.text() + ")"@
}

/// Appends the declaration of `name` to `out`, where `ty` has a sort.
pub fn push_declaration(out: &mut String, name: &str, ty: Ty) -> (res: Result<(), AnalysisError>)
    ensures
        res is Ok <==> has_sort(ty),
        res is Ok ==> final(out)@ == old(out)@ + declaration_line(name@, ty),
        res matches Err(e) ==> e@ is Unsupported,
{
    let sort = match ty {
        Ty::Bool => "Bool",
        Ty::Int => "Int",
        Ty::Float => "Real",
        _ => {
            return Err(AnalysisError::Unsupported(String::from_str("Unsupported variable type")));
        },
    };
    proof {
        reveal_strlit(" ");
        assert(" "@ =~= seq![' ']);
    }
    out.append("(declare-const ");
    out.append(name);
    out.append(" ");
    out.append(sort);
    out.append(")");
    Ok(())
}

/// Appends the assertion of `formula` to `out`.
pub fn push_assertion(out: &mut String, formula: &Term)
    ensures
        final(out)@ == old(out)@ + assertion_line(formula@),
{
    out.append("(assert ");
    formula.write_to(out);
    out.append(")");
}

/// One fragment of a path.
#[derive(Debug)]
pub enum LirKind {
    /// The symbol `name` is declared with the sort of `ty`.
    Declaration { name: String, ty: Ty },
    /// The formula is assumed from here on.
    Assume(Term),
}

/// [`LirKind`] as a mathematical value.
pub enum SpecLirKind {
    Declaration { name: Seq<char>, ty: Ty },
    Assume(SpecTerm),
}

impl View for LirKind {
    type V = SpecLirKind;

    open spec fn view(&self) -> SpecLirKind {
        match self {
            LirKind::Declaration { name, ty } => SpecLirKind::Declaration { name: name@, ty: *ty },
            LirKind::Assume(formula) => SpecLirKind::Assume(formula@),
        }
    }
}

impl SpecLirKind {
    /// Whether the fragment can be written for the solver.
    pub open spec fn renderable(self) -> bool {
        self matches SpecLirKind::Declaration { ty, .. } ==> has_sort(ty)
    }

    /// Whether the fragment declares a symbol of this name.
    pub open spec fn declares(self, name: Seq<char>) -> bool {
        self matches SpecLirKind::Declaration { name: declared, .. } && declared == name
    }

    /// The fragment as a solver command.
    pub open spec fn text(self) -> Seq<char> {
        match self {
            SpecLirKind::Declaration { name, ty } => declaration_line(name, ty),
            SpecLirKind::Assume(formula) => assertion_line(formula),
        }
    }

    /// The fragment with `arg` joined to an assumed formula by `op`:
    /// `(op formula arg)`. A declaration stays as it is.
    pub open spec fn adopted(self, op: SmtBinOp, arg: SpecTerm) -> SpecLirKind {
        match self {
            SpecLirKind::Assume(formula) => SpecLirKind::Assume(
                SpecTerm::Binary { op, lhs: Box::new(formula), rhs: Box::new(arg) },
            ),
            declaration => declaration,
        }
    }

    /// The fragment as it holds under `guard` only: an assumed formula
    /// becomes `(or formula (not guard))`.
    pub open spec fn guarded(self, guard: SpecTerm) -> SpecLirKind {
        self.adopted(SmtBinOp::Or, guard.negated())
    }
}

impl Clone for LirKind {
    fn clone(&self) -> (res: Self)
        ensures
            res == *self,
    {
        match self {
            LirKind::Declaration { name, ty } => LirKind::Declaration { name: name.clone(), ty: *ty },
            LirKind::Assume(formula) => LirKind::Assume(formula.clone()),
        }
    }
}

impl LirKind {
    /// The fragment as a solver command. Fails on a declaration whose type
    /// has no sort.
    pub fn to_smt(&self) -> (res: Result<String, AnalysisError>)
        ensures
            res is Ok <==> self@.renderable(),
            res matches Ok(text) ==> text@ == self@.text(),
            res matches Err(e) ==> e@ is Unsupported,
    {
        let mut out = String::new();
        match self {
            LirKind::Declaration { name, ty } => {
                match push_declaration(&mut out, name.as_str(), *ty) {
                    Ok(()) => {},
                    Err(e) => {
                        return Err(e);
                    },
                }
                assert(Seq::<char>::empty() + declaration_line(name@, *ty) =~= declaration_line(
                    name@,
                    *ty,
                ));
            },
            LirKind::Assume(formula) => {
                push_assertion(&mut out, formula);
                assert(Seq::<char>::empty() + assertion_line(formula@) =~= assertion_line(formula@));
            },
        }
        Ok(out)
    }

    /// Joins `arg` to an assumed formula by `op`; a declaration stays as it is.
    pub fn adopt_assume(self, op: SmtBinOp, arg: Term) -> (res: Self)
        ensures
            res@ == self@.adopted(op, arg@),
    {
        match self {
            LirKind::Assume(formula) => LirKind::Assume(Term::binary(op, formula, arg)),
            declaration => declaration,
        }
    }
}

/// The record of one variable: the symbol it was declared as, its type, and
/// the term that stands for it now.
#[derive(Debug)]
pub struct Lir {
    pub name: String,
    pub ty: Ty,
    pub term: Term,
}

/// [`Lir`] as a mathematical value.
pub struct SpecLir {
    pub name: Seq<char>,
    pub ty: Ty,
    pub term: SpecTerm,
}

impl View for Lir {
    type V = SpecLir;

    open spec fn view(&self) -> SpecLir {
        SpecLir { name: self.name@, ty: self.ty, term: self.term@ }
    }
}

impl SpecLir {
    /// The record of a variable declared as `name` that stands for its own symbol.
    pub open spec fn declared(name: Seq<char>, ty: Ty) -> SpecLir {
        SpecLir { name, ty, term: SpecTerm::Symbol { name } }
    }

    /// The record with `term` standing for the variable.
    pub open spec fn with_assume(self, term: SpecTerm) -> SpecLir {
        SpecLir { term, ..self }
    }
}

impl Clone for Lir {
    fn clone(&self) -> (res: Self)
        ensures
            res == *self,
    {
        Lir { name: self.name.clone(), ty: self.ty, term: self.term.clone() }
    }
}

impl Lir {
    /// The record of a variable declared as `name`, standing for `term`.
    pub fn new_param(name: String, ty: Ty, term: Term) -> (lir: Lir)
        ensures
            lir@ == (SpecLir { name: name@, ty, term: term@ }),
    {
        Lir { name, ty, term }
    }

    /// The term that stands for the variable now.
    pub fn get_assume(&self) -> (term: Term)
        ensures
            term@ == self@.term,
    {
        self.term.clone()
    }

    /// Makes `constraint` the variable's term.
    pub fn set_assume(&mut self, constraint: Term)
        ensures
            final(self)@ == old(self)@.with_assume(constraint@),
    {
        self.term = constraint;
    }
}

} // verus!
