//! The typed tree of one function body as a frontend hands it over: flat
//! lists of expressions, blocks and statements that refer to each other by
//! index.
//!
//! An expression refers only to expressions before it, and a block that
//! belongs to a statement of another block stands before that block. The
//! reducer relies on this order and rejects a body that breaks it.

use vstd::prelude::*;
use crate::thir::rthir::{BinOp, DefId, Lit, LocalVarId, LogicalOp, Span, Ty, UnOp};

verus! {

/// The index of an expression in [`Thir::exprs`].
pub type ExprId = usize;

/// The index of a block in [`Thir::blocks`].
pub type BlockId = usize;

/// The index of a statement in [`Thir::stmts`].
pub type StmtId = usize;

/// One function body. Its last expression is the body itself.
#[derive(Debug)]
pub struct Thir {
    pub params: Vec<Param>,
    pub exprs: Vec<Expr>,
    pub blocks: Vec<Block>,
    pub stmts: Vec<Stmt>,
}

#[derive(Debug)]
pub struct Param {
    pub pat: Option<Pat>,
}

#[derive(Debug)]
pub struct Pat {
    pub kind: PatKind,
    pub span: Span,
}

#[derive(Debug)]
#[allow(inconsistent_fields)]
pub enum PatKind {
    Wild,
    AscribeUserType { subpattern: Box<Pat> },
    Binding { var: LocalVarId, ty: Ty, subpattern: Option<Box<Pat>>, is_primary: bool },
    Deref { subpattern: Box<Pat> },
    DerefPattern { subpattern: Box<Pat> },
    Range,
    Or { pats: Vec<Pat> },
    Never,
    /// A pattern that has no reduced form.
    Other,
}

#[derive(Debug)]
pub struct Expr {
    pub kind: ExprKind,
    pub span: Span,
}

#[derive(Debug)]
#[allow(inconsistent_fields)]
pub enum ExprKind {
    Scope { value: ExprId },
    If { cond: ExprId, then_expr: ExprId, else_opt: Option<ExprId> },
    Call { ty: Ty, def_path: String, args: Vec<ExprId> },
    Deref { arg: ExprId },
    Binary { op: BinOp, lhs: ExprId, rhs: ExprId },
    LogicalOp { op: LogicalOp, lhs: ExprId, rhs: ExprId },
    Unary { op: UnOp, arg: ExprId },
    Cast { source: ExprId },
    Use { source: ExprId },
    NeverToAny { source: ExprId },
    PointerCoercion { source: ExprId },
    Loop { body: ExprId },
    Let { expr: ExprId, pat: Pat },
    Block { block: BlockId },
    Assign { lhs: ExprId, rhs: ExprId },
    AssignOp { op: BinOp, lhs: ExprId, rhs: ExprId },
    Field { lhs: ExprId },
    Index { lhs: ExprId, index: ExprId },
    VarRef { id: LocalVarId },
    UpvarRef { var_hir_id: LocalVarId },
    Borrow { arg: ExprId },
    AddressOf { arg: ExprId },
    Break { value: Option<ExprId> },
    Continue,
    Return { value: Option<ExprId> },
    Repeat { value: ExprId },
    Array { fields: Vec<ExprId> },
    Tuple { fields: Vec<ExprId> },
    PlaceTypeAscription { source: ExprId },
    ValueTypeAscription { source: ExprId },
    Literal { lit: Lit, neg: bool },
    NonHirLiteral,
    ZstLiteral,
    NamedConst { def_id: DefId },
    ConstParam { def_id: DefId },
    /// An expression that has no reduced form.
    Other,
}

#[derive(Debug)]
pub struct Block {
    pub stmts: Vec<StmtId>,
    pub expr: Option<ExprId>,
}

#[derive(Debug)]
pub struct Stmt {
    pub kind: StmtKind,
}

#[derive(Debug)]
#[allow(inconsistent_fields)]
pub enum StmtKind {
    Expr { expr: ExprId },
    Let { pattern: Pat, initializer: Option<ExprId>, else_block: Option<BlockId>, span: Span },
}

} // verus!
