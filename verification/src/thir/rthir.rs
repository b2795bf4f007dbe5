//! A reduced, typed expression tree of one function body.
//!
//! The tree is built once by a frontend and only read afterwards. Variables
//! and functions are named by the frontend's handles; source locations are
//! carried as text and serve for naming alone.

use vstd::prelude::*;

verus! {

/// A source location, as the frontend prints it.
#[derive(Debug)]
pub struct Span {
    pub text: String,
}

impl Span {
    pub fn new(text: String) -> (span: Self)
        ensures
            span.text == text,
    {
        Self { text }
    }
}

/// Handle of a local variable, unique within the analysed crate.
#[derive(Clone, Copy, Debug, PartialEq, Eq, Structural)]
pub struct LocalVarId(pub u64);

/// Handle of a function defined in the analysed crate.
#[derive(Clone, Copy, Debug, PartialEq, Eq, Structural)]
pub struct LocalDefId {
    pub local_def_index: u64,
}

/// Handle of a definition in any crate; crate number 0 is the analysed crate.
#[derive(Clone, Copy, Debug, PartialEq, Eq, Structural)]
pub struct DefId {
    pub krate: u32,
    pub index: u64,
}

impl DefId {
    pub open spec fn spec_is_local(self) -> bool {
        self.krate == 0
    }

    #[verifier::when_used_as_spec(spec_is_local)]
    pub fn is_local(self) -> (local: bool)
        ensures
            local == self.spec_is_local(),
    {
        self.krate == 0
    }

    pub open spec fn spec_expect_local(self) -> LocalDefId {
        LocalDefId { local_def_index: self.index }
    }

    #[verifier::when_used_as_spec(spec_expect_local)]
    pub fn expect_local(self) -> (id: LocalDefId)
        requires
            self.is_local(),
        ensures
            id == self.spec_expect_local(),
    {
        LocalDefId { local_def_index: self.index }
    }
}

/// What the analyzer reads of a type.
#[derive(Clone, Copy, Debug, PartialEq, Eq, Structural)]
pub enum Ty {
    Bool,
    Int,
    Float,
    /// The type of a function item, which names the function.
    FnDef(DefId),
    Other,
}

#[derive(Clone, Copy, Debug, PartialEq, Eq, Structural)]
pub enum BinOp {
    Add,
    AddUnchecked,
    AddWithOverflow,
    Sub,
    SubUnchecked,
    SubWithOverflow,
    Mul,
    MulUnchecked,
    MulWithOverflow,
    Div,
    Rem,
    BitXor,
    BitAnd,
    BitOr,
    Shl,
    ShlUnchecked,
    Shr,
    ShrUnchecked,
    Eq,
    Lt,
    Le,
    Ne,
    Ge,
    Gt,
    ThreeWay,
    Offset,
}

#[derive(Clone, Copy, Debug, PartialEq, Eq, Structural)]
pub enum LogicalOp {
    And,
    Or,
}

#[derive(Clone, Copy, Debug, PartialEq, Eq, Structural)]
pub enum UnOp {
    Not,
    Neg,
    PtrMetadata,
}

#[derive(Clone, Copy, Debug, PartialEq, Eq, Structural)]
pub enum LitKind {
    Str,
    ByteStr,
    CStr,
    Byte(u8),
    Char(char),
    Int(u128),
    Float,
    Bool(bool),
    Erroneous,
}

#[derive(Clone, Copy, Debug, PartialEq, Eq, Structural)]
pub struct Lit {
    pub node: LitKind,
}

/// One function: its parameters and, where it has one, its body.
#[derive(Debug)]
pub struct RThir {
    pub params: Vec<RParam>,
    pub body: Option<RExpr>,
}

impl RThir {
    pub fn new() -> (rthir: Self)
        ensures
            rthir.params@.len() == 0,
            rthir.body is None,
    {
        Self { params: Vec::new(), body: None }
    }

    pub fn set_params(&mut self, params: Vec<RParam>)
        ensures
            final(self).params == params,
            final(self).body == old(self).body,
    {
        self.params = params;
    }

    pub fn set_body(&mut self, body: Option<RExpr>)
        ensures
            final(self).body == body,
            final(self).params == old(self).params,
    {
        self.body = body;
    }
}

#[derive(Debug)]
pub struct RParam {
    pub pat: Option<RExpr>,
}

impl RParam {
    pub fn new(pat: Option<RExpr>) -> (param: Self)
        ensures
            param.pat == pat,
    {
        Self { pat }
    }
}

#[derive(Debug)]
#[allow(inconsistent_fields)]
pub enum RPatKind {
    Wild,
    AscribeUserType { subpattern: Box<RExpr> },
    Binding { var: LocalVarId, ty: Ty, subpattern: Option<Box<RExpr>>, is_primary: bool },
    Deref { subpattern: Box<RExpr> },
    DerefPattern { subpattern: Box<RExpr> },
    Range,
    Or { pats: Vec<RExpr> },
    Never,
}

#[derive(Debug)]
pub struct RExpr {
    pub kind: RExprKind,
    pub span: Span,
}

impl RExpr {
    pub fn new(kind: RExprKind, span: Span) -> (expr: Self)
        ensures
            expr.kind == kind,
            expr.span == span,
    {
        Self { kind, span }
    }
}

#[derive(Debug)]
#[allow(inconsistent_fields)]
pub enum RExprKind {
    If { cond: Box<RExpr>, then_expr: Box<RExpr>, else_opt: Option<Box<RExpr>> },
    /// A call. `ty` is the callee's type and `def_path` its definition path
    /// as the frontend prints it, segments separated by `::`.
    Call { ty: Ty, def_path: String, args: Vec<RExpr> },
    Deref { arg: Box<RExpr> },
    Binary { op: BinOp, lhs: Box<RExpr>, rhs: Box<RExpr> },
    LogicalOp { op: LogicalOp, lhs: Box<RExpr>, rhs: Box<RExpr> },
    Unary { op: UnOp, arg: Box<RExpr> },
    Cast { source: Box<RExpr> },
    PointerCoercion { source: Box<RExpr> },
    Loop { body: Box<RExpr> },
    LetBinding { expr: Box<RExpr>, pat: Box<RExpr> },
    Pat { kind: RPatKind },
    Match { scrutinee: Box<RExpr>, arms: Vec<RExpr> },
    Block { stmts: Vec<RExpr>, expr: Option<Box<RExpr>> },
    Assign { lhs: Box<RExpr>, rhs: Box<RExpr> },
    AssignOp { op: BinOp, lhs: Box<RExpr>, rhs: Box<RExpr> },
    Field { lhs: Box<RExpr> },
    Index { lhs: Box<RExpr>, index: Box<RExpr> },
    VarRef { id: LocalVarId },
    UpvarRef { var_hir_id: LocalVarId },
    Borrow { arg: Box<RExpr> },
    AddressOf { arg: Box<RExpr> },
    Break { value: Option<Box<RExpr>> },
    Continue,
    Return { value: Option<Box<RExpr>> },
    Repeat { value: Box<RExpr> },
    Array { fields: Vec<RExpr> },
    Tuple { fields: Vec<RExpr> },
    PlaceTypeAscription { source: Box<RExpr> },
    ValueTypeAscription { source: Box<RExpr> },
    Literal { lit: Lit, neg: bool },
    NonHirLiteral,
    ZstLiteral,
    NamedConst { def_id: DefId },
    ConstParam { def_id: DefId },
    LetStmt { pattern: Box<RExpr>, init: Option<Box<RExpr>>, else_block: Option<Box<RExpr>> },
}

/// A tree node as a mathematical value: its lists are sequences.
pub struct SpecExpr {
    pub kind: SpecExprKind,
    pub span: Span,
}

/// [`RPatKind`] as a mathematical value.
#[allow(inconsistent_fields)]
pub enum SpecPatKind {
    Wild,
    AscribeUserType { subpattern: Box<SpecExpr> },
    Binding { var: LocalVarId, ty: Ty, subpattern: Option<Box<SpecExpr>>, is_primary: bool },
    Deref { subpattern: Box<SpecExpr> },
    DerefPattern { subpattern: Box<SpecExpr> },
    Range,
    Or { pats: Seq<SpecExpr> },
    Never,
}

/// [`RExprKind`] as a mathematical value.
#[allow(inconsistent_fields)]
pub enum SpecExprKind {
    If { cond: Box<SpecExpr>, then_expr: Box<SpecExpr>, else_opt: Option<Box<SpecExpr>> },
    Call { ty: Ty, def_path: String, args: Seq<SpecExpr> },
    Deref { arg: Box<SpecExpr> },
    Binary { op: BinOp, lhs: Box<SpecExpr>, rhs: Box<SpecExpr> },
    LogicalOp { op: LogicalOp, lhs: Box<SpecExpr>, rhs: Box<SpecExpr> },
    Unary { op: UnOp, arg: Box<SpecExpr> },
    Cast { source: Box<SpecExpr> },
    PointerCoercion { source: Box<SpecExpr> },
    Loop { body: Box<SpecExpr> },
    LetBinding { expr: Box<SpecExpr>, pat: Box<SpecExpr> },
    Pat { kind: SpecPatKind },
    Match { scrutinee: Box<SpecExpr>, arms: Seq<SpecExpr> },
    Block { stmts: Seq<SpecExpr>, expr: Option<Box<SpecExpr>> },
    Assign { lhs: Box<SpecExpr>, rhs: Box<SpecExpr> },
    AssignOp { op: BinOp, lhs: Box<SpecExpr>, rhs: Box<SpecExpr> },
    Field { lhs: Box<SpecExpr> },
    Index { lhs: Box<SpecExpr>, index: Box<SpecExpr> },
    VarRef { id: LocalVarId },
    UpvarRef { var_hir_id: LocalVarId },
    Borrow { arg: Box<SpecExpr> },
    AddressOf { arg: Box<SpecExpr> },
    Break { value: Option<Box<SpecExpr>> },
    Continue,
    Return { value: Option<Box<SpecExpr>> },
    Repeat { value: Box<SpecExpr> },
    Array { fields: Seq<SpecExpr> },
    Tuple { fields: Seq<SpecExpr> },
    PlaceTypeAscription { source: Box<SpecExpr> },
    ValueTypeAscription { source: Box<SpecExpr> },
    Literal { lit: Lit, neg: bool },
    NonHirLiteral,
    ZstLiteral,
    NamedConst { def_id: DefId },
    ConstParam { def_id: DefId },
    LetStmt { pattern: Box<SpecExpr>, init: Option<Box<SpecExpr>>, else_block: Option<Box<SpecExpr>> },
}

/// An optional child as a mathematical value.
pub open spec fn option_model(child: Option<Box<RExpr>>) -> Option<Box<SpecExpr>>
    decreases child, 1nat,
{
    match child {
        Some(child) => Some(Box::new(child.model())),
        None => None,
    }
}

/// The first `n` nodes of a list as mathematical values.
pub open spec fn models_upto(list: Seq<RExpr>, n: nat) -> Seq<SpecExpr>
    decreases list, n,
{
    if n == 0 || n > list.len() {
        Seq::empty()
    } else {
        models_upto(list, (n - 1) as nat).push(list[n - 1].model())
    }
}

/// The nodes of a list as mathematical values.
pub open spec fn models(list: Seq<RExpr>) -> Seq<SpecExpr>
    decreases list, list.len() + 1,
{
    models_upto(list, list.len())
}

impl RPatKind {
    /// The pattern as a mathematical value.
    pub open spec fn model(&self) -> SpecPatKind
        decreases self, 0nat,
    {
        match self {
            RPatKind::Wild => SpecPatKind::Wild,
            RPatKind::AscribeUserType { subpattern } => SpecPatKind::AscribeUserType { subpattern: Box::new(subpattern.model()) },
            RPatKind::Binding { var, ty, subpattern, is_primary } => SpecPatKind::Binding { var: *var, ty: *ty, subpattern: option_model(*subpattern), is_primary: *is_primary },
            RPatKind::Deref { subpattern } => SpecPatKind::Deref { subpattern: Box::new(subpattern.model()) },
            RPatKind::DerefPattern { subpattern } => SpecPatKind::DerefPattern { subpattern: Box::new(subpattern.model()) },
            RPatKind::Range => SpecPatKind::Range,
            RPatKind::Or { pats } => SpecPatKind::Or { pats: models(pats@) },
            RPatKind::Never => SpecPatKind::Never,
        }
    }
}

impl RExpr {
    /// The node as a mathematical value.
    pub open spec fn model(&self) -> SpecExpr
        decreases self, 0nat,
    {
        SpecExpr { kind: self.kind.model(), span: self.span }
    }
}

impl RExprKind {
    /// The kind as a mathematical value.
    pub open spec fn model(&self) -> SpecExprKind
        decreases self, 0nat,
    {
        match self {
            RExprKind::If { cond, then_expr, else_opt } => SpecExprKind::If { cond: Box::new(cond.model()), then_expr: Box::new(then_expr.model()), else_opt: option_model(*else_opt) },
            RExprKind::Call { ty, def_path, args } => SpecExprKind::Call { ty: *ty, def_path: *def_path, args: models(args@) },
            RExprKind::Deref { arg } => SpecExprKind::Deref { arg: Box::new(arg.model()) },
            RExprKind::Binary { op, lhs, rhs } => SpecExprKind::Binary { op: *op, lhs: Box::new(lhs.model()), rhs: Box::new(rhs.model()) },
            RExprKind::LogicalOp { op, lhs, rhs } => SpecExprKind::LogicalOp { op: *op, lhs: Box::new(lhs.model()), rhs: Box::new(rhs.model()) },
            RExprKind::Unary { op, arg } => SpecExprKind::Unary { op: *op, arg: Box::new(arg.model()) },
            RExprKind::Cast { source } => SpecExprKind::Cast { source: Box::new(source.model()) },
            RExprKind::PointerCoercion { source } => SpecExprKind::PointerCoercion { source: Box::new(source.model()) },
            RExprKind::Loop { body } => SpecExprKind::Loop { body: Box::new(body.model()) },
            RExprKind::LetBinding { expr, pat } => SpecExprKind::LetBinding { expr: Box::new(expr.model()), pat: Box::new(pat.model()) },
            RExprKind::Pat { kind } => SpecExprKind::Pat { kind: kind.model() },
            RExprKind::Match { scrutinee, arms } => SpecExprKind::Match { scrutinee: Box::new(scrutinee.model()), arms: models(arms@) },
            RExprKind::Block { stmts, expr } => SpecExprKind::Block { stmts: models(stmts@), expr: option_model(*expr) },
            RExprKind::Assign { lhs, rhs } => SpecExprKind::Assign { lhs: Box::new(lhs.model()), rhs: Box::new(rhs.model()) },
            RExprKind::AssignOp { op, lhs, rhs } => SpecExprKind::AssignOp { op: *op, lhs: Box::new(lhs.model()), rhs: Box::new(rhs.model()) },
            RExprKind::Field { lhs } => SpecExprKind::Field { lhs: Box::new(lhs.model()) },
            RExprKind::Index { lhs, index } => SpecExprKind::Index { lhs: Box::new(lhs.model()), index: Box::new(index.model()) },
            RExprKind::VarRef { id } => SpecExprKind::VarRef { id: *id },
            RExprKind::UpvarRef { var_hir_id } => SpecExprKind::UpvarRef { var_hir_id: *var_hir_id },
            RExprKind::Borrow { arg } => SpecExprKind::Borrow { arg: Box::new(arg.model()) },
            RExprKind::AddressOf { arg } => SpecExprKind::AddressOf { arg: Box::new(arg.model()) },
            RExprKind::Break { value } => SpecExprKind::Break { value: option_model(*value) },
            RExprKind::Continue => SpecExprKind::Continue,
            RExprKind::Return { value } => SpecExprKind::Return { value: option_model(*value) },
            RExprKind::Repeat { value } => SpecExprKind::Repeat { value: Box::new(value.model()) },
            RExprKind::Array { fields } => SpecExprKind::Array { fields: models(fields@) },
            RExprKind::Tuple { fields } => SpecExprKind::Tuple { fields: models(fields@) },
            RExprKind::PlaceTypeAscription { source } => SpecExprKind::PlaceTypeAscription { source: Box::new(source.model()) },
            RExprKind::ValueTypeAscription { source } => SpecExprKind::ValueTypeAscription { source: Box::new(source.model()) },
            RExprKind::Literal { lit, neg } => SpecExprKind::Literal { lit: *lit, neg: *neg },
            RExprKind::NonHirLiteral => SpecExprKind::NonHirLiteral,
            RExprKind::ZstLiteral => SpecExprKind::ZstLiteral,
            RExprKind::NamedConst { def_id } => SpecExprKind::NamedConst { def_id: *def_id },
            RExprKind::ConstParam { def_id } => SpecExprKind::ConstParam { def_id: *def_id },
            RExprKind::LetStmt { pattern, init, else_block } => SpecExprKind::LetStmt { pattern: Box::new(pattern.model()), init: option_model(*init), else_block: option_model(*else_block) },
        }
    }
}

/// A function as a mathematical value.
pub struct SpecThir {
    pub params: Seq<Option<SpecExpr>>,
    pub body: Option<SpecExpr>,
}

/// An optional node as a mathematical value.
pub open spec fn node_model(node: Option<RExpr>) -> Option<SpecExpr> {
    match node {
        Some(node) => Some(node.model()),
        None => None,
    }
}

impl RThir {
    /// The function as a mathematical value.
    pub open spec fn model(&self) -> SpecThir {
        SpecThir {
            params: Seq::new(self.params@.len(), |i: int| node_model(self.params@[i].pat)),
            body: node_model(self.body),
        }
    }
}

proof fn lemma_models_upto_prefix(list: Seq<RExpr>, other: Seq<RExpr>, n: nat)
    requires
        n <= list.len(),
        n <= other.len(),
        forall|i: int| 0 <= i < n ==> list[i] == other[i],
    ensures
        models_upto(list, n) == models_upto(other, n),
    decreases n,
{
    if n > 0 {
        lemma_models_upto_prefix(list, other, (n - 1) as nat);
    }
}

/// The nodes of a list with one more node behind it are the nodes of the
/// list with that node behind them.
pub proof fn lemma_models_push(list: Seq<RExpr>, node: RExpr)
    ensures
        models(list.push(node)) == models(list).push(node.model()),
{
    lemma_models_upto_prefix(list.push(node), list, list.len());
}

/// The list of nodes as mathematical values is as long as the list, and
/// holds each node's value at the node's place.
pub proof fn lemma_models_index(list: Seq<RExpr>, n: nat)
    requires
        n <= list.len(),
    ensures
        models_upto(list, n).len() == n,
        forall|i: int| 0 <= i < n ==> models_upto(list, n)[i] == (#[trigger] list[i]).model(),
    decreases n,
{
    if n > 0 {
        lemma_models_index(list, (n - 1) as nat);
    }
}

} // verus!
