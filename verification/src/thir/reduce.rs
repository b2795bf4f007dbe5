//! The reducer: from the flat lists that a frontend hands over to the tree
//! that the analyzer walks.
//!
//! Every expression becomes a node with the expression's location. Scopes,
//! uses and coercions from the never type are dropped: the node of such an
//! expression has the kind of the expression inside and the location of the
//! expression outside. A block becomes a node with its statements as
//! children, a `let` statement a node of its own.
//!
//! The reducer follows references only backwards, so it ends on every
//! input: a reference to an expression that does not stand before the
//! referring one, or to a block that does not stand before the referring
//! one's, or to nothing at all, ends the reduction as out of bounds.

use vstd::prelude::*;
use vstd::string::StringExecFns;
use crate::analyze::flow::{AnalysisError, ErrorKind};
use crate::thir::arena::{BlockId, ExprId, ExprKind, Param, Pat, PatKind, StmtId, StmtKind, Thir};
use crate::thir::rthir::{
    lemma_models_push,
    models,
    node_model,
    option_model,
    RExpr,
    RExprKind,
    RParam,
    RPatKind,
    RThir,
    Span,
    SpecExpr,
    SpecExprKind,
    SpecPatKind,
    SpecThir,
};

verus! {

/// The reduced form of an optional pattern.
pub open spec fn reduced_pat_option(pat: Option<Box<Pat>>) -> Result<Option<Box<SpecExpr>>, ErrorKind>
    decreases pat, 2nat,
{
    match pat {
        None => Ok(None),
        Some(pat) => match reduced_pat(*pat) {
            Ok(pat) => Ok(Some(Box::new(pat))),
            Err(e) => Err(e),
        },
    }
}

/// `acc` with the reduced forms of the patterns from index `i` on behind it.
pub open spec fn reduced_pats(pats: Seq<Pat>, i: nat, acc: Seq<SpecExpr>) -> Result<Seq<SpecExpr>, ErrorKind>
    decreases pats, pats.len() - i,
{
    if i >= pats.len() {
        Ok(acc)
    } else {
        match reduced_pat(pats[i as int]) {
            Ok(pat) => reduced_pats(pats, i + 1, acc.push(pat)),
            Err(e) => Err(e),
        }
    }
}

/// The reduced form of a pattern's kind.
pub open spec fn reduced_pat_kind(kind: PatKind) -> Result<SpecPatKind, ErrorKind>
    decreases kind, 0nat,
{
    match kind {
        PatKind::Wild => Ok(SpecPatKind::Wild),
        PatKind::AscribeUserType { subpattern } => match reduced_pat(*subpattern) {
            Ok(subpattern) => Ok(SpecPatKind::AscribeUserType { subpattern: Box::new(subpattern) }),
            Err(e) => Err(e),
        },
        PatKind::Binding { var, ty, subpattern, is_primary } => match reduced_pat_option(subpattern) {
            Ok(subpattern) => Ok(SpecPatKind::Binding { var, ty, subpattern, is_primary }),
            Err(e) => Err(e),
        },
        PatKind::Deref { subpattern } => match reduced_pat(*subpattern) {
            Ok(subpattern) => Ok(SpecPatKind::Deref { subpattern: Box::new(subpattern) }),
            Err(e) => Err(e),
        },
        PatKind::DerefPattern { subpattern } => match reduced_pat(*subpattern) {
            Ok(subpattern) => Ok(SpecPatKind::DerefPattern { subpattern: Box::new(subpattern) }),
            Err(e) => Err(e),
        },
        PatKind::Range => Ok(SpecPatKind::Range),
        PatKind::Or { pats } => match reduced_pats(pats@, 0, Seq::empty()) {
            Ok(pats) => Ok(SpecPatKind::Or { pats }),
            Err(e) => Err(e),
        },
        PatKind::Never => Ok(SpecPatKind::Never),
        PatKind::Other => Err(ErrorKind::Unimplemented),
    }
}

/// The reduced form of a pattern: a node that holds the pattern's kind.
pub open spec fn reduced_pat(pat: Pat) -> Result<SpecExpr, ErrorKind>
    decreases pat, 1nat,
{
    match reduced_pat_kind(pat.kind) {
        Ok(kind) => Ok(SpecExpr { kind: SpecExprKind::Pat { kind }, span: pat.span }),
        Err(e) => Err(e),
    }
}

/// The reduced form of the expression `id`, which must stand before `limit`.
pub open spec fn reduced_expr(thir: Thir, id: ExprId, limit: nat) -> Result<SpecExpr, ErrorKind>
    decreases limit, 0nat, 0nat,
{
    if id < limit && id < thir.exprs@.len() {
        match reduced_kind(thir, thir.exprs@[id as int].kind, id as nat) {
            Ok(kind) => Ok(SpecExpr { kind, span: thir.exprs@[id as int].span }),
            Err(e) => Err(e),
        }
    } else {
        Err(ErrorKind::OutOfBounds(id))
    }
}

/// The reduced form of an optional expression.
pub open spec fn reduced_option(thir: Thir, id: Option<ExprId>, limit: nat) -> Result<
    Option<Box<SpecExpr>>,
    ErrorKind,
>
    decreases limit, 0nat, 1nat,
{
    match id {
        None => Ok(None),
        Some(id) => match reduced_expr(thir, id, limit) {
            Ok(expr) => Ok(Some(Box::new(expr))),
            Err(e) => Err(e),
        },
    }
}

/// `acc` with the reduced forms of the expressions `ids` from index `i` on behind it.
pub open spec fn reduced_exprs(thir: Thir, ids: Seq<ExprId>, i: nat, limit: nat, acc: Seq<SpecExpr>) -> Result<
    Seq<SpecExpr>,
    ErrorKind,
>
    decreases limit, 0nat, ids.len() - i + 2,
{
    if i >= ids.len() {
        Ok(acc)
    } else {
        match reduced_expr(thir, ids[i as int], limit) {
            Ok(expr) => reduced_exprs(thir, ids, i + 1, limit, acc.push(expr)),
            Err(e) => Err(e),
        }
    }
}

/// The kind that `wrap` makes of the reduced form of the expression `id`.
pub open spec fn with_child(
    thir: Thir,
    id: ExprId,
    limit: nat,
    wrap: spec_fn(Box<SpecExpr>) -> SpecExprKind,
) -> Result<SpecExprKind, ErrorKind>
    decreases limit, 1nat, 0nat,
{
    match reduced_expr(thir, id, limit) {
        Ok(child) => Ok(wrap(Box::new(child))),
        Err(e) => Err(e),
    }
}

/// The kind that `wrap` makes of the reduced forms of the expressions `lhs` and `rhs`.
pub open spec fn with_children(
    thir: Thir,
    lhs: ExprId,
    rhs: ExprId,
    limit: nat,
    wrap: spec_fn(Box<SpecExpr>, Box<SpecExpr>) -> SpecExprKind,
) -> Result<SpecExprKind, ErrorKind>
    decreases limit, 1nat, 0nat,
{
    match reduced_expr(thir, lhs, limit) {
        Ok(lhs) => match reduced_expr(thir, rhs, limit) {
            Ok(rhs) => Ok(wrap(Box::new(lhs), Box::new(rhs))),
            Err(e) => Err(e),
        },
        Err(e) => Err(e),
    }
}

/// The kind that `wrap` makes of the reduced form of an optional expression.
pub open spec fn with_option(
    thir: Thir,
    id: Option<ExprId>,
    limit: nat,
    wrap: spec_fn(Option<Box<SpecExpr>>) -> SpecExprKind,
) -> Result<SpecExprKind, ErrorKind>
    decreases limit, 1nat, 0nat,
{
    match reduced_option(thir, id, limit) {
        Ok(child) => Ok(wrap(child)),
        Err(e) => Err(e),
    }
}

/// The kind that `wrap` makes of the reduced forms of the expressions `ids`.
pub open spec fn with_list(
    thir: Thir,
    ids: Seq<ExprId>,
    limit: nat,
    wrap: spec_fn(Seq<SpecExpr>) -> SpecExprKind,
) -> Result<SpecExprKind, ErrorKind>
    decreases limit, 1nat, 0nat,
{
    match reduced_exprs(thir, ids, 0, limit, Seq::empty()) {
        Ok(children) => Ok(wrap(children)),
        Err(e) => Err(e),
    }
}

/// The kind of the expression inside a scope, a use or a coercion from the
/// never type.
pub open spec fn reduced_inner(thir: Thir, id: ExprId, limit: nat) -> Result<SpecExprKind, ErrorKind>
    decreases limit, thir.blocks@.len() + 1, 0nat,
{
    if id < limit && id < thir.exprs@.len() {
        reduced_kind(thir, thir.exprs@[id as int].kind, id as nat)
    } else {
        Err(ErrorKind::OutOfBounds(id))
    }
}

/// The reduced form of an expression's kind. The expressions that it
/// refers to must stand before `limit`.
pub open spec fn reduced_kind(thir: Thir, kind: ExprKind, limit: nat) -> Result<SpecExprKind, ErrorKind>
    decreases limit, thir.blocks@.len() + 2, 0nat,
{
    match kind {
        ExprKind::Scope { value } => reduced_inner(thir, value, limit),
        ExprKind::Use { source } => reduced_inner(thir, source, limit),
        ExprKind::NeverToAny { source } => reduced_inner(thir, source, limit),
        ExprKind::Let { expr, pat } => {
            let expr = reduced_expr(thir, expr, limit);
            let pat = reduced_pat(pat);
            if expr is Err {
                Err(expr->Err_0)
            } else if pat is Err {
                Err(pat->Err_0)
            } else {
                Ok(SpecExprKind::LetBinding { expr: Box::new(expr->Ok_0), pat: Box::new(pat->Ok_0) })
            }
        },
        ExprKind::Block { block } => reduced_block(thir, block, limit, thir.blocks@.len()),
        ExprKind::Other => Err(ErrorKind::Unimplemented),
        ExprKind::If { cond, then_expr, else_opt } => {
            let cond = reduced_expr(thir, cond, limit);
            let then_expr = reduced_expr(thir, then_expr, limit);
            let else_opt = reduced_option(thir, else_opt, limit);
            if cond is Err {
                Err(cond->Err_0)
            } else if then_expr is Err {
                Err(then_expr->Err_0)
            } else if else_opt is Err {
                Err(else_opt->Err_0)
            } else {
                Ok(
                    SpecExprKind::If {
                        cond: Box::new(cond->Ok_0),
                        then_expr: Box::new(then_expr->Ok_0),
                        else_opt: else_opt->Ok_0,
                    },
                )
            }
        },
        ExprKind::Call { ty, def_path, args } => with_list(
            thir,
            args@,
            limit,
            |args: Seq<SpecExpr>| SpecExprKind::Call { ty, def_path, args },
        ),
        ExprKind::Deref { arg } => with_child(thir, arg, limit, |arg: Box<SpecExpr>| SpecExprKind::Deref { arg }),
        ExprKind::Binary { op, lhs, rhs } => with_children(
            thir,
            lhs,
            rhs,
            limit,
            |lhs: Box<SpecExpr>, rhs: Box<SpecExpr>| SpecExprKind::Binary { op, lhs, rhs },
        ),
        ExprKind::LogicalOp { op, lhs, rhs } => with_children(
            thir,
            lhs,
            rhs,
            limit,
            |lhs: Box<SpecExpr>, rhs: Box<SpecExpr>| SpecExprKind::LogicalOp { op, lhs, rhs },
        ),
        ExprKind::Unary { op, arg } => with_child(
            thir,
            arg,
            limit,
            |arg: Box<SpecExpr>| SpecExprKind::Unary { op, arg },
        ),
        ExprKind::Cast { source } => with_child(
            thir,
            source,
            limit,
            |source: Box<SpecExpr>| SpecExprKind::Cast { source },
        ),
        ExprKind::PointerCoercion { source } => with_child(
            thir,
            source,
            limit,
            |source: Box<SpecExpr>| SpecExprKind::PointerCoercion { source },
        ),
        ExprKind::Loop { body } => with_child(thir, body, limit, |body: Box<SpecExpr>| SpecExprKind::Loop { body }),
        ExprKind::Assign { lhs, rhs } => with_children(
            thir,
            lhs,
            rhs,
            limit,
            |lhs: Box<SpecExpr>, rhs: Box<SpecExpr>| SpecExprKind::Assign { lhs, rhs },
        ),
        ExprKind::AssignOp { op, lhs, rhs } => with_children(
            thir,
            lhs,
            rhs,
            limit,
            |lhs: Box<SpecExpr>, rhs: Box<SpecExpr>| SpecExprKind::AssignOp { op, lhs, rhs },
        ),
        ExprKind::Field { lhs } => with_child(thir, lhs, limit, |lhs: Box<SpecExpr>| SpecExprKind::Field { lhs }),
        ExprKind::Index { lhs, index } => with_children(
            thir,
            lhs,
            index,
            limit,
            |lhs: Box<SpecExpr>, index: Box<SpecExpr>| SpecExprKind::Index { lhs, index },
        ),
        ExprKind::VarRef { id } => Ok(SpecExprKind::VarRef { id }),
        ExprKind::UpvarRef { var_hir_id } => Ok(SpecExprKind::UpvarRef { var_hir_id }),
        ExprKind::Borrow { arg } => with_child(thir, arg, limit, |arg: Box<SpecExpr>| SpecExprKind::Borrow { arg }),
        ExprKind::AddressOf { arg } => with_child(
            thir,
            arg,
            limit,
            |arg: Box<SpecExpr>| SpecExprKind::AddressOf { arg },
        ),
        ExprKind::Break { value } => with_option(
            thir,
            value,
            limit,
            |value: Option<Box<SpecExpr>>| SpecExprKind::Break { value },
        ),
        ExprKind::Continue => Ok(SpecExprKind::Continue),
        ExprKind::Return { value } => with_option(
            thir,
            value,
            limit,
            |value: Option<Box<SpecExpr>>| SpecExprKind::Return { value },
        ),
        ExprKind::Repeat { value } => with_child(
            thir,
            value,
            limit,
            |value: Box<SpecExpr>| SpecExprKind::Repeat { value },
        ),
        ExprKind::Array { fields } => with_list(
            thir,
            fields@,
            limit,
            |fields: Seq<SpecExpr>| SpecExprKind::Array { fields },
        ),
        ExprKind::Tuple { fields } => with_list(
            thir,
            fields@,
            limit,
            |fields: Seq<SpecExpr>| SpecExprKind::Tuple { fields },
        ),
        ExprKind::PlaceTypeAscription { source } => with_child(
            thir,
            source,
            limit,
            |source: Box<SpecExpr>| SpecExprKind::PlaceTypeAscription { source },
        ),
        ExprKind::ValueTypeAscription { source } => with_child(
            thir,
            source,
            limit,
            |source: Box<SpecExpr>| SpecExprKind::ValueTypeAscription { source },
        ),
        ExprKind::Literal { lit, neg } => Ok(SpecExprKind::Literal { lit, neg }),
        ExprKind::NonHirLiteral => Ok(SpecExprKind::NonHirLiteral),
        ExprKind::ZstLiteral => Ok(SpecExprKind::ZstLiteral),
        ExprKind::NamedConst { def_id } => Ok(SpecExprKind::NamedConst { def_id }),
        ExprKind::ConstParam { def_id } => Ok(SpecExprKind::ConstParam { def_id }),
    }
}

/// The reduced form of the block `block`, which must stand before
/// `block_limit`: a node with the reduced statements and the reduced last
/// expression.
pub open spec fn reduced_block(thir: Thir, block: BlockId, limit: nat, block_limit: nat) -> Result<
    SpecExprKind,
    ErrorKind,
>
    decreases limit, block_limit, 0nat,
{
    if block < block_limit && block < thir.blocks@.len() {
        let stmts = reduced_stmts(thir, thir.blocks@[block as int].stmts@, 0, limit, block as nat, Seq::empty());
        let expr = reduced_option(thir, thir.blocks@[block as int].expr, limit);
        if stmts is Err {
            Err(stmts->Err_0)
        } else if expr is Err {
            Err(expr->Err_0)
        } else {
            Ok(SpecExprKind::Block { stmts: stmts->Ok_0, expr: expr->Ok_0 })
        }
    } else {
        Err(ErrorKind::OutOfBounds(block))
    }
}

/// `acc` with the reduced forms of the statements `ids` from index `i` on behind it.
pub open spec fn reduced_stmts(
    thir: Thir,
    ids: Seq<StmtId>,
    i: nat,
    limit: nat,
    block_limit: nat,
    acc: Seq<SpecExpr>,
) -> Result<Seq<SpecExpr>, ErrorKind>
    decreases limit, block_limit, ids.len() - i + 3,
{
    if i >= ids.len() {
        Ok(acc)
    } else {
        match reduced_stmt(thir, ids[i as int], limit, block_limit) {
            Ok(stmt) => reduced_stmts(thir, ids, i + 1, limit, block_limit, acc.push(stmt)),
            Err(e) => Err(e),
        }
    }
}

/// The reduced form of a `let` statement's else block: a node with the
/// statement's location.
pub open spec fn reduced_else(thir: Thir, else_block: Option<BlockId>, span: Span, limit: nat, block_limit: nat) -> Result<
    Option<Box<SpecExpr>>,
    ErrorKind,
>
    decreases limit, block_limit, 1nat,
{
    match else_block {
        None => Ok(None),
        Some(block) => match reduced_block(thir, block, limit, block_limit) {
            Ok(kind) => Ok(Some(Box::new(SpecExpr { kind, span }))),
            Err(e) => Err(e),
        },
    }
}

/// The reduced form of the statement `id`: the node of its expression, or
/// a node of its own for a `let`. An else block must stand before
/// `block_limit`.
pub open spec fn reduced_stmt(thir: Thir, id: StmtId, limit: nat, block_limit: nat) -> Result<SpecExpr, ErrorKind>
    decreases limit, block_limit, 2nat,
{
    if id < thir.stmts@.len() {
        match thir.stmts@[id as int].kind {
            StmtKind::Expr { expr } => reduced_expr(thir, expr, limit),
            StmtKind::Let { pattern, initializer, else_block, span } => {
                let pattern = reduced_pat(pattern);
                let init = reduced_option(thir, initializer, limit);
                let else_block = reduced_else(thir, else_block, span, limit, block_limit);
                if pattern is Err {
                    Err(pattern->Err_0)
                } else if init is Err {
                    Err(init->Err_0)
                } else if else_block is Err {
                    Err(else_block->Err_0)
                } else {
                    Ok(
                        SpecExpr {
                            kind: SpecExprKind::LetStmt {
                                pattern: Box::new(pattern->Ok_0),
                                init: init->Ok_0,
                                else_block: else_block->Ok_0,
                            },
                            span,
                        },
                    )
                }
            },
        }
    } else {
        Err(ErrorKind::OutOfBounds(id))
    }
}

/// The reduced form of an optional parameter pattern.
pub open spec fn reduced_param(param: Param) -> Result<Option<SpecExpr>, ErrorKind> {
    match param.pat {
        None => Ok(None),
        Some(pat) => match reduced_pat(pat) {
            Ok(pat) => Ok(Some(pat)),
            Err(e) => Err(e),
        },
    }
}

/// `acc` with the reduced forms of the parameters from index `i` on behind it.
pub open spec fn reduced_params(params: Seq<Param>, i: nat, acc: Seq<Option<SpecExpr>>) -> Result<
    Seq<Option<SpecExpr>>,
    ErrorKind,
>
    decreases params.len() - i,
{
    if i >= params.len() {
        Ok(acc)
    } else {
        match reduced_param(params[i as int]) {
            Ok(param) => reduced_params(params, i + 1, acc.push(param)),
            Err(e) => Err(e),
        }
    }
}

/// The reduced form of the body: that of the last expression. A function
/// without expressions has no body.
pub open spec fn reduced_body(thir: Thir) -> Result<Option<SpecExpr>, ErrorKind> {
    if thir.exprs@.len() == 0 {
        Ok(None)
    } else {
        match reduced_expr(thir, (thir.exprs@.len() - 1) as usize, thir.exprs@.len()) {
            Ok(body) => Ok(Some(body)),
            Err(e) => Err(e),
        }
    }
}

/// The reduced form of a function.
pub open spec fn reduced(thir: Thir) -> Result<SpecThir, ErrorKind> {
    let params = reduced_params(thir.params@, 0, Seq::empty());
    let body = reduced_body(thir);
    if params is Err {
        Err(params->Err_0)
    } else if body is Err {
        Err(body->Err_0)
    } else {
        Ok(SpecThir { params: params->Ok_0, body: body->Ok_0 })
    }
}

/// What a reduction comes to as mathematical values.
pub open spec fn node_outcome(res: Result<RExpr, AnalysisError>) -> Result<SpecExpr, ErrorKind> {
    match res {
        Ok(node) => Ok(node.model()),
        Err(e) => Err(e@),
    }
}

/// What the reduction of a kind comes to as mathematical values.
pub open spec fn kind_outcome(res: Result<RExprKind, AnalysisError>) -> Result<SpecExprKind, ErrorKind> {
    match res {
        Ok(kind) => Ok(kind.model()),
        Err(e) => Err(e@),
    }
}

/// What the reduction of a list comes to as mathematical values.
pub open spec fn list_outcome(res: Result<Vec<RExpr>, AnalysisError>) -> Result<Seq<SpecExpr>, ErrorKind> {
    match res {
        Ok(list) => Ok(models(list@)),
        Err(e) => Err(e@),
    }
}

/// What the reduction of an optional child comes to as mathematical values.
pub open spec fn child_outcome(res: Result<Option<Box<RExpr>>, AnalysisError>) -> Result<
    Option<Box<SpecExpr>>,
    ErrorKind,
> {
    match res {
        Ok(Some(child)) => Ok(Some(Box::new(child.model()))),
        Ok(None) => Ok(None),
        Err(e) => Err(e@),
    }
}

/// Reduces a function body to the tree that the analyzer walks.
pub fn reduce_thir(thir: Thir) -> (res: Result<RThir, AnalysisError>)
    ensures
        match reduced(thir) {
            Ok(rthir) => res matches Ok(reduced_thir) && reduced_thir.model() == rthir,
            Err(e) => res matches Err(err) && err@ == e,
        },
{
    let reducer = Reducer::new(thir);
    reducer.reduce()
}

/// A function body under reduction.
#[derive(Debug)]
pub struct Reducer {
    pub thir: Thir,
}

fn copy_span(span: &Span) -> (copy: Span)
    ensures
        copy == *span,
{
    Span { text: span.text.clone() }
}

fn out_of_bounds(id: usize) -> (res: AnalysisError)
    ensures
        res@ == ErrorKind::OutOfBounds(id),
{
    AnalysisError::OutOfBounds(id)
}

impl Reducer {
    /// A reducer for `thir`.
    pub fn new(thir: Thir) -> (reducer: Self)
        ensures
            reducer.thir == thir,
    {
        Self { thir }
    }

    /// The reduced function: its parameters and its body.
    pub fn reduce(&self) -> (res: Result<RThir, AnalysisError>)
        ensures
            match reduced(self.thir) {
                Ok(rthir) => res matches Ok(reduced_thir) && reduced_thir.model() == rthir,
                Err(e) => res matches Err(err) && err@ == e,
            },
    {
        let new_params = match self.reduce_params() {
            Ok(params) => params,
            Err(e) => {
                return Err(e);
            },
        };
        let new_body = match self.reduce_body() {
            Ok(body) => body,
            Err(e) => {
                return Err(e);
            },
        };
        let mut reduced_thir = RThir::new();
        reduced_thir.set_params(new_params);
        reduced_thir.set_body(new_body);
        assert(reduced_thir.model().params =~= reduced_params(self.thir.params@, 0, Seq::empty())->Ok_0);
        Ok(reduced_thir)
    }

    /// The reduced parameters.
    pub fn reduce_params(&self) -> (res: Result<Vec<RParam>, AnalysisError>)
        ensures
            match reduced_params(self.thir.params@, 0, Seq::empty()) {
                Ok(params) => res matches Ok(new_params) && new_params@.len() == params.len() && forall|i: int|
                    0 <= i < params.len() ==> node_model(#[trigger] new_params@[i].pat) == params[i],
                Err(e) => res matches Err(err) && err@ == e,
            },
    {
        let ghost whole = reduced_params(self.thir.params@, 0, Seq::empty());
        let ghost mut acc: Seq<Option<SpecExpr>> = Seq::empty();
        let mut new_params: Vec<RParam> = Vec::new();
        let mut i: usize = 0;
        while i < self.thir.params.len()
            invariant
                i <= self.thir.params@.len(),
                whole == reduced_params(self.thir.params@, 0, Seq::empty()),
                whole == reduced_params(self.thir.params@, i as nat, acc),
                acc.len() == new_params@.len(),
                forall|j: int| 0 <= j < acc.len() ==> node_model(#[trigger] new_params@[j].pat) == acc[j],
            decreases self.thir.params.len() - i,
        {
            let param = match self.reduce_param(&self.thir.params[i]) {
                Ok(param) => param,
                Err(e) => {
                    return Err(e);
                },
            };
            proof {
                acc = acc.push(node_model(param.pat));
            }
            new_params.push(param);
            i += 1;
        }
        Ok(new_params)
    }

    /// The reduced form of a parameter.
    pub fn reduce_param(&self, param: &Param) -> (res: Result<RParam, AnalysisError>)
        ensures
            match reduced_param(*param) {
                Ok(pat) => res matches Ok(new_param) && node_model(new_param.pat) == pat,
                Err(e) => res matches Err(err) && err@ == e,
            },
    {
        match &param.pat {
            Some(pat) => match self.reduce_pattern(pat) {
                Ok(pat) => Ok(RParam::new(Some(pat))),
                Err(e) => Err(e),
            },
            None => Ok(RParam::new(None)),
        }
    }

    /// The reduced form of a pattern.
    pub fn reduce_pattern(&self, pat: &Pat) -> (res: Result<RExpr, AnalysisError>)
        ensures
            node_outcome(res) == reduced_pat(*pat),
        decreases pat, 1nat,
    {
        match self.reduce_pattern_kind(&pat.kind) {
            Ok(kind) => Ok(RExpr::new(RExprKind::Pat { kind }, copy_span(&pat.span))),
            Err(e) => Err(e),
        }
    }

    /// The reduced form of a pattern's kind.
    #[verifier::loop_isolation(false)]
    pub fn reduce_pattern_kind(&self, pat_kind: &PatKind) -> (res: Result<RPatKind, AnalysisError>)
        ensures
            match reduced_pat_kind(*pat_kind) {
                Ok(kind) => res matches Ok(new_kind) && new_kind.model() == kind,
                Err(e) => res matches Err(err) && err@ == e,
            },
        decreases pat_kind, 0nat,
    {
        match pat_kind {
            PatKind::Wild => Ok(RPatKind::Wild),
            PatKind::AscribeUserType { subpattern } => match self.reduce_pattern(subpattern) {
                Ok(subpattern) => Ok(RPatKind::AscribeUserType { subpattern: Box::new(subpattern) }),
                Err(e) => Err(e),
            },
            PatKind::Binding { var, ty, subpattern, is_primary } => {
                let subpattern = match subpattern {
                    Some(pat) => match self.reduce_pattern(pat) {
                        Ok(pat) => Some(Box::new(pat)),
                        Err(e) => {
                            return Err(e);
                        },
                    },
                    None => None,
                };
                Ok(RPatKind::Binding { var: *var, ty: *ty, subpattern, is_primary: *is_primary })
            },
            PatKind::Deref { subpattern } => match self.reduce_pattern(subpattern) {
                Ok(subpattern) => Ok(RPatKind::Deref { subpattern: Box::new(subpattern) }),
                Err(e) => Err(e),
            },
            PatKind::DerefPattern { subpattern } => match self.reduce_pattern(subpattern) {
                Ok(subpattern) => Ok(RPatKind::DerefPattern { subpattern: Box::new(subpattern) }),
                Err(e) => Err(e),
            },
            PatKind::Range => Ok(RPatKind::Range),
            PatKind::Or { pats } => {
                let ghost whole = reduced_pats(pats@, 0, Seq::empty());
                let mut new_pats: Vec<RExpr> = Vec::new();
                let mut i: usize = 0;
                assert(models(new_pats@) =~= Seq::empty());
                while i < pats.len()
                    invariant
                        i <= pats.len(),
                        whole == reduced_pats(pats@, i as nat, models(new_pats@)),
                    decreases pats.len() - i,
                {
                    let pat = match self.reduce_pattern(&pats[i]) {
                        Ok(pat) => pat,
                        Err(e) => {
                            return Err(e);
                        },
                    };
                    proof {
                        lemma_models_push(new_pats@, pat);
                    }
                    new_pats.push(pat);
                    i += 1;
                }
                Ok(RPatKind::Or { pats: new_pats })
            },
            PatKind::Never => Ok(RPatKind::Never),
            PatKind::Other => Err(AnalysisError::Unimplemented(String::from_str("No reduced form for the pattern"))),
        }
    }

    /// The reduced body: the reduced form of the last expression.
    pub fn reduce_body(&self) -> (res: Result<Option<RExpr>, AnalysisError>)
        ensures
            match reduced_body(self.thir) {
                Ok(body) => res matches Ok(new_body) && node_model(new_body) == body,
                Err(e) => res matches Err(err) && err@ == e,
            },
    {
        let n = self.thir.exprs.len();
        if n == 0 {
            return Ok(None);
        }
        match self.reduce_expr(n - 1, n) {
            Ok(body) => Ok(Some(body)),
            Err(e) => Err(e),
        }
    }

    /// The reduced form of the expression `expr_id`, which must stand before `limit`.
    pub fn reduce_expr(&self, expr_id: ExprId, limit: usize) -> (res: Result<RExpr, AnalysisError>)
        ensures
            node_outcome(res) == reduced_expr(self.thir, expr_id, limit as nat),
        decreases limit, 0nat, 0nat,
    {
        if !(expr_id < limit && expr_id < self.thir.exprs.len()) {
            return Err(out_of_bounds(expr_id));
        }
        let expr = &self.thir.exprs[expr_id];
        match self.reduce_expr_kind(&expr.kind, expr_id) {
            Ok(kind) => Ok(RExpr::new(kind, copy_span(&expr.span))),
            Err(e) => Err(e),
        }
    }

    /// The reduced form of the expression `expr_id`, in a box.
    pub fn reduce_boxed(&self, expr_id: ExprId, limit: usize) -> (res: Result<Box<RExpr>, AnalysisError>)
        ensures
            match reduced_expr(self.thir, expr_id, limit as nat) {
                Ok(node) => res matches Ok(boxed) && boxed.model() == node,
                Err(e) => res matches Err(err) && err@ == e,
            },
        decreases limit, 0nat, 1nat,
    {
        match self.reduce_expr(expr_id, limit) {
            Ok(expr) => Ok(Box::new(expr)),
            Err(e) => Err(e),
        }
    }

    /// The reduced form of an optional expression.
    pub fn reduce_option(&self, expr_id: &Option<ExprId>, limit: usize) -> (res: Result<
        Option<Box<RExpr>>,
        AnalysisError,
    >)
        ensures
            child_outcome(res) == reduced_option(self.thir, *expr_id, limit as nat),
        decreases limit, 0nat, 1nat,
    {
        match expr_id {
            Some(expr_id) => match self.reduce_expr(*expr_id, limit) {
                Ok(expr) => Ok(Some(Box::new(expr))),
                Err(e) => Err(e),
            },
            None => Ok(None),
        }
    }

    /// The reduced forms of the expressions `expr_ids`, in order.
    pub fn reduce_exprs(&self, expr_ids: &Vec<ExprId>, limit: usize) -> (res: Result<Vec<RExpr>, AnalysisError>)
        ensures
            list_outcome(res) == reduced_exprs(self.thir, expr_ids@, 0, limit as nat, Seq::empty()),
        decreases limit, 0nat, expr_ids@.len() + 2,
    {
        let ghost whole = reduced_exprs(self.thir, expr_ids@, 0, limit as nat, Seq::empty());
        let mut exprs: Vec<RExpr> = Vec::new();
        let mut i: usize = 0;
        assert(models(exprs@) =~= Seq::empty());
        while i < expr_ids.len()
            invariant
                i <= expr_ids.len(),
                whole == reduced_exprs(self.thir, expr_ids@, 0, limit as nat, Seq::empty()),
                whole == reduced_exprs(self.thir, expr_ids@, i as nat, limit as nat, models(exprs@)),
            decreases expr_ids.len() - i,
        {
            let expr = match self.reduce_expr(expr_ids[i], limit) {
                Ok(expr) => expr,
                Err(e) => {
                    return Err(e);
                },
            };
            proof {
                lemma_models_push(exprs@, expr);
            }
            exprs.push(expr);
            i += 1;
        }
        Ok(exprs)
    }

    /// The reduced form of an expression's kind. The expressions that it
    /// refers to must stand before `limit`.
    pub fn reduce_expr_kind(&self, expr_kind: &ExprKind, limit: usize) -> (res: Result<RExprKind, AnalysisError>)
        ensures
            kind_outcome(res) == reduced_kind(self.thir, *expr_kind, limit as nat),
        decreases limit, self.thir.blocks@.len() + 2, 0nat,
    {
        match expr_kind {
            ExprKind::Scope { value } => self.handle_scope(*value, limit),
            ExprKind::Use { source } => self.handle_use(*source, limit),
            ExprKind::NeverToAny { source } => self.handle_never_to_any(*source, limit),
            ExprKind::Let { expr, pat } => match self.reduce_boxed(*expr, limit) {
                Ok(expr) => match self.reduce_pattern(pat) {
                    Ok(pat) => Ok(RExprKind::LetBinding { expr, pat: Box::new(pat) }),
                    Err(e) => Err(e),
                },
                Err(e) => Err(e),
            },
            ExprKind::Block { block } => self.handle_block(*block, limit, self.thir.blocks.len()),
            ExprKind::Other => Err(
                AnalysisError::Unimplemented(String::from_str("No reduced form for the expression")),
            ),
            ExprKind::If { cond, then_expr, else_opt } => match self.reduce_boxed(*cond, limit) {
                Ok(cond) => match self.reduce_boxed(*then_expr, limit) {
                    Ok(then_expr) => match self.reduce_option(else_opt, limit) {
                        Ok(else_opt) => Ok(RExprKind::If { cond, then_expr, else_opt }),
                        Err(e) => Err(e),
                    },
                    Err(e) => Err(e),
                },
                Err(e) => Err(e),
            },
            ExprKind::Call { ty, def_path, args } => match self.reduce_exprs(args, limit) {
                Ok(args) => Ok(RExprKind::Call { ty: *ty, def_path: def_path.clone(), args }),
                Err(e) => Err(e),
            },
            ExprKind::Deref { arg } => match self.reduce_boxed(*arg, limit) {
                Ok(arg) => Ok(RExprKind::Deref { arg }),
                Err(e) => Err(e),
            },
            ExprKind::Binary { op, lhs, rhs } => match self.reduce_boxed(*lhs, limit) {
                Ok(lhs) => match self.reduce_boxed(*rhs, limit) {
                    Ok(rhs) => Ok(RExprKind::Binary { op: *op, lhs, rhs }),
                    Err(e) => Err(e),
                },
                Err(e) => Err(e),
            },
            ExprKind::LogicalOp { op, lhs, rhs } => match self.reduce_boxed(*lhs, limit) {
                Ok(lhs) => match self.reduce_boxed(*rhs, limit) {
                    Ok(rhs) => Ok(RExprKind::LogicalOp { op: *op, lhs, rhs }),
                    Err(e) => Err(e),
                },
                Err(e) => Err(e),
            },
            ExprKind::Unary { op, arg } => match self.reduce_boxed(*arg, limit) {
                Ok(arg) => Ok(RExprKind::Unary { op: *op, arg }),
                Err(e) => Err(e),
            },
            ExprKind::Cast { source } => match self.reduce_boxed(*source, limit) {
                Ok(source) => Ok(RExprKind::Cast { source }),
                Err(e) => Err(e),
            },
            ExprKind::PointerCoercion { source } => match self.reduce_boxed(*source, limit) {
                Ok(source) => Ok(RExprKind::PointerCoercion { source }),
                Err(e) => Err(e),
            },
            ExprKind::Loop { body } => match self.reduce_boxed(*body, limit) {
                Ok(body) => Ok(RExprKind::Loop { body }),
                Err(e) => Err(e),
            },
            ExprKind::Assign { lhs, rhs } => match self.reduce_boxed(*lhs, limit) {
                Ok(lhs) => match self.reduce_boxed(*rhs, limit) {
                    Ok(rhs) => Ok(RExprKind::Assign { lhs, rhs }),
                    Err(e) => Err(e),
                },
                Err(e) => Err(e),
            },
            ExprKind::AssignOp { op, lhs, rhs } => match self.reduce_boxed(*lhs, limit) {
                Ok(lhs) => match self.reduce_boxed(*rhs, limit) {
                    Ok(rhs) => Ok(RExprKind::AssignOp { op: *op, lhs, rhs }),
                    Err(e) => Err(e),
                },
                Err(e) => Err(e),
            },
            ExprKind::Field { lhs } => match self.reduce_boxed(*lhs, limit) {
                Ok(lhs) => Ok(RExprKind::Field { lhs }),
                Err(e) => Err(e),
            },
            ExprKind::Index { lhs, index } => match self.reduce_boxed(*lhs, limit) {
                Ok(lhs) => match self.reduce_boxed(*index, limit) {
                    Ok(index) => Ok(RExprKind::Index { lhs, index }),
                    Err(e) => Err(e),
                },
                Err(e) => Err(e),
            },
            ExprKind::VarRef { id } => Ok(RExprKind::VarRef { id: *id }),
            ExprKind::UpvarRef { var_hir_id } => Ok(RExprKind::UpvarRef { var_hir_id: *var_hir_id }),
            ExprKind::Borrow { arg } => match self.reduce_boxed(*arg, limit) {
                Ok(arg) => Ok(RExprKind::Borrow { arg }),
                Err(e) => Err(e),
            },
            ExprKind::AddressOf { arg } => match self.reduce_boxed(*arg, limit) {
                Ok(arg) => Ok(RExprKind::AddressOf { arg }),
                Err(e) => Err(e),
            },
            ExprKind::Break { value } => match self.reduce_option(value, limit) {
                Ok(value) => Ok(RExprKind::Break { value }),
                Err(e) => Err(e),
            },
            ExprKind::Continue => Ok(RExprKind::Continue),
            ExprKind::Return { value } => match self.reduce_option(value, limit) {
                Ok(value) => Ok(RExprKind::Return { value }),
                Err(e) => Err(e),
            },
            ExprKind::Repeat { value } => match self.reduce_boxed(*value, limit) {
                Ok(value) => Ok(RExprKind::Repeat { value }),
                Err(e) => Err(e),
            },
            ExprKind::Array { fields } => match self.reduce_exprs(fields, limit) {
                Ok(fields) => Ok(RExprKind::Array { fields }),
                Err(e) => Err(e),
            },
            ExprKind::Tuple { fields } => match self.reduce_exprs(fields, limit) {
                Ok(fields) => Ok(RExprKind::Tuple { fields }),
                Err(e) => Err(e),
            },
            ExprKind::PlaceTypeAscription { source } => match self.reduce_boxed(*source, limit) {
                Ok(source) => Ok(RExprKind::PlaceTypeAscription { source }),
                Err(e) => Err(e),
            },
            ExprKind::ValueTypeAscription { source } => match self.reduce_boxed(*source, limit) {
                Ok(source) => Ok(RExprKind::ValueTypeAscription { source }),
                Err(e) => Err(e),
            },
            ExprKind::Literal { lit, neg } => Ok(RExprKind::Literal { lit: *lit, neg: *neg }),
            ExprKind::NonHirLiteral => Ok(RExprKind::NonHirLiteral),
            ExprKind::ZstLiteral => Ok(RExprKind::ZstLiteral),
            ExprKind::NamedConst { def_id } => Ok(RExprKind::NamedConst { def_id: *def_id }),
            ExprKind::ConstParam { def_id } => Ok(RExprKind::ConstParam { def_id: *def_id }),
        }
    }

    /// The kind of the expression inside a scope.
    pub fn handle_scope(&self, expr_id: ExprId, limit: usize) -> (res: Result<RExprKind, AnalysisError>)
        ensures
            kind_outcome(res) == reduced_inner(self.thir, expr_id, limit as nat),
        decreases limit, self.thir.blocks@.len() + 1, 0nat,
    {
        if !(expr_id < limit && expr_id < self.thir.exprs.len()) {
            return Err(out_of_bounds(expr_id));
        }
        let scope = &self.thir.exprs[expr_id];
        self.reduce_expr_kind(&scope.kind, expr_id)
    }

    /// The kind of the expression inside a use.
    pub fn handle_use(&self, expr_id: ExprId, limit: usize) -> (res: Result<RExprKind, AnalysisError>)
        ensures
            kind_outcome(res) == reduced_inner(self.thir, expr_id, limit as nat),
        decreases limit, self.thir.blocks@.len() + 1, 0nat,
    {
        if !(expr_id < limit && expr_id < self.thir.exprs.len()) {
            return Err(out_of_bounds(expr_id));
        }
        let use_expr = &self.thir.exprs[expr_id];
        self.reduce_expr_kind(&use_expr.kind, expr_id)
    }

    /// The kind of the expression inside a coercion from the never type.
    pub fn handle_never_to_any(&self, expr_id: ExprId, limit: usize) -> (res: Result<RExprKind, AnalysisError>)
        ensures
            kind_outcome(res) == reduced_inner(self.thir, expr_id, limit as nat),
        decreases limit, self.thir.blocks@.len() + 1, 0nat,
    {
        if !(expr_id < limit && expr_id < self.thir.exprs.len()) {
            return Err(out_of_bounds(expr_id));
        }
        let never_to_any = &self.thir.exprs[expr_id];
        self.reduce_expr_kind(&never_to_any.kind, expr_id)
    }

    /// The reduced form of the block `block_id`, which must stand before
    /// `block_limit`.
    pub fn handle_block(&self, block_id: BlockId, limit: usize, block_limit: usize) -> (res: Result<
        RExprKind,
        AnalysisError,
    >)
        ensures
            kind_outcome(res) == reduced_block(self.thir, block_id, limit as nat, block_limit as nat),
        decreases limit, block_limit, 0nat,
    {
        if !(block_id < block_limit && block_id < self.thir.blocks.len()) {
            return Err(out_of_bounds(block_id));
        }
        let block = &self.thir.blocks[block_id];
        let ghost whole = reduced_stmts(self.thir, block.stmts@, 0, limit as nat, block_id as nat, Seq::empty());
        let mut stmts: Vec<RExpr> = Vec::new();
        let mut i: usize = 0;
        assert(models(stmts@) =~= Seq::empty());
        while i < block.stmts.len()
            invariant
                i <= block.stmts.len(),
                block_id < block_limit,
                block_id < self.thir.blocks@.len(),
                *block == self.thir.blocks@[block_id as int],
                whole == reduced_stmts(self.thir, block.stmts@, 0, limit as nat, block_id as nat, Seq::empty()),
                whole == reduced_stmts(
                    self.thir,
                    block.stmts@,
                    i as nat,
                    limit as nat,
                    block_id as nat,
                    models(stmts@),
                ),
            decreases block.stmts.len() - i,
        {
            let stmt = match self.handle_stmt(block.stmts[i], limit, block_id) {
                Ok(stmt) => stmt,
                Err(e) => {
                    return Err(e);
                },
            };
            proof {
                lemma_models_push(stmts@, stmt);
            }
            stmts.push(stmt);
            i += 1;
        }
        let expr = match self.reduce_option(&block.expr, limit) {
            Ok(expr) => expr,
            Err(e) => {
                return Err(e);
            },
        };
        Ok(RExprKind::Block { stmts, expr })
    }

    /// The reduced form of the statement `stmt_id`. An else block must
    /// stand before `block_limit`.
    pub fn handle_stmt(&self, stmt_id: StmtId, limit: usize, block_limit: usize) -> (res: Result<RExpr, AnalysisError>)
        ensures
            node_outcome(res) == reduced_stmt(self.thir, stmt_id, limit as nat, block_limit as nat),
        decreases limit, block_limit, 2nat,
    {
        if stmt_id >= self.thir.stmts.len() {
            return Err(out_of_bounds(stmt_id));
        }
        match &self.thir.stmts[stmt_id].kind {
            StmtKind::Expr { expr } => self.reduce_expr(*expr, limit),
            StmtKind::Let { pattern, initializer, else_block, span } => {
                let pattern = match self.reduce_pattern(pattern) {
                    Ok(pattern) => Box::new(pattern),
                    Err(e) => {
                        return Err(e);
                    },
                };
                let init = match self.reduce_option(initializer, limit) {
                    Ok(init) => init,
                    Err(e) => {
                        return Err(e);
                    },
                };
                let else_block = match else_block {
                    Some(block_id) => match self.handle_block(*block_id, limit, block_limit) {
                        Ok(kind) => Some(Box::new(RExpr::new(kind, copy_span(span)))),
                        Err(e) => {
                            return Err(e);
                        },
                    },
                    None => None,
                };
                let node = RExpr::new(RExprKind::LetStmt { pattern, init, else_block }, copy_span(span));
                assert(node.kind.model() == (SpecExprKind::LetStmt {
                    pattern: Box::new(pattern.model()),
                    init: option_model(init),
                    else_block: option_model(else_block),
                }));
                Ok(node)
            },
        }
    }
}

} // verus!
