//! The constraint encoder, and the statements that bind and assign.

use vstd::prelude::*;
use vstd::string::StringExecFns;
use crate::analyze::env::Env;
use crate::analyze::flow::{AnalysisError, AnalysisType, ErrorKind};
use crate::analyze::model;
use crate::analyze::model::Intrinsic;
use crate::analyze::term::{SmtBinOp, SmtUnOp, Term};
use crate::analyze::text::strings_view;
use crate::analyze::util::{outcome, realizes};
use crate::analyze::Analyzer;
use crate::thir::rthir::{BinOp, Lit, LitKind, LocalVarId, LogicalOp, RExpr, RExprKind, RParam, RPatKind, RThir, Ty, UnOp};

verus! {

/// Declares nothing new: binds `var`, already declared as `name`, to
/// `term`, and assumes the symbol equal to the term.
fn bind_value(env: &mut Env, name: String, var: LocalVarId, term: Term) -> (res: Result<(), AnalysisError>)
    ensures
        res is Ok <==> old(env)@.env_map.contains_key(var),
        res is Ok ==> final(env)@ == model::bound(old(env)@, name@, var, term@),
        res matches Err(e) ==> e@ == ErrorKind::UnboundVariable(var) && final(env)@ == old(env)@,
{
    match env.lookup(var) {
        Some(_) => {},
        None => {
            return Err(AnalysisError::UnboundVariable(var));
        },
    }
    env.add_smt_command(Term::binary(SmtBinOp::Eq, Term::symbol(name), term.clone()));
    env.assign_value(var, term)
}

/// Makes `term` stand for the variable that `lhs` names.
fn assign(lhs: &RExpr, term: Term, env: &mut Env) -> (res: Result<AnalysisType, AnalysisError>)
    ensures
        forall|queries: Seq<Seq<char>>|
            outcome(res) == (#[trigger] model::assigned(*lhs, term@, queries, old(env)@)).res && final(env)@
                == model::assigned(*lhs, term@, queries, old(env)@).env,
{
    match Analyzer::expr_to_var_id(lhs) {
        Some(var) => match env.assign_value(var, term) {
            Ok(()) => Ok(AnalysisType::Other),
            Err(e) => Err(e),
        },
        None => Err(AnalysisError::Unsupported(String::from_str("Assignment target is not a variable"))),
    }
}

impl Analyzer {
    /// The term of a literal expression.
    pub fn analyze_literal(&self, expr: &RExpr) -> (res: Result<Term, AnalysisError>)
        ensures
            match expr.kind {
                RExprKind::Literal { lit, neg } => outcome(res) == model::literal_to_const(lit, neg),
                _ => res matches Err(e) && e@ is Unsupported,
            },
    {
        match &expr.kind {
            RExprKind::Literal { lit, neg } => self.literal_to_const(lit, *neg),
            _ => Err(AnalysisError::Unsupported(String::from_str("Only literals are supported"))),
        }
    }

    /// A binary expression as a statement: it is encoded for what encoding
    /// it does, and its term is dropped.
    pub fn analyze_binary(&self, expr: &RExpr, env: &mut Env, queries: &mut Vec<String>, depth: usize) -> (res:
        Result<(), AnalysisError>)
        ensures
            ({
                let run = model::expr_to_const(
                    self.fn_map@,
                    depth as nat,
                    *expr,
                    strings_view(old(queries)@),
                    old(env)@,
                );
                &&& strings_view(final(queries)@) == run.queries
                &&& final(env)@ == run.env
                &&& res is Ok <==> run.res is Ok
                &&& res matches Err(e) ==> run.res == Err::<crate::analyze::term::SpecTerm, ErrorKind>(e@)
            }),
        decreases depth, expr, 4nat, 0nat,
    {
        match self.expr_to_const(expr, env, queries, depth) {
            Ok(_) => Ok(()),
            Err(e) => Err(e),
        }
    }

    /// The term of a binary operation. Fails on an operator that the solver lacks.
    pub fn binop_to_const(&self, op: BinOp, lhs: Term, rhs: Term) -> (res: Result<Term, AnalysisError>)
        ensures
            outcome(res) == model::binop_to_const(op, lhs@, rhs@),
    {
        match self.bin_op_to_smt(op) {
            Ok(op) => Ok(Term::binary(op, lhs, rhs)),
            Err(e) => Err(e),
        }
    }

    /// The solver's operator for a binary operator of the tree.
    pub fn bin_op_to_smt(&self, op: BinOp) -> (res: Result<SmtBinOp, AnalysisError>)
        ensures
            res matches Ok(smt_op) ==> model::smt_bin_op(op) == Some(smt_op),
            res matches Err(e) ==> model::smt_bin_op(op) is None && e@ is Unsupported,
    {
        match op {
            BinOp::Add => Ok(SmtBinOp::Add),
            BinOp::Sub => Ok(SmtBinOp::Sub),
            BinOp::Mul => Ok(SmtBinOp::Mul),
            BinOp::Div => Ok(SmtBinOp::Div),
            BinOp::Rem => Ok(SmtBinOp::Rem),
            BinOp::Eq => Ok(SmtBinOp::Eq),
            BinOp::Ne => Ok(SmtBinOp::Distinct),
            BinOp::Lt => Ok(SmtBinOp::Lt),
            BinOp::Le => Ok(SmtBinOp::Le),
            BinOp::Gt => Ok(SmtBinOp::Gt),
            BinOp::Ge => Ok(SmtBinOp::Ge),
            _ => Err(AnalysisError::Unsupported(String::from_str("Unsupported operator"))),
        }
    }

    /// The term of a short-circuit operation.
    pub fn logical_op_to_const(&self, op: LogicalOp, lhs: Term, rhs: Term) -> (res: Result<Term, AnalysisError>)
        ensures
            res matches Ok(term) && term@ == model::binary(model::smt_logical_op(op), lhs@, rhs@),
    {
        let logical_op = match op {
            LogicalOp::And => SmtBinOp::And,
            LogicalOp::Or => SmtBinOp::Or,
        };
        Ok(Term::binary(logical_op, lhs, rhs))
    }

    /// The term of a unary operation. Fails on an operator that the solver lacks.
    pub fn unop_to_const(&self, op: UnOp, arg: Term) -> (res: Result<Term, AnalysisError>)
        ensures
            outcome(res) == model::unop_to_const(op, arg@),
    {
        match op {
            UnOp::Not => Ok(Term::unary(SmtUnOp::Not, arg)),
            UnOp::Neg => Ok(Term::unary(SmtUnOp::Neg, arg)),
            _ => Err(
                AnalysisError::Unsupported(String::from_str("Unsupported operator in unary expression")),
            ),
        }
    }

    /// The term of a literal.
    pub fn literal_to_const(&self, lit: &Lit, neg: bool) -> (res: Result<Term, AnalysisError>)
        ensures
            outcome(res) == model::literal_to_const(*lit, neg),
    {
        match lit.node {
            LitKind::Int(value) => Ok(Term::Int { value, neg }),
            LitKind::Bool(_) => Err(
                AnalysisError::Unimplemented(String::from_str("Bool literals are not encoded yet")),
            ),
            LitKind::Float => Err(
                AnalysisError::Unimplemented(String::from_str("Float literals are not encoded yet")),
            ),
            _ => Err(AnalysisError::Unsupported(String::from_str("Only Int literals are supported"))),
        }
    }

    /// Whether a variable can be read: it has a record.
    pub fn analyze_var_ref(&self, expr: &RExpr, env: &Env) -> (res: Result<(), AnalysisError>)
        ensures
            match model::expr_to_var_id(*expr) {
                Some(id) => res is Ok <==> env@.env_map.contains_key(id),
                None => res is Err,
            },
            res matches Err(e) ==> match model::expr_to_var_id(*expr) {
                Some(id) => e@ == ErrorKind::UnboundVariable(id),
                None => e@ is Unsupported,
            },
    {
        match Analyzer::expr_to_var_id(expr) {
            Some(id) => match env.lookup(id) {
                Some(_) => Ok(()),
                None => Err(AnalysisError::UnboundVariable(id)),
            },
            None => Err(AnalysisError::Unsupported(String::from_str("Not a variable"))),
        }
    }

    /// The term that stands for a variable. Fails where the variable has no record.
    pub fn var_ref_to_const(&self, id: LocalVarId, env: &Env) -> (res: Result<Term, AnalysisError>)
        ensures
            outcome(res) == model::var_ref_to_const(id, env@),
    {
        match env.lookup(id) {
            Some(lir) => Ok(lir.get_assume()),
            None => Err(AnalysisError::UnboundVariable(id)),
        }
    }

    /// Binds the parameters of an inlined function to the arguments of the call.
    pub fn analyze_params(
        &self,
        params: &Vec<RParam>,
        args: &Vec<RExpr>,
        env: &mut Env,
        queries: &mut Vec<String>,
        depth: usize,
    ) -> (res: Result<(), AnalysisError>)
        ensures
            realizes(
                model::analyze_params(
                    self.fn_map@,
                    depth as nat,
                    params@,
                    args@,
                    0,
                    strings_view(old(queries)@),
                    old(env)@,
                ),
                res,
                final(queries)@,
                *final(env),
            ),
            args@.len() > 0 && params@.len() > 0 ==> (params@[0].pat matches Some(pat) ==> old(env)@.is_new(
                model::declared_name(old(env)@, pat.span),
            )),
            crate::analyze::growth::keeps(final(env)@, old(env)@),
        decreases depth, args@, 0nat, args@.len(),
    {
        let ghost whole = model::analyze_params(
            self.fn_map@,
            depth as nat,
            params@,
            args@,
            0,
            strings_view(queries@),
            env@,
        );
        proof {
            crate::analyze::growth::lemma_analyze_params(
                self.fn_map@,
                depth as nat,
                params@,
                args@,
                0,
                strings_view(queries@),
                env@,
            );
            if args@.len() > 0 && params@.len() > 0 {
                if params@[0].pat is Some {
                    crate::analyze::laws::lemma_declared_symbols_are_new(
                        env@,
                        params@[0].pat->Some_0.span,
                        Seq::empty(),
                    );
                }
            }
        }
        let mut i: usize = 0;
        while i < params.len() && i < args.len()
            invariant
                args@.len() > 0 && params@.len() > 0 ==> (params@[0].pat matches Some(pat) ==> old(env)@.is_new(
                    model::declared_name(old(env)@, pat.span),
                )),
                crate::analyze::growth::keeps(whole.env, old(env)@),
                whole == model::analyze_params(self.fn_map@, depth as nat, params@, args@, 0, strings_view(old(queries)@), old(env)@),
                whole == model::analyze_params(
                    self.fn_map@,
                    depth as nat,
                    params@,
                    args@,
                    i as nat,
                    strings_view(queries@),
                    env@,
                ),
            decreases args.len() - i,
        {
            match &params[i].pat {
                None => {},
                Some(pat) => match &pat.kind {
                    RExprKind::Pat { kind: RPatKind::Binding { var, ty, .. } } => {
                        let base = env.symbol_base("", &pat.span);
                        let name = env.fresh_symbol(base.as_str());
                        env.add_param(name.clone(), *ty, *var);
                        let term = match self.expr_to_const(&args[i], env, queries, depth) {
                            Ok(term) => term,
                            Err(e) => {
                                return Err(e);
                            },
                        };
                        match bind_value(env, name, *var, term) {
                            Ok(()) => {},
                            Err(e) => {
                                return Err(e);
                            },
                        }
                    },
                    _ => {
                        return Err(
                            AnalysisError::Unsupported(String::from_str("Unsupported pattern in parameter")),
                        );
                    },
                },
            }
            i += 1;
        }
        Ok(())
    }

    /// The term of a conditional expression.
    pub fn if_to_const(&self, expr: &RExpr, env: &mut Env, queries: &mut Vec<String>, depth: usize) -> (res:
        Result<Term, AnalysisError>)
        ensures
            realizes(
                model::if_to_const(self.fn_map@, depth as nat, *expr, strings_view(old(queries)@), old(env)@),
                res,
                final(queries)@,
                *final(env),
            ),
        decreases depth, expr, 2nat, 0nat,
    {
        match &expr.kind {
            RExprKind::If { cond, then_expr, else_opt: Some(else_expr) } => {
                let guard = match self.expr_to_const(cond, env, queries, depth) {
                    Ok(guard) => guard,
                    Err(e) => {
                        return Err(e);
                    },
                };
                let mut then_env = match env.new_env_from_str("then", &then_expr.span) {
                    Ok(then_env) => then_env,
                    Err(e) => {
                        return Err(e);
                    },
                };
                then_env.add_smt_command(guard.clone());
                let then_term = match self.expr_to_const(then_expr, &mut then_env, queries, depth) {
                    Ok(term) => term,
                    Err(e) => {
                        return Err(e);
                    },
                };
                let mut else_env = match env.new_env_from_str("else", &else_expr.span) {
                    Ok(else_env) => else_env,
                    Err(e) => {
                        return Err(e);
                    },
                };
                else_env.add_smt_command(Term::not(guard.clone()));
                let else_term = match self.expr_to_const(else_expr, &mut else_env, queries, depth) {
                    Ok(term) => term,
                    Err(e) => {
                        return Err(e);
                    },
                };
                match env.merge_ite_env(&guard, then_env, Some(else_env)) {
                    Ok(()) => {},
                    Err(e) => {
                        return Err(e);
                    },
                }
                Ok(Term::ite(guard, then_term, else_term))
            },
            _ => Err(AnalysisError::Unsupported(String::from_str("No else expression in if expression"))),
        }
    }

    /// The term of an expression. Encoding may pose scripts and change the
    /// environment, where the expression holds blocks or calls.
    pub fn expr_to_const(&self, expr: &RExpr, env: &mut Env, queries: &mut Vec<String>, depth: usize) -> (res:
        Result<Term, AnalysisError>)
        ensures
            realizes(
                model::expr_to_const(self.fn_map@, depth as nat, *expr, strings_view(old(queries)@), old(env)@),
                res,
                final(queries)@,
                *final(env),
            ),
        decreases depth, expr, 3nat, 0nat,
    {
        match &expr.kind {
            RExprKind::Literal { lit, neg } => self.literal_to_const(lit, *neg),
            RExprKind::Binary { op, lhs, rhs } => {
                let lhs = match self.expr_to_const(lhs, env, queries, depth) {
                    Ok(term) => term,
                    Err(e) => {
                        return Err(e);
                    },
                };
                let rhs = match self.expr_to_const(rhs, env, queries, depth) {
                    Ok(term) => term,
                    Err(e) => {
                        return Err(e);
                    },
                };
                self.binop_to_const(*op, lhs, rhs)
            },
            RExprKind::LogicalOp { op, lhs, rhs } => {
                let lhs = match self.expr_to_const(lhs, env, queries, depth) {
                    Ok(term) => term,
                    Err(e) => {
                        return Err(e);
                    },
                };
                let rhs = match self.expr_to_const(rhs, env, queries, depth) {
                    Ok(term) => term,
                    Err(e) => {
                        return Err(e);
                    },
                };
                self.logical_op_to_const(*op, lhs, rhs)
            },
            RExprKind::Unary { op, arg } => {
                let arg = match self.expr_to_const(arg, env, queries, depth) {
                    Ok(term) => term,
                    Err(e) => {
                        return Err(e);
                    },
                };
                self.unop_to_const(*op, arg)
            },
            RExprKind::If { .. } => self.if_to_const(expr, env, queries, depth),
            RExprKind::Block { .. } => self.block_to_const(expr, env, queries, depth),
            RExprKind::VarRef { id } => self.var_ref_to_const(*id, env),
            RExprKind::Call { .. } => self.fn_to_const(expr, env, queries, depth),
            _ => Err(AnalysisError::Unsupported(String::from_str("Unsupported expression"))),
        }
    }

    /// The term of a block.
    pub fn block_to_const(&self, block: &RExpr, env: &mut Env, queries: &mut Vec<String>, depth: usize) -> (res:
        Result<Term, AnalysisError>)
        ensures
            realizes(
                model::block_to_const(self.fn_map@, depth as nat, *block, strings_view(old(queries)@), old(env)@),
                res,
                final(queries)@,
                *final(env),
            ),
        decreases depth, block, 2nat, 0nat,
    {
        match &block.kind {
            RExprKind::Block { stmts, expr } => match self.run_stmts(stmts, env, queries, depth) {
                Err(e) => Err(e),
                Ok(AnalysisType::Return(Some(term))) => Ok(term),
                Ok(AnalysisType::Return(None)) => Ok(Term::Empty),
                Ok(AnalysisType::Break) => Ok(Term::Empty),
                Ok(AnalysisType::Other) => match expr {
                    Some(expr) => self.expr_to_const(expr, env, queries, depth),
                    None => Ok(Term::Empty),
                },
            },
            _ => Err(AnalysisError::Unsupported(String::from_str("Unknown block expression type"))),
        }
    }

    /// A `let` statement.
    pub fn analyze_let_stmt(&self, expr: &RExpr, env: &mut Env, queries: &mut Vec<String>, depth: usize) -> (res:
        Result<AnalysisType, AnalysisError>)
        ensures
            realizes(
                model::analyze_let_stmt(
                    self.fn_map@,
                    depth as nat,
                    *expr,
                    strings_view(old(queries)@),
                    old(env)@,
                ),
                res,
                final(queries)@,
                *final(env),
            ),
            expr.kind matches RExprKind::LetStmt { pattern, .. } ==> old(env)@.is_new(
                model::declared_name(old(env)@, pattern.span),
            ),
            crate::analyze::growth::keeps(final(env)@, old(env)@),
        decreases depth, expr, 2nat, 0nat,
    {
        proof {
            crate::analyze::growth::lemma_analyze_let_stmt(
                self.fn_map@,
                depth as nat,
                *expr,
                strings_view(queries@),
                env@,
            );
            if expr.kind is LetStmt {
                crate::analyze::laws::lemma_declared_symbols_are_new(env@, expr.kind->pattern.span, Seq::empty());
            }
        }
        match &expr.kind {
            RExprKind::LetStmt { pattern, init, else_block } => match &pattern.kind {
                RExprKind::Pat { kind: RPatKind::Binding { var, ty, .. } } => {
                    let base = env.symbol_base("", &pattern.span);
                    let name = env.fresh_symbol(base.as_str());
                    env.add_param(name.clone(), *ty, *var);
                    match init {
                        None => {},
                        Some(init) => match self.expr_to_const(init, env, queries, depth) {
                            Ok(term) => match bind_value(env, name, *var, term) {
                                Ok(()) => {},
                                Err(e) => {
                                    return Err(e);
                                },
                            },
                            Err(AnalysisError::RandFunctions) => {
                                match env.lookup(*var) {
                                    Some(_) => {},
                                    None => {
                                        return Err(AnalysisError::UnboundVariable(*var));
                                    },
                                }
                                let rand_base = env.symbol_base("rand_", &pattern.span);
                                let rand_name = env.fresh_symbol(rand_base.as_str());
                                env.add_random_var(*ty, rand_name.clone());
                                match env.assign_value(*var, Term::symbol(rand_name)) {
                                    Ok(()) => {},
                                    Err(e) => {
                                        return Err(e);
                                    },
                                }
                            },
                            Err(e) => {
                                return Err(e);
                            },
                        },
                    }
                    match else_block {
                        Some(else_block) => match self.analyze_block(else_block, env, queries, depth) {
                            Ok(()) => {},
                            Err(e) => {
                                return Err(e);
                            },
                        },
                        None => {},
                    }
                    Ok(AnalysisType::Other)
                },
                _ => Err(AnalysisError::Unsupported(String::from_str("Unsupported pattern in let statement"))),
            },
            _ => Err(AnalysisError::Unsupported(String::from_str("Unsupported expression in let statement"))),
        }
    }

    /// An assignment.
    pub fn analyze_assign(&self, expr: &RExpr, env: &mut Env, queries: &mut Vec<String>, depth: usize) -> (res:
        Result<AnalysisType, AnalysisError>)
        ensures
            realizes(
                model::analyze_assign(self.fn_map@, depth as nat, *expr, strings_view(old(queries)@), old(env)@),
                res,
                final(queries)@,
                *final(env),
            ),
        decreases depth, expr, 2nat, 0nat,
    {
        match &expr.kind {
            RExprKind::Assign { lhs, rhs } => {
                let term = match self.expr_to_const(rhs, env, queries, depth) {
                    Ok(term) => term,
                    Err(e) => {
                        return Err(e);
                    },
                };
                assign(lhs, term, env)
            },
            _ => Err(AnalysisError::Unsupported(String::from_str("Not an assignment"))),
        }
    }

    /// A compound assignment.
    pub fn analyze_assign_op(&self, expr: &RExpr, env: &mut Env, queries: &mut Vec<String>, depth: usize) -> (res:
        Result<AnalysisType, AnalysisError>)
        ensures
            realizes(
                model::analyze_assign_op(
                    self.fn_map@,
                    depth as nat,
                    *expr,
                    strings_view(old(queries)@),
                    old(env)@,
                ),
                res,
                final(queries)@,
                *final(env),
            ),
        decreases depth, expr, 2nat, 0nat,
    {
        match &expr.kind {
            RExprKind::AssignOp { op, lhs, rhs } => {
                let lhs_term = match self.expr_to_const(lhs, env, queries, depth) {
                    Ok(term) => term,
                    Err(e) => {
                        return Err(e);
                    },
                };
                let rhs_term = match self.expr_to_const(rhs, env, queries, depth) {
                    Ok(term) => term,
                    Err(e) => {
                        return Err(e);
                    },
                };
                let term = match self.binop_to_const(*op, lhs_term, rhs_term) {
                    Ok(term) => term,
                    Err(e) => {
                        return Err(e);
                    },
                };
                assign(lhs, term, env)
            },
            _ => Err(AnalysisError::Unsupported(String::from_str("Not a compound assignment"))),
        }
    }

    /// A conditional as a statement.
    pub fn analyze_if(&self, expr: &RExpr, env: &mut Env, queries: &mut Vec<String>, depth: usize) -> (res: Result<
        AnalysisType,
        AnalysisError,
    >)
        ensures
            realizes(
                model::analyze_if(self.fn_map@, depth as nat, *expr, strings_view(old(queries)@), old(env)@),
                res,
                final(queries)@,
                *final(env),
            ),
        decreases depth, expr, 2nat, 0nat,
    {
        match &expr.kind {
            RExprKind::If { cond, then_expr, else_opt } => {
                let guard = match self.expr_to_const(cond, env, queries, depth) {
                    Ok(guard) => guard,
                    Err(e) => {
                        return Err(e);
                    },
                };
                let mut then_env = match env.new_env_from_str("then", &then_expr.span) {
                    Ok(then_env) => then_env,
                    Err(e) => {
                        return Err(e);
                    },
                };
                then_env.add_smt_command(guard.clone());
                match self.analyze_block(then_expr, &mut then_env, queries, depth) {
                    Ok(()) => {},
                    Err(e) => {
                        return Err(e);
                    },
                }
                let else_env = match else_opt {
                    Some(else_expr) => {
                        let mut else_env = match env.new_env_from_str("else", &else_expr.span) {
                            Ok(else_env) => else_env,
                            Err(e) => {
                                return Err(e);
                            },
                        };
                        else_env.add_smt_command(Term::not(guard.clone()));
                        match self.analyze_block(else_expr, &mut else_env, queries, depth) {
                            Ok(()) => {},
                            Err(e) => {
                                return Err(e);
                            },
                        }
                        Some(else_env)
                    },
                    None => None,
                };
                match env.merge_ite_env(&guard, then_env, else_env) {
                    Ok(()) => Ok(AnalysisType::Other),
                    Err(e) => Err(e),
                }
            },
            _ => Err(AnalysisError::Unsupported(String::from_str("Not a conditional"))),
        }
    }

    /// A block run for its effects alone.
    pub fn analyze_block(&self, block: &RExpr, env: &mut Env, queries: &mut Vec<String>, depth: usize) -> (res:
        Result<(), AnalysisError>)
        ensures
            realizes(
                model::analyze_block(self.fn_map@, depth as nat, *block, strings_view(old(queries)@), old(env)@),
                res,
                final(queries)@,
                *final(env),
            ),
        decreases depth, block, 3nat, 0nat,
    {
        match self.analyze_body(block, env, queries, depth) {
            Ok(_) => Ok(()),
            Err(e) => Err(e),
        }
    }

    /// A call as a statement.
    pub fn analyze_fn(&self, expr: &RExpr, env: &mut Env, queries: &mut Vec<String>, depth: usize) -> (res: Result<
        AnalysisType,
        AnalysisError,
    >)
        ensures
            realizes(
                model::analyze_fn(self.fn_map@, depth as nat, *expr, strings_view(old(queries)@), old(env)@),
                res,
                final(queries)@,
                *final(env),
            ),
        decreases depth, expr, 2nat, 0nat,
    {
        match &expr.kind {
            RExprKind::Call { ty: Ty::FnDef(def_id), def_path, args } => match self.get_local_fn(def_id) {
                Err(e) => Err(e),
                Ok(Some(fn_thir)) => self.analyze_local_fn(fn_thir, args, env, queries, depth),
                Ok(None) => {
                    let fn_info = self.get_fn_info(def_path.as_str());
                    self.analyze_annotate_fn(&fn_info, args, env, queries, depth)
                },
            },
            _ => Err(AnalysisError::Unsupported(String::from_str("FnDef is not found"))),
        }
    }

    /// An inlined call as a statement.
    pub fn analyze_local_fn(
        &self,
        rthir: &RThir,
        args: &Vec<RExpr>,
        env: &mut Env,
        queries: &mut Vec<String>,
        depth: usize,
    ) -> (res: Result<AnalysisType, AnalysisError>)
        ensures
            realizes(
                model::analyze_local_fn(
                    self.fn_map@,
                    depth as nat,
                    *rthir,
                    args@,
                    strings_view(old(queries)@),
                    old(env)@,
                ),
                res,
                final(queries)@,
                *final(env),
            ),
        decreases depth, args@, 1nat, 0nat,
    {
        if depth == 0 {
            return Err(AnalysisError::Unsupported(String::from_str("Recursive call")));
        }
        match self.analyze_params(&rthir.params, args, env, queries, depth) {
            Ok(()) => {},
            Err(e) => {
                return Err(e);
            },
        }
        match &rthir.body {
            Some(body) => match self.analyze_body(body, env, queries, depth - 1) {
                Ok(_) => Ok(AnalysisType::Other),
                Err(e) => Err(e),
            },
            None => Err(AnalysisError::Unsupported(String::from_str("The function has no body"))),
        }
    }

    /// A call of an intrinsic as a statement.
    pub fn analyze_annotate_fn(
        &self,
        fn_info: &Vec<String>,
        args: &Vec<RExpr>,
        env: &mut Env,
        queries: &mut Vec<String>,
        depth: usize,
    ) -> (res: Result<AnalysisType, AnalysisError>)
        ensures
            realizes(
                model::analyze_annotate_fn(
                    self.fn_map@,
                    depth as nat,
                    strings_view(fn_info@),
                    args@,
                    strings_view(old(queries)@),
                    old(env)@,
                ),
                res,
                final(queries)@,
                *final(env),
            ),
        decreases depth, args@, 1nat, 0nat,
    {
        match Analyzer::intrinsic(fn_info) {
            Ok(Intrinsic::Assert) => self.analyze_assert(args, env, queries, depth),
            Ok(Intrinsic::Assume) => self.analyze_assume(args, env, queries, depth),
            Ok(Intrinsic::Invariant) => self.analyze_invariant(args, env, queries, depth),
            Ok(Intrinsic::Drop) => self.analyze_drop(args, env),
            Ok(_) => Err(
                AnalysisError::Unsupported(
                    String::from_str("A nondeterministic value outside a let initializer"),
                ),
            ),
            Err(e) => Err(e),
        }
    }

    /// The term of a call.
    pub fn fn_to_const(&self, expr: &RExpr, env: &mut Env, queries: &mut Vec<String>, depth: usize) -> (res:
        Result<Term, AnalysisError>)
        ensures
            realizes(
                model::fn_to_const(self.fn_map@, depth as nat, *expr, strings_view(old(queries)@), old(env)@),
                res,
                final(queries)@,
                *final(env),
            ),
        decreases depth, expr, 2nat, 0nat,
    {
        match &expr.kind {
            RExprKind::Call { ty: Ty::FnDef(def_id), def_path, args } => match self.get_local_fn(def_id) {
                Err(e) => Err(e),
                Ok(Some(fn_thir)) => self.local_fn_to_const(fn_thir, args, env, queries, depth),
                Ok(None) => {
                    let fn_info = self.get_fn_info(def_path.as_str());
                    self.annotate_fn_to_const(&fn_info)
                },
            },
            _ => Err(AnalysisError::Unsupported(String::from_str("FnDef is not found"))),
        }
    }

    /// The term of an inlined call.
    pub fn local_fn_to_const(
        &self,
        rthir: &RThir,
        args: &Vec<RExpr>,
        env: &mut Env,
        queries: &mut Vec<String>,
        depth: usize,
    ) -> (res: Result<Term, AnalysisError>)
        ensures
            realizes(
                model::local_fn_to_const(
                    self.fn_map@,
                    depth as nat,
                    *rthir,
                    args@,
                    strings_view(old(queries)@),
                    old(env)@,
                ),
                res,
                final(queries)@,
                *final(env),
            ),
        decreases depth, args@, 1nat, 0nat,
    {
        if depth == 0 {
            return Err(AnalysisError::Unsupported(String::from_str("Recursive call")));
        }
        match self.analyze_params(&rthir.params, args, env, queries, depth) {
            Ok(()) => {},
            Err(e) => {
                return Err(e);
            },
        }
        match &rthir.body {
            Some(body) => self.block_to_const(body, env, queries, depth - 1),
            None => Err(AnalysisError::Unsupported(String::from_str("The function has no body"))),
        }
    }

    /// What a call of an intrinsic gives as a term.
    pub fn annotate_fn_to_const(&self, fn_info: &Vec<String>) -> (res: Result<Term, AnalysisError>)
        ensures
            outcome(res) == model::annotate_fn_to_const(strings_view(fn_info@)),
    {
        match Analyzer::intrinsic(fn_info) {
            Ok(Intrinsic::RandInt) => Err(AnalysisError::RandFunctions),
            Ok(Intrinsic::RandBool) => Err(AnalysisError::RandFunctions),
            Ok(Intrinsic::RandFloat) => Err(AnalysisError::RandFunctions),
            Ok(_) => Err(AnalysisError::Unsupported(String::from_str("The annotation has no value"))),
            Err(e) => Err(e),
        }
    }
}

} // verus!
