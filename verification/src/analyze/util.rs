//! Lookups and names.

use vstd::prelude::*;
use vstd::string::StringExecFns;
use crate::analyze::flow::{AnalysisError, ErrorKind};
use crate::analyze::model;
use crate::analyze::model::Intrinsic;
use crate::analyze::text::{push_char, push_sanitized, sanitize, str_equal, strings_view};
use crate::analyze::Analyzer;
use crate::thir::rthir::{DefId, LocalDefId, LocalVarId, RExpr, RExprKind, RThir, Span};

verus! {

/// What a result comes to as mathematical values.
pub open spec fn outcome<T: View>(res: Result<T, AnalysisError>) -> Result<T::V, ErrorKind> {
    match res {
        Ok(value) => Ok(value@),
        Err(e) => Err(e@),
    }
}

impl Analyzer {
    /// The function `id` of the table.
    pub fn get_fn(&self, id: LocalDefId) -> (res: Result<&RThir, AnalysisError>)
        ensures
            res is Ok <==> self.fn_map@.contains_key(id.local_def_index),
            res matches Ok(rthir) ==> *rthir == self.fn_map@[id.local_def_index],
            res matches Err(e) ==> e@ == ErrorKind::FunctionNotFound(id),
    {
        match self.fn_map.get(&id.local_def_index) {
            Some(rthir) => Ok(rthir),
            None => Err(AnalysisError::FunctionNotFound(id)),
        }
    }

    /// The function that `def_id` names, where it belongs to the analysed
    /// crate: such a function must be in the table. `None` for a function of
    /// another crate.
    pub fn get_local_fn(&self, def_id: &DefId) -> (res: Result<Option<&RThir>, AnalysisError>)
        ensures
            res is Ok <==> (def_id.is_local() ==> self.fn_map@.contains_key(def_id.index)),
            res matches Ok(found) ==> (found is Some <==> def_id.is_local()),
            res matches Ok(Some(rthir)) ==> *rthir == self.fn_map@[def_id.index],
            res matches Err(e) ==> e@ == ErrorKind::FunctionNotFound(def_id.expect_local()),
    {
        if def_id.is_local() {
            match self.get_fn(def_id.expect_local()) {
                Ok(rthir) => Ok(Some(rthir)),
                Err(e) => Err(e),
            }
        } else {
            Ok(None)
        }
    }

    /// The segments of a definition path: what stands between its colons,
    /// quotes and backslashes, empty pieces left out.
    pub fn get_fn_info(&self, def_path: &str) -> (info: Vec<String>)
        ensures
            strings_view(info@) == model::fn_info(def_path@),
    {
        let n = def_path.unicode_len();
        let mut parts: Vec<String> = Vec::new();
        let mut current = String::new();
        let mut filled: usize = 0;
        let mut i: usize = 0;
        assert(strings_view(parts@) =~= Seq::empty());
        while i < n
            invariant
                n == def_path@.len(),
                i <= n,
                filled == current@.len(),
                filled <= i,
                (strings_view(parts@), current@) == model::scan_path(def_path@, i as nat),
            decreases n - i,
        {
            let c = def_path.get_char(i);
            if c == ':' || c == '"' || c == '\\' {
                if filled > 0 {
                    let ghost before = strings_view(parts@);
                    parts.push(current);
                    assert(strings_view(parts@) =~= before.push(current@));
                    current = String::new();
                    filled = 0;
                }
            } else {
                push_char(&mut current, c);
                filled += 1;
            }
            i += 1;
        }
        if filled > 0 {
            let ghost before = strings_view(parts@);
            parts.push(current);
            assert(strings_view(parts@) =~= before.push(current@));
        }
        parts
    }

    /// The intrinsic that the segments of a definition path name.
    pub fn intrinsic(fn_info: &Vec<String>) -> (res: Result<Intrinsic, AnalysisError>)
        ensures
            outcome_of_intrinsic(res) == model::intrinsic_of(strings_view(fn_info@)),
    {
        if fn_info.len() == 0 {
            return Err(AnalysisError::OutOfBounds(0));
        }
        if !str_equal(fn_info[0].as_str(), "verify_modules") {
            return Err(AnalysisError::Unsupported(String::from_str("Unknown extern function")));
        }
        if fn_info.len() < 2 {
            return Err(AnalysisError::OutOfBounds(1));
        }
        let name = fn_info[1].as_str();
        if str_equal(name, "Vassert") {
            Ok(Intrinsic::Assert)
        } else if str_equal(name, "Vassume") {
            Ok(Intrinsic::Assume)
        } else if str_equal(name, "Vinvariant") {
            Ok(Intrinsic::Invariant)
        } else if str_equal(name, "Vdrop") {
            Ok(Intrinsic::Drop)
        } else if str_equal(name, "Vrand_int") {
            Ok(Intrinsic::RandInt)
        } else if str_equal(name, "Vrand_bool") {
            Ok(Intrinsic::RandBool)
        } else if str_equal(name, "Vrand_float") {
            Ok(Intrinsic::RandFloat)
        } else {
            Err(AnalysisError::Unsupported(String::from_str("Unknown annotation")))
        }
    }

    /// The symbol that names a source location: its text, with an underscore
    /// for every character that is not alphanumeric.
    pub fn get_name_from_span(span: &Span) -> (name: String)
        ensures
            name@ == model::span_name(*span),
    {
        let mut name = String::new();
        push_sanitized(&mut name, span.text.as_str());
        assert(Seq::<char>::empty() + sanitize(span.text@) =~= sanitize(span.text@));
        name
    }

    /// The variable that the left side of an assignment names: the variable
    /// itself, or the variable behind one dereference.
    pub fn expr_to_var_id(expr: &RExpr) -> (id: Option<LocalVarId>)
        ensures
            id == model::expr_to_var_id(*expr),
    {
        match &expr.kind {
            RExprKind::VarRef { id } => Some(*id),
            RExprKind::Deref { arg } => match &arg.kind {
                RExprKind::VarRef { id } => Some(*id),
                _ => None,
            },
            _ => None,
        }
    }
}

/// Whether a step of the analyzer did what `run` says: it left the scripts
/// and the environment of `run`, and came to its result.
pub open spec fn realizes<T: View>(
    run: model::Run<T::V>,
    res: Result<T, AnalysisError>,
    queries: Seq<String>,
    env: crate::analyze::env::Env,
) -> bool {
    &&& strings_view(queries) == run.queries
    &&& env@ == run.env
    &&& outcome(res) == run.res
}

/// What the recognition of an intrinsic comes to as mathematical values.
pub open spec fn outcome_of_intrinsic(res: Result<Intrinsic, AnalysisError>) -> Result<Intrinsic, ErrorKind> {
    match res {
        Ok(intrinsic) => Ok(intrinsic),
        Err(e) => Err(e@),
    }
}

} // verus!
