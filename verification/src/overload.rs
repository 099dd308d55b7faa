//! Function-overload resolution: pick the best-matching signature for a
//! call's argument types.  The scan is greedy and left-to-right, not a
//! guaranteed globally-optimal match; that behaviour is intentional,
//! since downstream diagnostics depend on the existing tie-break.

use vstd::prelude::*;
use crate::db::DbIndex;
use crate::types::{InferFailReason, LuaType};
use crate::strutil::str_eq;

verus! {

/// One declared parameter: its name (`...` marks a variadic tail) and
/// its declared type, absent meaning "any".
#[derive(Debug)]
pub struct LuaParamInfo {
    pub name: String,
    pub ty: Option<LuaType>,
}

impl Clone for LuaParamInfo {
    fn clone(&self) -> (r: Self)
        ensures
            r == *self,
    {
        LuaParamInfo { name: self.name.clone(), ty: self.ty }
    }
}

/// One candidate signature of an overloaded function.
#[derive(Debug)]
pub struct LuaFunctionType {
    /// Whether the signature was defined with the colon convention (an
    /// implicit `self` parameter).
    pub is_colon_define: bool,
    pub params: Vec<LuaParamInfo>,
}

/// Two signatures with the same convention and the same parameters.
pub open spec fn fn_type_like(a: LuaFunctionType, b: LuaFunctionType) -> bool {
    a.is_colon_define == b.is_colon_define && a.params@ == b.params@
}

impl Clone for LuaFunctionType {
    fn clone(&self) -> (r: Self)
        ensures
            fn_type_like(r, *self),
    {
        let mut ps: Vec<LuaParamInfo> = Vec::new();
        let mut i: usize = 0;
        while i < self.params.len()
            invariant
                i <= self.params@.len(),
                ps@ == self.params@.take(i as int),
            decreases self.params@.len() - i,
        {
            ps.push(self.params[i].clone());
            proof {
                assert(ps@ =~= self.params@.take(i + 1 as int));
            }
            i += 1;
        }
        proof {
            assert(self.params@.take(self.params@.len() as int) =~= self.params@);
        }
        LuaFunctionType { is_colon_define: self.is_colon_define, params: ps }
    }
}

impl LuaFunctionType {
    pub fn get_params(&self) -> (r: &Vec<LuaParamInfo>)
        ensures
            r == &self.params,
    {
        &self.params
    }

    pub fn is_colon_define(&self) -> (r: bool)
        ensures
            r == self.is_colon_define,
    {
        self.is_colon_define
    }
}

/// How well an argument fits a parameter.
#[derive(Debug, Clone, Copy, PartialEq, Eq, Structural)]
pub enum ParamMatchResult {
    NotMatch,
    AnyMatch,
    TypeMatch,
}

/// The ordering of match quality.
pub open spec fn spec_rank(m: ParamMatchResult) -> int {
    match m {
        ParamMatchResult::NotMatch => 0,
        ParamMatchResult::AnyMatch => 1,
        ParamMatchResult::TypeMatch => 2,
    }
}

fn rank(m: ParamMatchResult) -> (r: u8)
    ensures
        r as int == spec_rank(m),
{
    match m {
        ParamMatchResult::NotMatch => 0,
        ParamMatchResult::AnyMatch => 1,
        ParamMatchResult::TypeMatch => 2,
    }
}

/// Whether an argument type is acceptable where a parameter type is
/// declared: either side being `Any`, an unknown argument, or equality.
pub open spec fn spec_type_compact(param: LuaType, expr: LuaType) -> bool {
    ||| param is Any
    ||| expr is Any
    ||| expr is Unknown
    ||| param == expr
}

/// The shared type-compatibility check.
pub fn check_type_compact(_db: &DbIndex, param: &LuaType, expr: &LuaType) -> (r: bool)
    ensures
        r == spec_type_compact(*param, *expr),
{
    param.is_any() || expr.is_any() || expr.is_unknown() || *param == *expr
}

/// The candidate's parameter index for a call's argument index, the two
/// sides' colon conventions reconciled; `None` skips this candidate at
/// argument zero of a plain call against a colon definition.
pub open spec fn spec_param_adjust(colon_define: bool, colon_call: bool, arg_index: int) -> Option<
    int,
> {
    match (colon_define, colon_call) {
        (true, false) => if arg_index == 0 {
            None
        } else {
            Some(arg_index - 1)
        },
        (false, true) => Some(arg_index + 1),
        _ => Some(arg_index),
    }
}

/// The declared type at a parameter index: the parameter itself when in
/// range, the variadic tail when past the end, or nothing (prune the
/// candidate) otherwise.  An absent declared type counts as `Any`.
pub open spec fn spec_param_type_at(f: LuaFunctionType, pi: int) -> Option<LuaType> {
    let n = f.params@.len() as int;
    if pi < n {
        Some(
            match f.params@[pi].ty {
                Some(t) => t,
                None => LuaType::Any,
            },
        )
    } else if n > 0 && f.params@[n - 1].name@ == "..."@ {
        Some(
            match f.params@[n - 1].ty {
                Some(t) => t,
                None => LuaType::Any,
            },
        )
    } else {
        None
    }
}

/// The score of one argument against one parameter type.
pub open spec fn spec_match_score(param_ty: LuaType, expr: LuaType) -> ParamMatchResult {
    if param_ty is Any {
        ParamMatchResult::AnyMatch
    } else if spec_type_compact(param_ty, expr) {
        ParamMatchResult::TypeMatch
    } else {
        ParamMatchResult::NotMatch
    }
}

/// What evaluating one live candidate at one argument position does.
#[derive(Debug, Clone, Copy, PartialEq, Eq, Structural)]
pub enum CandOutcome {
    /// The candidate can never match; drop it from the scan.
    Prune,
    /// The candidate is not scored at this position but stays live.
    Skip,
    /// The candidate scored; the flag says whether this argument exactly
    /// completes its parameter list.
    Score(ParamMatchResult, bool),
}

/// Evaluate one candidate at one argument position.
pub open spec fn spec_cand_outcome(
    f: LuaFunctionType,
    expr: LuaType,
    colon_call: bool,
    argc: int,
    arg_index: int,
) -> CandOutcome {
    let n = f.params@.len() as int;
    if n < argc {
        CandOutcome::Prune
    } else {
        match spec_param_adjust(f.is_colon_define, colon_call, arg_index) {
            None => CandOutcome::Skip,
            Some(pi) => match spec_param_type_at(f, pi) {
                None => CandOutcome::Prune,
                Some(pt) => CandOutcome::Score(spec_match_score(pt, expr), pi + 1 == n),
            },
        }
    }
}

fn cand_outcome(
    f: &LuaFunctionType,
    expr: &LuaType,
    colon_call: bool,
    argc: usize,
    arg_index: usize,
) -> (r: CandOutcome)
    requires
        arg_index < usize::MAX,
        f.params@.len() < usize::MAX,
    ensures
        r == spec_cand_outcome(*f, *expr, colon_call, argc as int, arg_index as int),
{
    let n = f.params.len();
    if n < argc {
        return CandOutcome::Prune;
    }
    let pi: usize = match (f.is_colon_define, colon_call) {
        (true, false) => {
            if arg_index == 0 {
                return CandOutcome::Skip;
            }
            arg_index - 1
        },
        (false, true) => arg_index + 1,
        _ => arg_index,
    };
    if pi < n {
        let pt = match self_param_ty(&f.params[pi]) {
            Some(t) => t,
            None => LuaType::Any,
        };
        CandOutcome::Score(match_score(&pt, expr), pi + 1 == n)
    } else if n > 0 && str_eq(f.params[n - 1].name.as_str(), "...") {
        let pt = match self_param_ty(&f.params[n - 1]) {
            Some(t) => t,
            None => LuaType::Any,
        };
        CandOutcome::Score(match_score(&pt, expr), false)
    } else {
        CandOutcome::Prune
    }
}

fn self_param_ty(p: &LuaParamInfo) -> (r: Option<LuaType>)
    ensures
        r == p.ty,
{
    p.ty
}

fn match_score(param_ty: &LuaType, expr: &LuaType) -> (r: ParamMatchResult)
    ensures
        r == spec_match_score(*param_ty, *expr),
{
    if param_ty.is_any() {
        ParamMatchResult::AnyMatch
    } else if expr.is_any() || expr.is_unknown() || *param_ty == *expr {
        ParamMatchResult::TypeMatch
    } else {
        ParamMatchResult::NotMatch
    }
}

/// One sweep over the candidates at one argument position, from index
/// `i` on: prunes dead candidates, tracks the best score, and
/// short-circuits on a satisfied exact-arity match.
pub open spec fn spec_scan_cands(
    ovl: Seq<LuaFunctionType>,
    expr: LuaType,
    colon_call: bool,
    argc: int,
    arg_index: int,
    i: int,
    need: Seq<bool>,
    current: ParamMatchResult,
    best: int,
) -> (Seq<bool>, ParamMatchResult, int, Option<int>)
    decreases ovl.len() - i,
{
    if i < 0 || i >= ovl.len() {
        (need, current, best, None)
    } else if !need[i] {
        spec_scan_cands(ovl, expr, colon_call, argc, arg_index, i + 1, need, current, best)
    } else {
        match spec_cand_outcome(ovl[i], expr, colon_call, argc, arg_index) {
            CandOutcome::Prune => spec_scan_cands(
                ovl,
                expr,
                colon_call,
                argc,
                arg_index,
                i + 1,
                need.update(i, false),
                current,
                best,
            ),
            CandOutcome::Skip => spec_scan_cands(
                ovl,
                expr,
                colon_call,
                argc,
                arg_index,
                i + 1,
                need,
                current,
                best,
            ),
            CandOutcome::Score(m, completes) => {
                let cur2 = if spec_rank(m) > spec_rank(current) {
                    m
                } else {
                    current
                };
                let best2 = if spec_rank(m) > spec_rank(current) {
                    i
                } else {
                    best
                };
                if !(m is NotMatch) && completes {
                    (need, cur2, best2, Some(i))
                } else {
                    spec_scan_cands(
                        ovl,
                        expr,
                        colon_call,
                        argc,
                        arg_index,
                        i + 1,
                        need,
                        cur2,
                        best2,
                    )
                }
            },
        }
    }
}

/// The argument sweep: argument positions left to right, stopping when
/// a position matches no live candidate, answering the index of the
/// best-scoring candidate seen when the scan stops.
pub open spec fn spec_scan_args(
    ovl: Seq<LuaFunctionType>,
    exprs: Seq<LuaType>,
    colon_call: bool,
    argc: int,
    arg_index: int,
    need: Seq<bool>,
    best: int,
) -> int
    decreases exprs.len() - arg_index,
{
    if arg_index < 0 || arg_index >= exprs.len() {
        best
    } else {
        let st = spec_scan_cands(
            ovl,
            exprs[arg_index],
            colon_call,
            argc,
            arg_index,
            0,
            need,
            ParamMatchResult::NotMatch,
            best,
        );
        match st.3 {
            Some(win) => win,
            None => if st.1 is NotMatch {
                st.2
            } else {
                spec_scan_args(ovl, exprs, colon_call, argc, arg_index + 1, st.0, st.2)
            },
        }
    }
}

/// The first overload with an empty parameter list, if any.
pub open spec fn spec_first_zero_param(ovl: Seq<LuaFunctionType>, i: int) -> Option<int>
    decreases ovl.len() - i,
{
    if i < 0 || i >= ovl.len() {
        None
    } else if ovl[i].params@.len() == 0 {
        Some(i)
    } else {
        spec_first_zero_param(ovl, i + 1)
    }
}

/// The index of the signature overload resolution picks, or the failure.
pub open spec fn spec_resolve_signature(
    ovl: Seq<LuaFunctionType>,
    exprs: Seq<LuaType>,
    colon_call: bool,
    argc_opt: Option<usize>,
) -> Result<int, InferFailReason> {
    let argc = match argc_opt {
        Some(c) => c as int,
        None => 0,
    };
    if ovl.len() == 0 {
        Err(InferFailReason::Unresolvable)
    } else if ovl.len() == 1 {
        Ok(0)
    } else if exprs.len() == 0 && spec_first_zero_param(ovl, 0) is Some {
        Ok(spec_first_zero_param(ovl, 0)->Some_0)
    } else {
        Ok(
            spec_scan_args(
                ovl,
                exprs,
                colon_call,
                argc,
                0,
                Seq::new(ovl.len(), |i: int| true),
                0,
            ),
        )
    }
}

fn scan_cands(
    db: &DbIndex,
    overloads: &Vec<LuaFunctionType>,
    expr: &LuaType,
    colon_call: bool,
    argc: usize,
    arg_index: usize,
    i: usize,
    need: Vec<bool>,
    current: ParamMatchResult,
    best: usize,
) -> (r: (Vec<bool>, ParamMatchResult, usize, Option<usize>))
    requires
        need@.len() == overloads@.len(),
        overloads@.len() < usize::MAX,
        arg_index < usize::MAX,
        best < overloads@.len(),
        i <= overloads@.len(),
        forall|k: int| 0 <= k < overloads@.len() ==> (#[trigger] overloads@[k]).params@.len()
            < usize::MAX,
    ensures
        ({
            let st = spec_scan_cands(
                overloads@,
                *expr,
                colon_call,
                argc as int,
                arg_index as int,
                i as int,
                need@,
                current,
                best as int,
            );
            &&& r.0@ == st.0
            &&& r.1 == st.1
            &&& r.2 as int == st.2
            &&& (match r.3 {
                Some(w) => st.3 == Some(w as int),
                None => st.3 is None,
            })
            &&& r.0@.len() == overloads@.len()
            &&& r.2 < overloads@.len()
            &&& (r.3 matches Some(w) ==> w < overloads@.len())
        }),
    decreases overloads@.len() - i,
{
    if i >= overloads.len() {
        return (need, current, best, None);
    }
    if !need[i] {
        return scan_cands(db, overloads, expr, colon_call, argc, arg_index, i + 1, need, current, best);
    }
    let outcome = cand_outcome(&overloads[i], expr, colon_call, argc, arg_index);
    match outcome {
        CandOutcome::Prune => {
            let mut need2 = need;
            need2[i] = false;
            assert(need2@ == need@.update(i as int, false));
            scan_cands(db, overloads, expr, colon_call, argc, arg_index, i + 1, need2, current, best)
        },
        CandOutcome::Skip => {
            scan_cands(db, overloads, expr, colon_call, argc, arg_index, i + 1, need, current, best)
        },
        CandOutcome::Score(m, completes) => {
            let advance = rank(m) > rank(current);
            let cur2 = if advance {
                m
            } else {
                current
            };
            let best2 = if advance {
                i
            } else {
                best
            };
            let not_match = matches!(m, ParamMatchResult::NotMatch);
            if !not_match && completes {
                (need, cur2, best2, Some(i))
            } else {
                scan_cands(db, overloads, expr, colon_call, argc, arg_index, i + 1, need, cur2, best2)
            }
        },
    }
}

fn scan_args(
    db: &DbIndex,
    overloads: &Vec<LuaFunctionType>,
    expr_types: &Vec<LuaType>,
    colon_call: bool,
    argc: usize,
    arg_index: usize,
    need: Vec<bool>,
    best: usize,
) -> (r: usize)
    requires
        need@.len() == overloads@.len(),
        overloads@.len() < usize::MAX,
        expr_types@.len() < usize::MAX,
        arg_index <= expr_types@.len(),
        best < overloads@.len(),
        forall|k: int| 0 <= k < overloads@.len() ==> (#[trigger] overloads@[k]).params@.len()
            < usize::MAX,
    ensures
        r as int == spec_scan_args(
            overloads@,
            expr_types@,
            colon_call,
            argc as int,
            arg_index as int,
            need@,
            best as int,
        ),
        r < overloads@.len(),
    decreases expr_types@.len() - arg_index,
{
    if arg_index >= expr_types.len() {
        return best;
    }
    let st = scan_cands(
        db,
        overloads,
        &expr_types[arg_index],
        colon_call,
        argc,
        arg_index,
        0,
        need,
        ParamMatchResult::NotMatch,
        best,
    );
    match st.3 {
        Some(win) => win,
        None => {
            if matches!(st.1, ParamMatchResult::NotMatch) {
                st.2
            } else {
                scan_args(db, overloads, expr_types, colon_call, argc, arg_index + 1, st.0, st.2)
            }
        },
    }
}

/// Select the best-matching signature among a function's overloads for
/// the inferred types of a call's arguments.  With no overloads the
/// resolution fails; with one it answers that one; otherwise the greedy
/// left-to-right scan decides.
pub fn resolve_signature_by_args(
    db: &DbIndex,
    overloads: &Vec<LuaFunctionType>,
    expr_types: &Vec<LuaType>,
    is_colon_call: bool,
    arg_count: Option<usize>,
) -> (r: Result<LuaFunctionType, InferFailReason>)
    requires
        overloads@.len() < usize::MAX,
        expr_types@.len() < usize::MAX,
        forall|k: int| 0 <= k < overloads@.len() ==> (#[trigger] overloads@[k]).params@.len()
            < usize::MAX,
    ensures
        match spec_resolve_signature(overloads@, expr_types@, is_colon_call, arg_count) {
            Ok(i) => r matches Ok(f) && fn_type_like(f, overloads@[i]),
            Err(e) => r == Err::<LuaFunctionType, InferFailReason>(e),
        },
{
    let argc: usize = match arg_count {
        Some(c) => c,
        None => 0,
    };
    if overloads.len() == 0 {
        return Err(InferFailReason::Unresolvable);
    }
    if overloads.len() == 1 {
        return Ok(overloads[0].clone());
    }
    if expr_types.len() == 0 {
        let mut k: usize = 0;
        while k < overloads.len()
            invariant
                overloads@.len() > 1,
                expr_types@.len() == 0,
                k <= overloads@.len(),
                forall|j: int| 0 <= j < k ==> (#[trigger] overloads@[j]).params@.len() != 0,
                spec_first_zero_param(overloads@, 0) == spec_first_zero_param(
                    overloads@,
                    k as int,
                ),
            decreases overloads@.len() - k,
        {
            if overloads[k].params.len() == 0 {
                proof {
                    assert(spec_first_zero_param(overloads@, k as int) == Some(k as int));
                }
                return Ok(overloads[k].clone());
            }
            k += 1;
        }
    }
    let mut need: Vec<bool> = Vec::new();
    let mut k: usize = 0;
    while k < overloads.len()
        invariant
            k <= overloads@.len(),
            need@.len() == k,
            forall|j: int| 0 <= j < k ==> need@[j] == true,
        decreases overloads@.len() - k,
    {
        need.push(true);
        k += 1;
    }
    proof {
        assert(need@ =~= Seq::new(overloads@.len(), |i: int| true));
    }
    let chosen = scan_args(db, overloads, expr_types, is_colon_call, argc, 0, need, 0);
    Ok(overloads[chosen].clone())
}

} // verus!
