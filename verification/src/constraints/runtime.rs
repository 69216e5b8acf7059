//! Run-time checks for the smart constructors of constrained types.

use vstd::prelude::*;
use crate::constraints::hierarchy::{constraint_hierarchy, resolve_constraint_hierarchy};
use crate::constraints::eval::{byte_len, int_constraint_result, string_constraint_result, ResultView};
use crate::pattern::pattern_matches;
use crate::text::owned;
use crate::types::{ConstrainedTypes, ConstraintDef, ConstraintView, constraint_views};

verus! {

/// The checks a constrained type's constructor performs on a value.
#[derive(Debug)]
pub struct RuntimeCheck {
    /// The constrained type checked.
    pub ty_name: String,
    /// The conditions, all of which must hold.
    pub conditions: Vec<RuntimeCondition>,
}

/// One run-time condition on a value.
#[derive(Debug)]
pub enum RuntimeCondition {
    /// value >= threshold
    IntGte(i64),
    /// value <= threshold
    IntLte(i64),
    /// lo <= value <= hi
    IntRange(i64, i64),
    /// the value is one of the listed integers
    IntOneOf(Vec<i64>),
    /// the string is at least this long
    StrMinLength(usize),
    /// the string is at most this long
    StrMaxLength(usize),
    /// the string matches the pattern
    StrMatches(String),
}

/// The mathematical content of a [`RuntimeCondition`].
pub enum ConditionView {
    IntGte(i64),
    IntLte(i64),
    IntRange(i64, i64),
    IntOneOf(Seq<i64>),
    StrMinLength(usize),
    StrMaxLength(usize),
    StrMatches(Seq<char>),
}

impl View for RuntimeCondition {
    type V = ConditionView;

    open spec fn view(&self) -> ConditionView {
        match self {
            RuntimeCondition::IntGte(n) => ConditionView::IntGte(*n),
            RuntimeCondition::IntLte(n) => ConditionView::IntLte(*n),
            RuntimeCondition::IntRange(lo, hi) => ConditionView::IntRange(*lo, *hi),
            RuntimeCondition::IntOneOf(v) => ConditionView::IntOneOf(v@),
            RuntimeCondition::StrMinLength(n) => ConditionView::StrMinLength(*n),
            RuntimeCondition::StrMaxLength(n) => ConditionView::StrMaxLength(*n),
            RuntimeCondition::StrMatches(p) => ConditionView::StrMatches(p@),
        }
    }
}

/// The run-time condition a constraint becomes; `satisfies` has none.
pub open spec fn runtime_condition_of(c: ConstraintView) -> Option<ConditionView> {
    match c {
        ConstraintView::Gte(v) => Some(ConditionView::IntGte(v)),
        ConstraintView::Lte(v) => Some(ConditionView::IntLte(v)),
        ConstraintView::Range(lo, hi) => Some(ConditionView::IntRange(lo, hi)),
        ConstraintView::OneOf(vs) => Some(ConditionView::IntOneOf(vs)),
        ConstraintView::MinLength(v) => Some(ConditionView::StrMinLength(v)),
        ConstraintView::MaxLength(v) => Some(ConditionView::StrMaxLength(v)),
        ConstraintView::Matches(p) => Some(ConditionView::StrMatches(p)),
        ConstraintView::Satisfies(_) => None,
    }
}

/// The run-time conditions of a list of constraints, in order.
pub open spec fn runtime_conditions(cs: Seq<ConstraintView>) -> Seq<ConditionView>
    decreases cs.len(),
{
    if cs.len() == 0 {
        Seq::empty()
    } else {
        let rest = runtime_conditions(cs.drop_last());
        match runtime_condition_of(cs.last()) {
            Some(c) => rest.push(c),
            None => rest,
        }
    }
}

/// The views of a list of conditions.
pub open spec fn condition_views(s: Seq<RuntimeCondition>) -> Seq<ConditionView> {
    s.map_values(|c: RuntimeCondition| c@)
}

/// The run-time condition for a constraint; `satisfies` cannot be checked statically.
pub fn constraint_to_runtime_condition(constraint: &ConstraintDef) -> (r: Option<RuntimeCondition>)
    ensures
        match r {
            Some(c) => runtime_condition_of(constraint@) == Some(c@),
            None => runtime_condition_of(constraint@) is None,
        },
{
    match constraint {
        ConstraintDef::Gte(v) => Some(RuntimeCondition::IntGte(*v)),
        ConstraintDef::Lte(v) => Some(RuntimeCondition::IntLte(*v)),
        ConstraintDef::Range(lo, hi) => Some(RuntimeCondition::IntRange(*lo, *hi)),
        ConstraintDef::OneOf(values) => {
            let mut w: Vec<i64> = Vec::new();
            let mut i: usize = 0;
            while i < values.len()
                invariant
                    i <= values.len(),
                    w@ == values@.subrange(0, i as int),
                decreases values.len() - i,
            {
                w.push(values[i]);
                i = i + 1;
            }
            assert(values@.subrange(0, values.len() as int) == values@);
            Some(RuntimeCondition::IntOneOf(w))
        },
        ConstraintDef::MinLength(v) => Some(RuntimeCondition::StrMinLength(*v)),
        ConstraintDef::MaxLength(v) => Some(RuntimeCondition::StrMaxLength(*v)),
        ConstraintDef::Matches(p) => Some(RuntimeCondition::StrMatches(owned(p.as_str()))),
        ConstraintDef::Satisfies(_) => None,
    }
}

/// The run-time check of a constrained type: the conditions of all its
/// constraints, inherited ones first, leaving out `satisfies`.
pub fn generate_runtime_checks(ty_name: &str, constrained_types: &ConstrainedTypes) -> (r: RuntimeCheck)
    requires
        constrained_types.wf(),
    ensures
        r.ty_name@ == ty_name@,
        condition_views(r.conditions@) == runtime_conditions(
            constraint_hierarchy(*constrained_types, ty_name@),
        ),
{
    let constraints = resolve_constraint_hierarchy(ty_name, constrained_types);
    let mut conditions: Vec<RuntimeCondition> = Vec::new();
    let mut i: usize = 0;
    while i < constraints.len()
        invariant
            i <= constraints@.len(),
            condition_views(conditions@) == runtime_conditions(
                constraint_views(constraints@.subrange(0, i as int)),
            ),
        decreases constraints.len() - i,
    {
        assert(constraint_views(constraints@.subrange(0, i + 1)).drop_last() =~= constraint_views(
            constraints@.subrange(0, i as int),
        ));
        let ghost before = conditions@;
        match constraint_to_runtime_condition(&constraints[i]) {
            Some(c) => {
                conditions.push(c);
                assert(condition_views(conditions@) =~= condition_views(before).push(c@));
            },
            None => {},
        }
        i = i + 1;
    }
    assert(constraints@.subrange(0, constraints@.len() as int) =~= constraints@);
    RuntimeCheck { ty_name: owned(ty_name), conditions }
}

/// Whether a run-time condition accepts the integer `v`.
pub open spec fn condition_accepts_int(c: ConditionView, v: i64) -> bool {
    match c {
        ConditionView::IntGte(n) => v >= n,
        ConditionView::IntLte(n) => v <= n,
        ConditionView::IntRange(lo, hi) => lo <= v <= hi,
        ConditionView::IntOneOf(vs) => vs.contains(v),
        _ => false,
    }
}

/// Whether a run-time condition accepts the string `s`.
pub open spec fn condition_accepts_str(c: ConditionView, s: Seq<char>) -> bool {
    match c {
        ConditionView::StrMinLength(n) => byte_len(s) >= n,
        ConditionView::StrMaxLength(n) => byte_len(s) <= n,
        ConditionView::StrMatches(p) => pattern_matches(p, s),
        _ => false,
    }
}

/// Every constraint but `satisfies` becomes a run-time condition, and that
/// condition accepts exactly the integers and the strings that the
/// constraint accepts when it is evaluated.
pub proof fn law_runtime_condition_accepts_what_the_constraint_accepts(c: ConstraintView)
    ensures
        runtime_condition_of(c) is None <==> c is Satisfies,
        runtime_condition_of(c) matches Some(cond) ==> (forall|v: i64|
            condition_accepts_int(cond, v) <==> (int_constraint_result(v, c) is Satisfied)),
        runtime_condition_of(c) matches Some(cond) ==> (forall|s: Seq<char>|
            condition_accepts_str(cond, s) <==> (string_constraint_result(s, c) is Satisfied)),
{
}

/// Whether every condition accepts the integer `v`.
pub open spec fn all_accept_int(conds: Seq<ConditionView>, v: i64) -> bool {
    forall|i: int| 0 <= i < conds.len() ==> condition_accepts_int(#[trigger] conds[i], v)
}

/// Whether every condition accepts the string `s`.
pub open spec fn all_accept_str(conds: Seq<ConditionView>, s: Seq<char>) -> bool {
    forall|i: int| 0 <= i < conds.len() ==> condition_accepts_str(#[trigger] conds[i], s)
}

/// Whether `v` satisfies every constraint that is not `satisfies`.
pub open spec fn satisfies_checkable_int(cs: Seq<ConstraintView>, v: i64) -> bool {
    forall|j: int| 0 <= j < cs.len() && !(#[trigger] cs[j] is Satisfies) ==> (int_constraint_result(v, cs[j]) is Satisfied)
}

/// Whether `s` satisfies every constraint that is not `satisfies`.
pub open spec fn satisfies_checkable_str(cs: Seq<ConstraintView>, s: Seq<char>) -> bool {
    forall|j: int| 0 <= j < cs.len() && !(#[trigger] cs[j] is Satisfies) ==> (string_constraint_result(s, cs[j]) is Satisfied)
}

/// A value passes all run-time checks of a list of constraints exactly when
/// it satisfies every constraint of the list that is not `satisfies`.
pub proof fn law_runtime_checks_accept_what_the_constraints_accept(cs: Seq<ConstraintView>, v: i64, s: Seq<char>)
    ensures
        all_accept_int(runtime_conditions(cs), v) <==> satisfies_checkable_int(cs, v),
        all_accept_str(runtime_conditions(cs), s) <==> satisfies_checkable_str(cs, s),
    decreases cs.len(),
{
    if cs.len() > 0 {
        let init = cs.drop_last();
        let last = cs.last();
        law_runtime_checks_accept_what_the_constraints_accept(init, v, s);
        law_runtime_condition_accepts_what_the_constraint_accepts(last);
        let rc = runtime_conditions(cs);
        let ri = runtime_conditions(init);
        assert(last == cs[cs.len() - 1]);
        // the constraints split into those of `init` and the last one
        assert(satisfies_checkable_int(cs, v) <==> (satisfies_checkable_int(init, v) && (!(last is Satisfies) ==> (int_constraint_result(v, last) is Satisfied)))) by {
            if satisfies_checkable_int(cs, v) {
                assert forall|j: int| 0 <= j < init.len() && !(#[trigger] init[j] is Satisfies) implies (int_constraint_result(v, init[j]) is Satisfied) by {
                    assert(init[j] == cs[j]);
                }
            }
            if satisfies_checkable_int(init, v) && (!(last is Satisfies) ==> (int_constraint_result(v, last) is Satisfied)) {
                assert forall|j: int| 0 <= j < cs.len() && !(#[trigger] cs[j] is Satisfies) implies (int_constraint_result(v, cs[j]) is Satisfied) by {
                    if j < init.len() {
                        assert(init[j] == cs[j]);
                    }
                }
            }
        }
        assert(satisfies_checkable_str(cs, s) <==> (satisfies_checkable_str(init, s) && (!(last is Satisfies) ==> (string_constraint_result(s, last) is Satisfied)))) by {
            if satisfies_checkable_str(cs, s) {
                assert forall|j: int| 0 <= j < init.len() && !(#[trigger] init[j] is Satisfies) implies (string_constraint_result(s, init[j]) is Satisfied) by {
                    assert(init[j] == cs[j]);
                }
            }
            if satisfies_checkable_str(init, s) && (!(last is Satisfies) ==> (string_constraint_result(s, last) is Satisfied)) {
                assert forall|j: int| 0 <= j < cs.len() && !(#[trigger] cs[j] is Satisfies) implies (string_constraint_result(s, cs[j]) is Satisfied) by {
                    if j < init.len() {
                        assert(init[j] == cs[j]);
                    }
                }
            }
        }
        match runtime_condition_of(last) {
            Some(cond) => {
                assert(rc == ri.push(cond));
                assert(all_accept_int(rc, v) <==> (all_accept_int(ri, v) && condition_accepts_int(cond, v))) by {
                    if all_accept_int(rc, v) {
                        assert forall|i: int| 0 <= i < ri.len() implies condition_accepts_int(#[trigger] ri[i], v) by {
                            assert(rc[i] == ri[i]);
                        }
                        assert(rc[ri.len() as int] == cond);
                    }
                    if all_accept_int(ri, v) && condition_accepts_int(cond, v) {
                        assert forall|i: int| 0 <= i < rc.len() implies condition_accepts_int(#[trigger] rc[i], v) by {
                            if i < ri.len() {
                                assert(rc[i] == ri[i]);
                            }
                        }
                    }
                }
                assert(all_accept_str(rc, s) <==> (all_accept_str(ri, s) && condition_accepts_str(cond, s))) by {
                    if all_accept_str(rc, s) {
                        assert forall|i: int| 0 <= i < ri.len() implies condition_accepts_str(#[trigger] ri[i], s) by {
                            assert(rc[i] == ri[i]);
                        }
                        assert(rc[ri.len() as int] == cond);
                    }
                    if all_accept_str(ri, s) && condition_accepts_str(cond, s) {
                        assert forall|i: int| 0 <= i < rc.len() implies condition_accepts_str(#[trigger] rc[i], s) by {
                            if i < ri.len() {
                                assert(rc[i] == ri[i]);
                            }
                        }
                    }
                }
            },
            None => {
                assert(rc == ri);
            },
        }
    }
}

} // verus!
