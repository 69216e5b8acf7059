//! Conversions between constrained types related by their constraints.

use vstd::prelude::*;
use crate::constraints::hierarchy::{
    check_constraint_compatibility, compatibility_errors, constraint_hierarchy,
    law_constraints_compatible_with_themselves, resolve_constraint_hierarchy,
};
use crate::constraints::eval::{int_constraint_result, ResultView};
use crate::constraints::hierarchy::{lower_bound_of, tightest_lower, tightest_upper, upper_bound_of};
use crate::text::owned;
use crate::types::{
    ConstrainedTypes, ConstraintDef, ConstraintView, constraint_eq, constraint_views, copy_constraint,
};

verus! {

/// How a value of one constrained type converts to another.
#[derive(Debug, PartialEq, Eq)]
pub enum ConversionKind {
    /// Widening, child to parent: no check needed.
    Upcast,
    /// Narrowing, parent to child: the child's extra constraints are checked at run time.
    Downcast,
    /// The types are unrelated.
    Incompatible,
}

/// The analysis of a conversion between two constrained types.
#[derive(Debug)]
pub struct ConversionInfo {
    /// The source type.
    pub from_type: String,
    /// The target type.
    pub to_type: String,
    /// The direction of the conversion.
    pub kind: ConversionKind,
    /// Constraints to check at run time (only for a downcast).
    pub extra_checks: Vec<ConstraintDef>,
}

/// Whether two constraints bound the same dimension of a value.
pub open spec fn same_dimension(a: ConstraintView, b: ConstraintView) -> bool {
    match (a, b) {
        (ConstraintView::Gte(_), ConstraintView::Gte(_)) => true,
        (ConstraintView::Gte(_), ConstraintView::Range(_, _)) => true,
        (ConstraintView::Lte(_), ConstraintView::Lte(_)) => true,
        (ConstraintView::Lte(_), ConstraintView::Range(_, _)) => true,
        (ConstraintView::Range(_, _), ConstraintView::Range(_, _)) => true,
        (ConstraintView::Range(_, _), ConstraintView::Gte(_)) => true,
        (ConstraintView::Range(_, _), ConstraintView::Lte(_)) => true,
        (ConstraintView::OneOf(_), ConstraintView::OneOf(_)) => true,
        (ConstraintView::MinLength(_), ConstraintView::MinLength(_)) => true,
        (ConstraintView::MaxLength(_), ConstraintView::MaxLength(_)) => true,
        (ConstraintView::Matches(_), ConstraintView::Matches(_)) => true,
        (ConstraintView::Satisfies(_), ConstraintView::Satisfies(_)) => true,
        _ => false,
    }
}

/// Whether constraints `child` are at least as strict as `parent`: they
/// respect every parent bound and bound every dimension the parent bounds.
pub open spec fn is_subtype(child: Seq<ConstraintView>, parent: Seq<ConstraintView>) -> bool {
    if parent.len() == 0 {
        true
    } else if child.len() == 0 {
        false
    } else {
        &&& compatibility_errors(parent, child).len() == 0
        &&& forall|i: int|
            0 <= i < parent.len() ==> exists|j: int|
                0 <= j < child.len() && same_dimension(#[trigger] parent[i], #[trigger] child[j])
    }
}

/// The constraints of `to` that `from` does not already have, in order.
pub open spec fn missing_constraints(to: Seq<ConstraintView>, from: Seq<ConstraintView>) -> Seq<
    ConstraintView,
> {
    to.filter(|c: ConstraintView| !from.contains(c))
}

/// The kind of the conversion between types with the given constraints.
pub open spec fn conversion_kind(from: Seq<ConstraintView>, to: Seq<ConstraintView>) -> ConversionKind {
    if is_subtype(from, to) {
        ConversionKind::Upcast
    } else if is_subtype(to, from) {
        ConversionKind::Downcast
    } else {
        ConversionKind::Incompatible
    }
}

fn constraints_same_dimension(a: &ConstraintDef, b: &ConstraintDef) -> (r: bool)
    ensures
        r == same_dimension(a@, b@),
{
    match (a, b) {
        (ConstraintDef::Gte(_), ConstraintDef::Gte(_)) => true,
        (ConstraintDef::Gte(_), ConstraintDef::Range(_, _)) => true,
        (ConstraintDef::Lte(_), ConstraintDef::Lte(_)) => true,
        (ConstraintDef::Lte(_), ConstraintDef::Range(_, _)) => true,
        (ConstraintDef::Range(_, _), ConstraintDef::Range(_, _)) => true,
        (ConstraintDef::Range(_, _), ConstraintDef::Gte(_)) => true,
        (ConstraintDef::Range(_, _), ConstraintDef::Lte(_)) => true,
        (ConstraintDef::OneOf(_), ConstraintDef::OneOf(_)) => true,
        (ConstraintDef::MinLength(_), ConstraintDef::MinLength(_)) => true,
        (ConstraintDef::MaxLength(_), ConstraintDef::MaxLength(_)) => true,
        (ConstraintDef::Matches(_), ConstraintDef::Matches(_)) => true,
        (ConstraintDef::Satisfies(_), ConstraintDef::Satisfies(_)) => true,
        _ => false,
    }
}

fn has_same_dimension(p: &ConstraintDef, child: &[ConstraintDef]) -> (r: bool)
    ensures
        r == exists|j: int| 0 <= j < child@.len() && same_dimension(p@, #[trigger] child@[j]@),
{
    let mut j: usize = 0;
    while j < child.len()
        invariant
            j <= child@.len(),
            forall|k: int| 0 <= k < j ==> !same_dimension(p@, #[trigger] child@[k]@),
        decreases child.len() - j,
    {
        if constraints_same_dimension(p, &child[j]) {
            return true;
        }
        j = j + 1;
    }
    false
}

fn is_subtype_constraints(child: &[ConstraintDef], parent: &[ConstraintDef]) -> (r: bool)
    ensures
        r == is_subtype(constraint_views(child@), constraint_views(parent@)),
{
    let ghost cv = constraint_views(child@);
    let ghost pv = constraint_views(parent@);
    if parent.len() == 0 {
        return true;
    }
    if child.len() == 0 {
        return false;
    }
    let compat_errors = check_constraint_compatibility(parent, child);
    if compat_errors.len() != 0 {
        return false;
    }
    let mut i: usize = 0;
    while i < parent.len()
        invariant
            i <= parent@.len(),
            cv == constraint_views(child@),
            pv == constraint_views(parent@),
            forall|k: int|
                0 <= k < i ==> exists|j: int|
                    0 <= j < cv.len() && same_dimension(#[trigger] pv[k], #[trigger] cv[j]),
        decreases parent.len() - i,
    {
        if !has_same_dimension(&parent[i], child) {
            assert(!(exists|j: int| 0 <= j < cv.len() && same_dimension(pv[i as int], #[trigger] cv[j])));
            return false;
        }
        let ghost j = choose|j: int| 0 <= j < child@.len() && same_dimension(parent@[i as int]@, #[trigger] child@[j]@);
        assert(same_dimension(pv[i as int], cv[j]));
        i = i + 1;
    }
    true
}

fn contains_constraint(cs: &Vec<ConstraintDef>, c: &ConstraintDef) -> (r: bool)
    ensures
        r == constraint_views(cs@).contains(c@),
{
    let mut i: usize = 0;
    while i < cs.len()
        invariant
            i <= cs@.len(),
            forall|k: int| 0 <= k < i ==> cs@[k]@ != c@,
        decreases cs.len() - i,
    {
        if constraint_eq(&cs[i], c) {
            assert(constraint_views(cs@)[i as int] == c@);
            return true;
        }
        i = i + 1;
    }
    proof {
        if constraint_views(cs@).contains(c@) {
            let k = choose|k: int| 0 <= k < constraint_views(cs@).len() && #[trigger] constraint_views(cs@)[k] == c@;
            assert(cs@[k]@ == c@);
        }
    }
    false
}

/// Classifies the conversion from `from_type` to `to_type` by their resolved
/// constraints: an upcast when `from_type`'s constraints are at least as
/// strict, a downcast (with the target's additional constraints to check)
/// when `to_type`'s are, and incompatible otherwise.
pub fn analyze_conversion(from_type: &str, to_type: &str, constrained_types: &ConstrainedTypes) -> (r: ConversionInfo)
    requires
        constrained_types.wf(),
    ensures
        r.from_type@ == from_type@,
        r.to_type@ == to_type@,
        r.kind == conversion_kind(
            constraint_hierarchy(*constrained_types, from_type@),
            constraint_hierarchy(*constrained_types, to_type@),
        ),
        constraint_views(r.extra_checks@) == (if r.kind == ConversionKind::Downcast {
            missing_constraints(
                constraint_hierarchy(*constrained_types, to_type@),
                constraint_hierarchy(*constrained_types, from_type@),
            )
        } else {
            Seq::empty()
        }),
{
    let from_constraints = resolve_constraint_hierarchy(from_type, constrained_types);
    let to_constraints = resolve_constraint_hierarchy(to_type, constrained_types);
    let ghost fv = constraint_views(from_constraints@);
    let ghost tv = constraint_views(to_constraints@);

    if is_subtype_constraints(&from_constraints, &to_constraints) {
        assert(constraint_views(Seq::<ConstraintDef>::empty()) =~= Seq::<ConstraintView>::empty());
        return ConversionInfo {
            from_type: owned(from_type),
            to_type: owned(to_type),
            kind: ConversionKind::Upcast,
            extra_checks: Vec::new(),
        };
    }
    if is_subtype_constraints(&to_constraints, &from_constraints) {
        let mut extra_checks: Vec<ConstraintDef> = Vec::new();
        let mut i: usize = 0;
        while i < to_constraints.len()
            invariant
                i <= to_constraints@.len(),
                fv == constraint_views(from_constraints@),
                tv == constraint_views(to_constraints@),
                constraint_views(extra_checks@) == missing_constraints(tv.subrange(0, i as int), fv),
            decreases to_constraints.len() - i,
        {
            let ghost before = extra_checks@;
            assert(tv.subrange(0, i + 1).drop_last() =~= tv.subrange(0, i as int));
            assert(tv.subrange(0, i + 1).last() == to_constraints@[i as int]@);
            reveal_with_fuel(Seq::filter, 1);
            if !contains_constraint(&from_constraints, &to_constraints[i]) {
                let c = copy_constraint(&to_constraints[i]);
                extra_checks.push(c);
                assert(constraint_views(extra_checks@) =~= constraint_views(before).push(c@));
            }
            i = i + 1;
        }
        assert(tv.subrange(0, tv.len() as int) =~= tv);
        return ConversionInfo {
            from_type: owned(from_type),
            to_type: owned(to_type),
            kind: ConversionKind::Downcast,
            extra_checks,
        };
    }
    assert(constraint_views(Seq::<ConstraintDef>::empty()) =~= Seq::<ConstraintView>::empty());
    ConversionInfo {
        from_type: owned(from_type),
        to_type: owned(to_type),
        kind: ConversionKind::Incompatible,
        extra_checks: Vec::new(),
    }
}

/// Converting a type to itself is an upcast: it needs no check.
pub proof fn law_same_type_converts_by_upcast(registry: ConstrainedTypes, name: Seq<char>)
    ensures
        conversion_kind(constraint_hierarchy(registry, name), constraint_hierarchy(registry, name))
            == ConversionKind::Upcast,
{
    let cs = constraint_hierarchy(registry, name);
    law_constraints_compatible_with_themselves(cs);
    assert forall|i: int| 0 <= i < cs.len() implies exists|j: int|
        0 <= j < cs.len() && same_dimension(#[trigger] cs[i], #[trigger] cs[j]) by {
        assert(same_dimension(cs[i], cs[i]));
    }
}

/// Whether every integer that satisfies constraint `child` satisfies
/// constraint `parent`.
pub open spec fn implies_int(child: ConstraintView, parent: ConstraintView) -> bool {
    forall|v: i64| (#[trigger] int_constraint_result(v, child) is Satisfied) ==> (int_constraint_result(
        v,
        parent,
    ) is Satisfied)
}

/// The single numeric bounds for which subtyping is exactly implication of
/// values: a non-empty range against any bound, or a bound against a bound
/// of its own kind.
pub open spec fn comparable_bounds(child: ConstraintView, parent: ConstraintView) -> bool {
    (parent is Gte || parent is Lte || parent is Range) && match child {
        ConstraintView::Range(lo, hi) => lo <= hi,
        ConstraintView::Gte(_) => parent is Gte,
        ConstraintView::Lte(_) => parent is Lte,
        _ => false,
    }
}

/// A type constrained by one numeric bound is a subtype of a type
/// constrained by another exactly when every integer the first admits is
/// admitted by the second (a range below `hi` and above `lo` against a lower
/// or upper bound or another range; a bound against a bound of its kind), so
/// converting to the wider type is an upcast.
pub proof fn law_subtype_is_implication_of_bounds(child: ConstraintView, parent: ConstraintView)
    requires
        comparable_bounds(child, parent),
    ensures
        is_subtype(seq![child], seq![parent]) <==> implies_int(child, parent),
        implies_int(child, parent) ==> conversion_kind(seq![child], seq![parent]) == ConversionKind::Upcast,
{
    let cs = seq![child];
    let ps = seq![parent];
    assert(cs.drop_last() =~= Seq::<ConstraintView>::empty());
    assert(ps.drop_last() =~= Seq::<ConstraintView>::empty());
    assert(cs.last() == child);
    assert(tightest_lower(Seq::<ConstraintView>::empty()) is None);
    assert(tightest_upper(Seq::<ConstraintView>::empty()) is None);
    assert(tightest_lower(cs) == lower_bound_of(child));
    assert(tightest_upper(cs) == upper_bound_of(child));
    assert(compatibility_errors(ps, cs) == compatibility_errors(Seq::empty(), cs) + crate::constraints::hierarchy::compatibility_errors_for(parent, cs));
    assert(same_dimension(ps[0], cs[0]));
    if implies_int(child, parent) {
        match child {
            ConstraintView::Range(lo, hi) => {
                assert(int_constraint_result(lo, child) is Satisfied);
                assert(int_constraint_result(hi, child) is Satisfied);
            },
            ConstraintView::Gte(a) => {
                assert(int_constraint_result(a, child) is Satisfied);
            },
            ConstraintView::Lte(a) => {
                assert(int_constraint_result(a, child) is Satisfied);
            },
            _ => {},
        }
    }
    if is_subtype(cs, ps) {
        assert forall|v: i64| (#[trigger] int_constraint_result(v, child) is Satisfied) implies (int_constraint_result(
            v,
            parent,
        ) is Satisfied) by {}
    }
    assert(exists|j: int| 0 <= j < cs.len() && same_dimension(#[trigger] ps[0], #[trigger] cs[j])) by {
        assert(same_dimension(ps[0], cs[0]));
    }
}

} // verus!
