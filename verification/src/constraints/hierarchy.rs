//! Inheritance of constraints along base types, and compatibility of a
//! child's constraints with its parent's.

use vstd::prelude::*;
use vstd::set_lib::lemma_len_subset;
use crate::text::{chars_eq, chars_of, int_decimal, owned, push_i64, push_str};
use crate::types::{
    ConstrainedTypeInfo, ConstrainedTypes, ConstraintDef, ConstraintView, Type, con_name,
    constraint_views, entry_lookup, entry_names, extend_constraints,
};

verus! {

/// The names held by a list of strings.
pub open spec fn name_set(v: Seq<String>) -> Set<Seq<char>> {
    v.map_values(|s: String| s@).to_set()
}

pub proof fn lemma_lookup_some_is_named(entries: Seq<(String, ConstrainedTypeInfo)>, name: Seq<char>)
    requires
        entry_lookup(entries, name) is Some,
    ensures
        entry_names(entries).to_set().contains(name),
    decreases entries.len(),
{
    if entries[0].0@ == name {
        assert(entry_names(entries)[0] == name);
    } else {
        lemma_lookup_some_is_named(entries.drop_first(), name);
        assert(entry_names(entries.drop_first()) =~= entry_names(entries).drop_first());
        let k = choose|k: int| 0 <= k < entry_names(entries.drop_first()).len()
            && entry_names(entries.drop_first())[k] == name;
        assert(entry_names(entries)[k + 1] == name);
    }
}

pub proof fn lemma_visit_decreases(keys: Set<Seq<char>>, visited: Set<Seq<char>>, name: Seq<char>)
    requires
        keys.finite(),
        keys.contains(name),
        !visited.contains(name),
    ensures
        visited.insert(name).intersect(keys).len() == visited.intersect(keys).len() + 1,
        visited.insert(name).intersect(keys).len() <= keys.len(),
{
    assert(visited.intersect(keys).subset_of(keys));
    lemma_len_subset(visited.intersect(keys), keys);
    assert(visited.insert(name).intersect(keys) =~= visited.intersect(keys).insert(name));
    assert(visited.intersect(keys).insert(name).subset_of(keys));
    lemma_len_subset(visited.intersect(keys).insert(name), keys);
}

/// The constraints `name` carries once those of its base types are included,
/// base types first; names in `visited` are not entered again.
pub open spec fn resolve_hierarchy(
    entries: Seq<(String, ConstrainedTypeInfo)>,
    name: Seq<char>,
    visited: Set<Seq<char>>,
) -> Seq<ConstraintView>
    decreases entry_names(entries).to_set().len() - visited.intersect(
        entry_names(entries).to_set(),
    ).len(),
{
    if visited.contains(name) {
        Seq::empty()
    } else {
        match entry_lookup(entries, name) {
            None => Seq::empty(),
            Some(info) => {
                let own = constraint_views(info.constraints@);
                match con_name(info.base_type) {
                    Some(base) => {
                        proof {
                            lemma_lookup_some_is_named(entries, name);
                            vstd::seq_lib::seq_to_set_is_finite(entry_names(entries));
                            lemma_visit_decreases(entry_names(entries).to_set(), visited, name);
                        }
                        resolve_hierarchy(entries, base, visited.insert(name)) + own
                    },
                    None => own,
                }
            },
        }
    }
}

/// All constraints of `name`, inherited ones first.
pub open spec fn constraint_hierarchy(registry: ConstrainedTypes, name: Seq<char>) -> Seq<
    ConstraintView,
> {
    resolve_hierarchy(registry.entries(), name, Set::empty())
}

fn contains_name(visited: &Vec<String>, name: &str) -> (r: bool)
    ensures
        r == name_set(visited@).contains(name@),
{
    let target = chars_of(name);
    let mut i: usize = 0;
    while i < visited.len()
        invariant
            i <= visited@.len(),
            target@ == name@,
            forall|j: int| 0 <= j < i ==> visited@[j]@ != name@,
        decreases visited.len() - i,
    {
        if chars_eq(&chars_of(visited[i].as_str()), &target) {
            assert(visited@.map_values(|s: String| s@)[i as int] == name@);
            return true;
        }
        i = i + 1;
    }
    proof {
        if name_set(visited@).contains(name@) {
            let names = visited@.map_values(|s: String| s@);
            let k = choose|k: int| 0 <= k < names.len() && #[trigger] names[k] == name@;
            assert(visited@[k]@ == name@);
        }
    }
    false
}

fn collect_constraints_recursive(
    ty_name: &str,
    constrained_types: &ConstrainedTypes,
    constraints: &mut Vec<ConstraintDef>,
    visited: &mut Vec<String>,
)
    requires
        constrained_types.wf(),
    ensures
        constraint_views(final(constraints)@) == constraint_views(old(constraints)@)
            + resolve_hierarchy(constrained_types.entries(), ty_name@, name_set(old(visited)@)),
    decreases constrained_types.names().len() - name_set(old(visited)@).intersect(
        constrained_types.names(),
    ).len(),
{
    let ghost entries = constrained_types.entries();
    let ghost old_visited = name_set(visited@);
    if contains_name(visited, ty_name) {
        assert(constraint_views(constraints@) + Seq::<ConstraintView>::empty() == constraint_views(
            constraints@,
        ));
        return ;
    }
    visited.push(owned(ty_name));
    assert(name_set(visited@) =~= old_visited.insert(ty_name@)) by {
        assert(visited@.map_values(|s: String| s@) =~= old(visited)@.map_values(|s: String| s@).push(
            ty_name@,
        ));
        old(visited)@.map_values(|s: String| s@).lemma_push_to_set_commute(ty_name@);
    }
    match constrained_types.get(ty_name) {
        Some(info) => {
            match &info.base_type {
                Type::Con(base) => {
                    proof {
                        lemma_lookup_some_is_named(entries, ty_name@);
                        vstd::seq_lib::seq_to_set_is_finite(entry_names(entries));
                        lemma_visit_decreases(entry_names(entries).to_set(), old_visited, ty_name@);
                    }
                    collect_constraints_recursive(base.as_str(), constrained_types, constraints, visited);
                },
                _ => {},
            }
            extend_constraints(constraints, &info.constraints);
        },
        None => {
            assert(constraint_views(constraints@) + Seq::<ConstraintView>::empty()
                == constraint_views(constraints@));
        },
    }
}

/// All constraints of `ty_name`, those inherited from its base types first.
///
/// A constrained type whose base is another constrained type inherits that
/// type's constraints, transitively; a cycle of base types is followed once.
/// An unregistered name has no constraints.
pub fn resolve_constraint_hierarchy(ty_name: &str, constrained_types: &ConstrainedTypes) -> (r: Vec<ConstraintDef>)
    requires
        constrained_types.wf(),
    ensures
        constraint_views(r@) == constraint_hierarchy(*constrained_types, ty_name@),
{
    let mut all_constraints: Vec<ConstraintDef> = Vec::new();
    let mut visited: Vec<String> = Vec::new();
    assert(name_set(visited@) =~= Set::<Seq<char>>::empty());
    collect_constraints_recursive(ty_name, constrained_types, &mut all_constraints, &mut visited);
    assert(constraint_views(Seq::<ConstraintDef>::empty()) =~= Seq::<ConstraintView>::empty());
    all_constraints
}

} // verus!

verus! {

/// The lower bound a constraint sets: a `Gte`, or the low end of a `Range`.
pub open spec fn lower_bound_of(c: ConstraintView) -> Option<i64> {
    match c {
        ConstraintView::Gte(v) => Some(v),
        ConstraintView::Range(lo, _) => Some(lo),
        _ => None,
    }
}

/// The upper bound a constraint sets: an `Lte`, or the high end of a `Range`.
pub open spec fn upper_bound_of(c: ConstraintView) -> Option<i64> {
    match c {
        ConstraintView::Lte(v) => Some(v),
        ConstraintView::Range(_, hi) => Some(hi),
        _ => None,
    }
}

/// The larger of two optional bounds; a missing bound gives way to the other.
pub open spec fn larger_bound(a: Option<i64>, b: Option<i64>) -> Option<i64> {
    match (a, b) {
        (Some(x), Some(y)) => Some(if x >= y { x } else { y }),
        (Some(x), None) => Some(x),
        (None, y) => y,
    }
}

/// The smaller of two optional bounds; a missing bound gives way to the other.
pub open spec fn smaller_bound(a: Option<i64>, b: Option<i64>) -> Option<i64> {
    match (a, b) {
        (Some(x), Some(y)) => Some(if x <= y { x } else { y }),
        (Some(x), None) => Some(x),
        (None, y) => y,
    }
}

/// The tightest lower bound the constraints set together: the largest of
/// their lower bounds, if any sets one.
pub open spec fn tightest_lower(cs: Seq<ConstraintView>) -> Option<i64>
    decreases cs.len(),
{
    if cs.len() == 0 {
        None
    } else {
        larger_bound(tightest_lower(cs.drop_last()), lower_bound_of(cs.last()))
    }
}

/// The tightest upper bound the constraints set together: the smallest of
/// their upper bounds, if any sets one.
pub open spec fn tightest_upper(cs: Seq<ConstraintView>) -> Option<i64>
    decreases cs.len(),
{
    if cs.len() == 0 {
        None
    } else {
        smaller_bound(tightest_upper(cs.drop_last()), upper_bound_of(cs.last()))
    }
}


pub open spec fn lower_message(child: int, parent: int) -> Seq<char> {
    "子の下限 ("@ + int_decimal(child) + ") が親の下限 ("@ + int_decimal(parent) + ") より小さい"@
}

pub open spec fn upper_message(child: int, parent: int) -> Seq<char> {
    "子の上限 ("@ + int_decimal(child) + ") が親の上限 ("@ + int_decimal(parent) + ") より大きい"@
}

pub open spec fn range_lower_message(child: int, parent: int) -> Seq<char> {
    "子の下限 ("@ + int_decimal(child) + ") が親の範囲下限 ("@ + int_decimal(parent)
        + ") より小さい"@
}

pub open spec fn range_upper_message(child: int, parent: int) -> Seq<char> {
    "子の上限 ("@ + int_decimal(child) + ") が親の範囲上限 ("@ + int_decimal(parent)
        + ") より大きい"@
}

/// A one-message sequence when `cond` holds, else none.
pub open spec fn message_if(cond: bool, m: Seq<char>) -> Seq<Seq<char>> {
    if cond { seq![m] } else { Seq::empty() }
}

/// The complaints about `child` raised by one parent constraint: a parent
/// lower bound is checked against the child's tightest lower bound, an upper
/// bound against the child's tightest upper bound, and a parent range against
/// both.
pub open spec fn compatibility_errors_for(parent: ConstraintView, child: Seq<ConstraintView>) -> Seq<Seq<char>> {
    match parent {
        ConstraintView::Gte(pmin) => match tightest_lower(child) {
            Some(cm) => message_if(cm < pmin, lower_message(cm as int, pmin as int)),
            None => Seq::empty(),
        },
        ConstraintView::Lte(pmax) => match tightest_upper(child) {
            Some(cm) => message_if(cm > pmax, upper_message(cm as int, pmax as int)),
            None => Seq::empty(),
        },
        ConstraintView::Range(plo, phi) => (match tightest_lower(child) {
            Some(clo) => message_if(clo < plo, range_lower_message(clo as int, plo as int)),
            None => Seq::empty(),
        }) + (match tightest_upper(child) {
            Some(chi) => message_if(chi > phi, range_upper_message(chi as int, phi as int)),
            None => Seq::empty(),
        }),
        _ => Seq::empty(),
    }
}

/// The complaints about `child` raised by each parent constraint, in order.
pub open spec fn compatibility_errors(parent: Seq<ConstraintView>, child: Seq<ConstraintView>) -> Seq<Seq<char>>
    decreases parent.len(),
{
    if parent.len() == 0 {
        Seq::empty()
    } else {
        compatibility_errors(parent.drop_last(), child) + compatibility_errors_for(parent.last(), child)
    }
}

/// The views of a list of strings.
pub open spec fn string_views(v: Seq<String>) -> Seq<Seq<char>> {
    v.map_values(|s: String| s@)
}

/// The child's tightest lower and upper bounds.
fn tightest_bounds(cs: &[ConstraintDef]) -> (r: (Option<i64>, Option<i64>))
    ensures
        r.0 == tightest_lower(constraint_views(cs@)),
        r.1 == tightest_upper(constraint_views(cs@)),
{
    let mut lower: Option<i64> = None;
    let mut upper: Option<i64> = None;
    let mut i: usize = 0;
    assert(constraint_views(cs@.subrange(0, 0)) =~= Seq::<ConstraintView>::empty());
    while i < cs.len()
        invariant
            i <= cs@.len(),
            lower == tightest_lower(constraint_views(cs@.subrange(0, i as int))),
            upper == tightest_upper(constraint_views(cs@.subrange(0, i as int))),
        decreases cs.len() - i,
    {
        assert(constraint_views(cs@.subrange(0, i + 1)).drop_last() =~= constraint_views(
            cs@.subrange(0, i as int),
        ));
        assert(constraint_views(cs@.subrange(0, i + 1)).last() == cs@[i as int]@);
        let (lo, hi): (Option<i64>, Option<i64>) = match &cs[i] {
            ConstraintDef::Gte(v) => (Some(*v), None),
            ConstraintDef::Lte(v) => (None, Some(*v)),
            ConstraintDef::Range(a, b) => (Some(*a), Some(*b)),
            _ => (None, None),
        };
        lower = match (lower, lo) {
            (Some(x), Some(y)) => Some(if x >= y { x } else { y }),
            (Some(x), None) => Some(x),
            (None, y) => y,
        };
        upper = match (upper, hi) {
            (Some(x), Some(y)) => Some(if x <= y { x } else { y }),
            (Some(x), None) => Some(x),
            (None, y) => y,
        };
        i = i + 1;
    }
    assert(cs@.subrange(0, cs@.len() as int) =~= cs@);
    (lower, upper)
}

fn bound_message(first: &str, child: i64, middle: &str, parent: i64, last: &str) -> (m: String)
    ensures
        m@ == first@ + int_decimal(child as int) + middle@ + int_decimal(parent as int) + last@,
{
    let mut m = String::new();
    push_str(&mut m, first);
    push_i64(&mut m, child);
    push_str(&mut m, middle);
    push_i64(&mut m, parent);
    push_str(&mut m, last);
    assert(m@ =~= first@ + int_decimal(child as int) + middle@ + int_decimal(parent as int) + last@);
    m
}

fn push_lower(errors: &mut Vec<String>, child: i64, parent: i64)
    ensures
        string_views(final(errors)@) == string_views(old(errors)@) + seq![lower_message(child as int, parent as int)],
{
    let m = bound_message("子の下限 (", child, ") が親の下限 (", parent, ") より小さい");
    errors.push(m);
    assert(string_views(errors@) =~= string_views(old(errors)@) + seq![m@]);
}

fn push_upper(errors: &mut Vec<String>, child: i64, parent: i64)
    ensures
        string_views(final(errors)@) == string_views(old(errors)@) + seq![upper_message(child as int, parent as int)],
{
    let m = bound_message("子の上限 (", child, ") が親の上限 (", parent, ") より大きい");
    errors.push(m);
    assert(string_views(errors@) =~= string_views(old(errors)@) + seq![m@]);
}

fn push_range_lower(errors: &mut Vec<String>, child: i64, parent: i64)
    ensures
        string_views(final(errors)@) == string_views(old(errors)@) + seq![range_lower_message(child as int, parent as int)],
{
    let m = bound_message("子の下限 (", child, ") が親の範囲下限 (", parent, ") より小さい");
    errors.push(m);
    assert(string_views(errors@) =~= string_views(old(errors)@) + seq![m@]);
}

fn push_range_upper(errors: &mut Vec<String>, child: i64, parent: i64)
    ensures
        string_views(final(errors)@) == string_views(old(errors)@) + seq![range_upper_message(child as int, parent as int)],
{
    let m = bound_message("子の上限 (", child, ") が親の範囲上限 (", parent, ") より大きい");
    errors.push(m);
    assert(string_views(errors@) =~= string_views(old(errors)@) + seq![m@]);
}

/// Checks that a child's constraints stay within its parent's.
///
/// The child's constraints together set a tightest lower bound (the largest
/// of its `Gte` and `Range` lows) and a tightest upper bound (the smallest of
/// its `Lte` and `Range` highs). For each parent lower bound (`Gte`, or the
/// low end of a `Range`) the child's tightest lower bound must not be
/// smaller; for each parent upper bound the child's tightest upper bound must
/// not be larger. One message per violation, in the order of the parent's
/// constraints; a child that sets no bound of a kind raises no complaint of
/// that kind.
pub fn check_constraint_compatibility(
    parent_constraints: &[ConstraintDef],
    child_constraints: &[ConstraintDef],
) -> (r: Vec<String>)
    ensures
        string_views(r@) == compatibility_errors(
            constraint_views(parent_constraints@),
            constraint_views(child_constraints@),
        ),
{
    let ghost child = constraint_views(child_constraints@);
    let (child_lo, child_hi) = tightest_bounds(child_constraints);
    let mut errors: Vec<String> = Vec::new();
    let mut i: usize = 0;
    while i < parent_constraints.len()
        invariant
            i <= parent_constraints@.len(),
            child == constraint_views(child_constraints@),
            child_lo == tightest_lower(child),
            child_hi == tightest_upper(child),
            string_views(errors@) == compatibility_errors(
                constraint_views(parent_constraints@.subrange(0, i as int)),
                child,
            ),
        decreases parent_constraints.len() - i,
    {
        let ghost before = string_views(errors@);
        assert(constraint_views(parent_constraints@.subrange(0, i + 1)).drop_last()
            =~= constraint_views(parent_constraints@.subrange(0, i as int)));
        match &parent_constraints[i] {
            ConstraintDef::Gte(parent_min) => {
                if let Some(cm) = child_lo {
                    if cm < *parent_min {
                        push_lower(&mut errors, cm, *parent_min);
                    }
                }
            },
            ConstraintDef::Lte(parent_max) => {
                if let Some(cm) = child_hi {
                    if cm > *parent_max {
                        push_upper(&mut errors, cm, *parent_max);
                    }
                }
            },
            ConstraintDef::Range(parent_lo, parent_hi) => {
                if let Some(clo) = child_lo {
                    if clo < *parent_lo {
                        push_range_lower(&mut errors, clo, *parent_lo);
                    }
                }
                if let Some(chi) = child_hi {
                    if chi > *parent_hi {
                        push_range_upper(&mut errors, chi, *parent_hi);
                    }
                }
            },
            _ => {},
        }
        assert(string_views(errors@) =~= before + compatibility_errors_for(
            parent_constraints@[i as int]@,
            child,
        ));
        i = i + 1;
    }
    assert(parent_constraints@.subrange(0, parent_constraints@.len() as int) =~= parent_constraints@);
    errors
}


/// Every lower bound among the constraints is at most their tightest one.
pub proof fn lemma_tightest_lower_covers(cs: Seq<ConstraintView>, k: int)
    requires
        0 <= k < cs.len(),
        lower_bound_of(cs[k]) is Some,
    ensures
        tightest_lower(cs) matches Some(t) && t >= lower_bound_of(cs[k])->Some_0,
    decreases cs.len(),
{
    if k < cs.len() - 1 {
        lemma_tightest_lower_covers(cs.drop_last(), k);
    }
}

/// Every upper bound among the constraints is at least their tightest one.
pub proof fn lemma_tightest_upper_covers(cs: Seq<ConstraintView>, k: int)
    requires
        0 <= k < cs.len(),
        upper_bound_of(cs[k]) is Some,
    ensures
        tightest_upper(cs) matches Some(t) && t <= upper_bound_of(cs[k])->Some_0,
    decreases cs.len(),
{
    if k < cs.len() - 1 {
        lemma_tightest_upper_covers(cs.drop_last(), k);
    }
}

/// A child that carries each of the parent's constraints itself satisfies
/// the parent: the check raises no complaint.
pub proof fn law_child_with_parent_constraints_is_compatible(
    parent: Seq<ConstraintView>,
    child: Seq<ConstraintView>,
)
    requires
        forall|i: int| 0 <= i < parent.len() ==> child.contains(#[trigger] parent[i]),
    ensures
        compatibility_errors(parent, child).len() == 0,
    decreases parent.len(),
{
    if parent.len() > 0 {
        law_child_with_parent_constraints_is_compatible(parent.drop_last(), child);
        let p = parent.last();
        assert(child.contains(parent[parent.len() - 1]));
        let k = choose|k: int| 0 <= k < child.len() && child[k] == p;
        if lower_bound_of(p) is Some {
            lemma_tightest_lower_covers(child, k);
        }
        if upper_bound_of(p) is Some {
            lemma_tightest_upper_covers(child, k);
        }
    }
}

/// A list of constraints is compatible with itself.
pub proof fn law_constraints_compatible_with_themselves(cs: Seq<ConstraintView>)
    ensures
        compatibility_errors(cs, cs).len() == 0,
{
    assert forall|i: int| 0 <= i < cs.len() implies cs.contains(#[trigger] cs[i]) by {}
    law_child_with_parent_constraints_is_compatible(cs, cs);
}

/// A type's own constraints come last in its resolved constraints, after
/// those it inherits; a type that is not registered has none.
pub proof fn law_own_constraints_come_last(registry: ConstrainedTypes, name: Seq<char>)
    ensures
        match entry_lookup(registry.entries(), name) {
            Some(info) => {
                let own = constraint_views(info.constraints@);
                let all = constraint_hierarchy(registry, name);
                own.len() <= all.len() && all.skip(all.len() - own.len()) == own
            },
            None => constraint_hierarchy(registry, name).len() == 0,
        },
{
    assert(!Set::<Seq<char>>::empty().contains(name));
    match entry_lookup(registry.entries(), name) {
        Some(info) => {
            let own = constraint_views(info.constraints@);
            let all = constraint_hierarchy(registry, name);
            match con_name(info.base_type) {
                Some(base) => {
                    let inherited = resolve_hierarchy(
                        registry.entries(),
                        base,
                        Set::<Seq<char>>::empty().insert(name),
                    );
                    assert(all == inherited + own);
                    assert(all.skip(all.len() - own.len()) =~= own);
                },
                None => {
                    assert(all.skip(0) =~= own);
                },
            }
        },
        None => {},
    }
}

} // verus!
