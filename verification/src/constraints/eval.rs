//! Evaluation of constraints on literal values, and boundary-case generation.

use vstd::prelude::*;
use crate::pattern::{pattern_matches, simple_pattern_match};
use crate::text::{int_decimal, nat_digits, owned, push_i64, push_str, push_u64};
use crate::types::{ConstraintDef, ConstraintView, constraint_views};

verus! {

/// An error raised while evaluating constraints.
#[derive(Debug)]
pub enum ConstraintError {
    /// A value broke a constraint.
    Violation { constraint: String, value: String },
    /// A value of the wrong type was checked.
    TypeMismatch { expected: String, actual: String },
}

impl ConstraintError {
    /// The human-readable description of the error.
    pub fn message(&self) -> (m: String)
        ensures
            m@ == match self {
                ConstraintError::Violation { constraint, value } => "制約違反: "@ + constraint@
                    + " (値: "@ + value@ + ")"@,
                ConstraintError::TypeMismatch { expected, actual } => "型不一致: "@ + expected@
                    + " が期待されましたが "@ + actual@ + " が渡されました"@,
            },
    {
        let mut m = String::new();
        match self {
            ConstraintError::Violation { constraint, value } => {
                push_str(&mut m, "制約違反: ");
                push_str(&mut m, constraint.as_str());
                push_str(&mut m, " (値: ");
                push_str(&mut m, value.as_str());
                push_str(&mut m, ")");
            },
            ConstraintError::TypeMismatch { expected, actual } => {
                push_str(&mut m, "型不一致: ");
                push_str(&mut m, expected.as_str());
                push_str(&mut m, " が期待されましたが ");
                push_str(&mut m, actual.as_str());
                push_str(&mut m, " が渡されました");
            },
        }
        assert(Seq::<char>::empty() + "制約違反: "@ =~= "制約違反: "@);
        assert(Seq::<char>::empty() + "型不一致: "@ =~= "型不一致: "@);
        m
    }
}

/// The outcome of checking one constraint.
#[derive(Debug, PartialEq)]
pub enum ConstraintResult {
    /// The constraint holds.
    Satisfied,
    /// The constraint does not hold; the message says why.
    Violated(String),
    /// The constraint can only be checked at run time.
    Deferred,
}

/// The mathematical content of a [`ConstraintResult`].
pub enum ResultView {
    Satisfied,
    Violated(Seq<char>),
    Deferred,
}

impl View for ConstraintResult {
    type V = ResultView;

    open spec fn view(&self) -> ResultView {
        match self {
            ConstraintResult::Satisfied => ResultView::Satisfied,
            ConstraintResult::Violated(m) => ResultView::Violated(m@),
            ConstraintResult::Deferred => ResultView::Deferred,
        }
    }
}

/// The views of a sequence of results.
pub open spec fn result_views(s: Seq<ConstraintResult>) -> Seq<ResultView> {
    s.map_values(|r: ConstraintResult| r@)
}

pub open spec fn gte_message(value: int, min: int) -> Seq<char> {
    "値 "@ + int_decimal(value) + " は >= "@ + int_decimal(min) + " を満たしません"@
}

pub open spec fn lte_message(value: int, max: int) -> Seq<char> {
    "値 "@ + int_decimal(value) + " は <= "@ + int_decimal(max) + " を満たしません"@
}

pub open spec fn range_message(value: int, lo: int, hi: int) -> Seq<char> {
    "値 "@ + int_decimal(value) + " は範囲 ["@ + int_decimal(lo) + ", "@ + int_decimal(hi)
        + "] に含まれません"@
}

pub open spec fn one_of_message(value: int) -> Seq<char> {
    "値 "@ + int_decimal(value) + " は許可された値リストに含まれません"@
}

pub open spec fn int_given_string_constraint_message() -> Seq<char> {
    "整数値に文字列制約は適用できません"@
}

pub open spec fn string_given_int_constraint_message() -> Seq<char> {
    "文字列値に整数制約は適用できません"@
}

pub open spec fn min_length_message(len: nat, min: nat) -> Seq<char> {
    "文字列長 "@ + nat_digits(len) + " は最小長 "@ + nat_digits(min) + " を満たしません"@
}

pub open spec fn max_length_message(len: nat, max: nat) -> Seq<char> {
    "文字列長 "@ + nat_digits(len) + " は最大長 "@ + nat_digits(max) + " を超えています"@
}

pub open spec fn pattern_message(value: Seq<char>, pattern: Seq<char>) -> Seq<char> {
    "文字列 \""@ + value + "\" はパターン \""@ + pattern + "\" にマッチしません"@
}

/// The result of checking integer `value` against constraint `c`.
pub open spec fn int_constraint_result(value: i64, c: ConstraintView) -> ResultView {
    match c {
        ConstraintView::Gte(min) => if value >= min {
            ResultView::Satisfied
        } else {
            ResultView::Violated(gte_message(value as int, min as int))
        },
        ConstraintView::Lte(max) => if value <= max {
            ResultView::Satisfied
        } else {
            ResultView::Violated(lte_message(value as int, max as int))
        },
        ConstraintView::Range(lo, hi) => if lo <= value && value <= hi {
            ResultView::Satisfied
        } else {
            ResultView::Violated(range_message(value as int, lo as int, hi as int))
        },
        ConstraintView::OneOf(values) => if values.contains(value) {
            ResultView::Satisfied
        } else {
            ResultView::Violated(one_of_message(value as int))
        },
        ConstraintView::Matches(_) | ConstraintView::MinLength(_) | ConstraintView::MaxLength(
            _,
        ) => ResultView::Violated(int_given_string_constraint_message()),
        ConstraintView::Satisfies(_) => ResultView::Deferred,
    }
}

/// The length in bytes of the UTF-8 encoding of `s`.
pub open spec fn byte_len(s: Seq<char>) -> nat {
    (vstd::utf8::encode_utf8(s).len() as usize) as nat
}

/// The result of checking string `value` against constraint `c`.
pub open spec fn string_constraint_result(value: Seq<char>, c: ConstraintView) -> ResultView {
    match c {
        ConstraintView::MinLength(min) => if byte_len(value) >= min {
            ResultView::Satisfied
        } else {
            ResultView::Violated(min_length_message(byte_len(value), min as nat))
        },
        ConstraintView::MaxLength(max) => if byte_len(value) <= max {
            ResultView::Satisfied
        } else {
            ResultView::Violated(max_length_message(byte_len(value), max as nat))
        },
        ConstraintView::Matches(pattern) => if pattern_matches(pattern, value) {
            ResultView::Satisfied
        } else {
            ResultView::Violated(pattern_message(value, pattern))
        },
        ConstraintView::Gte(_) | ConstraintView::Lte(_) | ConstraintView::Range(_, _)
        | ConstraintView::OneOf(_) => ResultView::Violated(string_given_int_constraint_message()),
        ConstraintView::Satisfies(_) => ResultView::Deferred,
    }
}

fn contains_i64(values: &Vec<i64>, value: i64) -> (r: bool)
    ensures
        r == values@.contains(value),
{
    let mut i: usize = 0;
    while i < values.len()
        invariant
            i <= values.len(),
            forall|j: int| 0 <= j < i ==> values@[j] != value,
        decreases values.len() - i,
    {
        if values[i] == value {
            assert(values@[i as int] == value);
            return true;
        }
        i = i + 1;
    }
    false
}

/// Checks integer `value` against one constraint.
pub fn eval_int_constraint(value: i64, constraint: &ConstraintDef) -> (r: ConstraintResult)
    ensures
        r@ == int_constraint_result(value, constraint@),
{
    let mut m = String::new();
    let r = match constraint {
        ConstraintDef::Gte(min) => {
            if value >= *min {
                ConstraintResult::Satisfied
            } else {
                push_str(&mut m, "値 ");
                push_i64(&mut m, value);
                push_str(&mut m, " は >= ");
                push_i64(&mut m, *min);
                push_str(&mut m, " を満たしません");
                assert(m@ =~= gte_message(value as int, *min as int));
                ConstraintResult::Violated(m)
            }
        },
        ConstraintDef::Lte(max) => {
            if value <= *max {
                ConstraintResult::Satisfied
            } else {
                push_str(&mut m, "値 ");
                push_i64(&mut m, value);
                push_str(&mut m, " は <= ");
                push_i64(&mut m, *max);
                push_str(&mut m, " を満たしません");
                assert(m@ =~= lte_message(value as int, *max as int));
                ConstraintResult::Violated(m)
            }
        },
        ConstraintDef::Range(lo, hi) => {
            if value >= *lo && value <= *hi {
                ConstraintResult::Satisfied
            } else {
                push_str(&mut m, "値 ");
                push_i64(&mut m, value);
                push_str(&mut m, " は範囲 [");
                push_i64(&mut m, *lo);
                push_str(&mut m, ", ");
                push_i64(&mut m, *hi);
                push_str(&mut m, "] に含まれません");
                assert(m@ =~= range_message(value as int, *lo as int, *hi as int));
                ConstraintResult::Violated(m)
            }
        },
        ConstraintDef::OneOf(values) => {
            if contains_i64(values, value) {
                ConstraintResult::Satisfied
            } else {
                push_str(&mut m, "値 ");
                push_i64(&mut m, value);
                push_str(&mut m, " は許可された値リストに含まれません");
                assert(m@ =~= one_of_message(value as int));
                ConstraintResult::Violated(m)
            }
        },
        ConstraintDef::Matches(_) | ConstraintDef::MinLength(_) | ConstraintDef::MaxLength(_) => {
            ConstraintResult::Violated(owned("整数値に文字列制約は適用できません"))
        },
        ConstraintDef::Satisfies(_) => ConstraintResult::Deferred,
    };
    r
}

/// Checks string `value` against one constraint.
pub fn eval_string_constraint(value: &str, constraint: &ConstraintDef) -> (r: ConstraintResult)
    ensures
        r@ == string_constraint_result(value@, constraint@),
{
    let mut m = String::new();
    let len = value.len();
    assert(len == byte_len(value@));
    match constraint {
        ConstraintDef::MinLength(min) => {
            if len >= *min {
                ConstraintResult::Satisfied
            } else {
                push_str(&mut m, "文字列長 ");
                push_u64(&mut m, len as u64);
                push_str(&mut m, " は最小長 ");
                push_u64(&mut m, *min as u64);
                push_str(&mut m, " を満たしません");
                assert(m@ =~= min_length_message(len as nat, *min as nat));
                ConstraintResult::Violated(m)
            }
        },
        ConstraintDef::MaxLength(max) => {
            if len <= *max {
                ConstraintResult::Satisfied
            } else {
                push_str(&mut m, "文字列長 ");
                push_u64(&mut m, len as u64);
                push_str(&mut m, " は最大長 ");
                push_u64(&mut m, *max as u64);
                push_str(&mut m, " を超えています");
                assert(m@ =~= max_length_message(len as nat, *max as nat));
                ConstraintResult::Violated(m)
            }
        },
        ConstraintDef::Matches(pattern) => {
            if simple_pattern_match(value, pattern.as_str()) {
                ConstraintResult::Satisfied
            } else {
                push_str(&mut m, "文字列 \"");
                push_str(&mut m, value);
                push_str(&mut m, "\" はパターン \"");
                push_str(&mut m, pattern.as_str());
                push_str(&mut m, "\" にマッチしません");
                assert(m@ =~= pattern_message(value@, pattern@));
                ConstraintResult::Violated(m)
            }
        },
        ConstraintDef::Gte(_) | ConstraintDef::Lte(_) | ConstraintDef::Range(_, _)
        | ConstraintDef::OneOf(_) => {
            ConstraintResult::Violated(owned("文字列値に整数制約は適用できません"))
        },
        ConstraintDef::Satisfies(_) => ConstraintResult::Deferred,
    }
}

/// Checks integer `value` against each constraint, in order.
pub fn eval_int_constraints(value: i64, constraints: &[ConstraintDef]) -> (r: Vec<ConstraintResult>)
    ensures
        r@.len() == constraints@.len(),
        forall|i: int|
            0 <= i < constraints@.len() ==> (#[trigger] r@[i])@ == int_constraint_result(
                value,
                constraints@[i]@,
            ),
{
    let mut out: Vec<ConstraintResult> = Vec::new();
    let mut i: usize = 0;
    while i < constraints.len()
        invariant
            i <= constraints@.len(),
            out@.len() == i,
            forall|j: int|
                0 <= j < i ==> (#[trigger] out@[j])@ == int_constraint_result(
                    value,
                    constraints@[j]@,
                ),
        decreases constraints.len() - i,
    {
        out.push(eval_int_constraint(value, &constraints[i]));
        i = i + 1;
    }
    out
}

/// Checks string `value` against each constraint, in order.
pub fn eval_string_constraints(value: &str, constraints: &[ConstraintDef]) -> (r: Vec<ConstraintResult>)
    ensures
        r@.len() == constraints@.len(),
        forall|i: int|
            0 <= i < constraints@.len() ==> (#[trigger] r@[i])@ == string_constraint_result(
                value@,
                constraints@[i]@,
            ),
{
    let mut out: Vec<ConstraintResult> = Vec::new();
    let mut i: usize = 0;
    while i < constraints.len()
        invariant
            i <= constraints@.len(),
            out@.len() == i,
            forall|j: int|
                0 <= j < i ==> (#[trigger] out@[j])@ == string_constraint_result(
                    value@,
                    constraints@[j]@,
                ),
        decreases constraints.len() - i,
    {
        out.push(eval_string_constraint(value, &constraints[i]));
        i = i + 1;
    }
    out
}

/// Whether every result is `Satisfied`.
pub fn all_satisfied(results: &[ConstraintResult]) -> (r: bool)
    ensures
        r == (forall|i: int| 0 <= i < results@.len() ==> (#[trigger] results@[i]) is Satisfied),
{
    let mut i: usize = 0;
    while i < results.len()
        invariant
            i <= results@.len(),
            forall|j: int| 0 <= j < i ==> (#[trigger] results@[j]) is Satisfied,
        decreases results.len() - i,
    {
        match &results[i] {
            ConstraintResult::Satisfied => {},
            _ => {
                return false;
            },
        }
        i = i + 1;
    }
    true
}

/// The messages of the violated results, in order.
pub open spec fn violation_messages(results: Seq<ResultView>) -> Seq<Seq<char>>
    decreases results.len(),
{
    if results.len() == 0 {
        Seq::empty()
    } else {
        let rest = violation_messages(results.drop_last());
        match results.last() {
            ResultView::Violated(m) => rest.push(m),
            _ => rest,
        }
    }
}

/// The messages of the violated results, in order.
pub fn collect_violations(results: &[ConstraintResult]) -> (r: Vec<String>)
    ensures
        r@.map_values(|s: String| s@) == violation_messages(result_views(results@)),
{
    let mut out: Vec<String> = Vec::new();
    let mut i: usize = 0;
    while i < results.len()
        invariant
            i <= results@.len(),
            out@.map_values(|s: String| s@) == violation_messages(
                result_views(results@.subrange(0, i as int)),
            ),
        decreases results.len() - i,
    {
        let ghost before = out@;
        assert(result_views(results@.subrange(0, i + 1)).drop_last() =~= result_views(
            results@.subrange(0, i as int),
        ));
        match &results[i] {
            ConstraintResult::Violated(msg) => {
                out.push(owned(msg.as_str()));
                assert(out@.map_values(|s: String| s@) =~= before.map_values(|s: String| s@).push(
                    msg@,
                ));
            },
            _ => {},
        }
        i = i + 1;
    }
    assert(results@.subrange(0, results@.len() as int) =~= results@);
    out
}

/// The largest element of a non-empty sequence.
pub open spec fn seq_max(s: Seq<i64>) -> i64
    decreases s.len(),
{
    if s.len() <= 1 {
        s[0]
    } else {
        let m = seq_max(s.drop_last());
        if s.last() > m { s.last() } else { m }
    }
}

/// Rust's division by two, rounding toward zero.
pub open spec fn half_toward_zero(x: int) -> int {
    if x >= 0 { x / 2 } else { -((-x) / 2) }
}

/// The boundary cases one constraint contributes: (value, expected to satisfy).
pub open spec fn boundary_cases_for(c: ConstraintView) -> Seq<(i64, bool)> {
    match c {
        ConstraintView::Gte(min) => seq![
            (min, true),
            ((min - 1) as i64, false),
            ((min + 1) as i64, true),
        ],
        ConstraintView::Lte(max) => seq![
            (max, true),
            ((max + 1) as i64, false),
            ((max - 1) as i64, true),
        ],
        ConstraintView::Range(lo, hi) => {
            let base = seq![
                (lo, true),
                ((lo - 1) as i64, false),
                (hi, true),
                ((hi + 1) as i64, false),
            ];
            if lo < hi {
                base.push((half_toward_zero(lo + hi) as i64, true))
            } else {
                base
            }
        },
        ConstraintView::OneOf(values) => {
            let listed = values.map_values(|v: i64| (v, true));
            if values.len() > 0 {
                listed.push(((seq_max(values) + 1000) as i64, false))
            } else {
                listed
            }
        },
        _ => Seq::empty(),
    }
}

/// Whether generating the boundary cases of `c` stays within `i64`.
pub open spec fn boundary_in_range(c: ConstraintView) -> bool {
    match c {
        ConstraintView::Gte(min) => i64::MIN < min < i64::MAX,
        ConstraintView::Lte(max) => i64::MIN < max < i64::MAX,
        ConstraintView::Range(lo, hi) => i64::MIN < lo && hi < i64::MAX && (lo < hi ==> i64::MIN
            <= lo + hi <= i64::MAX),
        ConstraintView::OneOf(values) => values.len() > 0 ==> seq_max(values) + 1000 <= i64::MAX,
        _ => true,
    }
}

/// The boundary cases of all constraints, in order.
pub open spec fn boundary_cases(cs: Seq<ConstraintView>) -> Seq<(i64, bool)>
    decreases cs.len(),
{
    if cs.len() == 0 {
        Seq::empty()
    } else {
        boundary_cases(cs.drop_last()) + boundary_cases_for(cs.last())
    }
}

fn max_of(values: &Vec<i64>) -> (m: i64)
    requires
        values@.len() > 0,
    ensures
        m == seq_max(values@),
{
    let mut m = values[0];
    let mut i: usize = 1;
    assert(seq_max(values@.subrange(0, 1)) == values@[0]);
    while i < values.len()
        invariant
            1 <= i <= values@.len(),
            m == seq_max(values@.subrange(0, i as int)),
        decreases values.len() - i,
    {
        assert(values@.subrange(0, i + 1).drop_last() =~= values@.subrange(0, i as int));
        if values[i] > m {
            m = values[i];
        }
        i = i + 1;
    }
    assert(values@.subrange(0, values@.len() as int) =~= values@);
    m
}

fn push_boundary_cases(cases: &mut Vec<(i64, bool)>, c: &ConstraintDef)
    requires
        boundary_in_range(c@),
    ensures
        final(cases)@ == old(cases)@ + boundary_cases_for(c@),
{
    match c {
        ConstraintDef::Gte(min) => {
            cases.push((*min, true));
            cases.push((*min - 1, false));
            cases.push((*min + 1, true));
        },
        ConstraintDef::Lte(max) => {
            cases.push((*max, true));
            cases.push((*max + 1, false));
            cases.push((*max - 1, true));
        },
        ConstraintDef::Range(lo, hi) => {
            cases.push((*lo, true));
            cases.push((*lo - 1, false));
            cases.push((*hi, true));
            cases.push((*hi + 1, false));
            if *lo < *hi {
                let sum = *lo + *hi;
                let mid = if sum >= 0 {
                    sum / 2
                } else {
                    let y = -(sum + 1);
                    -(y / 2 + y % 2)
                };
                assert(mid == half_toward_zero(sum as int));
                cases.push((mid, true));
            }
        },
        ConstraintDef::OneOf(values) => {
            let ghost start = cases@;
            let mut i: usize = 0;
            while i < values.len()
                invariant
                    i <= values@.len(),
                    cases@ == start + values@.subrange(0, i as int).map_values(
                        |v: i64| (v, true),
                    ),
                decreases values.len() - i,
            {
                cases.push((values[i], true));
                i = i + 1;
                assert(values@.subrange(0, i as int).map_values(|v: i64| (v, true))
                    =~= values@.subrange(0, i - 1).map_values(|v: i64| (v, true)).push(
                    (values@[i - 1], true),
                ));
            }
            assert(values@.subrange(0, values@.len() as int) =~= values@);
            if values.len() > 0 {
                let m = max_of(values);
                cases.push((m + 1000, false));
            }
        },
        _ => {},
    }
    assert(cases@ =~= old(cases)@ + boundary_cases_for(c@));
}

/// Boundary test cases for integer constraints: for each constraint, values
/// just inside and just outside its bounds, with whether they should satisfy it.
/// String constraints and `satisfies` contribute no cases.
pub fn generate_boundary_test_cases(constraints: &[ConstraintDef]) -> (r: Vec<(i64, bool)>)
    requires
        forall|i: int| 0 <= i < constraints@.len() ==> boundary_in_range(#[trigger] constraints@[i]@),
    ensures
        r@ == boundary_cases(constraint_views(constraints@)),
{
    let mut cases: Vec<(i64, bool)> = Vec::new();
    let mut i: usize = 0;
    while i < constraints.len()
        invariant
            i <= constraints@.len(),
            forall|j: int| 0 <= j < constraints@.len() ==> boundary_in_range(#[trigger] constraints@[j]@),
            cases@ == boundary_cases(constraint_views(constraints@.subrange(0, i as int))),
        decreases constraints.len() - i,
    {
        assert(constraint_views(constraints@.subrange(0, i + 1)).drop_last() =~= constraint_views(
            constraints@.subrange(0, i as int),
        ));
        push_boundary_cases(&mut cases, &constraints[i]);
        i = i + 1;
    }
    assert(constraints@.subrange(0, constraints@.len() as int) =~= constraints@);
    cases
}


/// The boundary cases of two lists of constraints one after the other are
/// the cases of the first list followed by those of the second.
pub proof fn law_boundary_cases_concatenate(xs: Seq<ConstraintView>, ys: Seq<ConstraintView>)
    ensures
        boundary_cases(xs + ys) == boundary_cases(xs) + boundary_cases(ys),
    decreases ys.len(),
{
    if ys.len() == 0 {
        assert(xs + ys =~= xs);
        assert(boundary_cases(xs) + Seq::<(i64, bool)>::empty() =~= boundary_cases(xs));
    } else {
        assert((xs + ys).drop_last() =~= xs + ys.drop_last());
        assert((xs + ys).last() == ys.last());
        law_boundary_cases_concatenate(xs, ys.drop_last());
        assert(boundary_cases(xs + ys) =~= boundary_cases(xs) + boundary_cases(ys));
    }
}

/// String constraints, `satisfies` and an empty `one-of` contribute no
/// boundary cases.
pub proof fn law_boundary_cases_only_for_integer_bounds(c: ConstraintView)
    ensures
        (c is MinLength || c is MaxLength || c is Matches || c is Satisfies || c == ConstraintView::OneOf(
            Seq::empty(),
        )) <==> boundary_cases_for(c).len() == 0,
{
    if let ConstraintView::OneOf(values) = c {
        if values.len() == 0 {
            assert(values =~= Seq::<i64>::empty());
        }
    }
}

/// Results that are all satisfied carry no violation; a result list with a
/// violation is not all satisfied.
pub proof fn law_satisfied_results_have_no_violations(results: Seq<ResultView>)
    ensures
        (forall|i: int| 0 <= i < results.len() ==> (#[trigger] results[i]) is Satisfied)
            ==> violation_messages(results).len() == 0,
        violation_messages(results).len() > 0 ==> exists|i: int|
            0 <= i < results.len() && (#[trigger] results[i]) is Violated,
    decreases results.len(),
{
    if results.len() > 0 {
        let init = results.drop_last();
        law_satisfied_results_have_no_violations(init);
        if forall|i: int| 0 <= i < results.len() ==> (#[trigger] results[i]) is Satisfied {
            assert forall|i: int| 0 <= i < init.len() implies (#[trigger] init[i]) is Satisfied by {
                assert(init[i] == results[i]);
            }
            assert(results[results.len() - 1] is Satisfied);
        }
        if violation_messages(results).len() > 0 {
            if results.last() is Violated {
                assert(results[results.len() - 1] is Violated);
            } else {
                let k = choose|k: int| 0 <= k < init.len() && (#[trigger] init[k]) is Violated;
                assert(results[k] == init[k]);
            }
        }
    }
}

/// Every boundary case a constraint generates is expected to satisfy the
/// constraint exactly when evaluating the constraint on it succeeds, for
/// constraints whose boundary values stay within `i64` and whose ranges are
/// not inverted.
pub proof fn law_boundary_cases_match_evaluation(c: ConstraintView, k: int)
    requires
        boundary_in_range(c),
        c matches ConstraintView::Range(lo, hi) ==> lo <= hi,
        0 <= k < boundary_cases_for(c).len(),
    ensures
        boundary_cases_for(c)[k].1 == (int_constraint_result(boundary_cases_for(c)[k].0, c) is Satisfied),
{
    match c {
        ConstraintView::OneOf(values) => {
            let cases = boundary_cases_for(c);
            if k < values.len() {
                assert(cases[k] == (values[k], true));
                assert(values.contains(values[k]));
            } else {
                lemma_seq_max_is_max(values);
                let v = (seq_max(values) + 1000) as i64;
                assert(cases[k] == (v, false));
                if values.contains(v) {
                    let j = choose|j: int| 0 <= j < values.len() && values[j] == v;
                    assert(values[j] <= seq_max(values));
                }
            }
        },
        _ => {},
    }
}

/// The largest element bounds every element.
pub proof fn lemma_seq_max_is_max(s: Seq<i64>)
    requires
        s.len() > 0,
    ensures
        forall|i: int| 0 <= i < s.len() ==> s[i] <= seq_max(s),
    decreases s.len(),
{
    if s.len() > 1 {
        lemma_seq_max_is_max(s.drop_last());
        assert forall|i: int| 0 <= i < s.len() implies s[i] <= seq_max(s) by {
            if i < s.len() - 1 {
                assert(s[i] == s.drop_last()[i]);
            }
        }
    }
}

} // verus!
