//! Metadata diagnostics and the kinds of test generated from metadata.

use vstd::prelude::*;
use crate::syntax::{
    CaseExpectation, Decl, Expr, Metadata, MetadataForm, MetadataFormKind, Program, PropertyBinder,
    PropertyForm, Span, TypeExpr,
};
use crate::text::{chars_of, contains_chars, has_infix, nat_digits, owned, push_str, push_u64, str_eq};

verus! {

/// How serious a metadata diagnostic is.
#[derive(Debug, Clone, Copy, PartialEq, Eq, Structural)]
pub enum Severity {
    /// An inconsistency that must be fixed.
    Error,
    /// A recommendation.
    Warning,
}

/// A metadata diagnostic.
#[derive(Debug, Clone)]
pub struct MetadataDiagnostic {
    pub severity: Severity,
    pub message: String,
    pub span: Span,
    pub function_name: String,
}

/// The content of a [`MetadataDiagnostic`].
pub struct DiagnosticView {
    pub severity: Severity,
    pub message: Seq<char>,
    pub span: Span,
    pub function_name: Seq<char>,
}

impl View for MetadataDiagnostic {
    type V = DiagnosticView;

    open spec fn view(&self) -> DiagnosticView {
        DiagnosticView {
            severity: self.severity,
            message: self.message@,
            span: self.span,
            function_name: self.function_name@,
        }
    }
}

/// The views of a list of diagnostics.
pub open spec fn diagnostic_views(s: Seq<MetadataDiagnostic>) -> Seq<DiagnosticView> {
    s.map_values(|d: MetadataDiagnostic| d@)
}

/// The kind of a test generated from metadata.
#[derive(Debug, Clone, Copy, PartialEq, Eq, Structural)]
pub enum TestKind {
    /// From a canonical `:case`.
    Case,
    /// From a canonical `:assert`.
    Assertion,
    /// From `:invariant`.
    Invariant,
    /// From a deterministic `:property` smoke profile.
    Property,
    /// From `:example`.
    Example,
}

/// The binder types the deterministic property runner can generate values for.
#[derive(Debug, Clone, Copy, PartialEq, Eq, Structural)]
pub enum PropertyBinderType {
    Int,
    Bool,
    String,
}

/// The command-line label of a test kind.
pub open spec fn test_kind_label_spec(kind: TestKind) -> Seq<char> {
    match kind {
        TestKind::Case => "case"@,
        TestKind::Assertion => "assertion"@,
        TestKind::Example => "example"@,
        TestKind::Invariant => "invariant"@,
        TestKind::Property => "property"@,
    }
}

/// The command-line label of a test kind.
pub fn test_kind_label(kind: &TestKind) -> (s: &'static str)
    ensures
        s@ == test_kind_label_spec(*kind),
{
    match kind {
        TestKind::Case => "case",
        TestKind::Assertion => "assertion",
        TestKind::Example => "example",
        TestKind::Invariant => "invariant",
        TestKind::Property => "property",
    }
}


// ---------------------------------------------------------------------------
// The deterministic property smoke profile.

/// The profile a deterministic property runner can execute: binder names
/// and types, the number of cases, and the preconditions, which filter the
/// samples as a conjunction in source order.
#[derive(Debug)]
pub struct PropertySmokeTestSpec<'a> {
    pub binder_names: Vec<String>,
    pub binder_types: Vec<PropertyBinderType>,
    pub cases: usize,
    pub preconditions: &'a [Expr],
}

/// The content of a [`PropertySmokeTestSpec`].
pub struct SmokeView {
    pub binder_names: Seq<Seq<char>>,
    pub binder_types: Seq<PropertyBinderType>,
    pub cases: usize,
    pub preconditions: Seq<Expr>,
}

impl<'a> View for PropertySmokeTestSpec<'a> {
    type V = SmokeView;

    open spec fn view(&self) -> SmokeView {
        SmokeView {
            binder_names: self.binder_names@.map_values(|n: String| n@),
            binder_types: self.binder_types@,
            cases: self.cases,
            preconditions: self.preconditions@,
        }
    }
}

/// The most binders a smoke profile has.
pub open spec fn binder_limit() -> int {
    8
}

/// The runner type of a binder's declared type, if it has one.
pub open spec fn binder_type_of(t: TypeExpr) -> Option<PropertyBinderType> {
    match t {
        TypeExpr::Named(_, n) => if n@ == "Int"@ {
            Some(PropertyBinderType::Int)
        } else if n@ == "Bool"@ {
            Some(PropertyBinderType::Bool)
        } else if n@ == "String"@ {
            Some(PropertyBinderType::String)
        } else {
            None
        },
        _ => None,
    }
}

/// Whether every binder has a runner type.
pub open spec fn binders_typed(bs: Seq<PropertyBinder>) -> bool {
    forall|i: int| 0 <= i < bs.len() ==> (#[trigger] binder_type_of(bs[i].ty)) is Some
}

/// The runner types of typed binders.
pub open spec fn binder_types_of(bs: Seq<PropertyBinder>) -> Seq<PropertyBinderType> {
    Seq::new(bs.len(), |i: int| binder_type_of(bs[i].ty)->0)
}

/// Which binder types run with how many cases: one or two `Int`s and a
/// single `String` with any case count; a single `Bool`, two `Bool`s and an
/// `Int` with a `Bool` with at most two cases; three or more binders with at
/// most two cases.
pub open spec fn profile_allows(t: Seq<PropertyBinderType>, cases: int) -> bool {
    if t.len() == 1 {
        t[0] != PropertyBinderType::Bool || cases <= 2
    } else if t.len() == 2 {
        if t[0] == PropertyBinderType::Int && t[1] == PropertyBinderType::Int {
            true
        } else if t[0] != PropertyBinderType::String && t[1] != PropertyBinderType::String {
            cases <= 2
        } else {
            false
        }
    } else {
        t.len() >= 3 && cases <= 2
    }
}

/// The smoke profile of a property, or `None` when it lies outside: one to
/// eight binders, no seed, no shrink, an explicit case count from one to
/// five, binder types the runner knows, and a combination the profile allows.
pub open spec fn smoke_spec(p: PropertyForm) -> Option<SmokeView> {
    let n = p.binders@.len();
    if !(1 <= n <= binder_limit()) || p.seed is Some || p.shrink is Some {
        None
    } else {
        match p.cases {
            None => None,
            Some(c) => if !(1 <= c <= 5) {
                None
            } else if !binders_typed(p.binders@) {
                None
            } else if !profile_allows(binder_types_of(p.binders@), c as int) {
                None
            } else {
                Some(
                    SmokeView {
                        binder_names: Seq::new(n, |i: int| p.binders@[i].name@),
                        binder_types: binder_types_of(p.binders@),
                        cases: c,
                        preconditions: p.preconditions@,
                    },
                )
            },
        }
    }
}

fn runner_type(t: &TypeExpr) -> (r: Option<PropertyBinderType>)
    ensures
        r == binder_type_of(*t),
{
    match t {
        TypeExpr::Named(_, n) => {
            if str_eq(n.as_str(), "Int") {
                Some(PropertyBinderType::Int)
            } else if str_eq(n.as_str(), "Bool") {
                Some(PropertyBinderType::Bool)
            } else if str_eq(n.as_str(), "String") {
                Some(PropertyBinderType::String)
            } else {
                None
            }
        },
        _ => None,
    }
}

fn profile_allows_exec(t: &Vec<PropertyBinderType>, cases: usize) -> (r: bool)
    ensures
        r == profile_allows(t@, cases as int),
{
    if t.len() == 1 {
        t[0] != PropertyBinderType::Bool || cases <= 2
    } else if t.len() == 2 {
        if t[0] == PropertyBinderType::Int && t[1] == PropertyBinderType::Int {
            true
        } else if t[0] != PropertyBinderType::String && t[1] != PropertyBinderType::String {
            cases <= 2
        } else {
            false
        }
    } else {
        t.len() >= 3 && cases <= 2
    }
}

/// The smoke profile of a property, or `None` when it lies outside.
pub fn property_smoke_test_spec<'a>(property: &'a PropertyForm) -> (r: Option<
    PropertySmokeTestSpec<'a>,
>)
    ensures
        match r {
            Some(s) => smoke_spec(*property) == Some(s@),
            None => smoke_spec(*property) is None,
        },
{
    let binders = property.binders();
    let n = binders.len();
    if !(1 <= n && n <= 8) || property.seed().is_some() || property.shrink().is_some() {
        return None;
    }
    let cases = match property.cases() {
        Some(c) => c,
        None => {
            return None;
        },
    };
    if !(1 <= cases && cases <= 5) {
        return None;
    }
    let mut types: Vec<PropertyBinderType> = Vec::new();
    let mut names: Vec<String> = Vec::new();
    let mut i: usize = 0;
    while i < n
        invariant
            n == binders@.len(),
            binders@ == property.binders@,
            i <= n,
            types@.len() == i,
            names@.len() == i,
            forall|k: int| 0 <= k < i ==> (#[trigger] binder_type_of(binders@[k].ty)) is Some,
            forall|k: int| 0 <= k < i ==> #[trigger] types@[k] == binder_type_of(binders@[k].ty)->0,
            forall|k: int| 0 <= k < i ==> #[trigger] names@[k]@ == binders@[k].name@,
        decreases n - i,
    {
        match runner_type(binders[i].ty()) {
            Some(t) => {
                types.push(t);
            },
            None => {
                return None;
            },
        }
        names.push(owned(binders[i].name()));
        i = i + 1;
    }
    assert(types@ =~= binder_types_of(property.binders@));
    if !profile_allows_exec(&types, cases) {
        return None;
    }
    let r = PropertySmokeTestSpec {
        binder_names: names,
        binder_types: types,
        cases,
        preconditions: property.preconditions(),
    };
    assert(r@.binder_names =~= Seq::new(n as nat, |k: int| property.binders@[k].name@));
    Some(r)
}

// ---------------------------------------------------------------------------
// Tests generated from metadata.

/// A test generated from metadata. It refers to the expressions of the
/// program it was generated from.
#[derive(Debug)]
pub struct GeneratedTest<'a> {
    /// The test's name.
    pub name: String,
    /// The function under test.
    pub function_name: String,
    pub kind: TestKind,
    /// The expression to evaluate.
    pub expr: &'a Expr,
    /// The expected value of a canonical `:case`; `None` otherwise.
    pub expected: Option<&'a Expr>,
    /// The smoke profile of a `:property` test; `None` otherwise.
    pub property: Option<PropertySmokeTestSpec<'a>>,
}

/// The content of a [`GeneratedTest`].
pub struct TestView {
    pub name: Seq<char>,
    pub function_name: Seq<char>,
    pub kind: TestKind,
    pub expr: Expr,
    pub expected: Option<Expr>,
    pub property: Option<SmokeView>,
}

impl<'a> View for GeneratedTest<'a> {
    type V = TestView;

    open spec fn view(&self) -> TestView {
        TestView {
            name: self.name@,
            function_name: self.function_name@,
            kind: self.kind,
            expr: *self.expr,
            expected: match self.expected {
                Some(e) => Some(*e),
                None => None,
            },
            property: match self.property {
                Some(p) => Some(p@),
                None => None,
            },
        }
    }
}

/// The views of a list of generated tests.
pub open spec fn test_views<'a>(s: Seq<GeneratedTest<'a>>) -> Seq<TestView> {
    s.map_values(|t: GeneratedTest<'a>| t@)
}

/// The name of the `i`-th test of a kind: `name`, the tag, and `i` in decimal.
pub open spec fn indexed_name(name: Seq<char>, tag: Seq<char>, i: int) -> Seq<char> {
    name + tag + nat_digits(i as nat)
}

/// The expectations of all `:case` forms, in order.
pub open spec fn case_expectations(forms: Seq<MetadataForm>) -> Seq<CaseExpectation>
    decreases forms.len(),
{
    if forms.len() == 0 {
        Seq::empty()
    } else {
        case_expectations(forms.drop_last()) + match forms.last().kind {
            MetadataFormKind::Case { expectations } => expectations@,
            _ => Seq::empty(),
        }
    }
}

/// The predicates of all `:assert` forms, in order.
pub open spec fn assertion_predicates(forms: Seq<MetadataForm>) -> Seq<Expr>
    decreases forms.len(),
{
    if forms.len() == 0 {
        Seq::empty()
    } else {
        assertion_predicates(forms.drop_last()) + match forms.last().kind {
            MetadataFormKind::Assertion { predicates } => predicates@,
            _ => Seq::empty(),
        }
    }
}

/// The properties of a list that have a smoke profile, in order.
pub open spec fn profiled(props: Seq<PropertyForm>) -> Seq<PropertyForm>
    decreases props.len(),
{
    if props.len() == 0 {
        Seq::empty()
    } else {
        let init = profiled(props.drop_last());
        if smoke_spec(props.last()) is Some {
            init.push(props.last())
        } else {
            init
        }
    }
}

/// The properties of all `:property` forms that have a smoke profile, in order.
pub open spec fn smoke_properties(forms: Seq<MetadataForm>) -> Seq<PropertyForm>
    decreases forms.len(),
{
    if forms.len() == 0 {
        Seq::empty()
    } else {
        smoke_properties(forms.drop_last()) + match forms.last().kind {
            MetadataFormKind::Property { properties } => profiled(properties@),
            _ => Seq::empty(),
        }
    }
}

pub open spec fn case_test(name: Seq<char>, i: int, c: CaseExpectation) -> TestView {
    TestView {
        name: indexed_name(name, "_case_"@, i),
        function_name: name,
        kind: TestKind::Case,
        expr: c.actual,
        expected: Some(c.expected),
        property: None,
    }
}

pub open spec fn assertion_test(name: Seq<char>, i: int, e: Expr) -> TestView {
    TestView {
        name: indexed_name(name, "_assertion_"@, i),
        function_name: name,
        kind: TestKind::Assertion,
        expr: e,
        expected: None,
        property: None,
    }
}

pub open spec fn property_test(name: Seq<char>, i: int, p: PropertyForm) -> TestView {
    TestView {
        name: indexed_name(name, "_property_"@, i),
        function_name: name,
        kind: TestKind::Property,
        expr: p.postcondition,
        expected: None,
        property: smoke_spec(p),
    }
}

pub open spec fn example_test(name: Seq<char>, i: int, e: Expr) -> TestView {
    TestView {
        name: indexed_name(name, "_example_"@, i),
        function_name: name,
        kind: TestKind::Example,
        expr: e,
        expected: None,
        property: None,
    }
}

/// The test of a function's `:invariant`, if it has one.
pub open spec fn invariant_tests(name: Seq<char>, m: Metadata) -> Seq<TestView> {
    match m.invariant {
        Some(e) => seq![
            TestView {
                name: name + "_invariant"@,
                function_name: name,
                kind: TestKind::Invariant,
                expr: e,
                expected: None,
                property: None,
            },
        ],
        None => Seq::empty(),
    }
}

/// The tests of a function's metadata: its `:invariant`, then its `:case`
/// expectations, `:assert` predicates, profiled `:property` forms and
/// `:example`s, each kind numbered from zero.
pub open spec fn defn_tests(name: Seq<char>, m: Metadata) -> Seq<TestView> {
    let from_invariant = invariant_tests(name, m);
    let cs = case_expectations(m.forms@);
    let ps = assertion_predicates(m.forms@);
    let qs = smoke_properties(m.forms@);
    let es = m.example@;
    from_invariant + Seq::new(cs.len(), |i: int| case_test(name, i, cs[i])) + Seq::new(
        ps.len(),
        |i: int| assertion_test(name, i, ps[i]),
    ) + Seq::new(qs.len(), |i: int| property_test(name, i, qs[i])) + Seq::new(
        es.len(),
        |i: int| example_test(name, i, es[i]),
    )
}

/// The tests of a top-level declaration: those of a function with metadata,
/// `private` or not.
pub open spec fn decl_tests(d: Decl) -> Seq<TestView> {
    let inner = match d {
        Decl::Private { inner, .. } => *inner,
        other => other,
    };
    match inner {
        Decl::Defn { name, metadata: Some(m), .. } => defn_tests(name@, m),
        _ => Seq::empty(),
    }
}

/// The tests of a list of top-level declarations, in order.
pub open spec fn program_tests(decls: Seq<Decl>) -> Seq<TestView>
    decreases decls.len(),
{
    if decls.len() == 0 {
        Seq::empty()
    } else {
        program_tests(decls.drop_last()) + decl_tests(decls.last())
    }
}

fn tagged_name(name: &str, tag: &str, i: usize) -> (r: String)
    ensures
        r@ == indexed_name(name@, tag@, i as int),
{
    let mut s = owned(name);
    push_str(&mut s, tag);
    push_u64(&mut s, i as u64);
    s
}

fn push_case_tests<'a>(tests: &mut Vec<GeneratedTest<'a>>, name: &str, forms: &'a Vec<MetadataForm>)
    ensures
        test_views(final(tests)@) == test_views(old(tests)@) + Seq::new(
            case_expectations(forms@).len(),
            |i: int| case_test(name@, i, case_expectations(forms@)[i]),
        ),
{
    let ghost base = test_views(tests@);
    let mut count: usize = 0;
    let mut f: usize = 0;
    while f < forms.len()
        invariant
            f <= forms.len(),
            count == case_expectations(forms@.take(f as int)).len(),
            tests@.len() == base.len() + count,
            test_views(tests@) == base + Seq::new(
                count as nat,
                |i: int| case_test(name@, i, case_expectations(forms@.take(f as int))[i]),
            ),
        decreases forms.len() - f,
    {
        let ghost done = case_expectations(forms@.take(f as int));
        proof {
            assert(forms@.take(f + 1).drop_last() =~= forms@.take(f as int));
            assert(forms@.take(f + 1).last() == forms@[f as int]);
        }
        match &forms[f].kind {
            MetadataFormKind::Case { expectations } => {
                let mut j: usize = 0;
                while j < expectations.len()
                    invariant
                        j <= expectations.len(),
                        count == done.len() + j,
                        tests@.len() == base.len() + count,
                        test_views(tests@) == base + Seq::new(
                            count as nat,
                            |i: int| case_test(name@, i, (done + expectations@.take(j as int))[i]),
                        ),
                    decreases expectations.len() - j,
                {
                    let ghost before = tests@;
                    let e = &expectations[j];
                    let t = GeneratedTest {
                        name: tagged_name(name, "_case_", count),
                        function_name: owned(name),
                        kind: TestKind::Case,
                        expr: e.actual(),
                        expected: Some(e.expected()),
                        property: None,
                    };
                    tests.push(t);
                    let total = tests.len();
                    assert(total == base.len() + count + 1);
                    proof {
                        let p0 = done + expectations@.take(j as int);
                        let p1 = done + expectations@.take(j + 1);
                        assert(p1 =~= p0.push(*e));
                        assert(test_views(tests@) =~= test_views(before).push(t@));
                        assert(test_views(tests@) =~= base + Seq::new(
                            (count + 1) as nat,
                            |i: int| case_test(name@, i, p1[i]),
                        ));
                    }
                    count = count + 1;
                    j = j + 1;
                }
                proof {
                    assert(expectations@.take(j as int) =~= expectations@);
                }
            },
            _ => {
                assert(done + Seq::<CaseExpectation>::empty() =~= done);
            },
        }
        f = f + 1;
    }
    assert(forms@.take(forms.len() as int) =~= forms@);
}


fn push_assertion_tests<'a>(
    tests: &mut Vec<GeneratedTest<'a>>,
    name: &str,
    forms: &'a Vec<MetadataForm>,
)
    ensures
        test_views(final(tests)@) == test_views(old(tests)@) + Seq::new(
            assertion_predicates(forms@).len(),
            |i: int| assertion_test(name@, i, assertion_predicates(forms@)[i]),
        ),
{
    let ghost base = test_views(tests@);
    let mut count: usize = 0;
    let mut f: usize = 0;
    while f < forms.len()
        invariant
            f <= forms.len(),
            count == assertion_predicates(forms@.take(f as int)).len(),
            tests@.len() == base.len() + count,
            test_views(tests@) == base + Seq::new(
                count as nat,
                |i: int| assertion_test(name@, i, assertion_predicates(forms@.take(f as int))[i]),
            ),
        decreases forms.len() - f,
    {
        let ghost done = assertion_predicates(forms@.take(f as int));
        proof {
            assert(forms@.take(f + 1).drop_last() =~= forms@.take(f as int));
            assert(forms@.take(f + 1).last() == forms@[f as int]);
        }
        match &forms[f].kind {
            MetadataFormKind::Assertion { predicates } => {
                let mut j: usize = 0;
                while j < predicates.len()
                    invariant
                        j <= predicates.len(),
                        count == done.len() + j,
                        tests@.len() == base.len() + count,
                        test_views(tests@) == base + Seq::new(
                            count as nat,
                            |i: int| assertion_test(name@, i, (done + predicates@.take(j as int))[i]),
                        ),
                    decreases predicates.len() - j,
                {
                    let ghost before = tests@;
                    let e = &predicates[j];
                    let t = GeneratedTest {
                        name: tagged_name(name, "_assertion_", count),
                        function_name: owned(name),
                        kind: TestKind::Assertion,
                        expr: e,
                        expected: None,
                        property: None,
                    };
                    tests.push(t);
                    let total = tests.len();
                    assert(total == base.len() + count + 1);
                    proof {
                        let p0 = done + predicates@.take(j as int);
                        let p1 = done + predicates@.take(j + 1);
                        assert(p1 =~= p0.push(*e));
                        assert(test_views(tests@) =~= test_views(before).push(t@));
                        assert(test_views(tests@) =~= base + Seq::new(
                            (count + 1) as nat,
                            |i: int| assertion_test(name@, i, p1[i]),
                        ));
                    }
                    count = count + 1;
                    j = j + 1;
                }
                proof {
                    assert(predicates@.take(j as int) =~= predicates@);
                }
            },
            _ => {
                assert(done + Seq::<Expr>::empty() =~= done);
            },
        }
        f = f + 1;
    }
    assert(forms@.take(forms.len() as int) =~= forms@);
}

fn push_property_tests<'a>(
    tests: &mut Vec<GeneratedTest<'a>>,
    name: &str,
    forms: &'a Vec<MetadataForm>,
)
    ensures
        test_views(final(tests)@) == test_views(old(tests)@) + Seq::new(
            smoke_properties(forms@).len(),
            |i: int| property_test(name@, i, smoke_properties(forms@)[i]),
        ),
{
    let ghost base = test_views(tests@);
    let mut count: usize = 0;
    let mut f: usize = 0;
    while f < forms.len()
        invariant
            f <= forms.len(),
            count == smoke_properties(forms@.take(f as int)).len(),
            tests@.len() == base.len() + count,
            test_views(tests@) == base + Seq::new(
                count as nat,
                |i: int| property_test(name@, i, smoke_properties(forms@.take(f as int))[i]),
            ),
        decreases forms.len() - f,
    {
        let ghost done = smoke_properties(forms@.take(f as int));
        proof {
            assert(forms@.take(f + 1).drop_last() =~= forms@.take(f as int));
            assert(forms@.take(f + 1).last() == forms@[f as int]);
        }
        match &forms[f].kind {
            MetadataFormKind::Property { properties } => {
                let mut j: usize = 0;
                while j < properties.len()
                    invariant
                        j <= properties.len(),
                        count == done.len() + profiled(properties@.take(j as int)).len(),
                        tests@.len() == base.len() + count,
                        test_views(tests@) == base + Seq::new(
                            count as nat,
                            |i: int| property_test(
                                name@,
                                i,
                                (done + profiled(properties@.take(j as int)))[i],
                            ),
                        ),
                    decreases properties.len() - j,
                {
                    let p = &properties[j];
                    proof {
                        assert(properties@.take(j + 1).drop_last() =~= properties@.take(j as int));
                        assert(properties@.take(j + 1).last() == *p);
                    }
                    match property_smoke_test_spec(p) {
                        Some(spec) => {
                            let ghost before = tests@;
                            let t = GeneratedTest {
                                name: tagged_name(name, "_property_", count),
                                function_name: owned(name),
                                kind: TestKind::Property,
                                expr: p.postcondition(),
                                expected: None,
                                property: Some(spec),
                            };
                            tests.push(t);
                            let total = tests.len();
                            assert(total == base.len() + count + 1);
                            proof {
                                let p0 = done + profiled(properties@.take(j as int));
                                let p1 = done + profiled(properties@.take(j + 1));
                                assert(p1 =~= p0.push(*p));
                                assert(test_views(tests@) =~= test_views(before).push(t@));
                                assert(test_views(tests@) =~= base + Seq::new(
                                    (count + 1) as nat,
                                    |i: int| property_test(name@, i, p1[i]),
                                ));
                            }
                            count = count + 1;
                        },
                        None => {},
                    }
                    j = j + 1;
                }
                proof {
                    assert(properties@.take(j as int) =~= properties@);
                }
            },
            _ => {
                assert(done + Seq::<PropertyForm>::empty() =~= done);
            },
        }
        f = f + 1;
    }
    assert(forms@.take(forms.len() as int) =~= forms@);
}

fn push_example_tests<'a>(tests: &mut Vec<GeneratedTest<'a>>, name: &str, examples: &'a Vec<Expr>)
    ensures
        test_views(final(tests)@) == test_views(old(tests)@) + Seq::new(
            examples@.len(),
            |i: int| example_test(name@, i, examples@[i]),
        ),
{
    let ghost base = test_views(tests@);
    let mut i: usize = 0;
    while i < examples.len()
        invariant
            i <= examples.len(),
            test_views(tests@) == base + Seq::new(
                i as nat,
                |k: int| example_test(name@, k, examples@[k]),
            ),
        decreases examples.len() - i,
    {
        let ghost before = tests@;
        let t = GeneratedTest {
            name: tagged_name(name, "_example_", i),
            function_name: owned(name),
            kind: TestKind::Example,
            expr: &examples[i],
            expected: None,
            property: None,
        };
        tests.push(t);
        proof {
            assert(test_views(tests@) =~= test_views(before).push(t@));
            assert(test_views(tests@) =~= base + Seq::new(
                (i + 1) as nat,
                |k: int| example_test(name@, k, examples@[k]),
            ));
        }
        i = i + 1;
    }
}

fn push_defn_tests<'a>(tests: &mut Vec<GeneratedTest<'a>>, name: &str, m: &'a Metadata)
    ensures
        test_views(final(tests)@) == test_views(old(tests)@) + defn_tests(name@, *m),
{
    let ghost base = test_views(tests@);
    match &m.invariant {
        Some(e) => {
            let mut test_name = owned(name);
            push_str(&mut test_name, "_invariant");
            let t = GeneratedTest {
                name: test_name,
                function_name: owned(name),
                kind: TestKind::Invariant,
                expr: e,
                expected: None,
                property: None,
            };
            tests.push(t);
        },
        None => {},
    }
    let ghost after_invariant = test_views(tests@);
    push_case_tests(tests, name, &m.forms);
    let ghost after_cases = test_views(tests@);
    push_assertion_tests(tests, name, &m.forms);
    let ghost after_assertions = test_views(tests@);
    push_property_tests(tests, name, &m.forms);
    let ghost after_properties = test_views(tests@);
    push_example_tests(tests, name, &m.example);
    proof {
        let cs = case_expectations(m.forms@);
        let ps = assertion_predicates(m.forms@);
        let qs = smoke_properties(m.forms@);
        let es = m.example@;
        let from_invariant = invariant_tests(name@, *m);
        assert(after_invariant =~= base + from_invariant);
        assert(test_views(tests@) =~= base + (from_invariant + Seq::new(
            cs.len(),
            |i: int| case_test(name@, i, cs[i]),
        ) + Seq::new(ps.len(), |i: int| assertion_test(name@, i, ps[i])) + Seq::new(
            qs.len(),
            |i: int| property_test(name@, i, qs[i]),
        ) + Seq::new(es.len(), |i: int| example_test(name@, i, es[i]))));
    }
}

/// The tests generated from the metadata of a program's top-level functions
/// (`private` ones included), in declaration order: for each function its
/// `:invariant`, then its `:case` expectations, `:assert` predicates,
/// profiled `:property` forms and `:example`s, each kind numbered from zero.
pub fn generate_tests<'a>(program: &'a Program) -> (r: Vec<GeneratedTest<'a>>)
    ensures
        test_views(r@) == program_tests(program.decls@),
{
    let decls = &program.decls;
    let mut tests: Vec<GeneratedTest<'a>> = Vec::new();
    let mut i: usize = 0;
    assert(test_views(tests@) =~= Seq::<TestView>::empty());
    while i < decls.len()
        invariant
            i <= decls.len(),
            decls@ == program.decls@,
            test_views(tests@) == program_tests(decls@.take(i as int)),
        decreases decls.len() - i,
    {
        proof {
            assert(decls@.take(i + 1).drop_last() =~= decls@.take(i as int));
            assert(decls@.take(i + 1).last() == decls@[i as int]);
        }
        let d = &decls[i];
        let inner: &Decl = match d {
            Decl::Private { inner, .. } => &**inner,
            other => other,
        };
        match inner {
            Decl::Defn { name, metadata: Some(m), .. } => {
                push_defn_tests(&mut tests, name.as_str(), m);
            },
            _ => {
                assert(test_views(tests@) + Seq::<TestView>::empty() =~= test_views(tests@));
            },
        }
        i = i + 1;
    }
    assert(decls@.take(decls.len() as int) =~= decls@);
    tests
}


// ---------------------------------------------------------------------------
// Refusing to run the tests of a file.

/// The first error among diagnostics, if any.
pub open spec fn first_error(ds: Seq<DiagnosticView>) -> Option<DiagnosticView>
    decreases ds.len(),
{
    if ds.len() == 0 {
        None
    } else if ds[0].severity == Severity::Error {
        Some(ds[0])
    } else {
        first_error(ds.drop_first())
    }
}

/// The error code that reports a metadata error with this message: an
/// empty `:case`, a vacuous contract, an empty `:assert`, an undefined name,
/// or any other metadata error, in that order of precedence.
pub open spec fn error_code_for(message: Seq<char>) -> Seq<char> {
    if has_infix(message, ":case は少なくとも 1 件の expectation"@) {
        "LS2006"@
    } else if has_infix(message, "vacuous"@) {
        "LS2005"@
    } else if has_infix(message, ":assert は少なくとも 1 件の predicate"@) {
        "LS2004"@
    } else if has_infix(message, "未定義の識別子"@) || has_infix(message, "未定義の変数"@) {
        "LS1001"@
    } else {
        "LS1002"@
    }
}

fn message_has(message: &Vec<char>, needle: &str) -> (r: bool)
    ensures
        r == has_infix(message@, needle@),
{
    contains_chars(message, &chars_of(needle))
}

/// The code with which the tests of a file are refused, from the first
/// error among its metadata diagnostics; `None` when there is no error and
/// the tests may run.
pub fn metadata_error_code(diagnostics: &[MetadataDiagnostic]) -> (r: Option<String>)
    ensures
        match first_error(diagnostic_views(diagnostics@)) {
            None => r is None,
            Some(d) => r matches Some(c) && c@ == error_code_for(d.message),
        },
{
    let ghost all = diagnostic_views(diagnostics@);
    let mut i: usize = 0;
    assert(all.subrange(0, all.len() as int) =~= all);
    while i < diagnostics.len()
        invariant
            i <= diagnostics@.len(),
            all == diagnostic_views(diagnostics@),
            first_error(all) == first_error(all.subrange(i as int, all.len() as int)),
        decreases diagnostics.len() - i,
    {
        let ghost rest = all.subrange(i as int, all.len() as int);
        assert(rest.drop_first() =~= all.subrange(i + 1, all.len() as int));
        assert(rest[0] == diagnostics@[i as int]@);
        if diagnostics[i].severity == Severity::Error {
            let message = chars_of(diagnostics[i].message.as_str());
            let code = if message_has(&message, ":case は少なくとも 1 件の expectation") {
                "LS2006"
            } else if message_has(&message, "vacuous") {
                "LS2005"
            } else if message_has(&message, ":assert は少なくとも 1 件の predicate") {
                "LS2004"
            } else if message_has(&message, "未定義の識別子") || message_has(&message, "未定義の変数") {
                "LS1001"
            } else {
                "LS1002"
            };
            return Some(owned(code));
        }
        i = i + 1;
    }
    None
}

/// The number of property tests among generated tests.
pub open spec fn property_test_count<'a>(tests: Seq<GeneratedTest<'a>>) -> nat
    decreases tests.len(),
{
    if tests.len() == 0 {
        0
    } else {
        property_test_count(tests.drop_last()) + if tests.last().kind == TestKind::Property {
            1nat
        } else {
            0nat
        }
    }
}

/// The message when a file's canonical properties fall outside the
/// deterministic smoke profile.
pub open spec fn property_profile_message(owner: Option<Seq<char>>) -> Seq<char> {
    "[LS3002] "@ + match owner {
        Some(o) => o,
        None => "anonymous"@,
    } + ": canonical :property は deterministic smoke profile の範囲外です"@
}

/// The refusal of a file whose canonical properties were not all turned into
/// smoke tests: `property_count` is the number of its canonical properties,
/// `owner` the first function that has one. `None` when every property has
/// its test.
pub fn property_profile_error<'a>(
    property_count: usize,
    owner: Option<&str>,
    tests: &[GeneratedTest<'a>],
) -> (r: Option<String>)
    ensures
        property_count == property_test_count(tests@) ==> r is None,
        property_count != property_test_count(tests@) ==> (r matches Some(m) && m@
            == property_profile_message(
            match owner {
                Some(o) => Some(o@),
                None => None,
            },
        )),
{
    let mut generated: usize = 0;
    let mut i: usize = 0;
    while i < tests.len()
        invariant
            i <= tests@.len(),
            generated == property_test_count(tests@.subrange(0, i as int)),
            generated <= i,
        decreases tests.len() - i,
    {
        assert(tests@.subrange(0, i + 1).drop_last() =~= tests@.subrange(0, i as int));
        if tests[i].kind == TestKind::Property {
            generated = generated + 1;
        }
        i = i + 1;
    }
    assert(tests@.subrange(0, tests@.len() as int) =~= tests@);
    if property_count == generated {
        return None;
    }
    let mut m = owned("[LS3002] ");
    match owner {
        Some(o) => push_str(&mut m, o),
        None => push_str(&mut m, "anonymous"),
    }
    push_str(&mut m, ": canonical :property は deterministic smoke profile の範囲外です");
    Some(m)
}


// ---------------------------------------------------------------------------
// Checking `:params` and `:see-also` against the program.

/// The name a declaration introduces for `:see-also` references: that of a
/// function, type, record, alias or trait, also when it is declared private.
pub open spec fn declared_name(d: Decl) -> Option<Seq<char>> {
    match d {
        Decl::Defn { name, .. } => Some(name@),
        Decl::TypeDef { name, .. } => Some(name@),
        Decl::RecordDef { name, .. } => Some(name@),
        Decl::TypeAlias { name, .. } => Some(name@),
        Decl::TraitDef { name, .. } => Some(name@),
        Decl::Private { inner, .. } => match *inner {
            Decl::Defn { name, .. } => Some(name@),
            Decl::TypeDef { name, .. } => Some(name@),
            Decl::RecordDef { name, .. } => Some(name@),
            Decl::TypeAlias { name, .. } => Some(name@),
            Decl::TraitDef { name, .. } => Some(name@),
            _ => None,
        },
        _ => None,
    }
}

/// The names the top-level declarations introduce, in order.
pub open spec fn declared_names(ds: Seq<Decl>) -> Seq<Seq<char>>
    decreases ds.len(),
{
    if ds.len() == 0 {
        Seq::empty()
    } else {
        let init = declared_names(ds.drop_last());
        match declared_name(ds.last()) {
            Some(n) => init.push(n),
            None => init,
        }
    }
}

fn declared_name_exec(d: &Decl) -> (r: Option<&str>)
    ensures
        match declared_name(*d) {
            Some(n) => r matches Some(x) && x@ == n,
            None => r is None,
        },
{
    match d {
        Decl::Defn { name, .. } => Some(name.as_str()),
        Decl::TypeDef { name, .. } => Some(name.as_str()),
        Decl::RecordDef { name, .. } => Some(name.as_str()),
        Decl::TypeAlias { name, .. } => Some(name.as_str()),
        Decl::TraitDef { name, .. } => Some(name.as_str()),
        Decl::Private { inner, .. } => match &**inner {
            Decl::Defn { name, .. } => Some(name.as_str()),
            Decl::TypeDef { name, .. } => Some(name.as_str()),
            Decl::RecordDef { name, .. } => Some(name.as_str()),
            Decl::TypeAlias { name, .. } => Some(name.as_str()),
            Decl::TraitDef { name, .. } => Some(name.as_str()),
            _ => None,
        },
        _ => None,
    }
}

/// The names of a list of strings.
pub open spec fn names_of(v: Seq<String>) -> Seq<Seq<char>> {
    v.map_values(|s: String| s@)
}

/// The names the program's top-level declarations introduce, in order: the
/// names a `:see-also` may refer to.
pub fn metadata_names(program: &Program) -> (r: Vec<String>)
    ensures
        names_of(r@) == declared_names(program.decls@),
{
    let mut out: Vec<String> = Vec::new();
    let mut i: usize = 0;
    while i < program.decls.len()
        invariant
            i <= program.decls@.len(),
            names_of(out@) == declared_names(program.decls@.take(i as int)),
        decreases program.decls.len() - i,
    {
        assert(program.decls@.take(i + 1).drop_last() =~= program.decls@.take(i as int));
        if let Some(n) = declared_name_exec(&program.decls[i]) {
            let ghost before = out@;
            out.push(owned(n));
            assert(names_of(out@) =~= names_of(before).push(n@));
        }
        i = i + 1;
    }
    assert(program.decls@.take(program.decls@.len() as int) =~= program.decls@);
    out
}

/// A diagnostic of `severity` about function `owner` at `span`.
pub open spec fn diagnostic_at(severity: Severity, message: Seq<char>, span: Span, owner: Seq<char>) -> DiagnosticView {
    DiagnosticView { severity, message, span, function_name: owner }
}

pub open spec fn unknown_param_message(p: Seq<char>) -> Seq<char> {
    ":params に存在しない引数 '"@ + p + "' が記載されています"@
}

pub open spec fn undocumented_param_message(p: Seq<char>) -> Seq<char> {
    "引数 '"@ + p + "' が :params に記載されていません"@
}

pub open spec fn unknown_see_also_message(n: Seq<char>) -> Seq<char> {
    ":see-also に存在しない識別子 '"@ + n + "' が参照されています"@
}

/// The errors for `:params` entries that name no parameter, in order.
pub open spec fn unknown_param_diagnostics(
    documented: Seq<(String, String)>,
    params: Seq<Seq<char>>,
    span: Span,
    owner: Seq<char>,
) -> Seq<DiagnosticView>
    decreases documented.len(),
{
    if documented.len() == 0 {
        Seq::empty()
    } else {
        let init = unknown_param_diagnostics(documented.drop_last(), params, span, owner);
        let p = documented.last().0@;
        if params.contains(p) {
            init
        } else {
            init.push(diagnostic_at(Severity::Error, unknown_param_message(p), span, owner))
        }
    }
}

/// The warnings for parameters that `:params` leaves out, in order.
pub open spec fn undocumented_param_diagnostics(
    params: Seq<Seq<char>>,
    documented: Seq<Seq<char>>,
    span: Span,
    owner: Seq<char>,
) -> Seq<DiagnosticView>
    decreases params.len(),
{
    if params.len() == 0 {
        Seq::empty()
    } else {
        let init = undocumented_param_diagnostics(params.drop_last(), documented, span, owner);
        let p = params.last();
        if documented.contains(p) {
            init
        } else {
            init.push(diagnostic_at(Severity::Warning, undocumented_param_message(p), span, owner))
        }
    }
}

/// The errors for `:see-also` names that the program does not declare.
pub open spec fn see_also_diagnostics(
    refs: Seq<Seq<char>>,
    all_names: Seq<Seq<char>>,
    span: Span,
    owner: Seq<char>,
) -> Seq<DiagnosticView>
    decreases refs.len(),
{
    if refs.len() == 0 {
        Seq::empty()
    } else {
        let init = see_also_diagnostics(refs.drop_last(), all_names, span, owner);
        let n = refs.last();
        if all_names.contains(n) {
            init
        } else {
            init.push(diagnostic_at(Severity::Error, unknown_see_also_message(n), span, owner))
        }
    }
}

/// The diagnostics of a function's `:params` and `:see-also`: when `:params`
/// is given, an error for each entry that names no parameter and a warning
/// for each parameter it leaves out; and an error for each `:see-also`
/// name that the program does not declare.
pub open spec fn signature_metadata_diagnostics(
    owner: Seq<char>,
    params: Seq<Seq<char>>,
    metadata: Metadata,
    span: Span,
    all_names: Seq<Seq<char>>,
) -> Seq<DiagnosticView> {
    (if metadata.params@.len() == 0 {
        Seq::empty()
    } else {
        unknown_param_diagnostics(metadata.params@, params, span, owner)
            + undocumented_param_diagnostics(
            params,
            metadata.params@.map_values(|e: (String, String)| e.0@),
            span,
            owner,
        )
    }) + see_also_diagnostics(names_of(metadata.see_also@), all_names, span, owner)
}

fn contains_name(names: &[String], name: &str) -> (r: bool)
    ensures
        r == names_of(names@).contains(name@),
{
    let mut i: usize = 0;
    while i < names.len()
        invariant
            i <= names@.len(),
            forall|k: int| 0 <= k < i ==> names@[k]@ != name@,
        decreases names.len() - i,
    {
        if str_eq(names[i].as_str(), name) {
            assert(names_of(names@)[i as int] == name@);
            return true;
        }
        i = i + 1;
    }
    proof {
        if names_of(names@).contains(name@) {
            let k = choose|k: int| 0 <= k < names_of(names@).len() && names_of(names@)[k] == name@;
            assert(names@[k]@ == name@);
        }
    }
    false
}

fn documents_param(documented: &[(String, String)], name: &str) -> (r: bool)
    ensures
        r == documented@.map_values(|e: (String, String)| e.0@).contains(name@),
{
    let ghost keys = documented@.map_values(|e: (String, String)| e.0@);
    let mut i: usize = 0;
    while i < documented.len()
        invariant
            i <= documented@.len(),
            keys == documented@.map_values(|e: (String, String)| e.0@),
            forall|k: int| 0 <= k < i ==> keys[k] != name@,
        decreases documented.len() - i,
    {
        if str_eq(documented[i].0.as_str(), name) {
            assert(keys[i as int] == name@);
            return true;
        }
        i = i + 1;
    }
    proof {
        if keys.contains(name@) {
            let k = choose|k: int| 0 <= k < keys.len() && keys[k] == name@;
        }
    }
    false
}

fn push_diagnostic(diags: &mut Vec<MetadataDiagnostic>, severity: Severity, message: String, span: Span, owner: &str)
    ensures
        diagnostic_views(final(diags)@) == diagnostic_views(old(diags)@).push(
            diagnostic_at(severity, message@, span, owner@),
        ),
{
    let ghost m = message@;
    diags.push(MetadataDiagnostic { severity, message, span, function_name: owned(owner) });
    assert(diagnostic_views(diags@) =~= diagnostic_views(old(diags)@).push(
        diagnostic_at(severity, m, span, owner@),
    ));
}

fn quoted_message(first: &str, name: &str, last: &str) -> (r: String)
    ensures
        r@ == first@ + name@ + last@,
{
    let mut m = owned(first);
    push_str(&mut m, name);
    push_str(&mut m, last);
    m
}

/// Checks a function's `:params` against its parameters and its
/// `:see-also` against the names the program declares (`all_names`, as
/// [`metadata_names`] gives them).
pub fn check_defn_signature_metadata(
    name: &str,
    params: &[String],
    metadata: &Metadata,
    span: Span,
    all_names: &[String],
) -> (r: Vec<MetadataDiagnostic>)
    ensures
        diagnostic_views(r@) == signature_metadata_diagnostics(
            name@,
            names_of(params@),
            *metadata,
            span,
            names_of(all_names@),
        ),
{
    let mut diags: Vec<MetadataDiagnostic> = Vec::new();
    let ghost pnames = names_of(params@);
    let ghost keys = metadata.params@.map_values(|e: (String, String)| e.0@);
    assert(diagnostic_views(diags@) =~= Seq::<DiagnosticView>::empty());
    if metadata.params.len() > 0 {
        let mut i: usize = 0;
        while i < metadata.params.len()
            invariant
                i <= metadata.params@.len(),
                pnames == names_of(params@),
                diagnostic_views(diags@) == unknown_param_diagnostics(
                    metadata.params@.take(i as int),
                    pnames,
                    span,
                    name@,
                ),
            decreases metadata.params.len() - i,
        {
            assert(metadata.params@.take(i + 1).drop_last() =~= metadata.params@.take(i as int));
            let p = metadata.params[i].0.as_str();
            if !contains_name(params, p) {
                let m = quoted_message(":params に存在しない引数 '", p, "' が記載されています");
                push_diagnostic(&mut diags, Severity::Error, m, span, name);
            }
            i = i + 1;
        }
        assert(metadata.params@.take(metadata.params@.len() as int) =~= metadata.params@);
        let ghost base = diagnostic_views(diags@);
        let mut j: usize = 0;
        assert(base + undocumented_param_diagnostics(pnames.take(0), keys, span, name@) =~= base);
        while j < params.len()
            invariant
                j <= params@.len(),
                pnames == names_of(params@),
                keys == metadata.params@.map_values(|e: (String, String)| e.0@),
                diagnostic_views(diags@) == base + undocumented_param_diagnostics(
                    pnames.take(j as int),
                    keys,
                    span,
                    name@,
                ),
            decreases params.len() - j,
        {
            assert(pnames.take(j + 1).drop_last() =~= pnames.take(j as int));
            assert(pnames.take(j + 1).last() == params@[j as int]@);
            let p = params[j].as_str();
            if !documents_param(&metadata.params, p) {
                let m = quoted_message("引数 '", p, "' が :params に記載されていません");
                let ghost before = diagnostic_views(diags@);
                push_diagnostic(&mut diags, Severity::Warning, m, span, name);
                assert(diagnostic_views(diags@) =~= base + undocumented_param_diagnostics(
                    pnames.take(j + 1),
                    keys,
                    span,
                    name@,
                ));
            }
            j = j + 1;
        }
        assert(pnames.take(pnames.len() as int) =~= pnames);
    }
    let ghost base2 = diagnostic_views(diags@);
    let ghost refs = names_of(metadata.see_also@);
    let ghost all = names_of(all_names@);
    let mut k: usize = 0;
    assert(base2 + see_also_diagnostics(refs.take(0), all, span, name@) =~= base2);
    while k < metadata.see_also.len()
        invariant
            k <= metadata.see_also@.len(),
            refs == names_of(metadata.see_also@),
            all == names_of(all_names@),
            diagnostic_views(diags@) == base2 + see_also_diagnostics(refs.take(k as int), all, span, name@),
        decreases metadata.see_also.len() - k,
    {
        assert(refs.take(k + 1).drop_last() =~= refs.take(k as int));
        assert(refs.take(k + 1).last() == metadata.see_also@[k as int]@);
        let n = metadata.see_also[k].as_str();
        if !contains_name(all_names, n) {
            let m = quoted_message(":see-also に存在しない識別子 '", n, "' が参照されています");
            push_diagnostic(&mut diags, Severity::Error, m, span, name);
            assert(diagnostic_views(diags@) =~= base2 + see_also_diagnostics(refs.take(k + 1), all, span, name@));
        }
        k = k + 1;
    }
    assert(refs.take(refs.len() as int) =~= refs);
    diags
}

} // verus!
