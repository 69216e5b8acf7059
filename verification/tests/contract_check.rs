use lsharp::contract_check::{
    check_assertion_non_vacuity, check_case_non_vacuity, check_property_non_vacuity,
    static_boolean_result,
};
use lsharp::metadata_check::{MetadataDiagnostic, Severity};
use lsharp::syntax::{
    CaseExpectation, Decl, Expr, Literal, MatchArm, Metadata, MetadataForm, MetadataFormKind,
    Pattern, Program, PropertyBinder, PropertyForm, Span, TypeExpr,
};

fn sp() -> Span {
    Span::new(0, 0)
}

fn b(value: bool) -> Expr {
    Expr::Lit(sp(), Literal::Bool(value))
}

fn int_lit(value: i64) -> Expr {
    Expr::Lit(sp(), Literal::Int(value))
}

fn var(name: &str) -> Expr {
    Expr::Var(sp(), name.to_string())
}

fn app(op: &str, args: Vec<Expr>) -> Expr {
    Expr::App(sp(), Box::new(var(op)), args)
}

fn if_(c: Expr, t: Expr, f: Expr) -> Expr {
    Expr::If(sp(), Box::new(c), Box::new(t), Box::new(f))
}

fn let_(bindings: Vec<(Pattern, Expr)>, body: Expr) -> Expr {
    Expr::Let(sp(), bindings, Box::new(body))
}

fn do_(exprs: Vec<Expr>) -> Expr {
    Expr::Do(sp(), exprs)
}

fn match_(scrutinee: Expr, arms: Vec<(Pattern, Expr)>) -> Expr {
    Expr::Match(
        sp(),
        Box::new(scrutinee),
        arms.into_iter().map(|(pattern, body)| MatchArm { pattern, body }).collect(),
    )
}

fn pvar(name: &str) -> Pattern {
    Pattern::Var(sp(), name.to_string())
}

fn defn(name: &str, forms: Vec<MetadataFormKind>) -> Decl {
    Decl::Defn {
        name: name.to_string(),
        params: Vec::new(),
        return_ty: None,
        metadata: Some(Metadata {
            doc: None,
            params: Vec::new(),
            returns: None,
            see_also: Vec::new(),
            forms: forms.into_iter().map(|kind| MetadataForm { kind, span: sp() }).collect(),
            invariant: None,
            example: Vec::new(),
            example_text: Vec::new(),
        }),
        span: sp(),
    }
}

/// `(defn checked [...] :assert [predicate] ...)`
fn assert_program(predicate: Expr) -> Program {
    Program {
        decls: vec![defn(
            "checked",
            vec![MetadataFormKind::Assertion { predicates: vec![predicate] }],
        )],
    }
}

/// `(defn checked [value] :property [(for-all [value Int] :cases 1
///   :precondition [precondition] :postcondition (= result value))] value)`
fn precondition_program(precondition: Expr) -> Program {
    Program {
        decls: vec![defn(
            "checked",
            vec![MetadataFormKind::Property {
                properties: vec![PropertyForm {
                    binders: vec![PropertyBinder {
                        name: "value".to_string(),
                        ty: TypeExpr::Named(sp(), "Int".to_string()),
                        span: sp(),
                    }],
                    cases: Some(1),
                    seed: None,
                    shrink: None,
                    preconditions: vec![precondition],
                    postcondition: app("=", vec![var("result"), var("value")]),
                    span: sp(),
                }],
            }],
        )],
    }
}

fn check(program: &Program) -> Vec<MetadataDiagnostic> {
    let mut diagnostics = check_assertion_non_vacuity(program);
    diagnostics.extend(check_case_non_vacuity(program));
    diagnostics.extend(check_property_non_vacuity(program));
    diagnostics
}

fn errors_containing(program: &Program, needle: &str) -> Vec<String> {
    check(program)
        .into_iter()
        .filter(|diagnostic| diagnostic.severity == Severity::Error)
        .map(|diagnostic| diagnostic.message)
        .filter(|message| message.contains(needle))
        .collect()
}

const ASSERT_VACUOUS: &str = ":assert predicate は静的に true で検査を識別できず vacuous です";
const PRECONDITION_VACUOUS: &str = ":property の precondition は到達不能で vacuous です";

#[test]
fn static_contract_assert_literal_true_is_vacuous_control() {
    assert_eq!(errors_containing(&assert_program(b(true)), ASSERT_VACUOUS).len(), 1);
}

#[test]
fn static_contract_precondition_literal_false_is_vacuous_control() {
    assert_eq!(
        errors_containing(&precondition_program(b(false)), PRECONDITION_VACUOUS).len(),
        1
    );
}

#[test]
fn static_contract_assert_if_wrapped_true_is_vacuous() {
    // (if true true false)
    let program = assert_program(if_(b(true), b(true), b(false)));
    assert_eq!(errors_containing(&program, ASSERT_VACUOUS).len(), 1);
}

#[test]
fn static_contract_assert_let_wrapped_true_is_vacuous() {
    // (let [ignored 1] true)
    let program = assert_program(let_(vec![(pvar("ignored"), int_lit(1))], b(true)));
    assert_eq!(errors_containing(&program, ASSERT_VACUOUS).len(), 1);
}

#[test]
fn static_contract_assert_do_wrapped_true_is_vacuous() {
    // (do 1 true)
    let program = assert_program(do_(vec![int_lit(1), b(true)]));
    assert_eq!(errors_containing(&program, ASSERT_VACUOUS).len(), 1);
}

#[test]
fn static_contract_assert_match_wrapped_true_is_vacuous() {
    // (match 1 [_ true])
    let program = assert_program(match_(int_lit(1), vec![(Pattern::Wildcard(sp()), b(true))]));
    assert_eq!(errors_containing(&program, ASSERT_VACUOUS).len(), 1);
}

#[test]
fn static_contract_precondition_if_wrapped_false_is_vacuous() {
    // (if true false true)
    let program = precondition_program(if_(b(true), b(false), b(true)));
    assert_eq!(errors_containing(&program, PRECONDITION_VACUOUS).len(), 1);
}

#[test]
fn static_contract_precondition_let_wrapped_false_is_vacuous() {
    // (let [ignored 1] false)
    let program = precondition_program(let_(vec![(pvar("ignored"), int_lit(1))], b(false)));
    assert_eq!(errors_containing(&program, PRECONDITION_VACUOUS).len(), 1);
}

#[test]
fn static_contract_precondition_do_wrapped_false_is_vacuous() {
    // (do 1 false)
    let program = precondition_program(do_(vec![int_lit(1), b(false)]));
    assert_eq!(errors_containing(&program, PRECONDITION_VACUOUS).len(), 1);
}

#[test]
fn static_contract_precondition_match_wrapped_false_is_vacuous() {
    // (match 1 [_ false])
    let program = precondition_program(match_(int_lit(1), vec![(Pattern::Wildcard(sp()), b(false))]));
    assert_eq!(errors_containing(&program, PRECONDITION_VACUOUS).len(), 1);
}

#[test]
fn static_contract_assert_dynamic_if_is_not_vacuous() {
    // (defn checked [flag] :assert [(if flag true false)] flag)
    let program = assert_program(if_(var("flag"), b(true), b(false)));
    assert!(errors_containing(&program, ASSERT_VACUOUS).is_empty());
}

#[test]
fn static_contract_assert_dynamic_let_body_is_not_vacuous() {
    // (let [ignored 1] flag)
    let program = assert_program(let_(vec![(pvar("ignored"), int_lit(1))], var("flag")));
    assert!(errors_containing(&program, ASSERT_VACUOUS).is_empty());
}

#[test]
fn static_contract_assert_mixed_match_arms_are_not_vacuous() {
    // (match n [1 true] [_ false])
    let program = assert_program(match_(
        var("n"),
        vec![
            (Pattern::Lit(sp(), Literal::Int(1)), b(true)),
            (Pattern::Wildcard(sp()), b(false)),
        ],
    ));
    assert!(errors_containing(&program, ASSERT_VACUOUS).is_empty());
}

#[test]
fn static_contract_precondition_dynamic_do_is_not_vacuous() {
    // (do 1 (> value 0))
    let program = precondition_program(do_(vec![int_lit(1), app(">", vec![var("value"), int_lit(0)])]));
    assert!(errors_containing(&program, PRECONDITION_VACUOUS).is_empty());
}

#[test]
fn static_contract_assert_shadowed_operator_in_let_is_not_vacuous() {
    // (let [not f] (not false))
    let program = assert_program(let_(vec![(pvar("not"), var("f"))], app("not", vec![b(false)])));
    assert!(errors_containing(&program, ASSERT_VACUOUS).is_empty());
}

#[test]
fn static_contract_assert_shadowed_operator_in_match_arm_is_not_vacuous() {
    // (match n [not (not false)])
    let program = assert_program(match_(var("n"), vec![(pvar("not"), app("not", vec![b(false)]))]));
    assert!(errors_containing(&program, ASSERT_VACUOUS).is_empty());
}

#[test]
fn static_contract_assert_let_bound_static_var_is_vacuous() {
    // (let [a true] a)
    let program = assert_program(let_(vec![(pvar("a"), b(true))], var("a")));
    assert_eq!(errors_containing(&program, ASSERT_VACUOUS).len(), 1);
}

#[test]
fn static_contract_precondition_let_bound_static_var_is_vacuous() {
    // (let [a false] a)
    let program = precondition_program(let_(vec![(pvar("a"), b(false))], var("a")));
    assert_eq!(errors_containing(&program, PRECONDITION_VACUOUS).len(), 1);
}

#[test]
fn static_contract_assert_let_bound_dynamic_var_is_not_vacuous() {
    // (let [a flag] a)
    let program = assert_program(let_(vec![(pvar("a"), var("flag"))], var("a")));
    assert!(errors_containing(&program, ASSERT_VACUOUS).is_empty());
}

#[test]
fn static_contract_assert_let_rebinding_shadows_outer_static_value() {
    // (let [a true] (let [a flag] a))
    let program = assert_program(let_(
        vec![(pvar("a"), b(true))],
        let_(vec![(pvar("a"), var("flag"))], var("a")),
    ));
    assert!(errors_containing(&program, ASSERT_VACUOUS).is_empty());
}

#[test]
fn static_contract_assert_match_arm_binding_shadows_outer_static_value() {
    // (let [a true] (match n [a a]))
    let program = assert_program(let_(
        vec![(pvar("a"), b(true))],
        match_(var("n"), vec![(pvar("a"), var("a"))]),
    ));
    assert!(errors_containing(&program, ASSERT_VACUOUS).is_empty());
}

// --- additional cases ---

#[test]
fn empty_forms_are_reported() {
    let program = Program {
        decls: vec![defn(
            "f",
            vec![
                MetadataFormKind::Assertion { predicates: Vec::new() },
                MetadataFormKind::Case { expectations: Vec::new() },
                MetadataFormKind::Property { properties: Vec::new() },
            ],
        )],
    };
    let messages: Vec<String> = check(&program).into_iter().map(|d| d.message).collect();
    assert_eq!(
        messages,
        vec![
            ":assert は少なくとも 1 件の predicate を必要とします".to_string(),
            ":case は少なくとも 1 件の expectation を必要とします".to_string(),
            ":property は少なくとも 1 件の for-all を必要とします".to_string(),
        ]
    );
}

#[test]
fn non_empty_case_is_not_reported() {
    let program = Program {
        decls: vec![defn(
            "f",
            vec![MetadataFormKind::Case {
                expectations: vec![CaseExpectation { actual: app("f", vec![int_lit(1)]), expected: int_lit(2) }],
            }],
        )],
    };
    assert!(check(&program).is_empty());
}

#[test]
fn module_and_private_prefix_owner_names() {
    let program = Program {
        decls: vec![Decl::ModuleDecl {
            name: "Outer".to_string(),
            body: vec![Decl::ModuleDecl {
                name: "Inner".to_string(),
                body: vec![Decl::Private {
                    inner: Box::new(defn("g", vec![MetadataFormKind::Case { expectations: Vec::new() }])),
                    span: sp(),
                }],
                span: sp(),
            }],
            span: sp(),
        }],
    };
    let diagnostics = check_case_non_vacuity(&program);
    assert_eq!(diagnostics.len(), 1);
    assert_eq!(diagnostics[0].function_name, "Outer.Inner.g");
}

#[test]
fn property_binder_problems_are_reported() {
    let binder = |name: &str| PropertyBinder {
        name: name.to_string(),
        ty: TypeExpr::Named(sp(), "Int".to_string()),
        span: sp(),
    };
    let program = Program {
        decls: vec![defn(
            "f",
            vec![MetadataFormKind::Property {
                properties: vec![PropertyForm {
                    binders: vec![binder("x"), binder("result"), binder("x")],
                    cases: Some(0),
                    seed: None,
                    shrink: None,
                    preconditions: vec![app("<", vec![int_lit(2), int_lit(1)])],
                    postcondition: app("or", vec![var("p"), app("not", vec![var("p")])]),
                    span: sp(),
                }],
            }],
        )],
    };
    let messages: Vec<String> =
        check_property_non_vacuity(&program).into_iter().map(|d| d.message).collect();
    assert_eq!(
        messages,
        vec![
            ":property binder の result は予約名のため使用できません".to_string(),
            ":property binder 名 'x' は重複しています".to_string(),
            ":property の case count は 1 以上を必要とします".to_string(),
            ":property の precondition は到達不能で vacuous です".to_string(),
            ":property の postcondition は検査を識別できず vacuous です".to_string(),
        ]
    );
}

#[test]
fn static_evaluation_folds_operators() {
    assert_eq!(static_boolean_result(&app("and", vec![var("x"), b(false)])), Some(false));
    assert_eq!(static_boolean_result(&app("and", vec![b(true), var("x")])), None);
    assert_eq!(static_boolean_result(&app("or", vec![var("x"), b(true)])), Some(true));
    assert_eq!(
        static_boolean_result(&app("and", vec![var("x"), app("not", vec![var("x")])])),
        Some(false)
    );
    assert_eq!(static_boolean_result(&app(">=", vec![int_lit(3), int_lit(3)])), Some(true));
    assert_eq!(static_boolean_result(&app("!=", vec![int_lit(3), int_lit(3)])), Some(false));
    assert_eq!(
        static_boolean_result(&Expr::Ann(
            sp(),
            Box::new(app("<", vec![int_lit(1), int_lit(2)])),
            TypeExpr::Named(sp(), "Bool".to_string())
        )),
        Some(true)
    );
    assert_eq!(static_boolean_result(&if_(var("c"), b(true), b(true))), Some(true));
    assert_eq!(static_boolean_result(&Expr::Other(sp())), None);
}

#[test]
fn canonical_contract_check_modules_preserve_empty_program_contract() {
    let program = Program { decls: Vec::new() };

    assert!(check_assertion_non_vacuity(&program).is_empty());
    assert!(check_case_non_vacuity(&program).is_empty());
    assert!(check_property_non_vacuity(&program).is_empty());
}
