use lsharp::metadata_check::{
    check_defn_signature_metadata, generate_tests, metadata_error_code, metadata_names,
    property_profile_error, property_smoke_test_spec, MetadataDiagnostic, PropertyBinderType,
    Severity, TestKind,
};
use lsharp::syntax::{
    CaseExpectation, Decl, Expr, Literal, Metadata, MetadataForm, MetadataFormKind, Program,
    PropertyBinder, PropertyForm, Span, TypeExpr,
};

fn sp() -> Span {
    Span::new(0, 0)
}

fn int_lit(v: i64) -> Expr {
    Expr::Lit(sp(), Literal::Int(v))
}

fn var(name: &str) -> Expr {
    Expr::Var(sp(), name.to_string())
}

fn binder(name: &str, ty: &str) -> PropertyBinder {
    PropertyBinder { name: name.to_string(), ty: TypeExpr::Named(sp(), ty.to_string()), span: sp() }
}

fn property(binders: Vec<PropertyBinder>, cases: Option<usize>) -> PropertyForm {
    PropertyForm {
        binders,
        cases,
        seed: None,
        shrink: None,
        preconditions: vec![var("pre")],
        postcondition: var("post"),
        span: sp(),
    }
}

#[test]
fn single_int_property_has_a_profile() {
    let p = property(vec![binder("x", "Int")], Some(5));
    let spec = property_smoke_test_spec(&p).expect("in profile");
    assert_eq!(spec.binder_names, vec!["x".to_string()]);
    assert_eq!(spec.binder_types, vec![PropertyBinderType::Int]);
    assert_eq!(spec.cases, 5);
    assert_eq!(spec.preconditions.len(), 1);
    assert!(std::ptr::eq(&spec.preconditions[0], &p.preconditions[0]));
}

#[test]
fn property_outside_case_range_has_no_profile() {
    assert!(property_smoke_test_spec(&property(vec![binder("x", "Int")], Some(6))).is_none());
    assert!(property_smoke_test_spec(&property(vec![binder("x", "Int")], Some(0))).is_none());
    assert!(property_smoke_test_spec(&property(vec![binder("x", "Int")], None)).is_none());
}

#[test]
fn seed_or_shrink_leaves_the_profile() {
    let mut seeded = property(vec![binder("x", "Int")], Some(1));
    seeded.seed = Some(7);
    assert!(property_smoke_test_spec(&seeded).is_none());
    let mut shrinking = property(vec![binder("x", "Int")], Some(1));
    shrinking.shrink = Some(false);
    assert!(property_smoke_test_spec(&shrinking).is_none());
}

#[test]
fn bool_binders_allow_two_cases() {
    assert!(property_smoke_test_spec(&property(vec![binder("b", "Bool")], Some(2))).is_some());
    assert!(property_smoke_test_spec(&property(vec![binder("b", "Bool")], Some(3))).is_none());
    let mixed = vec![binder("v", "Int"), binder("f", "Bool")];
    assert!(property_smoke_test_spec(&property(mixed, Some(2))).is_some());
    let mixed = vec![binder("v", "Int"), binder("f", "Bool")];
    assert!(property_smoke_test_spec(&property(mixed, Some(3))).is_none());
    let two_ints = vec![binder("a", "Int"), binder("b", "Int")];
    assert!(property_smoke_test_spec(&property(two_ints, Some(5))).is_some());
}

#[test]
fn string_binder_profiles() {
    assert!(property_smoke_test_spec(&property(vec![binder("s", "String")], Some(5))).is_some());
    let pair = vec![binder("s", "String"), binder("n", "Int")];
    assert!(property_smoke_test_spec(&property(pair, Some(1))).is_none());
}

#[test]
fn many_binders_allow_two_cases() {
    let three = || vec![binder("a", "Int"), binder("b", "Bool"), binder("c", "Int")];
    let in_profile = property(three(), Some(2));
    let spec = property_smoke_test_spec(&in_profile).expect("in profile");
    assert_eq!(
        spec.binder_types,
        vec![PropertyBinderType::Int, PropertyBinderType::Bool, PropertyBinderType::Int]
    );
    assert!(property_smoke_test_spec(&property(three(), Some(3))).is_none());
    let nine: Vec<PropertyBinder> = (0..9).map(|i| binder(&format!("x{i}"), "Int")).collect();
    assert!(property_smoke_test_spec(&property(nine, Some(1))).is_none());
    assert!(property_smoke_test_spec(&property(Vec::new(), Some(1))).is_none());
}

#[test]
fn unknown_binder_type_has_no_profile() {
    assert!(property_smoke_test_spec(&property(vec![binder("x", "Float")], Some(1))).is_none());
    let compound = PropertyBinder { name: "x".to_string(), ty: TypeExpr::Compound(sp()), span: sp() };
    assert!(property_smoke_test_spec(&property(vec![compound], Some(1))).is_none());
}

fn metadata(forms: Vec<MetadataFormKind>, invariant: Option<Expr>, example: Vec<Expr>) -> Metadata {
    Metadata {
        doc: None,
        params: Vec::new(),
        returns: None,
        see_also: Vec::new(),
        forms: forms.into_iter().map(|kind| MetadataForm { kind, span: sp() }).collect(),
        invariant,
        example,
        example_text: Vec::new(),
    }
}

#[test]
fn tests_are_generated_per_kind_in_order() {
    let program = Program {
        decls: vec![
            Decl::Defn {
                name: "f".to_string(),
                params: vec!["x".to_string()],
                return_ty: None,
                metadata: Some(metadata(
                    vec![
                        MetadataFormKind::Case {
                            expectations: vec![CaseExpectation { actual: var("a0"), expected: int_lit(0) }],
                        },
                        MetadataFormKind::Assertion { predicates: vec![var("p0"), var("p1")] },
                        MetadataFormKind::Case {
                            expectations: vec![CaseExpectation { actual: var("a1"), expected: int_lit(1) }],
                        },
                        MetadataFormKind::Property {
                            properties: vec![
                                property(vec![binder("x", "Int")], Some(9)),
                                property(vec![binder("x", "Int")], Some(1)),
                            ],
                        },
                    ],
                    Some(var("inv")),
                    vec![var("e0")],
                )),
                span: sp(),
            },
            Decl::Private {
                inner: Box::new(Decl::Defn {
                    name: "g".to_string(),
                    params: Vec::new(),
                    return_ty: None,
                    metadata: Some(metadata(Vec::new(), None, vec![var("e1")])),
                    span: sp(),
                }),
                span: sp(),
            },
            Decl::Defn { name: "h".to_string(), params: Vec::new(), return_ty: None, metadata: None, span: sp() },
        ],
    };
    let tests = generate_tests(&program);
    let summary: Vec<(&str, &str, TestKind)> =
        tests.iter().map(|t| (t.name.as_str(), t.function_name.as_str(), t.kind)).collect();
    assert_eq!(
        summary,
        vec![
            ("f_invariant", "f", TestKind::Invariant),
            ("f_case_0", "f", TestKind::Case),
            ("f_case_1", "f", TestKind::Case),
            ("f_assertion_0", "f", TestKind::Assertion),
            ("f_assertion_1", "f", TestKind::Assertion),
            ("f_property_0", "f", TestKind::Property),
            ("f_example_0", "f", TestKind::Example),
            ("g_example_0", "g", TestKind::Example),
        ]
    );
    assert_eq!(tests[1].expr, &var("a0"));
    assert_eq!(tests[1].expected, Some(&int_lit(0)));
    assert_eq!(tests[2].expr, &var("a1"));
    assert_eq!(tests[4].expr, &var("p1"));
    assert!(tests[3].expected.is_none());
    let profile = tests[5].property.as_ref().expect("a property test has its profile");
    assert_eq!(profile.cases, 1);
    assert_eq!(tests[5].expr, &var("post"));
    assert_eq!(tests[7].expr, &var("e1"));
}

#[test]
fn no_metadata_no_tests() {
    let program = Program {
        decls: vec![Decl::Defn { name: "h".to_string(), params: Vec::new(), return_ty: None, metadata: None, span: sp() }],
    };
    assert!(generate_tests(&program).is_empty());
}

fn diagnostic(severity: Severity, message: &str) -> MetadataDiagnostic {
    MetadataDiagnostic { severity, message: message.to_string(), span: sp(), function_name: "f".to_string() }
}

#[test]
fn metadata_errors_map_to_codes_by_their_first_error() {
    assert_eq!(metadata_error_code(&[]), None);
    assert_eq!(metadata_error_code(&[diagnostic(Severity::Warning, "vacuous")]), None);
    let cases = [
        (":case は少なくとも 1 件の expectation を必要とします", "LS2006"),
        (":assert predicate は静的に true で検査を識別できず vacuous です", "LS2005"),
        (":assert は少なくとも 1 件の predicate を必要とします", "LS2004"),
        ("未定義の識別子: x", "LS1001"),
        ("未定義の変数 y", "LS1001"),
        (":params の型が一致しません", "LS1002"),
    ];
    for (message, code) in cases {
        let ds = vec![diagnostic(Severity::Warning, "未定義の変数"), diagnostic(Severity::Error, message)];
        assert_eq!(metadata_error_code(&ds), Some(code.to_string()));
    }
}

#[test]
fn property_profile_mismatch_is_refused() {
    let program = Program { decls: Vec::new() };
    let tests = generate_tests(&program);
    assert_eq!(property_profile_error(0, None, &tests), None);
    assert_eq!(
        property_profile_error(1, Some("f"), &tests),
        Some("[LS3002] f: canonical :property は deterministic smoke profile の範囲外です".to_string())
    );
    assert_eq!(
        property_profile_error(2, None, &tests),
        Some("[LS3002] anonymous: canonical :property は deterministic smoke profile の範囲外です".to_string())
    );
}

#[test]
fn params_and_see_also_are_checked_against_the_program() {
    let program = Program {
        decls: vec![
            Decl::Defn { name: "add".to_string(), params: vec!["a".to_string(), "b".to_string()], return_ty: None, metadata: None, span: sp() },
            Decl::Private {
                inner: Box::new(Decl::TypeAlias { name: "Score".to_string(), span: sp() }),
                span: sp(),
            },
            Decl::ModuleDecl { name: "M".to_string(), body: Vec::new(), span: sp() },
            Decl::RecordDef { name: "Point".to_string(), span: sp() },
        ],
    };
    let names = metadata_names(&program);
    assert_eq!(names, vec!["add".to_string(), "Score".to_string(), "Point".to_string()]);

    let mut meta = metadata(Vec::new(), None, Vec::new());
    meta.params = vec![("a".to_string(), "first".to_string()), ("c".to_string(), "third".to_string())];
    meta.see_also = vec!["Point".to_string(), "missing".to_string()];
    let span = Span::new(4, 9);
    let diags = check_defn_signature_metadata("add", &["a".to_string(), "b".to_string()], &meta, span, &names);
    let got: Vec<(Severity, &str, Span, &str)> = diags
        .iter()
        .map(|d| (d.severity, d.message.as_str(), d.span, d.function_name.as_str()))
        .collect();
    assert_eq!(
        got,
        vec![
            (Severity::Error, ":params に存在しない引数 'c' が記載されています", span, "add"),
            (Severity::Warning, "引数 'b' が :params に記載されていません", span, "add"),
            (Severity::Error, ":see-also に存在しない識別子 'missing' が参照されています", span, "add"),
        ]
    );

    let plain = metadata(Vec::new(), None, Vec::new());
    assert!(check_defn_signature_metadata("add", &["a".to_string()], &plain, span, &names).is_empty());
}
