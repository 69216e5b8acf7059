use lsharp::infer::builtin_env::{TraitConstraint, TypeScheme};
use lsharp::infer::{
    bind_var, free_type_vars, generalize, instantiate, kinds_compatible, occurs_in, TypeError,
    TypeErrorCode,
};
use lsharp::syntax::Span;
use lsharp::types::{Kind, Type};

#[test]
fn infer_error_types_remain_exported_from_infer_module() {
    let error = TypeError::UndefinedVar {
        name: "missing".to_string(),
        span: Span::new(1, 2),
    };
    assert_eq!(error.code(), "LS1001");
}

#[test]
fn type_errors_expose_stable_codes_and_spans_for_all_variants() {
    let span = Span::new(3, 8);
    let errors = vec![
        (
            TypeError::Mismatch {
                expected: Type::int_ty(),
                found: Type::bool_ty(),
                span,
                error_code: TypeErrorCode::IfCondition,
            },
            "LS1002",
        ),
        (
            TypeError::Mismatch {
                expected: Type::int_ty(),
                found: Type::bool_ty(),
                span,
                error_code: TypeErrorCode::ArgMismatch,
            },
            "LS1004",
        ),
        (
            TypeError::InfiniteType {
                var: 0,
                ty: Type::int_ty(),
                span,
            },
            "LS1003",
        ),
        (
            TypeError::UndefinedVar {
                name: "missing".to_string(),
                span,
            },
            "LS1001",
        ),
        (
            TypeError::UndefinedConstructor {
                name: "Missing".to_string(),
                span,
            },
            "LS1005",
        ),
        (
            TypeError::ArityMismatch {
                expected: 1,
                found: 2,
                span,
            },
            "LS1004",
        ),
        (
            TypeError::UndefinedRecord {
                name: "Missing".to_string(),
                span,
            },
            "LS1006",
        ),
        (
            TypeError::UndefinedField {
                record_name: "Point".to_string(),
                field_name: "z".to_string(),
                span,
            },
            "LS1007",
        ),
        (
            TypeError::RecursiveAlias {
                name: "Loop".to_string(),
                span,
            },
            "LS1008",
        ),
        (
            TypeError::UndefinedAlias {
                name: "Missing".to_string(),
                span,
            },
            "LS1009",
        ),
        (
            TypeError::UndefinedTrait {
                name: "Missing".to_string(),
                span,
            },
            "LS1010",
        ),
        (
            TypeError::MissingImpl {
                trait_name: "Show".to_string(),
                ty_name: "Int".to_string(),
                span,
            },
            "LS1011",
        ),
        (
            TypeError::MismatchWithAlias {
                expected: Type::int_ty(),
                found: Type::bool_ty(),
                alias_name: "Number".to_string(),
                expanded: Type::int_ty(),
                span,
                error_code: TypeErrorCode::General,
            },
            "LS1002",
        ),
        (
            TypeError::KindMismatch {
                ty_name: "Int".to_string(),
                trait_name: "Functor".to_string(),
                expected_kind: Kind::unary(),
                actual_kind: Kind::star(),
                span,
            },
            "LS1013",
        ),
    ];

    for (error, expected_code) in errors {
        assert_eq!(error.code(), expected_code);
        assert_eq!(error.span(), Some(span));
    }
}

#[test]
fn mismatch_codes_by_classification() {
    let span = Span::new(0, 1);
    let branch = TypeError::Mismatch {
        expected: Type::int_ty(),
        found: Type::bool_ty(),
        span,
        error_code: TypeErrorCode::IfBranch,
    };
    assert_eq!(branch.code(), "LS1002");
    let alias_arg = TypeError::MismatchWithAlias {
        expected: Type::int_ty(),
        found: Type::bool_ty(),
        alias_name: "Number".to_string(),
        expanded: Type::int_ty(),
        span,
        error_code: TypeErrorCode::ArgMismatch,
    };
    assert_eq!(alias_arg.code(), "LS1004");
}

#[test]
fn type_error_code_text() {
    assert_eq!(TypeErrorCode::IfCondition.as_str(), "E0002");
    assert_eq!(TypeErrorCode::IfBranch.as_str(), "E0003");
    assert_eq!(TypeErrorCode::ArgMismatch.as_str(), "E0004");
    assert_eq!(TypeErrorCode::General.as_str(), "E0006");
}

#[test]
fn trait_and_type_kinds_must_agree() {
    assert!(kinds_compatible(&Kind::star(), &Kind::star()));
    assert!(kinds_compatible(&Kind::unary(), &Kind::unary()));
    assert!(!kinds_compatible(&Kind::star(), &Kind::unary()));
    assert!(!kinds_compatible(&Kind::unary(), &Kind::star()));
    let binary = Kind::Arrow(Box::new(Kind::star()), Box::new(Kind::unary()));
    assert!(!kinds_compatible(&Kind::unary(), &binary));
}

fn fun(ps: Vec<Type>, r: Type) -> Type {
    Type::Fun(ps, Box::new(r))
}

#[test]
fn occurs_check_finds_variables_anywhere_in_a_type() {
    let t = fun(vec![Type::Var(1), Type::App("List".to_string(), vec![Type::Var(2)])], Type::Var(3));
    assert!(occurs_in(1, &t));
    assert!(occurs_in(2, &t));
    assert!(occurs_in(3, &t));
    assert!(!occurs_in(4, &t));
    let r = Type::Record("P".to_string(), vec![("x".to_string(), Type::Var(9))]);
    assert!(occurs_in(9, &r));
    assert!(!occurs_in(9, &Type::Con("Int".to_string())));
}

#[test]
fn binding_a_variable_checks_for_infinite_types() {
    assert!(matches!(bind_var(1, Type::Var(1), Span::new(0, 1)), Ok(None)));
    match bind_var(1, Type::Con("Int".to_string()), Span::new(0, 1)) {
        Ok(Some((1, Type::Con(name)))) => assert_eq!(name, "Int"),
        other => panic!("expected a binding, got {other:?}"),
    }
    let cyclic = fun(vec![Type::Var(1)], Type::Con("Int".to_string()));
    match bind_var(1, cyclic, Span::new(2, 5)) {
        Err(e) => {
            assert_eq!(e.code(), "LS1003");
            assert!(matches!(e, TypeError::InfiniteType { var: 1, .. }));
        }
        other => panic!("expected an infinite type, got {other:?}"),
    }
}

#[test]
fn generalization_binds_variables_not_free_in_the_environment() {
    let t = fun(vec![Type::Var(1), Type::Var(2), Type::Var(1)], Type::Var(3));
    assert_eq!(free_type_vars(&t), vec![1, 2, 3]);
    let env = vec![(
        "x".to_string(),
        TypeScheme { vars: vec![5], constraints: Vec::new(), ty: fun(vec![Type::Var(2)], Type::Var(5)) },
    )];
    let s = generalize(&env, t);
    assert_eq!(s.vars, vec![1, 3]);
    assert!(s.constraints.is_empty());
    let closed = generalize(&[], Type::Con("Int".to_string()));
    assert!(closed.vars.is_empty());
}

fn show(t: &Type) -> String {
    match t {
        Type::Con(n) => n.clone(),
        Type::Var(v) => format!("t{v}"),
        Type::Fun(ps, r) => format!("({}) -> {}", ps.iter().map(show).collect::<Vec<_>>().join(", "), show(r)),
        Type::App(n, args) => format!("{n} {}", args.iter().map(show).collect::<Vec<_>>().join(" ")),
        Type::Record(n, fs) => format!("{n} {{{}}}", fs.iter().map(|(f, t)| format!("{f}: {}", show(t))).collect::<Vec<_>>().join(", ")),
    }
}

#[test]
fn instantiation_renames_bound_variables_to_fresh_ones() {
    let scheme = TypeScheme {
        vars: vec![7, 9],
        constraints: vec![
            TraitConstraint { trait_name: "Show".to_string(), type_var: 9 },
            TraitConstraint { trait_name: "Eq".to_string(), type_var: 4 },
        ],
        ty: fun(
            vec![Type::Var(7), Type::Record("Box".to_string(), vec![("v".to_string(), Type::Var(9))])],
            Type::App("List".to_string(), vec![Type::Var(4)]),
        ),
    };
    let inst = instantiate(&scheme, 100);
    assert_eq!(show(&inst.ty), "(t100, Box {v: t101}) -> List t4");
    assert_eq!(inst.pending, vec![("Show".to_string(), 101), ("Eq".to_string(), 4)]);
    assert_eq!(inst.next_var, 102);
}
