use lsharp::constraints::hierarchy::check_constraint_compatibility;
use lsharp::constraints::{
    ConstraintResult, ConversionKind, RuntimeCondition, all_satisfied, analyze_conversion,
    collect_violations, constraint_to_runtime_condition, eval_int_constraint,
    eval_int_constraints, eval_string_constraint, eval_string_constraints,
    generate_boundary_test_cases, generate_runtime_checks, resolve_constraint_hierarchy,
};
use lsharp::types::{ConstrainedTypeInfo, ConstrainedTypes, ConstraintDef, Type};

fn info(name: &str, base: &str, constraints: Vec<ConstraintDef>) -> ConstrainedTypeInfo {
    ConstrainedTypeInfo {
        name: name.to_string(),
        base_type: Type::Con(base.to_string()),
        constraints,
    }
}

fn hierarchy_registry() -> ConstrainedTypes {
    let mut registry = ConstrainedTypes::new();
    registry.insert("Natural".to_string(), info("Natural", "Int", vec![ConstraintDef::Gte(0)]));
    registry.insert(
        "Percentage".to_string(),
        info("Percentage", "Natural", vec![ConstraintDef::Lte(100)]),
    );
    registry.insert(
        "Priority".to_string(),
        info("Priority", "Percentage", vec![ConstraintDef::Lte(10)]),
    );
    registry
}

fn runtime_registry() -> ConstrainedTypes {
    let mut registry = ConstrainedTypes::new();
    registry.insert("Natural".to_string(), info("Natural", "Int", vec![ConstraintDef::Gte(0)]));
    registry.insert(
        "Percentage".to_string(),
        info("Percentage", "Natural", vec![ConstraintDef::Lte(100)]),
    );
    registry.insert(
        "Email".to_string(),
        info(
            "Email",
            "String",
            vec![ConstraintDef::MinLength(5), ConstraintDef::Matches("@".to_string())],
        ),
    );
    registry.insert(
        "Status".to_string(),
        info("Status", "Int", vec![ConstraintDef::OneOf(vec![0, 1, 2])]),
    );
    registry
}

fn conversion_registry() -> ConstrainedTypes {
    let mut registry = hierarchy_registry();
    registry.insert(
        "Port".to_string(),
        info("Port", "Int", vec![ConstraintDef::Range(1, 65535)]),
    );
    registry
}

// --- evaluation ---

#[test]
fn test_gte_satisfied() {
    assert_eq!(eval_int_constraint(5, &ConstraintDef::Gte(0)), ConstraintResult::Satisfied);
}

#[test]
fn test_gte_boundary() {
    assert_eq!(eval_int_constraint(0, &ConstraintDef::Gte(0)), ConstraintResult::Satisfied);
}

#[test]
fn test_gte_violated() {
    assert!(matches!(
        eval_int_constraint(-1, &ConstraintDef::Gte(0)),
        ConstraintResult::Violated(_)
    ));
}

#[test]
fn test_lte_satisfied() {
    assert_eq!(eval_int_constraint(50, &ConstraintDef::Lte(100)), ConstraintResult::Satisfied);
}

#[test]
fn test_lte_violated() {
    assert!(matches!(
        eval_int_constraint(101, &ConstraintDef::Lte(100)),
        ConstraintResult::Violated(_)
    ));
}

#[test]
fn test_range_satisfied() {
    assert_eq!(
        eval_int_constraint(50, &ConstraintDef::Range(0, 100)),
        ConstraintResult::Satisfied
    );
}

#[test]
fn test_range_violated() {
    assert!(matches!(
        eval_int_constraint(-1, &ConstraintDef::Range(0, 100)),
        ConstraintResult::Violated(_)
    ));
}

#[test]
fn test_one_of_satisfied() {
    assert_eq!(
        eval_int_constraint(2, &ConstraintDef::OneOf(vec![1, 2, 3])),
        ConstraintResult::Satisfied
    );
}

#[test]
fn test_one_of_violated() {
    assert!(matches!(
        eval_int_constraint(4, &ConstraintDef::OneOf(vec![1, 2, 3])),
        ConstraintResult::Violated(_)
    ));
}

#[test]
fn test_min_length_satisfied() {
    assert_eq!(
        eval_string_constraint("hello", &ConstraintDef::MinLength(3)),
        ConstraintResult::Satisfied
    );
}

#[test]
fn test_min_length_violated() {
    assert!(matches!(
        eval_string_constraint("hi", &ConstraintDef::MinLength(3)),
        ConstraintResult::Violated(_)
    ));
}

#[test]
fn test_max_length_satisfied() {
    assert_eq!(
        eval_string_constraint("hi", &ConstraintDef::MaxLength(10)),
        ConstraintResult::Satisfied
    );
}

#[test]
fn test_max_length_violated() {
    assert!(matches!(
        eval_string_constraint("hello world", &ConstraintDef::MaxLength(5)),
        ConstraintResult::Violated(_)
    ));
}

#[test]
fn test_satisfies_deferred() {
    assert_eq!(
        eval_int_constraint(42, &ConstraintDef::Satisfies("is-even".to_string())),
        ConstraintResult::Deferred
    );
}

#[test]
fn test_multiple_constraints() {
    let constraints = vec![ConstraintDef::Gte(0), ConstraintDef::Lte(100)];
    let results = eval_int_constraints(50, &constraints);
    assert!(all_satisfied(&results));
}

#[test]
fn test_multiple_constraints_violated() {
    let constraints = vec![ConstraintDef::Gte(0), ConstraintDef::Lte(100)];
    let results = eval_int_constraints(101, &constraints);
    assert!(!all_satisfied(&results));
    let violations = collect_violations(&results);
    assert_eq!(violations.len(), 1);
}

#[test]
fn test_boundary_test_generation() {
    let constraints = vec![ConstraintDef::Range(0, 100)];
    let cases = generate_boundary_test_cases(&constraints);
    assert_eq!(cases.len(), 5);
    assert!(cases.iter().any(|(v, ok)| *v == 0 && *ok));
    assert!(cases.iter().any(|(v, ok)| *v == -1 && !*ok));
    assert!(cases.iter().any(|(v, ok)| *v == 100 && *ok));
    assert!(cases.iter().any(|(v, ok)| *v == 101 && !*ok));
}

#[test]
fn test_type_mismatch_int_string_constraint() {
    assert!(matches!(
        eval_int_constraint(42, &ConstraintDef::MinLength(3)),
        ConstraintResult::Violated(_)
    ));
}

#[test]
fn test_type_mismatch_string_int_constraint() {
    assert!(matches!(
        eval_string_constraint("hello", &ConstraintDef::Gte(0)),
        ConstraintResult::Violated(_)
    ));
}

#[test]
fn test_string_constraint_uses_shared_regex_extended_features() {
    assert_eq!(
        eval_string_constraint("abc123", &ConstraintDef::Matches("^\\w{3}\\d{3}$".to_string())),
        ConstraintResult::Satisfied
    );
    assert!(matches!(
        eval_string_constraint("ab123", &ConstraintDef::Matches("^\\w{3}\\d{3}$".to_string())),
        ConstraintResult::Violated(_)
    ));
}

// --- hierarchy and compatibility ---

#[test]
fn test_resolve_simple_hierarchy() {
    let registry = hierarchy_registry();
    let constraints = resolve_constraint_hierarchy("Natural", &registry);
    assert_eq!(constraints.len(), 1);
    assert!(matches!(constraints[0], ConstraintDef::Gte(0)));
}

#[test]
fn test_resolve_two_level_hierarchy() {
    let registry = hierarchy_registry();
    let constraints = resolve_constraint_hierarchy("Percentage", &registry);
    assert_eq!(constraints.len(), 2);
    assert!(matches!(constraints[0], ConstraintDef::Gte(0)));
    assert!(matches!(constraints[1], ConstraintDef::Lte(100)));
}

#[test]
fn test_resolve_three_level_hierarchy() {
    let registry = hierarchy_registry();
    let constraints = resolve_constraint_hierarchy("Priority", &registry);
    assert_eq!(constraints.len(), 3);
    assert!(matches!(constraints[0], ConstraintDef::Gte(0)));
    assert!(matches!(constraints[1], ConstraintDef::Lte(100)));
    assert!(matches!(constraints[2], ConstraintDef::Lte(10)));
}

#[test]
fn test_resolve_nonexistent_type() {
    let registry = hierarchy_registry();
    let constraints = resolve_constraint_hierarchy("Unknown", &registry);
    assert!(constraints.is_empty());
}

#[test]
fn test_resolve_base_type_not_constrained() {
    let mut registry = ConstrainedTypes::new();
    registry.insert(
        "Port".to_string(),
        info("Port", "Int", vec![ConstraintDef::Range(1, 65535)]),
    );
    let constraints = resolve_constraint_hierarchy("Port", &registry);
    assert_eq!(constraints.len(), 1);
    assert!(matches!(constraints[0], ConstraintDef::Range(1, 65535)));
}

#[test]
fn test_compatibility_valid() {
    let parent = vec![ConstraintDef::Gte(0), ConstraintDef::Lte(200)];
    let child = vec![ConstraintDef::Gte(0), ConstraintDef::Lte(100)];
    let errors = check_constraint_compatibility(&parent, &child);
    assert!(errors.is_empty());
}

#[test]
fn test_compatibility_child_exceeds_parent_lower() {
    let parent = vec![ConstraintDef::Gte(0)];
    let child = vec![ConstraintDef::Gte(-10)];
    let errors = check_constraint_compatibility(&parent, &child);
    assert_eq!(errors.len(), 1);
}

#[test]
fn test_compatibility_child_exceeds_parent_upper() {
    let parent = vec![ConstraintDef::Lte(100)];
    let child = vec![ConstraintDef::Lte(200)];
    let errors = check_constraint_compatibility(&parent, &child);
    assert_eq!(errors.len(), 1);
}

#[test]
fn test_compatibility_range_check() {
    let parent = vec![ConstraintDef::Range(0, 100)];
    let child = vec![ConstraintDef::Range(-5, 50)];
    let errors = check_constraint_compatibility(&parent, &child);
    assert_eq!(errors.len(), 1);
}

// --- run-time checks ---

#[test]
fn test_runtime_checks_natural() {
    let registry = runtime_registry();
    let check = generate_runtime_checks("Natural", &registry);
    assert_eq!(check.ty_name, "Natural");
    assert_eq!(check.conditions.len(), 1);
    assert!(matches!(check.conditions[0], RuntimeCondition::IntGte(0)));
}

#[test]
fn test_runtime_checks_percentage_inherits() {
    let registry = runtime_registry();
    let check = generate_runtime_checks("Percentage", &registry);
    assert_eq!(check.ty_name, "Percentage");
    assert_eq!(check.conditions.len(), 2);
    assert!(matches!(check.conditions[0], RuntimeCondition::IntGte(0)));
    assert!(matches!(check.conditions[1], RuntimeCondition::IntLte(100)));
}

#[test]
fn test_runtime_checks_email_string_constraints() {
    let registry = runtime_registry();
    let check = generate_runtime_checks("Email", &registry);
    assert_eq!(check.ty_name, "Email");
    assert_eq!(check.conditions.len(), 2);
    assert!(matches!(check.conditions[0], RuntimeCondition::StrMinLength(5)));
    assert!(matches!(check.conditions[1], RuntimeCondition::StrMatches(_)));
}

#[test]
fn test_runtime_checks_one_of() {
    let registry = runtime_registry();
    let check = generate_runtime_checks("Status", &registry);
    assert_eq!(check.conditions.len(), 1);
    match &check.conditions[0] {
        RuntimeCondition::IntOneOf(values) => {
            assert_eq!(values, &vec![0, 1, 2]);
        }
        _ => panic!("IntOneOf が期待される"),
    }
}

#[test]
fn test_runtime_checks_unknown_type() {
    let registry = runtime_registry();
    let check = generate_runtime_checks("Unknown", &registry);
    assert_eq!(check.ty_name, "Unknown");
    assert!(check.conditions.is_empty());
}

#[test]
fn test_constraint_to_runtime_satisfies_returns_none() {
    let result = constraint_to_runtime_condition(&ConstraintDef::Satisfies("is-valid".to_string()));
    assert!(result.is_none());
}

#[test]
fn test_constraint_to_runtime_range() {
    let result = constraint_to_runtime_condition(&ConstraintDef::Range(1, 100));
    match result {
        Some(RuntimeCondition::IntRange(lo, hi)) => {
            assert_eq!(lo, 1);
            assert_eq!(hi, 100);
        }
        _ => panic!("IntRange が期待される"),
    }
}

// --- conversions ---

#[test]
fn test_upcast_child_to_parent() {
    let registry = conversion_registry();
    let info = analyze_conversion("Percentage", "Natural", &registry);
    assert_eq!(info.kind, ConversionKind::Upcast);
    assert!(info.extra_checks.is_empty());
}

#[test]
fn test_upcast_grandchild_to_grandparent() {
    let registry = conversion_registry();
    let info = analyze_conversion("Priority", "Natural", &registry);
    assert_eq!(info.kind, ConversionKind::Upcast);
}

#[test]
fn test_downcast_parent_to_child() {
    let registry = conversion_registry();
    let info = analyze_conversion("Natural", "Percentage", &registry);
    assert_eq!(info.kind, ConversionKind::Downcast);
    assert!(!info.extra_checks.is_empty());
}

#[test]
fn test_downcast_parent_to_grandchild() {
    let registry = conversion_registry();
    let info = analyze_conversion("Natural", "Priority", &registry);
    assert_eq!(info.kind, ConversionKind::Downcast);
}

#[test]
fn test_incompatible_unrelated_types() {
    let registry = conversion_registry();
    let info = analyze_conversion("Port", "Priority", &registry);
    assert_eq!(info.kind, ConversionKind::Incompatible);
}

#[test]
fn test_same_type_conversion() {
    let registry = conversion_registry();
    let info = analyze_conversion("Natural", "Natural", &registry);
    assert_eq!(info.kind, ConversionKind::Upcast);
}

#[test]
fn test_unknown_type_conversion() {
    let registry = conversion_registry();
    let info = analyze_conversion("Unknown", "Natural", &registry);
    assert!(matches!(
        info.kind,
        ConversionKind::Downcast | ConversionKind::Incompatible
    ));
}

// --- additional cases ---

#[test]
fn violation_messages_render_the_values() {
    assert_eq!(
        eval_int_constraint(-1, &ConstraintDef::Gte(0)),
        ConstraintResult::Violated("値 -1 は >= 0 を満たしません".to_string())
    );
    assert_eq!(
        eval_int_constraint(7, &ConstraintDef::Range(-3, 5)),
        ConstraintResult::Violated("値 7 は範囲 [-3, 5] に含まれません".to_string())
    );
    assert_eq!(
        eval_string_constraint("hi", &ConstraintDef::MinLength(3)),
        ConstraintResult::Violated("文字列長 2 は最小長 3 を満たしません".to_string())
    );
    assert_eq!(
        eval_string_constraint("ab", &ConstraintDef::Matches("^a$".to_string())),
        ConstraintResult::Violated("文字列 \"ab\" はパターン \"^a$\" にマッチしません".to_string())
    );
}

#[test]
fn string_length_counts_utf8_bytes() {
    // "あい" is two characters but six bytes long.
    assert!(matches!(
        eval_string_constraint("あい", &ConstraintDef::MaxLength(5)),
        ConstraintResult::Violated(_)
    ));
}

#[test]
fn string_constraints_evaluate_each_in_order() {
    let constraints = vec![ConstraintDef::MinLength(3), ConstraintDef::Satisfies("p".to_string())];
    let results = eval_string_constraints("abcd", &constraints);
    assert_eq!(results, vec![ConstraintResult::Satisfied, ConstraintResult::Deferred]);
    assert!(!all_satisfied(&results));
    assert!(collect_violations(&results).is_empty());
}

#[test]
fn pattern_features() {
    let m = |value: &str, pattern: &str| {
        eval_string_constraint(value, &ConstraintDef::Matches(pattern.to_string()))
            == ConstraintResult::Satisfied
    };
    assert!(m("user@example.com", "@"));
    assert!(!m("example.com", "@"));
    assert!(m("abc", "^[a-c]+$"));
    assert!(!m("abd", "^[a-c]+$"));
    assert!(m("x9", "^[^0-9]\\d?$"));
    assert!(m("aaa", "^a{2,}$"));
    assert!(!m("a", "^a{2,}$"));
    assert!(m("ab", "^a.?b$"));
    assert!(m("a b", "a\\sb"));
    assert!(!m("anything", "(a|b)"));
}

#[test]
fn boundary_cases_for_each_constraint_kind() {
    let cases = generate_boundary_test_cases(&[
        ConstraintDef::Gte(3),
        ConstraintDef::Lte(-2),
        ConstraintDef::Range(-7, 0),
        ConstraintDef::OneOf(vec![4, 9, 1]),
        ConstraintDef::MinLength(1),
    ]);
    assert_eq!(
        cases,
        vec![
            (3, true),
            (2, false),
            (4, true),
            (-2, true),
            (-1, false),
            (-3, true),
            (-7, true),
            (-8, false),
            (0, true),
            (1, false),
            (-3, true),
            (4, true),
            (9, true),
            (1, true),
            (1009, false),
        ]
    );
}

#[test]
fn compatibility_messages_name_both_bounds() {
    let errors = check_constraint_compatibility(
        &[ConstraintDef::Range(0, 10)],
        &[ConstraintDef::Gte(-1), ConstraintDef::Lte(11)],
    );
    assert_eq!(
        errors,
        vec![
            "子の下限 (-1) が親の範囲下限 (0) より小さい".to_string(),
            "子の上限 (11) が親の範囲上限 (10) より大きい".to_string(),
        ]
    );
}

#[test]
fn hierarchy_follows_a_cycle_once() {
    let mut registry = ConstrainedTypes::new();
    registry.insert("A".to_string(), info("A", "B", vec![ConstraintDef::Gte(1)]));
    registry.insert("B".to_string(), info("B", "A", vec![ConstraintDef::Lte(9)]));
    let constraints = resolve_constraint_hierarchy("A", &registry);
    assert_eq!(constraints.len(), 2);
    assert!(matches!(constraints[0], ConstraintDef::Lte(9)));
    assert!(matches!(constraints[1], ConstraintDef::Gte(1)));
}

#[test]
fn registry_insert_replaces_an_entry() {
    let mut registry = ConstrainedTypes::new();
    assert!(registry.insert("N".to_string(), info("N", "Int", vec![ConstraintDef::Gte(0)])).is_none());
    assert!(registry.insert("N".to_string(), info("N", "Int", vec![ConstraintDef::Gte(5)])).is_some());
    assert_eq!(registry.len(), 1);
    let constraints = resolve_constraint_hierarchy("N", &registry);
    assert!(matches!(constraints[0], ConstraintDef::Gte(5)));
}

#[test]
fn downcast_lists_only_the_new_constraints() {
    let registry = conversion_registry();
    let info = analyze_conversion("Natural", "Priority", &registry);
    assert_eq!(info.extra_checks.len(), 2);
    assert!(matches!(info.extra_checks[0], ConstraintDef::Lte(100)));
    assert!(matches!(info.extra_checks[1], ConstraintDef::Lte(10)));
}

#[test]
fn compatibility_uses_the_childs_tightest_bounds() {
    let cs = vec![ConstraintDef::Gte(0), ConstraintDef::Lte(100), ConstraintDef::Lte(10)];
    assert!(check_constraint_compatibility(&cs, &cs).is_empty());
    let parent = vec![ConstraintDef::Lte(50)];
    let child = vec![ConstraintDef::Lte(100), ConstraintDef::Lte(40)];
    assert!(check_constraint_compatibility(&parent, &child).is_empty());
    let parent = vec![ConstraintDef::Range(0, 10)];
    let child = vec![ConstraintDef::Gte(-5), ConstraintDef::Range(2, 20), ConstraintDef::Lte(30)];
    assert_eq!(
        check_constraint_compatibility(&parent, &child),
        vec!["子の上限 (20) が親の範囲上限 (10) より大きい".to_string()]
    );
}

#[test]
fn converting_a_type_to_itself_is_an_upcast() {
    let registry = conversion_registry();
    let info = analyze_conversion("Priority", "Priority", &registry);
    assert_eq!(info.kind, ConversionKind::Upcast);
    assert!(info.extra_checks.is_empty());
}

#[test]
fn boundary_cases_of_a_range_whose_bounds_sum_to_the_minimum() {
    let cases = generate_boundary_test_cases(&[ConstraintDef::Range(i64::MIN + 1, -1)]);
    assert_eq!(
        cases,
        vec![
            (i64::MIN + 1, true),
            (i64::MIN, false),
            (-1, true),
            (0, false),
            (i64::MIN / 2, true),
        ]
    );
    for (v, ok) in cases {
        let c = ConstraintDef::Range(i64::MIN + 1, -1);
        assert_eq!(eval_int_constraint(v, &c) == ConstraintResult::Satisfied, ok);
    }
}

#[test]
fn boundary_cases_of_a_list_concatenate() {
    let xs = vec![ConstraintDef::Gte(0), ConstraintDef::MinLength(3)];
    let ys = vec![ConstraintDef::OneOf(vec![]), ConstraintDef::Range(-3, 4)];
    let all: Vec<ConstraintDef> = vec![
        ConstraintDef::Gte(0),
        ConstraintDef::MinLength(3),
        ConstraintDef::OneOf(vec![]),
        ConstraintDef::Range(-3, 4),
    ];
    let mut expected = generate_boundary_test_cases(&xs);
    expected.extend(generate_boundary_test_cases(&ys));
    assert_eq!(generate_boundary_test_cases(&all), expected);
    assert_eq!(generate_boundary_test_cases(&ys), vec![(-3, true), (-4, false), (4, true), (5, false), (0, true)]);
}
