//! Constrained types: evaluating their constraints on values, inheriting
//! constraints along base types, run-time checks, and conversions.

pub mod conversion;
pub mod eval;
pub mod hierarchy;
pub mod runtime;

pub use conversion::{ConversionInfo, ConversionKind, analyze_conversion};
pub use eval::{
    ConstraintError, ConstraintResult, all_satisfied, collect_violations, eval_int_constraint,
    eval_int_constraints, eval_string_constraint, eval_string_constraints,
    generate_boundary_test_cases,
};
pub use hierarchy::{check_constraint_compatibility, resolve_constraint_hierarchy};
pub use runtime::{RuntimeCheck, RuntimeCondition, constraint_to_runtime_condition, generate_runtime_checks};
