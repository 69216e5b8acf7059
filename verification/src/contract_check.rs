//! Non-vacuity checks for canonical metadata contracts.
//!
//! An empty `:assert`, `:case` or `:property`, an assertion or property
//! postcondition that is statically true, and a property precondition that is
//! statically false all check nothing; they are reported as errors rather
//! than counted as passing checks. "Statically" means decidable by a small
//! evaluator that folds boolean literals, `not`/`and`/`or`, comparisons of
//! integer literals, and `if`/`let`/`do`/`match` around them, giving up as
//! soon as an operator name could be shadowed by a local binding.

use vstd::prelude::*;
use crate::metadata_check::{DiagnosticView, MetadataDiagnostic, Severity, diagnostic_views};
use crate::syntax::{
    Decl, Expr, Literal, MatchArm, MetadataForm, MetadataFormKind, Pattern, Program, PropertyBinder,
    PropertyForm, Span, expr_span, literal_eq,
};
use crate::text::{owned, push_str, str_eq};

verus! {

/// What static evaluation knows of the names in scope: for each binding, in
/// order, its name and its value when that is statically known.
pub type StaticEnv = Seq<(Seq<char>, Option<bool>)>;

/// The value of the innermost binding of `name`, if it is statically known.
pub open spec fn lookup_binding(env: StaticEnv, name: Seq<char>) -> Option<bool>
    decreases env.len(),
{
    if env.len() == 0 {
        None
    } else if env.last().0 == name {
        env.last().1
    } else {
        lookup_binding(env.drop_last(), name)
    }
}

/// The operator names that static evaluation gives their built-in meaning.
pub open spec fn is_static_operator(name: Seq<char>) -> bool {
    ||| name == "not"@
    ||| name == "and"@
    ||| name == "or"@
    ||| name == "="@
    ||| name == "=="@
    ||| name == "!="@
    ||| name == "<"@
    ||| name == ">"@
    ||| name == "<="@
    ||| name == ">="@
}

/// Whether a pattern binds one of the operator names.
pub open spec fn pattern_shadows_operator(p: Pattern) -> bool
    decreases p,
{
    match p {
        Pattern::Var(_, name) => is_static_operator(name@),
        Pattern::Constructor(_, _, inner) => patterns_shadow_operator(inner@),
        Pattern::RecordPat(_, _, fields) => fields_shadow_operator(fields@),
        _ => false,
    }
}

pub open spec fn patterns_shadow_operator(ps: Seq<Pattern>) -> bool
    decreases ps,
{
    if ps.len() == 0 {
        false
    } else {
        pattern_shadows_operator(ps[0]) || patterns_shadow_operator(ps.drop_first())
    }
}

pub open spec fn fields_shadow_operator(fs: Seq<(String, Pattern)>) -> bool
    decreases fs,
{
    if fs.len() == 0 {
        false
    } else {
        pattern_shadows_operator(fs[0].1) || fields_shadow_operator(fs.drop_first())
    }
}

/// The environment after the names a pattern binds are pushed as unknown.
pub open spec fn shadow_pattern(p: Pattern, env: StaticEnv) -> StaticEnv
    decreases p,
{
    match p {
        Pattern::Var(_, name) => env.push((name@, None)),
        Pattern::Constructor(_, _, inner) => shadow_patterns(inner@, env),
        Pattern::RecordPat(_, _, fields) => shadow_fields(fields@, env),
        _ => env,
    }
}

pub open spec fn shadow_patterns(ps: Seq<Pattern>, env: StaticEnv) -> StaticEnv
    decreases ps,
{
    if ps.len() == 0 {
        env
    } else {
        shadow_patterns(ps.drop_first(), shadow_pattern(ps[0], env))
    }
}

pub open spec fn shadow_fields(fs: Seq<(String, Pattern)>, env: StaticEnv) -> StaticEnv
    decreases fs,
{
    if fs.len() == 0 {
        env
    } else {
        shadow_fields(fs.drop_first(), shadow_pattern(fs[0].1, env))
    }
}

/// The result of comparing two integer literals with a comparison operator.
pub open spec fn compare_ints(op: Seq<char>, l: i64, r: i64) -> Option<bool> {
    if op == "="@ || op == "=="@ {
        Some(l == r)
    } else if op == "!="@ {
        Some(l != r)
    } else if op == "<"@ {
        Some(l < r)
    } else if op == ">"@ {
        Some(l > r)
    } else if op == "<="@ {
        Some(l <= r)
    } else if op == ">="@ {
        Some(l >= r)
    } else {
        None
    }
}

/// A comparison operator applied to two integer literals.
pub open spec fn integer_comparison_app(e: Expr) -> Option<bool> {
    match e {
        Expr::App(_, callee, args) => match *callee {
            Expr::Var(_, op) => if args@.len() == 2 {
                match (args@[0], args@[1]) {
                    (Expr::Lit(_, Literal::Int(l)), Expr::Lit(_, Literal::Int(r))) => compare_ints(
                        op@,
                        l,
                        r,
                    ),
                    _ => None,
                }
            } else {
                None
            },
            _ => None,
        },
        _ => None,
    }
}

/// An integer comparison, possibly under type annotations.
pub open spec fn integer_comparison(e: Expr) -> Option<bool>
    decreases e,
{
    match e {
        Expr::Ann(_, inner, _) => integer_comparison(*inner),
        _ => integer_comparison_app(e),
    }
}

/// Whether two expressions have the same shape, looking through annotations.
pub open spec fn shape_equal(l: Expr, r: Expr) -> bool
    decreases l, r,
{
    match (l, r) {
        (Expr::Ann(_, li, _), _) => shape_equal(*li, r),
        (_, Expr::Ann(_, ri, _)) => shape_equal(l, *ri),
        (Expr::Lit(_, a), Expr::Lit(_, b)) => literal_eq(a, b),
        (Expr::Var(_, a), Expr::Var(_, b)) => a@ == b@,
        (Expr::App(_, lc, la), Expr::App(_, rc, ra)) => la@.len() == ra@.len() && shape_equal(*lc, *rc)
            && shapes_equal(la@, ra@),
        _ => false,
    }
}

pub open spec fn shapes_equal(ls: Seq<Expr>, rs: Seq<Expr>) -> bool
    decreases ls, rs,
{
    if ls.len() == 0 || rs.len() == 0 {
        true
    } else {
        shape_equal(ls[0], rs[0]) && shapes_equal(ls.drop_first(), rs.drop_first())
    }
}

/// Whether `candidate` is `(not operand)`.
pub open spec fn is_not_of(candidate: Expr, operand: Expr) -> bool {
    match candidate {
        Expr::App(_, callee, args) => match *callee {
            Expr::Var(_, op) => args@.len() == 1 && op@ == "not"@ && shape_equal(args@[0], operand),
            _ => false,
        },
        _ => false,
    }
}

/// Whether one expression is the negation of the other.
pub open spec fn is_negation_pair(l: Expr, r: Expr) -> bool {
    is_not_of(l, r) || is_not_of(r, l)
}

/// The common value of two statically known results, if they agree.
pub open spec fn agree(a: Option<bool>, b: Option<bool>) -> Option<bool> {
    match (a, b) {
        (Some(x), Some(y)) => if x == y { Some(x) } else { None },
        _ => None,
    }
}

pub open spec fn and_result(l: Option<bool>, r: Option<bool>) -> Option<bool> {
    if l == Some(false) || r == Some(false) {
        Some(false)
    } else if l == Some(true) {
        r
    } else if r == Some(true) {
        l
    } else {
        None
    }
}

pub open spec fn or_result(l: Option<bool>, r: Option<bool>) -> Option<bool> {
    if l == Some(true) || r == Some(true) {
        Some(true)
    } else if l == Some(false) {
        r
    } else if r == Some(false) {
        l
    } else {
        None
    }
}

/// The statically known boolean value of `e` under `env`, if any.
pub open spec fn static_value(e: Expr, env: StaticEnv) -> Option<bool>
    decreases e,
{
    match e {
        Expr::Ann(_, inner, _) => static_value(*inner, env),
        Expr::Lit(_, Literal::Bool(v)) => Some(v),
        Expr::Var(_, name) => lookup_binding(env, name@),
        Expr::If(_, c, t, f) => match static_value(*c, env) {
            Some(true) => static_value(*t, env),
            Some(false) => static_value(*f, env),
            None => match static_value(*t, env) {
                None => None,
                Some(tv) => agree(Some(tv), static_value(*f, env)),
            },
        },
        Expr::Let(_, bindings, body) => if bindings_shadow_operator(bindings@) {
            None
        } else {
            static_value(*body, let_scope(bindings@, env))
        },
        Expr::Do(_, exprs) => if exprs@.len() == 0 {
            None
        } else {
            static_value(exprs@.last(), env)
        },
        Expr::Match(_, _, arms) => if arms@.len() == 0 || arms_shadow_operator(arms@) {
            None
        } else {
            arms_value(arms@, env, None)
        },
        Expr::App(_, callee, args) => match *callee {
            Expr::Var(_, op) => if op@ == "not"@ {
                if args@.len() == 1 {
                    match static_value(args@[0], env) {
                        Some(v) => Some(!v),
                        None => None,
                    }
                } else {
                    integer_comparison(e)
                }
            } else if args@.len() == 2 {
                if op@ == "and"@ {
                    if is_negation_pair(args@[0], args@[1]) {
                        Some(false)
                    } else {
                        and_result(static_value(args@[0], env), static_value(args@[1], env))
                    }
                } else if op@ == "or"@ {
                    if is_negation_pair(args@[0], args@[1]) {
                        Some(true)
                    } else {
                        or_result(static_value(args@[0], env), static_value(args@[1], env))
                    }
                } else {
                    integer_comparison_app(e)
                }
            } else {
                integer_comparison(e)
            },
            _ => integer_comparison(e),
        },
        _ => integer_comparison(e),
    }
}

pub open spec fn bindings_shadow_operator(bs: Seq<(Pattern, Expr)>) -> bool
    decreases bs,
{
    if bs.len() == 0 {
        false
    } else {
        pattern_shadows_operator(bs[0].0) || bindings_shadow_operator(bs.drop_first())
    }
}

pub open spec fn arms_shadow_operator(arms: Seq<MatchArm>) -> bool
    decreases arms,
{
    if arms.len() == 0 {
        false
    } else {
        pattern_shadows_operator(arms[0].pattern) || arms_shadow_operator(arms.drop_first())
    }
}

/// The environment inside a `let` body: each variable binding is evaluated
/// in the scope of the earlier ones; other patterns make their names unknown.
pub open spec fn let_scope(bs: Seq<(Pattern, Expr)>, env: StaticEnv) -> StaticEnv
    decreases bs,
{
    if bs.len() == 0 {
        env
    } else {
        let next = match bs[0].0 {
            Pattern::Var(_, name) => env.push((name@, static_value(bs[0].1, env))),
            _ => shadow_pattern(bs[0].0, env),
        };
        let_scope(bs.drop_first(), next)
    }
}

/// The common value of all arm bodies (each with its pattern's names
/// unknown), given the value `settled` agreed so far.
pub open spec fn arms_value(arms: Seq<MatchArm>, env: StaticEnv, settled: Option<bool>) -> Option<bool>
    decreases arms,
{
    if arms.len() == 0 {
        settled
    } else {
        match static_value(arms[0].body, shadow_pattern(arms[0].pattern, env)) {
            None => None,
            Some(v) => match settled {
                None => arms_value(arms.drop_first(), env, Some(v)),
                Some(prev) => if prev == v {
                    arms_value(arms.drop_first(), env, settled)
                } else {
                    None
                },
            },
        }
    }
}

/// The statically known value of `e` with nothing in scope.
pub open spec fn static_boolean(e: Expr) -> Option<bool> {
    static_value(e, Seq::empty())
}


/// Whether `e` applies operator `op` to the integer literals `l` and `r`.
pub open spec fn is_literal_comparison(e: Expr, op: Seq<char>, l: i64, r: i64) -> bool {
    match e {
        Expr::App(_, callee, args) => {
            &&& (*callee matches Expr::Var(_, name) && name@ == op)
            &&& args@.len() == 2
            &&& (args@[0] matches Expr::Lit(_, Literal::Int(x)) && x == l)
            &&& (args@[1] matches Expr::Lit(_, Literal::Int(y)) && y == r)
        },
        _ => false,
    }
}

/// A comparison of two integer literals has the truth value of the
/// comparison of the two integers: `(<= 1 2)` is statically true, `(> 1 2)`
/// statically false, and so on for `=`, `==`, `!=`, `<`, `>`, `<=`, `>=`.
pub proof fn law_literal_comparisons_evaluate_to_their_truth(e: Expr, op: Seq<char>, l: i64, r: i64)
    requires
        is_literal_comparison(e, op, l, r),
    ensures
        op == "="@ ==> static_boolean(e) == Some(l == r),
        op == "=="@ ==> static_boolean(e) == Some(l == r),
        op == "!="@ ==> static_boolean(e) == Some(l != r),
        op == "<"@ ==> static_boolean(e) == Some(l < r),
        op == ">"@ ==> static_boolean(e) == Some(l > r),
        op == "<="@ ==> static_boolean(e) == Some(l <= r),
        op == ">="@ ==> static_boolean(e) == Some(l >= r),
{
    reveal_strlit("not");
    reveal_strlit("and");
    reveal_strlit("or");
    reveal_strlit("=");
    reveal_strlit("==");
    reveal_strlit("!=");
    reveal_strlit("<");
    reveal_strlit(">");
    reveal_strlit("<=");
    reveal_strlit(">=");
    assert("not"@.len() == 3 && "and"@.len() == 3 && "or"@.len() == 2 && "or"@[0] == 'o');
    if op == "="@ || op == "=="@ || op == "!="@ || op == "<"@ || op == ">"@ || op == "<="@ || op
        == ">="@ {
        assert(op.len() <= 2 && op[0] != 'o');
        assert(op != "not"@ && op != "and"@ && op != "or"@);
        assert(static_boolean(e) == integer_comparison_app(e));
    }
}

} // verus!

verus! {

/// The view of an executable environment.
pub open spec fn env_view(env: Seq<(String, Option<bool>)>) -> StaticEnv {
    env.map_values(|b: (String, Option<bool>)| (b.0@, b.1))
}

fn copy_env(env: &Vec<(String, Option<bool>)>) -> (r: Vec<(String, Option<bool>)>)
    ensures
        env_view(r@) == env_view(env@),
{
    let mut r: Vec<(String, Option<bool>)> = Vec::new();
    let mut i: usize = 0;
    while i < env.len()
        invariant
            i <= env@.len(),
            env_view(r@) == env_view(env@.subrange(0, i as int)),
        decreases env.len() - i,
    {
        let ghost before = r@;
        r.push((owned(env[i].0.as_str()), env[i].1));
        assert(env_view(r@) =~= env_view(before).push((env@[i as int].0@, env@[i as int].1)));
        assert(env_view(env@.subrange(0, i + 1)) =~= env_view(env@.subrange(0, i as int)).push(
            (env@[i as int].0@, env@[i as int].1),
        ));
        i = i + 1;
    }
    assert(env@.subrange(0, env@.len() as int) =~= env@);
    r
}

fn push_binding(env: &mut Vec<(String, Option<bool>)>, name: &str, value: Option<bool>)
    ensures
        env_view(final(env)@) == env_view(old(env)@).push((name@, value)),
{
    env.push((owned(name), value));
    assert(env_view(env@) =~= env_view(old(env)@).push((name@, value)));
}

fn lookup_static_binding(env: &Vec<(String, Option<bool>)>, name: &str) -> (r: Option<bool>)
    ensures
        r == lookup_binding(env_view(env@), name@),
{
    let mut i = env.len();
    assert(env@.subrange(0, env@.len() as int) =~= env@);
    while i > 0
        invariant
            i <= env@.len(),
            lookup_binding(env_view(env@), name@) == lookup_binding(
                env_view(env@.subrange(0, i as int)),
                name@,
            ),
        decreases i,
    {
        let ghost pre = env_view(env@.subrange(0, i as int));
        assert(pre.drop_last() =~= env_view(env@.subrange(0, i - 1)));
        if str_eq(env[i - 1].0.as_str(), name) {
            return env[i - 1].1;
        }
        i = i - 1;
    }
    assert(env_view(env@.subrange(0, 0)) =~= Seq::<(Seq<char>, Option<bool>)>::empty());
    None
}

fn is_static_operator_name(name: &str) -> (r: bool)
    ensures
        r == is_static_operator(name@),
{
    str_eq(name, "not") || str_eq(name, "and") || str_eq(name, "or") || str_eq(name, "=")
        || str_eq(name, "==") || str_eq(name, "!=") || str_eq(name, "<") || str_eq(name, ">")
        || str_eq(name, "<=") || str_eq(name, ">=")
}

#[verifier::loop_isolation(false)]
fn pattern_shadows_static_operator(p: &Pattern) -> (r: bool)
    ensures
        r == pattern_shadows_operator(*p),
    decreases p,
{
    match p {
        Pattern::Var(_, name) => is_static_operator_name(name.as_str()),
        Pattern::Constructor(_, _, inner) => {
            let mut i: usize = 0;
            assert(inner@.skip(0) =~= inner@);
            while i < inner.len()
                invariant
                    i <= inner@.len(),
                    patterns_shadow_operator(inner@) == patterns_shadow_operator(inner@.skip(i as int)),
                decreases inner.len() - i,
            {
                assert(inner@.skip(i as int).drop_first() =~= inner@.skip(i + 1));
                assert(inner@.skip(i as int)[0] == inner@[i as int]);
                if pattern_shadows_static_operator(&inner[i]) {
                    return true;
                }
                i = i + 1;
            }
            false
        },
        Pattern::RecordPat(_, _, fields) => {
            let mut i: usize = 0;
            assert(fields@.skip(0) =~= fields@);
            while i < fields.len()
                invariant
                    i <= fields@.len(),
                    fields_shadow_operator(fields@) == fields_shadow_operator(fields@.skip(i as int)),
                decreases fields.len() - i,
            {
                assert(fields@.skip(i as int).drop_first() =~= fields@.skip(i + 1));
                assert(fields@.skip(i as int)[0] == fields@[i as int]);
                if pattern_shadows_static_operator(&fields[i].1) {
                    return true;
                }
                i = i + 1;
            }
            false
        },
        _ => false,
    }
}

#[verifier::loop_isolation(false)]
fn shadow_pattern_bindings(p: &Pattern, env: &mut Vec<(String, Option<bool>)>)
    ensures
        env_view(final(env)@) == shadow_pattern(*p, env_view(old(env)@)),
    decreases p,
{
    match p {
        Pattern::Var(_, name) => push_binding(env, name.as_str(), None),
        Pattern::Constructor(_, _, inner) => {
            let ghost start = env_view(env@);
            let mut i: usize = 0;
            assert(inner@.skip(0) =~= inner@);
            while i < inner.len()
                invariant
                    i <= inner@.len(),
                    shadow_patterns(inner@, start) == shadow_patterns(inner@.skip(i as int), env_view(env@)),
                decreases inner.len() - i,
            {
                assert(inner@.skip(i as int).drop_first() =~= inner@.skip(i + 1));
                assert(inner@.skip(i as int)[0] == inner@[i as int]);
                shadow_pattern_bindings(&inner[i], env);
                i = i + 1;
            }
        },
        Pattern::RecordPat(_, _, fields) => {
            let ghost start = env_view(env@);
            let mut i: usize = 0;
            assert(fields@.skip(0) =~= fields@);
            while i < fields.len()
                invariant
                    i <= fields@.len(),
                    shadow_fields(fields@, start) == shadow_fields(fields@.skip(i as int), env_view(env@)),
                decreases fields.len() - i,
            {
                assert(fields@.skip(i as int).drop_first() =~= fields@.skip(i + 1));
                assert(fields@.skip(i as int)[0] == fields@[i as int]);
                shadow_pattern_bindings(&fields[i].1, env);
                i = i + 1;
            }
        },
        _ => {},
    }
}

fn compare_int_literals(op: &str, l: i64, r: i64) -> (res: Option<bool>)
    ensures
        res == compare_ints(op@, l, r),
{
    if str_eq(op, "=") || str_eq(op, "==") {
        Some(l == r)
    } else if str_eq(op, "!=") {
        Some(l != r)
    } else if str_eq(op, "<") {
        Some(l < r)
    } else if str_eq(op, ">") {
        Some(l > r)
    } else if str_eq(op, "<=") {
        Some(l <= r)
    } else if str_eq(op, ">=") {
        Some(l >= r)
    } else {
        None
    }
}

fn static_integer_comparison_result_app(e: &Expr) -> (r: Option<bool>)
    ensures
        r == integer_comparison_app(*e),
{
    match e {
        Expr::App(_, callee, args) => match &**callee {
            Expr::Var(_, op) => {
                if args.len() == 2 {
                    match (&args[0], &args[1]) {
                        (Expr::Lit(_, Literal::Int(l)), Expr::Lit(_, Literal::Int(r))) => {
                            compare_int_literals(op.as_str(), *l, *r)
                        },
                        _ => None,
                    }
                } else {
                    None
                }
            },
            _ => None,
        },
        _ => None,
    }
}

fn static_integer_comparison_result(e: &Expr) -> (r: Option<bool>)
    ensures
        r == integer_comparison(*e),
    decreases e,
{
    match e {
        Expr::Ann(_, inner, _) => static_integer_comparison_result(inner),
        _ => static_integer_comparison_result_app(e),
    }
}

fn literals_equal(a: &Literal, b: &Literal) -> (r: bool)
    ensures
        r == literal_eq(*a, *b),
{
    match (a, b) {
        (Literal::Int(x), Literal::Int(y)) => *x == *y,
        (Literal::Bool(x), Literal::Bool(y)) => *x == *y,
        (Literal::Str(x), Literal::Str(y)) => str_eq(x.as_str(), y.as_str()),
        _ => false,
    }
}

#[verifier::loop_isolation(false)]
fn expression_shape_equal(l: &Expr, r: &Expr) -> (res: bool)
    ensures
        res == shape_equal(*l, *r),
    decreases l, r,
{
    match (l, r) {
        (Expr::Ann(_, li, _), _) => expression_shape_equal(li, r),
        (_, Expr::Ann(_, ri, _)) => expression_shape_equal(l, ri),
        (Expr::Lit(_, a), Expr::Lit(_, b)) => literals_equal(a, b),
        (Expr::Var(_, a), Expr::Var(_, b)) => str_eq(a.as_str(), b.as_str()),
        (Expr::App(_, lc, la), Expr::App(_, rc, ra)) => {
            if la.len() != ra.len() {
                return false;
            }
            if !expression_shape_equal(lc, rc) {
                return false;
            }
            let mut i: usize = 0;
            assert(la@.skip(0) =~= la@);
            assert(ra@.skip(0) =~= ra@);
            while i < la.len()
                invariant
                    i <= la@.len(),
                    la@.len() == ra@.len(),
                    shapes_equal(la@, ra@) == shapes_equal(la@.skip(i as int), ra@.skip(i as int)),
                decreases la.len() - i,
            {
                assert(la@.skip(i as int).drop_first() =~= la@.skip(i + 1));
                assert(ra@.skip(i as int).drop_first() =~= ra@.skip(i + 1));
                assert(la@.skip(i as int)[0] == la@[i as int]);
                assert(ra@.skip(i as int)[0] == ra@[i as int]);
                if !expression_shape_equal(&la[i], &ra[i]) {
                    return false;
                }
                i = i + 1;
            }
            true
        },
        _ => false,
    }
}

fn is_not_of_exec(candidate: &Expr, operand: &Expr) -> (r: bool)
    ensures
        r == is_not_of(*candidate, *operand),
{
    match candidate {
        Expr::App(_, callee, args) => match &**callee {
            Expr::Var(_, op) => args.len() == 1 && str_eq(op.as_str(), "not")
                && expression_shape_equal(&args[0], operand),
            _ => false,
        },
        _ => false,
    }
}

fn is_boolean_negation_pair(l: &Expr, r: &Expr) -> (res: bool)
    ensures
        res == is_negation_pair(*l, *r),
{
    is_not_of_exec(l, r) || is_not_of_exec(r, l)
}

#[verifier::loop_isolation(false)]
fn static_boolean_result_in(e: &Expr, env: &Vec<(String, Option<bool>)>) -> (r: Option<bool>)
    ensures
        r == static_value(*e, env_view(env@)),
    decreases e,
{
    match e {
        Expr::Ann(_, inner, _) => static_boolean_result_in(inner, env),
        Expr::Lit(_, Literal::Bool(v)) => Some(*v),
        Expr::Var(_, name) => lookup_static_binding(env, name.as_str()),
        Expr::If(_, c, t, f) => match static_boolean_result_in(c, env) {
            Some(true) => static_boolean_result_in(t, env),
            Some(false) => static_boolean_result_in(f, env),
            None => match static_boolean_result_in(t, env) {
                None => None,
                Some(tv) => {
                    match static_boolean_result_in(f, env) {
                        Some(fv) => if tv == fv { Some(tv) } else { None },
                        None => None,
                    }
                },
            },
        },
        Expr::Let(_, bindings, body) => {
            let mut i: usize = 0;
            assert(bindings@.skip(0) =~= bindings@);
            while i < bindings.len()
                invariant
                    i <= bindings@.len(),
                    bindings_shadow_operator(bindings@) == bindings_shadow_operator(
                        bindings@.skip(i as int),
                    ),
                decreases bindings.len() - i,
            {
                assert(bindings@.skip(i as int).drop_first() =~= bindings@.skip(i + 1));
                assert(bindings@.skip(i as int)[0] == bindings@[i as int]);
                if pattern_shadows_static_operator(&bindings[i].0) {
                    return None;
                }
                i = i + 1;
            }
            let mut scoped = copy_env(env);
            let ghost start = env_view(env@);
            let mut k: usize = 0;
            while k < bindings.len()
                invariant
                    k <= bindings@.len(),
                    let_scope(bindings@, start) == let_scope(bindings@.skip(k as int), env_view(scoped@)),
                decreases bindings.len() - k,
            {
                assert(bindings@.skip(k as int).drop_first() =~= bindings@.skip(k + 1));
                assert(bindings@.skip(k as int)[0] == bindings@[k as int]);
                match &bindings[k].0 {
                    Pattern::Var(_, name) => {
                        let bound = static_boolean_result_in(&bindings[k].1, &scoped);
                        push_binding(&mut scoped, name.as_str(), bound);
                    },
                    other => shadow_pattern_bindings(other, &mut scoped),
                }
                k = k + 1;
            }
            static_boolean_result_in(body, &scoped)
        },
        Expr::Do(_, exprs) => {
            if exprs.len() == 0 {
                None
            } else {
                static_boolean_result_in(&exprs[exprs.len() - 1], env)
            }
        },
        Expr::Match(_, _, arms) => {
            if arms.len() == 0 {
                return None;
            }
            let mut i: usize = 0;
            assert(arms@.skip(0) =~= arms@);
            while i < arms.len()
                invariant
                    i <= arms@.len(),
                    arms_shadow_operator(arms@) == arms_shadow_operator(arms@.skip(i as int)),
                decreases arms.len() - i,
            {
                assert(arms@.skip(i as int).drop_first() =~= arms@.skip(i + 1));
                assert(arms@.skip(i as int)[0] == arms@[i as int]);
                if pattern_shadows_static_operator(&arms[i].pattern) {
                    return None;
                }
                i = i + 1;
            }
            let mut settled: Option<bool> = None;
            let mut k: usize = 0;
            while k < arms.len()
                invariant
                    k <= arms@.len(),
                    arms_value(arms@, env_view(env@), None) == arms_value(
                        arms@.skip(k as int),
                        env_view(env@),
                        settled,
                    ),
                decreases arms.len() - k,
            {
                assert(arms@.skip(k as int).drop_first() =~= arms@.skip(k + 1));
                assert(arms@.skip(k as int)[0] == arms@[k as int]);
                let mut scoped = copy_env(env);
                shadow_pattern_bindings(&arms[k].pattern, &mut scoped);
                let value = match static_boolean_result_in(&arms[k].body, &scoped) {
                    Some(v) => v,
                    None => {
                        return None;
                    },
                };
                match settled {
                    None => {
                        settled = Some(value);
                    },
                    Some(previous) => {
                        if previous != value {
                            return None;
                        }
                    },
                }
                k = k + 1;
            }
            settled
        },
        Expr::App(_, callee, args) => match &**callee {
            Expr::Var(_, op) => {
                if str_eq(op.as_str(), "not") {
                    if args.len() == 1 {
                        match static_boolean_result_in(&args[0], env) {
                            Some(v) => Some(!v),
                            None => None,
                        }
                    } else {
                        static_integer_comparison_result(e)
                    }
                } else if args.len() == 2 {
                    if str_eq(op.as_str(), "and") {
                        if is_boolean_negation_pair(&args[0], &args[1]) {
                            Some(false)
                        } else {
                            let left = static_boolean_result_in(&args[0], env);
                            let right = static_boolean_result_in(&args[1], env);
                            if left == Some(false) || right == Some(false) {
                                Some(false)
                            } else if left == Some(true) {
                                right
                            } else if right == Some(true) {
                                left
                            } else {
                                None
                            }
                        }
                    } else if str_eq(op.as_str(), "or") {
                        if is_boolean_negation_pair(&args[0], &args[1]) {
                            Some(true)
                        } else {
                            let left = static_boolean_result_in(&args[0], env);
                            let right = static_boolean_result_in(&args[1], env);
                            if left == Some(true) || right == Some(true) {
                                Some(true)
                            } else if left == Some(false) {
                                right
                            } else if right == Some(false) {
                                left
                            } else {
                                None
                            }
                        }
                    } else {
                        static_integer_comparison_result_app(e)
                    }
                } else {
                    static_integer_comparison_result(e)
                }
            },
            _ => static_integer_comparison_result(e),
        },
        _ => static_integer_comparison_result(e),
    }
}

/// The statically known boolean value of an expression, if any.
pub fn static_boolean_result(e: &Expr) -> (r: Option<bool>)
    ensures
        r == static_boolean(*e),
{
    let env: Vec<(String, Option<bool>)> = Vec::new();
    assert(env_view(env@) =~= Seq::<(Seq<char>, Option<bool>)>::empty());
    static_boolean_result_in(e, &env)
}

} // verus!

verus! {

/// Which canonical contract a non-vacuity check looks at.
#[derive(Clone, Copy)]
pub enum ContractForm {
    Assertion,
    Case,
    Property,
}

pub open spec fn empty_case_message() -> Seq<char> {
    ":case は少なくとも 1 件の expectation を必要とします"@
}

pub open spec fn empty_assert_message() -> Seq<char> {
    ":assert は少なくとも 1 件の predicate を必要とします"@
}

pub open spec fn vacuous_assert_message() -> Seq<char> {
    ":assert predicate は静的に true で検査を識別できず vacuous です"@
}

pub open spec fn empty_property_message() -> Seq<char> {
    ":property は少なくとも 1 件の for-all を必要とします"@
}

pub open spec fn reserved_binder_message() -> Seq<char> {
    ":property binder の result は予約名のため使用できません"@
}

pub open spec fn duplicate_binder_message(name: Seq<char>) -> Seq<char> {
    ":property binder 名 '"@ + name + "' は重複しています"@
}

pub open spec fn no_binder_message() -> Seq<char> {
    ":property は少なくとも 1 件の typed binder を必要とします"@
}

pub open spec fn zero_cases_message() -> Seq<char> {
    ":property の case count は 1 以上を必要とします"@
}

pub open spec fn vacuous_precondition_message() -> Seq<char> {
    ":property の precondition は到達不能で vacuous です"@
}

pub open spec fn vacuous_postcondition_message() -> Seq<char> {
    ":property の postcondition は検査を識別できず vacuous です"@
}

/// An error diagnostic.
pub open spec fn error_at(message: Seq<char>, span: Span, owner: Seq<char>) -> DiagnosticView {
    DiagnosticView { severity: Severity::Error, message, span, function_name: owner }
}

/// One error diagnostic when `cond` holds, else none.
pub open spec fn error_if(cond: bool, message: Seq<char>, span: Span, owner: Seq<char>) -> Seq<DiagnosticView> {
    if cond { seq![error_at(message, span, owner)] } else { Seq::empty() }
}

/// Whether an expression is the literal `true`.
pub open spec fn is_true_literal(e: Expr) -> bool {
    e matches Expr::Lit(_, Literal::Bool(true))
}

/// Diagnostics for the predicates of a non-empty `:assert`.
pub open spec fn predicate_diagnostics(ps: Seq<Expr>, owner: Seq<char>) -> Seq<DiagnosticView>
    decreases ps.len(),
{
    if ps.len() == 0 {
        Seq::empty()
    } else {
        predicate_diagnostics(ps.drop_last(), owner) + error_if(
            is_true_literal(ps.last()) || static_boolean(ps.last()) == Some(true),
            vacuous_assert_message(),
            expr_span(ps.last()),
            owner,
        )
    }
}

/// Diagnostics for the binders of a property, with duplicates and the
/// reserved name `result` reported at the binder.
pub open spec fn binder_diagnostics(bs: Seq<PropertyBinder>, owner: Seq<char>) -> Seq<DiagnosticView>
    decreases bs.len(),
{
    if bs.len() == 0 {
        Seq::empty()
    } else {
        let b = bs.last();
        let earlier = bs.drop_last();
        binder_diagnostics(earlier, owner) + if b.name@ == "result"@ {
            seq![error_at(reserved_binder_message(), b.span, owner)]
        } else if exists|j: int| 0 <= j < earlier.len() && (#[trigger] earlier[j]).name@ == b.name@ {
            seq![error_at(duplicate_binder_message(b.name@), b.span, owner)]
        } else {
            Seq::empty()
        }
    }
}

/// Diagnostics for the preconditions of a property.
pub open spec fn precondition_diagnostics(ps: Seq<Expr>, owner: Seq<char>) -> Seq<DiagnosticView>
    decreases ps.len(),
{
    if ps.len() == 0 {
        Seq::empty()
    } else {
        precondition_diagnostics(ps.drop_last(), owner) + error_if(
            static_boolean(ps.last()) == Some(false),
            vacuous_precondition_message(),
            expr_span(ps.last()),
            owner,
        )
    }
}

/// Diagnostics for one property.
pub open spec fn property_diagnostics(p: PropertyForm, owner: Seq<char>) -> Seq<DiagnosticView> {
    binder_diagnostics(p.binders@, owner)
        + error_if(p.binders@.len() == 0, no_binder_message(), p.span, owner)
        + error_if(p.cases == Some(0usize), zero_cases_message(), p.span, owner)
        + precondition_diagnostics(p.preconditions@, owner)
        + error_if(
            is_true_literal(p.postcondition) || static_boolean(p.postcondition) == Some(true),
            vacuous_postcondition_message(),
            expr_span(p.postcondition),
            owner,
        )
}

/// Diagnostics for the properties of a `:property` form.
pub open spec fn properties_diagnostics(ps: Seq<PropertyForm>, owner: Seq<char>) -> Seq<DiagnosticView>
    decreases ps.len(),
{
    if ps.len() == 0 {
        Seq::empty()
    } else {
        properties_diagnostics(ps.drop_last(), owner) + property_diagnostics(ps.last(), owner)
    }
}

/// Diagnostics for one metadata form under the given check.
pub open spec fn form_diagnostics(check: ContractForm, form: MetadataForm, owner: Seq<char>) -> Seq<DiagnosticView> {
    match (check, form.kind) {
        (ContractForm::Case, MetadataFormKind::Case { expectations }) => error_if(
            expectations@.len() == 0,
            empty_case_message(),
            form.span,
            owner,
        ),
        (ContractForm::Assertion, MetadataFormKind::Assertion { predicates }) => if predicates@.len()
            == 0 {
            seq![error_at(empty_assert_message(), form.span, owner)]
        } else {
            predicate_diagnostics(predicates@, owner)
        },
        (ContractForm::Property, MetadataFormKind::Property { properties }) => error_if(
            properties@.len() == 0,
            empty_property_message(),
            form.span,
            owner,
        ) + properties_diagnostics(properties@, owner),
        _ => Seq::empty(),
    }
}

/// Diagnostics for the metadata forms of one function.
pub open spec fn forms_diagnostics(check: ContractForm, forms: Seq<MetadataForm>, owner: Seq<char>) -> Seq<DiagnosticView>
    decreases forms.len(),
{
    if forms.len() == 0 {
        Seq::empty()
    } else {
        forms_diagnostics(check, forms.drop_last(), owner) + form_diagnostics(check, forms.last(), owner)
    }
}

/// A name qualified by its module path.
pub open spec fn qualified_name(prefix: Option<Seq<char>>, name: Seq<char>) -> Seq<char> {
    match prefix {
        Some(outer) => outer + "."@ + name,
        None => name,
    }
}

/// Diagnostics for a declaration, nested modules included.
pub open spec fn decl_diagnostics(check: ContractForm, d: Decl, prefix: Option<Seq<char>>) -> Seq<DiagnosticView>
    decreases d,
{
    match d {
        Decl::Private { inner, .. } => decl_diagnostics(check, *inner, prefix),
        Decl::ModuleDecl { name, body, .. } => decls_diagnostics(
            check,
            body@,
            Some(qualified_name(prefix, name@)),
        ),
        Decl::Defn { name, metadata: Some(m), .. } => forms_diagnostics(
            check,
            m.forms@,
            qualified_name(prefix, name@),
        ),
        _ => Seq::empty(),
    }
}

/// Diagnostics for a list of declarations, in order.
pub open spec fn decls_diagnostics(check: ContractForm, ds: Seq<Decl>, prefix: Option<Seq<char>>) -> Seq<DiagnosticView>
    decreases ds,
{
    if ds.len() == 0 {
        Seq::empty()
    } else {
        decl_diagnostics(check, ds[0], prefix) + decls_diagnostics(check, ds.drop_first(), prefix)
    }
}

} // verus!

verus! {

fn push_error(diags: &mut Vec<MetadataDiagnostic>, message: String, span: Span, owner: &str)
    ensures
        diagnostic_views(final(diags)@) == diagnostic_views(old(diags)@).push(
            error_at(message@, span, owner@),
        ),
{
    let ghost m = message@;
    diags.push(MetadataDiagnostic { severity: Severity::Error, message, span, function_name: owned(owner) });
    assert(diagnostic_views(diags@) =~= diagnostic_views(old(diags)@).push(error_at(m, span, owner@)));
}

fn is_true_literal_exec(e: &Expr) -> (r: bool)
    ensures
        r == is_true_literal(*e),
{
    match e {
        Expr::Lit(_, Literal::Bool(true)) => true,
        _ => false,
    }
}

fn check_predicates(ps: &Vec<Expr>, owner: &str, diags: &mut Vec<MetadataDiagnostic>)
    ensures
        diagnostic_views(final(diags)@) == diagnostic_views(old(diags)@) + predicate_diagnostics(
            ps@,
            owner@,
        ),
{
    let ghost start = diagnostic_views(diags@);
    let mut i: usize = 0;
    while i < ps.len()
        invariant
            i <= ps@.len(),
            diagnostic_views(diags@) == start + predicate_diagnostics(ps@.subrange(0, i as int), owner@),
        decreases ps.len() - i,
    {
        let ghost before = diagnostic_views(diags@);
        assert(ps@.subrange(0, i + 1).drop_last() =~= ps@.subrange(0, i as int));
        let p = &ps[i];
        if is_true_literal_exec(p) || static_boolean_result(p) == Some(true) {
            push_error(diags, owned(":assert predicate は静的に true で検査を識別できず vacuous です"), p.span(), owner);
        }
        assert(diagnostic_views(diags@) =~= start + predicate_diagnostics(ps@.subrange(0, i + 1), owner@));
        i = i + 1;
    }
    assert(ps@.subrange(0, ps@.len() as int) =~= ps@);
}

fn check_preconditions(ps: &[Expr], owner: &str, diags: &mut Vec<MetadataDiagnostic>)
    ensures
        diagnostic_views(final(diags)@) == diagnostic_views(old(diags)@) + precondition_diagnostics(
            ps@,
            owner@,
        ),
{
    let ghost start = diagnostic_views(diags@);
    let mut i: usize = 0;
    while i < ps.len()
        invariant
            i <= ps@.len(),
            diagnostic_views(diags@) == start + precondition_diagnostics(ps@.subrange(0, i as int), owner@),
        decreases ps.len() - i,
    {
        assert(ps@.subrange(0, i + 1).drop_last() =~= ps@.subrange(0, i as int));
        let p = &ps[i];
        if static_boolean_result(p) == Some(false) {
            push_error(diags, owned(":property の precondition は到達不能で vacuous です"), p.span(), owner);
        }
        assert(diagnostic_views(diags@) =~= start + precondition_diagnostics(ps@.subrange(0, i + 1), owner@));
        i = i + 1;
    }
    assert(ps@.subrange(0, ps@.len() as int) =~= ps@);
}

fn duplicate_message(name: &str) -> (m: String)
    ensures
        m@ == duplicate_binder_message(name@),
{
    let mut m = String::new();
    push_str(&mut m, ":property binder 名 '");
    push_str(&mut m, name);
    push_str(&mut m, "' は重複しています");
    assert(m@ =~= duplicate_binder_message(name@));
    m
}

fn check_binders(bs: &[PropertyBinder], owner: &str, diags: &mut Vec<MetadataDiagnostic>)
    ensures
        diagnostic_views(final(diags)@) == diagnostic_views(old(diags)@) + binder_diagnostics(
            bs@,
            owner@,
        ),
{
    let ghost start = diagnostic_views(diags@);
    let mut i: usize = 0;
    while i < bs.len()
        invariant
            i <= bs@.len(),
            diagnostic_views(diags@) == start + binder_diagnostics(bs@.subrange(0, i as int), owner@),
        decreases bs.len() - i,
    {
        let ghost earlier = bs@.subrange(0, i as int);
        assert(bs@.subrange(0, i + 1).drop_last() =~= earlier);
        assert(bs@.subrange(0, i + 1).last() == bs@[i as int]);
        let b = &bs[i];
        if str_eq(b.name(), "result") {
            push_error(diags, owned(":property binder の result は予約名のため使用できません"), b.source_span(), owner);
        } else {
            let mut j: usize = 0;
            let mut duplicate = false;
            while j < i
                invariant
                    j <= i < bs@.len(),
                    earlier == bs@.subrange(0, i as int),
                    *b == bs@[i as int],
                    duplicate == exists|k: int| 0 <= k < j && (#[trigger] earlier[k]).name@ == bs@[i as int].name@,
                decreases i - j,
            {
                if str_eq(bs[j].name(), b.name()) {
                    assert(earlier[j as int] == bs@[j as int]);
                    duplicate = true;
                }
                j = j + 1;
            }
            if duplicate {
                push_error(diags, duplicate_message(b.name()), b.source_span(), owner);
            }
        }
        assert(diagnostic_views(diags@) =~= start + binder_diagnostics(bs@.subrange(0, i + 1), owner@));
        i = i + 1;
    }
    assert(bs@.subrange(0, bs@.len() as int) =~= bs@);
}

fn check_property(p: &PropertyForm, owner: &str, diags: &mut Vec<MetadataDiagnostic>)
    ensures
        diagnostic_views(final(diags)@) == diagnostic_views(old(diags)@) + property_diagnostics(
            *p,
            owner@,
        ),
{
    let ghost start = diagnostic_views(diags@);
    check_binders(p.binders(), owner, diags);
    if p.binders().len() == 0 {
        push_error(diags, owned(":property は少なくとも 1 件の typed binder を必要とします"), p.source_span(), owner);
    }
    if p.cases() == Some(0usize) {
        push_error(diags, owned(":property の case count は 1 以上を必要とします"), p.source_span(), owner);
    }
    check_preconditions(p.preconditions(), owner, diags);
    let post = p.postcondition();
    if is_true_literal_exec(post) || static_boolean_result(post) == Some(true) {
        push_error(diags, owned(":property の postcondition は検査を識別できず vacuous です"), post.span(), owner);
    }
    assert(diagnostic_views(diags@) =~= start + property_diagnostics(*p, owner@));
}

fn check_form(check: ContractForm, form: &MetadataForm, owner: &str, diags: &mut Vec<MetadataDiagnostic>)
    ensures
        diagnostic_views(final(diags)@) == diagnostic_views(old(diags)@) + form_diagnostics(
            check,
            *form,
            owner@,
        ),
{
    let ghost start = diagnostic_views(diags@);
    match (check, &form.kind) {
        (ContractForm::Case, MetadataFormKind::Case { expectations }) => {
            if expectations.len() == 0 {
                push_error(diags, owned(":case は少なくとも 1 件の expectation を必要とします"), form.span(), owner);
            }
        },
        (ContractForm::Assertion, MetadataFormKind::Assertion { predicates }) => {
            if predicates.len() == 0 {
                push_error(diags, owned(":assert は少なくとも 1 件の predicate を必要とします"), form.span(), owner);
            } else {
                check_predicates(predicates, owner, diags);
            }
        },
        (ContractForm::Property, MetadataFormKind::Property { properties }) => {
            if properties.len() == 0 {
                push_error(diags, owned(":property は少なくとも 1 件の for-all を必要とします"), form.span(), owner);
            }
            let ghost mid = diagnostic_views(diags@);
            let mut i: usize = 0;
            while i < properties.len()
                invariant
                    i <= properties@.len(),
                    diagnostic_views(diags@) == mid + properties_diagnostics(properties@.subrange(0, i as int), owner@),
                decreases properties.len() - i,
            {
                assert(properties@.subrange(0, i + 1).drop_last() =~= properties@.subrange(0, i as int));
                check_property(&properties[i], owner, diags);
                i = i + 1;
            }
            assert(properties@.subrange(0, properties@.len() as int) =~= properties@);
        },
        _ => {},
    }
    assert(diagnostic_views(diags@) =~= start + form_diagnostics(check, *form, owner@));
}

fn qualify(prefix: Option<&str>, name: &str) -> (r: String)
    ensures
        r@ == qualified_name(
            match prefix {
                Some(p) => Some(p@),
                None => None,
            },
            name@,
        ),
{
    match prefix {
        Some(outer) => {
            let mut s = owned(outer);
            push_str(&mut s, ".");
            push_str(&mut s, name);
            s
        },
        None => owned(name),
    }
}

#[verifier::loop_isolation(false)]
fn collect_non_vacuity(
    check: ContractForm,
    decl: &Decl,
    prefix: Option<&str>,
    diags: &mut Vec<MetadataDiagnostic>,
)
    ensures
        diagnostic_views(final(diags)@) == diagnostic_views(old(diags)@) + decl_diagnostics(
            check,
            *decl,
            match prefix {
                Some(p) => Some(p@),
                None => None,
            },
        ),
    decreases decl,
{
    let ghost start = diagnostic_views(diags@);
    match decl {
        Decl::Private { inner, .. } => {
            collect_non_vacuity(check, inner, prefix, diags);
        },
        Decl::ModuleDecl { name, body, .. } => {
            let module_prefix = qualify(prefix, name.as_str());
            let ghost mp = Some(module_prefix@);
            let mut i: usize = 0;
            assert(body@.skip(0) =~= body@);
            assert(start + decls_diagnostics(check, body@, mp) =~= start + decls_diagnostics(check, body@, mp));
            while i < body.len()
                invariant
                    i <= body@.len(),
                    mp == Some(module_prefix@),
                    diagnostic_views(diags@) + decls_diagnostics(check, body@.skip(i as int), mp)
                        == start + decls_diagnostics(check, body@, mp),
                decreases body.len() - i,
            {
                let ghost before = diagnostic_views(diags@);
                assert(body@.skip(i as int).drop_first() =~= body@.skip(i + 1));
                assert(body@.skip(i as int)[0] == body@[i as int]);
                collect_non_vacuity(check, &body[i], Some(module_prefix.as_str()), diags);
                assert(diagnostic_views(diags@) + decls_diagnostics(check, body@.skip(i + 1), mp)
                    =~= before + decls_diagnostics(check, body@.skip(i as int), mp));
                i = i + 1;
            }
            assert(decls_diagnostics(check, body@.skip(body@.len() as int), mp) =~= Seq::<DiagnosticView>::empty());
            assert(diagnostic_views(diags@) =~= diagnostic_views(diags@) + Seq::<DiagnosticView>::empty());
        },
        Decl::Defn { name, metadata: Some(metadata), .. } => {
            let owner = qualify(prefix, name.as_str());
            let mut i: usize = 0;
            while i < metadata.forms.len()
                invariant
                    i <= metadata.forms@.len(),
                    diagnostic_views(diags@) == start + forms_diagnostics(check, metadata.forms@.subrange(0, i as int), owner@),
                decreases metadata.forms.len() - i,
            {
                assert(metadata.forms@.subrange(0, i + 1).drop_last() =~= metadata.forms@.subrange(0, i as int));
                check_form(check, &metadata.forms[i], owner.as_str(), diags);
                assert(diagnostic_views(diags@) =~= start + forms_diagnostics(check, metadata.forms@.subrange(0, i + 1), owner@));
                i = i + 1;
            }
            assert(metadata.forms@.subrange(0, metadata.forms@.len() as int) =~= metadata.forms@);
        },
        _ => {
            assert(diagnostic_views(diags@) =~= start + Seq::<DiagnosticView>::empty());
        },
    }
}

fn collect_program(check: ContractForm, program: &Program) -> (r: Vec<MetadataDiagnostic>)
    ensures
        diagnostic_views(r@) == decls_diagnostics(check, program.decls@, None),
{
    let mut diags: Vec<MetadataDiagnostic> = Vec::new();
    let mut i: usize = 0;
    assert(program.decls@.skip(0) =~= program.decls@);
    assert(diagnostic_views(diags@) =~= Seq::<DiagnosticView>::empty());
    while i < program.decls.len()
        invariant
            i <= program.decls@.len(),
            diagnostic_views(diags@) + decls_diagnostics(check, program.decls@.skip(i as int), None)
                == decls_diagnostics(check, program.decls@, None),
        decreases program.decls.len() - i,
    {
        let ghost before = diagnostic_views(diags@);
        assert(program.decls@.skip(i as int).drop_first() =~= program.decls@.skip(i + 1));
        assert(program.decls@.skip(i as int)[0] == program.decls@[i as int]);
        collect_non_vacuity(check, &program.decls[i], None, &mut diags);
        assert(diagnostic_views(diags@) + decls_diagnostics(check, program.decls@.skip(i + 1), None)
            =~= before + decls_diagnostics(check, program.decls@.skip(i as int), None));
        i = i + 1;
    }
    assert(decls_diagnostics(check, program.decls@.skip(program.decls@.len() as int), None) =~= Seq::<DiagnosticView>::empty());
    assert(diagnostic_views(diags@) =~= diagnostic_views(diags@) + Seq::<DiagnosticView>::empty());
    diags
}

/// Reports empty canonical `:assert` forms and assertion predicates that are
/// statically true, instead of counting them as passing checks.
pub fn check_assertion_non_vacuity(program: &Program) -> (r: Vec<MetadataDiagnostic>)
    ensures
        diagnostic_views(r@) == decls_diagnostics(ContractForm::Assertion, program.decls@, None),
{
    collect_program(ContractForm::Assertion, program)
}

/// Reports empty canonical `:case` forms, instead of counting them as zero passing tests.
pub fn check_case_non_vacuity(program: &Program) -> (r: Vec<MetadataDiagnostic>)
    ensures
        diagnostic_views(r@) == decls_diagnostics(ContractForm::Case, program.decls@, None),
{
    collect_program(ContractForm::Case, program)
}

/// Reports empty canonical `:property` forms and properties that cannot
/// distinguish anything: no binders, the reserved or a repeated binder name,
/// zero cases, a statically false precondition or a statically true postcondition.
pub fn check_property_non_vacuity(program: &Program) -> (r: Vec<MetadataDiagnostic>)
    ensures
        diagnostic_views(r@) == decls_diagnostics(ContractForm::Property, program.decls@, None),
{
    collect_program(ContractForm::Property, program)
}

} // verus!
