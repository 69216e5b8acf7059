//! Type inference: its errors and their public diagnostic codes, the kind
//! check between a trait and the type that implements it, the occurs check
//! and variable binding of unification, and the generalization and
//! instantiation of type schemes.

use vstd::prelude::*;
use crate::syntax::Span;
use crate::text::owned;
use crate::types::{Kind, Type};
use crate::infer::builtin_env::TypeScheme;

pub mod builtin_env;

verus! {

/// The finer classification of a type mismatch (`E0001` style).
#[derive(Debug, Clone, Copy, PartialEq, Eq, Structural)]
pub enum TypeErrorCode {
    /// `E0002`: an `if` condition is not `Bool`.
    IfCondition,
    /// `E0003`: the branches of an `if` disagree.
    IfBranch,
    /// `E0004`: a function argument has the wrong type.
    ArgMismatch,
    /// `E0006`: any other mismatch.
    General,
}

/// The `E0001`-style text of a mismatch classification.
pub open spec fn type_error_code_text(code: TypeErrorCode) -> Seq<char> {
    match code {
        TypeErrorCode::IfCondition => "E0002"@,
        TypeErrorCode::IfBranch => "E0003"@,
        TypeErrorCode::ArgMismatch => "E0004"@,
        TypeErrorCode::General => "E0006"@,
    }
}

impl TypeErrorCode {
    /// The `E0001`-style text of this classification.
    pub fn as_str(&self) -> (s: &'static str)
        ensures
            s@ == type_error_code_text(*self),
    {
        match self {
            TypeErrorCode::IfCondition => "E0002",
            TypeErrorCode::IfBranch => "E0003",
            TypeErrorCode::ArgMismatch => "E0004",
            TypeErrorCode::General => "E0006",
        }
    }
}

/// A type-inference error.
#[derive(Debug)]
pub enum TypeError {
    /// Two types that must agree do not.
    Mismatch { expected: Type, found: Type, span: Span, error_code: TypeErrorCode },
    /// A type variable occurs in the type it would be bound to.
    InfiniteType { var: u64, ty: Type, span: Span },
    /// An unbound variable.
    UndefinedVar { name: String, span: Span },
    /// An unknown constructor.
    UndefinedConstructor { name: String, span: Span },
    /// A call with the wrong number of arguments.
    ArityMismatch { expected: usize, found: usize, span: Span },
    /// An unknown record type.
    UndefinedRecord { name: String, span: Span },
    /// An unknown record field.
    UndefinedField { record_name: String, field_name: String, span: Span },
    /// A type alias that refers to itself.
    RecursiveAlias { name: String, span: Span },
    /// An unknown type alias.
    UndefinedAlias { name: String, span: Span },
    /// An unknown trait.
    UndefinedTrait { name: String, span: Span },
    /// No implementation of a trait for a type.
    MissingImpl { trait_name: String, ty_name: String, span: Span },
    /// A mismatch where one side came from expanding an alias.
    MismatchWithAlias {
        expected: Type,
        found: Type,
        alias_name: String,
        expanded: Type,
        span: Span,
        error_code: TypeErrorCode,
    },
    /// A type whose kind does not fit the trait.
    KindMismatch {
        ty_name: String,
        trait_name: String,
        expected_kind: Kind,
        actual_kind: Kind,
        span: Span,
    },
}

/// The public diagnostic code of a type error.
pub open spec fn type_error_code(e: TypeError) -> Seq<char> {
    match e {
        TypeError::Mismatch { error_code, .. } | TypeError::MismatchWithAlias { error_code, .. } => {
            match error_code {
                TypeErrorCode::ArgMismatch => "LS1004"@,
                _ => "LS1002"@,
            }
        },
        TypeError::InfiniteType { .. } => "LS1003"@,
        TypeError::UndefinedVar { .. } => "LS1001"@,
        TypeError::UndefinedConstructor { .. } => "LS1005"@,
        TypeError::ArityMismatch { .. } => "LS1004"@,
        TypeError::UndefinedRecord { .. } => "LS1006"@,
        TypeError::UndefinedField { .. } => "LS1007"@,
        TypeError::RecursiveAlias { .. } => "LS1008"@,
        TypeError::UndefinedAlias { .. } => "LS1009"@,
        TypeError::UndefinedTrait { .. } => "LS1010"@,
        TypeError::MissingImpl { .. } => "LS1011"@,
        TypeError::KindMismatch { .. } => "LS1013"@,
    }
}

/// The source span a type error points at.
pub open spec fn type_error_span(e: TypeError) -> Span {
    match e {
        TypeError::Mismatch { span, .. } => span,
        TypeError::InfiniteType { span, .. } => span,
        TypeError::UndefinedVar { span, .. } => span,
        TypeError::UndefinedConstructor { span, .. } => span,
        TypeError::ArityMismatch { span, .. } => span,
        TypeError::UndefinedRecord { span, .. } => span,
        TypeError::UndefinedField { span, .. } => span,
        TypeError::RecursiveAlias { span, .. } => span,
        TypeError::UndefinedAlias { span, .. } => span,
        TypeError::UndefinedTrait { span, .. } => span,
        TypeError::MissingImpl { span, .. } => span,
        TypeError::MismatchWithAlias { span, .. } => span,
        TypeError::KindMismatch { span, .. } => span,
    }
}

impl TypeError {
    /// The public diagnostic code of this error.
    pub fn code(&self) -> (s: &'static str)
        ensures
            s@ == type_error_code(*self),
    {
        match self {
            TypeError::Mismatch { error_code, .. } | TypeError::MismatchWithAlias {
                error_code,
                ..
            } => {
                match error_code {
                    TypeErrorCode::IfCondition | TypeErrorCode::IfBranch
                    | TypeErrorCode::General => "LS1002",
                    TypeErrorCode::ArgMismatch => "LS1004",
                }
            },
            TypeError::InfiniteType { .. } => "LS1003",
            TypeError::UndefinedVar { .. } => "LS1001",
            TypeError::UndefinedConstructor { .. } => "LS1005",
            TypeError::ArityMismatch { .. } => "LS1004",
            TypeError::UndefinedRecord { .. } => "LS1006",
            TypeError::UndefinedField { .. } => "LS1007",
            TypeError::RecursiveAlias { .. } => "LS1008",
            TypeError::UndefinedAlias { .. } => "LS1009",
            TypeError::UndefinedTrait { .. } => "LS1010",
            TypeError::MissingImpl { .. } => "LS1011",
            TypeError::KindMismatch { .. } => "LS1013",
        }
    }

    /// The source span this error points at; every type error has one.
    pub fn span(&self) -> (r: Option<Span>)
        ensures
            r == Some(type_error_span(*self)),
    {
        match self {
            TypeError::Mismatch { span, .. } => Some(*span),
            TypeError::InfiniteType { span, .. } => Some(*span),
            TypeError::UndefinedVar { span, .. } => Some(*span),
            TypeError::UndefinedConstructor { span, .. } => Some(*span),
            TypeError::ArityMismatch { span, .. } => Some(*span),
            TypeError::UndefinedRecord { span, .. } => Some(*span),
            TypeError::UndefinedField { span, .. } => Some(*span),
            TypeError::RecursiveAlias { span, .. } => Some(*span),
            TypeError::UndefinedAlias { span, .. } => Some(*span),
            TypeError::UndefinedTrait { span, .. } => Some(*span),
            TypeError::MissingImpl { span, .. } => Some(*span),
            TypeError::MismatchWithAlias { span, .. } => Some(*span),
            TypeError::KindMismatch { span, .. } => Some(*span),
        }
    }
}

/// Whether two kinds are equal.
fn kind_eq(a: &Kind, b: &Kind) -> (r: bool)
    ensures
        r == (*a == *b),
    decreases a,
{
    match (a, b) {
        (Kind::Star, Kind::Star) => true,
        (Kind::Arrow(a1, a2), Kind::Arrow(b1, b2)) => kind_eq(a1, b1) && kind_eq(a2, b2),
        _ => false,
    }
}

/// Whether a trait of kind `trait_kind` can be implemented by a type of kind
/// `type_kind`: both are `*`, or both are the same arrow kind.
pub open spec fn kinds_compatible_spec(trait_kind: Kind, type_kind: Kind) -> bool {
    match (trait_kind, type_kind) {
        (Kind::Star, Kind::Star) => true,
        (Kind::Arrow(_, _), Kind::Arrow(_, _)) => trait_kind == type_kind,
        _ => false,
    }
}

/// Whether a trait of kind `trait_kind` can be implemented by a type of kind
/// `type_kind`.
pub fn kinds_compatible(trait_kind: &Kind, type_kind: &Kind) -> (r: bool)
    ensures
        r == kinds_compatible_spec(*trait_kind, *type_kind),
{
    match (trait_kind, type_kind) {
        (Kind::Star, Kind::Star) => true,
        (Kind::Arrow(_, _), Kind::Arrow(_, _)) => kind_eq(trait_kind, type_kind),
        _ => false,
    }
}

/// Whether type variable `v` occurs in `t`.
pub open spec fn occurs(v: u64, t: Type) -> bool
    decreases t,
{
    match t {
        Type::Con(_) => false,
        Type::Var(id) => id == v,
        Type::Fun(ps, r) => (exists|i: int| 0 <= i < ps@.len() && occurs(v, #[trigger] ps@[i]))
            || occurs(v, *r),
        Type::App(_, args) => exists|i: int| 0 <= i < args@.len() && occurs(v, #[trigger] args@[i]),
        Type::Record(_, fields) => exists|i: int|
            0 <= i < fields@.len() && occurs(v, #[trigger] fields@[i].1),
    }
}

/// Whether type variable `var` occurs in `ty`: the occurs check that keeps
/// unification from binding a variable to a type that contains it.
#[verifier::loop_isolation(false)]
pub fn occurs_in(var: u64, ty: &Type) -> (r: bool)
    ensures
        r == occurs(var, *ty),
    decreases ty,
{
    match ty {
        Type::Con(_) => false,
        Type::Var(id) => *id == var,
        Type::Fun(ps, ret) => {
            let mut i: usize = 0;
            while i < ps.len()
                invariant
                    i <= ps@.len(),
                    forall|k: int| 0 <= k < i ==> !occurs(var, #[trigger] ps@[k]),
                decreases ps.len() - i,
            {
                proof {
                    assert(decreases_to!(*ty => ps@[i as int]));
                }
                if occurs_in(var, &ps[i]) {
                    return true;
                }
                i = i + 1;
            }
            occurs_in(var, ret)
        },
        Type::App(_, args) => {
            let mut i: usize = 0;
            while i < args.len()
                invariant
                    i <= args@.len(),
                    forall|k: int| 0 <= k < i ==> !occurs(var, #[trigger] args@[k]),
                decreases args.len() - i,
            {
                proof {
                    assert(decreases_to!(*ty => args@[i as int]));
                }
                if occurs_in(var, &args[i]) {
                    return true;
                }
                i = i + 1;
            }
            false
        },
        Type::Record(_, fields) => {
            let mut i: usize = 0;
            while i < fields.len()
                invariant
                    i <= fields@.len(),
                    forall|k: int| 0 <= k < i ==> !occurs(var, #[trigger] fields@[k].1),
                decreases fields.len() - i,
            {
                proof {
                    assert(decreases_to!(*ty => fields@[i as int]));
                }
                if occurs_in(var, &fields[i].1) {
                    return true;
                }
                i = i + 1;
            }
            false
        },
    }
}

/// The binding that unifying type variable `var` with `ty` produces: none
/// when `ty` is that variable itself; the error of an infinite type when
/// `var` occurs in `ty`; otherwise `var := ty`.
pub fn bind_var(var: u64, ty: Type, span: Span) -> (r: Result<Option<(u64, Type)>, TypeError>)
    ensures
        ty == Type::Var(var) ==> r matches Ok(None),
        ty != Type::Var(var) && occurs(var, ty) ==> (r matches Err(
            TypeError::InfiniteType { var: v, ty: t, span: s },
        ) && v == var && t == ty && s == span),
        ty != Type::Var(var) && !occurs(var, ty) ==> (r matches Ok(Some((v, t))) && v == var && t
            == ty),
{
    if let Type::Var(id) = &ty {
        if *id == var {
            return Ok(None);
        }
    }
    if occurs_in(var, &ty) {
        return Err(TypeError::InfiniteType { var, ty, span });
    }
    Ok(Some((var, ty)))
}

/// Appends to `vars` the type variables of `ty` that it does not hold yet,
/// in the order they first occur.
#[verifier::loop_isolation(false)]
fn collect_type_vars(ty: &Type, vars: &mut Vec<u64>)
    requires
        old(vars)@.no_duplicates(),
    ensures
        final(vars)@.no_duplicates(),
        forall|v: u64| #[trigger] final(vars)@.contains(v) <==> (old(vars)@.contains(v) || occurs(v, *ty)),
    decreases ty,
{
    match ty {
        Type::Con(_) => {},
        Type::Var(id) => {
            let mut found = false;
            let mut k: usize = 0;
            while k < vars.len()
                invariant
                    k <= vars@.len(),
                    vars@ == old(vars)@,
                    found <==> exists|j: int| 0 <= j < k && vars@[j] == *id,
                decreases vars.len() - k,
            {
                if vars[k] == *id {
                    found = true;
                }
                k = k + 1;
            }
            if !found {
                vars.push(*id);
                assert forall|a: int, b: int| 0 <= a < b < vars@.len() implies vars@[a] != vars@[b] by {
                    if b == vars@.len() - 1 {
                        assert(old(vars)@[a] == vars@[a]);
                    }
                }
                assert forall|v: u64| #[trigger] vars@.contains(v) <==> (old(vars)@.contains(v) || occurs(v, *ty)) by {
                    if vars@.contains(v) && v != *id {
                        let j = choose|j: int| 0 <= j < vars@.len() && vars@[j] == v;
                        assert(old(vars)@[j] == v);
                    }
                    if old(vars)@.contains(v) {
                        let j = choose|j: int| 0 <= j < old(vars)@.len() && old(vars)@[j] == v;
                        assert(vars@[j] == v);
                    }
                    if v == *id {
                        assert(vars@[vars@.len() - 1] == v);
                    }
                }
            } else {
                assert forall|v: u64| #[trigger] vars@.contains(v) <==> (old(vars)@.contains(v) || occurs(v, *ty)) by {
                    if v == *id {
                        let j = choose|j: int| 0 <= j < vars@.len() && vars@[j] == *id;
                        assert(vars@[j] == v);
                    }
                }
            }
        },
        Type::Fun(ps, ret) => {
            let mut i: usize = 0;
            while i < ps.len()
                invariant
                    i <= ps@.len(),
                    vars@.no_duplicates(),
                    forall|v: u64| #[trigger] vars@.contains(v) <==> (old(vars)@.contains(v) || exists|k: int| 0 <= k < i && occurs(v, #[trigger] ps@[k])),
                decreases ps.len() - i,
            {
                proof {
                    assert(decreases_to!(*ty => ps@[i as int]));
                }
                collect_type_vars(&ps[i], vars);
                assert forall|v: u64| #[trigger] vars@.contains(v) <==> (old(vars)@.contains(v) || exists|k: int| 0 <= k < i + 1 && occurs(v, #[trigger] ps@[k])) by {
                    if occurs(v, ps@[i as int]) {
                        assert(0 <= i < i + 1);
                    }
                }
                i = i + 1;
            }
            collect_type_vars(ret, vars);
        },
        Type::App(_, args) => {
            let mut i: usize = 0;
            while i < args.len()
                invariant
                    i <= args@.len(),
                    vars@.no_duplicates(),
                    forall|v: u64| #[trigger] vars@.contains(v) <==> (old(vars)@.contains(v) || exists|k: int| 0 <= k < i && occurs(v, #[trigger] args@[k])),
                decreases args.len() - i,
            {
                proof {
                    assert(decreases_to!(*ty => args@[i as int]));
                }
                collect_type_vars(&args[i], vars);
                assert forall|v: u64| #[trigger] vars@.contains(v) <==> (old(vars)@.contains(v) || exists|k: int| 0 <= k < i + 1 && occurs(v, #[trigger] args@[k])) by {
                    if occurs(v, args@[i as int]) {
                        assert(0 <= i < i + 1);
                    }
                }
                i = i + 1;
            }
        },
        Type::Record(_, fields) => {
            let mut i: usize = 0;
            while i < fields.len()
                invariant
                    i <= fields@.len(),
                    vars@.no_duplicates(),
                    forall|v: u64| #[trigger] vars@.contains(v) <==> (old(vars)@.contains(v) || exists|k: int| 0 <= k < i && occurs(v, #[trigger] fields@[k].1)),
                decreases fields.len() - i,
            {
                proof {
                    assert(decreases_to!(*ty => fields@[i as int]));
                }
                collect_type_vars(&fields[i].1, vars);
                assert forall|v: u64| #[trigger] vars@.contains(v) <==> (old(vars)@.contains(v) || exists|k: int| 0 <= k < i + 1 && occurs(v, #[trigger] fields@[k].1)) by {
                    if occurs(v, fields@[i as int].1) {
                        assert(0 <= i < i + 1);
                    }
                }
                i = i + 1;
            }
        },
    }
}

/// The type variables of `ty`, each once, in the order they first occur.
pub fn free_type_vars(ty: &Type) -> (r: Vec<u64>)
    ensures
        r@.no_duplicates(),
        forall|v: u64| #[trigger] r@.contains(v) <==> occurs(v, *ty),
{
    let mut vars: Vec<u64> = Vec::new();
    collect_type_vars(ty, &mut vars);
    vars
}

/// Whether type variable `v` is free in a scheme: it occurs in the scheme's
/// type and the scheme does not bind it.
pub open spec fn free_in_scheme(v: u64, s: TypeScheme) -> bool {
    occurs(v, s.ty) && !s.vars@.contains(v)
}

/// Whether type variable `v` is free in some scheme of the environment.
pub open spec fn free_in_env(v: u64, env: Seq<(String, TypeScheme)>) -> bool {
    exists|i: int| 0 <= i < env.len() && free_in_scheme(v, #[trigger] env[i].1)
}

fn u64_list_contains(vs: &Vec<u64>, v: u64) -> (r: bool)
    ensures
        r == vs@.contains(v),
{
    let mut k: usize = 0;
    while k < vs.len()
        invariant
            k <= vs@.len(),
            forall|j: int| 0 <= j < k ==> vs@[j] != v,
        decreases vs.len() - k,
    {
        if vs[k] == v {
            return true;
        }
        k = k + 1;
    }
    false
}

fn free_in_env_exec(v: u64, env: &[(String, TypeScheme)]) -> (r: bool)
    ensures
        r == free_in_env(v, env@),
{
    let mut i: usize = 0;
    while i < env.len()
        invariant
            i <= env@.len(),
            forall|k: int| 0 <= k < i ==> !free_in_scheme(v, #[trigger] env@[k].1),
        decreases env.len() - i,
    {
        let s = &env[i].1;
        if occurs_in(v, &s.ty) && !u64_list_contains(&s.vars, v) {
            assert(free_in_scheme(v, env@[i as int].1));
            return true;
        }
        i = i + 1;
    }
    false
}

/// Generalizes `ty` over the environment: the scheme that binds every type
/// variable of `ty` not free in `env`, each once, in the order they first
/// occur in `ty`.
pub fn generalize(env: &[(String, TypeScheme)], ty: Type) -> (s: TypeScheme)
    ensures
        s.ty == ty,
        s.constraints@.len() == 0,
        s.vars@.no_duplicates(),
        forall|v: u64| #[trigger] s.vars@.contains(v) <==> (occurs(v, ty) && !free_in_env(v, env@)),
{
    let fv = free_type_vars(&ty);
    let mut vars: Vec<u64> = Vec::new();
    let mut i: usize = 0;
    while i < fv.len()
        invariant
            i <= fv@.len(),
            fv@.no_duplicates(),
            forall|v: u64| #[trigger] fv@.contains(v) <==> occurs(v, ty),
            vars@.no_duplicates(),
            forall|v: u64| #[trigger] vars@.contains(v) <==> (exists|k: int| 0 <= k < i && fv@[k] == v)
                && !free_in_env(v, env@),
        decreases fv.len() - i,
    {
        let v = fv[i];
        if !free_in_env_exec(v, env) {
            let ghost before = vars@;
            vars.push(v);
            assert forall|a: int, b: int| 0 <= a < b < vars@.len() implies vars@[a] != vars@[b] by {
                if b == vars@.len() - 1 {
                    assert(before.contains(vars@[a]));
                    let k = choose|k: int| 0 <= k < i && fv@[k] == vars@[a];
                    assert(fv@[k] != fv@[i as int]);
                }
            }
            assert forall|w: u64| #[trigger] vars@.contains(w) <==> (exists|k: int| 0 <= k < i + 1 && fv@[k] == w)
                && !free_in_env(w, env@) by {
                if w == v {
                    assert(vars@[vars@.len() - 1] == w);
                    assert(fv@[i as int] == w);
                } else {
                    if before.contains(w) {
                        let j = choose|j: int| 0 <= j < before.len() && before[j] == w;
                        assert(vars@[j] == w);
                    }
                    if vars@.contains(w) {
                        let j = choose|j: int| 0 <= j < vars@.len() && vars@[j] == w;
                        assert(j < before.len());
                        assert(before[j] == w);
                        assert(before.contains(w));
                    }
                    if exists|k: int| 0 <= k < i + 1 && fv@[k] == w {
                        let k = choose|k: int| 0 <= k < i + 1 && fv@[k] == w;
                        assert(k < i);
                    }
                }
            }
        } else {
            assert forall|w: u64| #[trigger] vars@.contains(w) <==> (exists|k: int| 0 <= k < i + 1 && fv@[k] == w)
                && !free_in_env(w, env@) by {
                if (exists|k: int| 0 <= k < i + 1 && fv@[k] == w) && !free_in_env(w, env@) {
                    let k = choose|k: int| 0 <= k < i + 1 && fv@[k] == w;
                    assert(k != i);
                }
            }
        }
        i = i + 1;
    }
    assert forall|v: u64| #[trigger] vars@.contains(v) <==> (occurs(v, ty) && !free_in_env(v, env@)) by {
        if vars@.contains(v) {
            let k = choose|k: int| 0 <= k < fv@.len() && fv@[k] == v;
            assert(fv@.contains(v));
        }
        if occurs(v, ty) && !free_in_env(v, env@) {
            assert(fv@.contains(v));
            let k = choose|k: int| 0 <= k < fv@.len() && fv@[k] == v;
            assert(exists|k2: int| 0 <= k2 < fv@.len() && fv@[k2] == v);
        }
    }
    TypeScheme { vars, constraints: Vec::new(), ty }
}

/// The fresh variable that instantiation gives bound variable `id`: the
/// variable numbered `first + k` for the last position `k` of `id` among the
/// bound variables `from`, if it is bound.
pub open spec fn fresh_for(from: Seq<u64>, id: u64, first: u64) -> Option<u64>
    decreases from.len(),
{
    if from.len() == 0 {
        None
    } else if from.last() == id {
        Some((first + from.len() - 1) as u64)
    } else {
        fresh_for(from.drop_last(), id, first)
    }
}

/// Whether `t2` is `t` with each bound variable among `from` replaced by
/// its fresh variable, and everything else kept.
pub open spec fn renamed(t: Type, t2: Type, from: Seq<u64>, first: u64) -> bool
    decreases t,
{
    match t {
        Type::Con(n) => t2 matches Type::Con(n2) && n2@ == n@,
        Type::Var(id) => t2 == Type::Var(
            match fresh_for(from, id, first) {
                Some(f) => f,
                None => id,
            },
        ),
        Type::Fun(ps, r) => match t2 {
            Type::Fun(ps2, r2) => ps2@.len() == ps@.len() && (forall|i: int|
                0 <= i < ps@.len() ==> renamed(#[trigger] ps@[i], ps2@[i], from, first)) && renamed(
                *r,
                *r2,
                from,
                first,
            ),
            _ => false,
        },
        Type::App(n, args) => match t2 {
            Type::App(n2, args2) => n2@ == n@ && args2@.len() == args@.len() && forall|i: int|
                0 <= i < args@.len() ==> renamed(#[trigger] args@[i], args2@[i], from, first),
            _ => false,
        },
        Type::Record(n, fields) => match t2 {
            Type::Record(n2, fields2) => n2@ == n@ && fields2@.len() == fields@.len() && forall|i: int|
                0 <= i < fields@.len() ==> (#[trigger] fields2@[i]).0@ == fields@[i].0@ && renamed(
                    fields@[i].1,
                    fields2@[i].1,
                    from,
                    first,
                ),
            _ => false,
        },
    }
}

fn fresh_for_exec(from: &Vec<u64>, id: u64, first: u64) -> (r: Option<u64>)
    requires
        first + from@.len() <= u64::MAX,
    ensures
        r == fresh_for(from@, id, first),
{
    let mut k = from.len();
    assert(from@.take(k as int) =~= from@);
    while k > 0
        invariant
            k <= from@.len(),
            first + from@.len() <= u64::MAX,
            fresh_for(from@, id, first) == fresh_for(from@.take(k as int), id, first),
        decreases k,
    {
        assert(from@.take(k as int).drop_last() =~= from@.take(k - 1));
        if from[k - 1] == id {
            return Some(first + (k - 1) as u64);
        }
        k = k - 1;
    }
    assert(from@.take(0) =~= Seq::<u64>::empty());
    None
}

/// `t` with each bound variable among `from` replaced by its fresh variable.
#[verifier::loop_isolation(false)]
fn rename_type(t: &Type, from: &Vec<u64>, first: u64) -> (r: Type)
    requires
        first + from@.len() <= u64::MAX,
    ensures
        renamed(*t, r, from@, first),
    decreases t,
{
    match t {
        Type::Con(n) => Type::Con(owned(n.as_str())),
        Type::Var(id) => match fresh_for_exec(from, *id, first) {
            Some(f) => Type::Var(f),
            None => Type::Var(*id),
        },
        Type::Fun(ps, ret) => {
            let mut ps2: Vec<Type> = Vec::new();
            let mut i: usize = 0;
            while i < ps.len()
                invariant
                    i <= ps@.len(),
                    ps2@.len() == i,
                    forall|k: int| 0 <= k < i ==> renamed(#[trigger] ps@[k], ps2@[k], from@, first),
                decreases ps.len() - i,
            {
                proof {
                    assert(decreases_to!(*t => ps@[i as int]));
                }
                let p = rename_type(&ps[i], from, first);
                ps2.push(p);
                i = i + 1;
            }
            let r2 = rename_type(ret, from, first);
            Type::Fun(ps2, Box::new(r2))
        },
        Type::App(n, args) => {
            let mut args2: Vec<Type> = Vec::new();
            let mut i: usize = 0;
            while i < args.len()
                invariant
                    i <= args@.len(),
                    args2@.len() == i,
                    forall|k: int| 0 <= k < i ==> renamed(#[trigger] args@[k], args2@[k], from@, first),
                decreases args.len() - i,
            {
                proof {
                    assert(decreases_to!(*t => args@[i as int]));
                }
                let a = rename_type(&args[i], from, first);
                args2.push(a);
                i = i + 1;
            }
            Type::App(owned(n.as_str()), args2)
        },
        Type::Record(n, fields) => {
            let mut fields2: Vec<(String, Type)> = Vec::new();
            let mut i: usize = 0;
            while i < fields.len()
                invariant
                    i <= fields@.len(),
                    fields2@.len() == i,
                    forall|k: int| 0 <= k < i ==> (#[trigger] fields2@[k]).0@ == fields@[k].0@ && renamed(
                        fields@[k].1,
                        fields2@[k].1,
                        from@,
                        first,
                    ),
                decreases fields.len() - i,
            {
                proof {
                    assert(decreases_to!(*t => fields@[i as int]));
                }
                let f = rename_type(&fields[i].1, from, first);
                fields2.push((owned(fields[i].0.as_str()), f));
                i = i + 1;
            }
            Type::Record(owned(n.as_str()), fields2)
        },
    }
}

/// A scheme instantiated with fresh type variables: its type, the trait
/// constraints it leaves pending as (trait name, type variable), and the
/// next free type variable.
pub struct Instantiation {
    pub ty: Type,
    pub pending: Vec<(String, u64)>,
    pub next_var: u64,
}

/// Instantiates `scheme` with fresh type variables numbered from `next_var`:
/// the `k`-th bound variable becomes `next_var + k`, and each trait
/// constraint becomes pending on the fresh variable of its type variable
/// (or on that variable itself when the scheme does not bind it).
pub fn instantiate(scheme: &TypeScheme, next_var: u64) -> (r: Instantiation)
    requires
        next_var + scheme.vars@.len() <= u64::MAX,
    ensures
        renamed(scheme.ty, r.ty, scheme.vars@, next_var),
        r.next_var == next_var + scheme.vars@.len(),
        r.pending@.len() == scheme.constraints@.len(),
        forall|i: int|
            0 <= i < r.pending@.len() ==> (#[trigger] r.pending@[i]).0@ == scheme.constraints@[i].trait_name@
                && r.pending@[i].1 == match fresh_for(
                scheme.vars@,
                scheme.constraints@[i].type_var,
                next_var,
            ) {
                Some(f) => f,
                None => scheme.constraints@[i].type_var,
            },
{
    let ty = rename_type(&scheme.ty, &scheme.vars, next_var);
    let mut pending: Vec<(String, u64)> = Vec::new();
    let mut i: usize = 0;
    while i < scheme.constraints.len()
        invariant
            i <= scheme.constraints@.len(),
            next_var + scheme.vars@.len() <= u64::MAX,
            pending@.len() == i,
            forall|k: int|
                0 <= k < i ==> (#[trigger] pending@[k]).0@ == scheme.constraints@[k].trait_name@
                    && pending@[k].1 == match fresh_for(
                    scheme.vars@,
                    scheme.constraints@[k].type_var,
                    next_var,
                ) {
                    Some(f) => f,
                    None => scheme.constraints@[k].type_var,
                },
        decreases scheme.constraints.len() - i,
    {
        let c = &scheme.constraints[i];
        let v = match fresh_for_exec(&scheme.vars, c.type_var, next_var) {
            Some(f) => f,
            None => c.type_var,
        };
        pending.push((owned(c.trait_name.as_str()), v));
        i = i + 1;
    }
    Instantiation { ty, pending, next_var: next_var + scheme.vars.len() as u64 }
}

} // verus!
