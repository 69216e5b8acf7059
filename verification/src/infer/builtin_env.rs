//! The built-in type environment: the type schemes of the built-in
//! operators and functions, the kinds of the built-in types, and the
//! built-in traits `Functor` and `Monad`.

use vstd::prelude::*;
use crate::text::owned;
use crate::types::{Kind, Type};

verus! {

/// The shape of a type, as a mathematical value.
pub enum Ty {
    Con(Seq<char>),
    Var(u64),
    Fun(Seq<Ty>, Box<Ty>),
    App(Seq<char>, Seq<Ty>),
}

/// Whether the type `t` has the shape `v`.
pub open spec fn type_is(t: Type, v: Ty) -> bool
    decreases v,
{
    match v {
        Ty::Con(name) => t matches Type::Con(n) && n@ == name,
        Ty::Var(id) => t == Type::Var(id),
        Ty::Fun(ps, r) => match t {
            Type::Fun(tps, tr) => {
                &&& tps@.len() == ps.len()
                &&& forall|i: int| 0 <= i < ps.len() ==> type_is(#[trigger] tps@[i], ps[i])
                &&& type_is(*tr, *r)
            },
            _ => false,
        },
        Ty::App(name, args) => match t {
            Type::App(n, targs) => {
                &&& n@ == name
                &&& targs@.len() == args.len()
                &&& forall|i: int| 0 <= i < args.len() ==> type_is(#[trigger] targs@[i], args[i])
            },
            _ => false,
        },
    }
}

/// A trait constraint `trait_name type_var` of a type scheme.
#[derive(Debug)]
pub struct TraitConstraint {
    pub trait_name: String,
    pub type_var: u64,
}

/// A type scheme: `forall vars. constraints => ty`.
#[derive(Debug)]
pub struct TypeScheme {
    pub vars: Vec<u64>,
    pub constraints: Vec<TraitConstraint>,
    pub ty: Type,
}

/// The shape of a type scheme: its bound variables, its constraints as
/// (trait name, type variable), and its type.
pub struct Scheme {
    pub vars: Seq<u64>,
    pub constraints: Seq<(Seq<char>, u64)>,
    pub ty: Ty,
}

/// Whether the scheme `s` has the shape `v`.
pub open spec fn scheme_is(s: TypeScheme, v: Scheme) -> bool {
    &&& s.vars@ == v.vars
    &&& s.constraints@.len() == v.constraints.len()
    &&& forall|i: int|
        0 <= i < v.constraints.len() ==> (#[trigger] s.constraints@[i]).trait_name@
            == v.constraints[i].0 && s.constraints@[i].type_var == v.constraints[i].1
    &&& type_is(s.ty, v.ty)
}

/// Whether the entries `env` are, one for one, the named schemes `table`.
pub open spec fn entries_are(env: Seq<(String, TypeScheme)>, table: Seq<(Seq<char>, Scheme)>) -> bool {
    &&& env.len() == table.len()
    &&& forall|i: int|
        0 <= i < table.len() ==> (#[trigger] env[i]).0@ == table[i].0 && scheme_is(
            env[i].1,
            table[i].1,
        )
}

pub open spec fn int_t() -> Ty {
    Ty::Con("Int"@)
}

pub open spec fn bool_t() -> Ty {
    Ty::Con("Bool"@)
}

pub open spec fn float_t() -> Ty {
    Ty::Con("Float"@)
}

pub open spec fn unit_t() -> Ty {
    Ty::Con("Unit"@)
}

pub open spec fn string_t() -> Ty {
    Ty::Con("String"@)
}

pub open spec fn vector_t() -> Ty {
    Ty::Con("Vector"@)
}

pub open spec fn map_t() -> Ty {
    Ty::Con("Map"@)
}

pub open spec fn ref_t(a: Ty) -> Ty {
    Ty::App("Ref"@, seq![a])
}

pub open spec fn fun_t(ps: Seq<Ty>, r: Ty) -> Ty {
    Ty::Fun(ps, Box::new(r))
}

/// A scheme over the given variables, without constraints.
pub open spec fn poly(vars: Seq<u64>, ty: Ty) -> Scheme {
    Scheme { vars, constraints: Seq::empty(), ty }
}

/// The types that the built-in signatures are made of: the built-in type
/// constructors, a type variable, and `Ref` of a type variable.
#[derive(Debug, Clone, Copy, PartialEq, Eq, Structural)]
pub enum Shape {
    Int,
    Bool,
    Float,
    Unit,
    Str,
    Vector,
    /// The built-in `Map` type.
    Dict,
    Var(u64),
    RefOf(u64),
}

/// The type a shape stands for.
pub open spec fn shape_ty(s: Shape) -> Ty {
    match s {
        Shape::Int => int_t(),
        Shape::Bool => bool_t(),
        Shape::Float => float_t(),
        Shape::Unit => unit_t(),
        Shape::Str => string_t(),
        Shape::Vector => vector_t(),
        Shape::Dict => map_t(),
        Shape::Var(v) => Ty::Var(v),
        Shape::RefOf(v) => ref_t(Ty::Var(v)),
    }
}

/// The scheme `forall vars. (params) -> ret` without constraints.
pub open spec fn sig(vars: Seq<u64>, params: Seq<Shape>, ret: Shape) -> Scheme {
    poly(vars, fun_t(params.map_values(|p: Shape| shape_ty(p)), shape_ty(ret)))
}

fn con(name: &str) -> (t: Type)
    ensures
        type_is(t, Ty::Con(name@)),
{
    Type::Con(owned(name))
}

fn build_shape(s: Shape) -> (t: Type)
    ensures
        type_is(t, shape_ty(s)),
{
    match s {
        Shape::Int => con("Int"),
        Shape::Bool => con("Bool"),
        Shape::Float => con("Float"),
        Shape::Unit => con("Unit"),
        Shape::Str => con("String"),
        Shape::Vector => con("Vector"),
        Shape::Dict => con("Map"),
        Shape::Var(v) => Type::Var(v),
        Shape::RefOf(v) => {
            let mut args: Vec<Type> = Vec::new();
            args.push(Type::Var(v));
            assert(args@.len() == 1 && type_is(args@[0], seq![Ty::Var(v)][0]));
            let t = Type::App(owned("Ref"), args);
            assert(type_is(t, ref_t(Ty::Var(v))));
            t
        },
    }
}

/// Whether the types `ts` have, one for one, the shapes `vs`.
pub open spec fn all_are(ts: Seq<Type>, vs: Seq<Ty>) -> bool {
    ts.len() == vs.len() && forall|i: int| 0 <= i < vs.len() ==> type_is(#[trigger] ts[i], vs[i])
}

fn build_fun(params: &Vec<Shape>, ret: Shape) -> (t: Type)
    ensures
        type_is(t, fun_t(params@.map_values(|p: Shape| shape_ty(p)), shape_ty(ret))),
{
    let ghost vs = params@.map_values(|p: Shape| shape_ty(p));
    let mut ts: Vec<Type> = Vec::new();
    let mut i: usize = 0;
    while i < params.len()
        invariant
            i <= params@.len(),
            vs == params@.map_values(|p: Shape| shape_ty(p)),
            all_are(ts@, vs.take(i as int)),
        decreases params.len() - i,
    {
        let t = build_shape(params[i]);
        ts.push(t);
        assert(all_are(ts@, vs.take(i + 1))) by {
            assert forall|k: int| 0 <= k < i + 1 implies type_is(#[trigger] ts@[k], vs.take(i + 1)[k]) by {
                if k < i {
                    assert(vs.take(i + 1)[k] == vs.take(i as int)[k]);
                }
            }
        }
        i = i + 1;
    }
    assert(vs.take(params@.len() as int) =~= vs);
    let r = build_shape(ret);
    let t = Type::Fun(ts, Box::new(r));
    assert forall|k: int| 0 <= k < vs.len() implies type_is(#[trigger] ts@[k], vs[k]) by {
        assert(vs.take(vs.len() as int)[k] == vs[k]);
    }
    t
}

fn add_sig(
    env: &mut Vec<(String, TypeScheme)>,
    name: &str,
    vars: Vec<u64>,
    params: Vec<Shape>,
    ret: Shape,
    Ghost(table): Ghost<Seq<(Seq<char>, Scheme)>>,
)
    requires
        entries_are(old(env)@, table),
    ensures
        entries_are(final(env)@, table.push((name@, sig(vars@, params@, ret)))),
{
    let ghost vs = vars@;
    let ty = build_fun(&params, ret);
    let scheme = TypeScheme { vars, constraints: Vec::new(), ty };
    assert(scheme_is(scheme, sig(vs, params@, ret)));
    env.push((owned(name), scheme));
    let ghost t2 = table.push((name@, sig(vs, params@, ret)));
    assert forall|i: int| 0 <= i < t2.len() implies (#[trigger] env@[i]).0@ == t2[i].0 && scheme_is(
        env@[i].1,
        t2[i].1,
    ) by {
        if i < table.len() {
            assert(env@[i] == old(env)@[i]);
        }
    }
}

/// The built-in signatures of the `arith` group, with type variables
/// numbered from `n`.
pub open spec fn builtin_arith(n: u64) -> Seq<(Seq<char>, Scheme)> {
    seq![
        ("+"@, sig(seq![], seq![Shape::Int, Shape::Int], Shape::Int)),
        ("-"@, sig(seq![], seq![Shape::Int, Shape::Int], Shape::Int)),
        ("*"@, sig(seq![], seq![Shape::Int, Shape::Int], Shape::Int)),
        ("/"@, sig(seq![], seq![Shape::Int, Shape::Int], Shape::Int)),
        ("%"@, sig(seq![], seq![Shape::Int, Shape::Int], Shape::Int)),
        ("<"@, sig(seq![], seq![Shape::Int, Shape::Int], Shape::Bool)),
        (">"@, sig(seq![], seq![Shape::Int, Shape::Int], Shape::Bool)),
        ("<="@, sig(seq![], seq![Shape::Int, Shape::Int], Shape::Bool)),
        (">="@, sig(seq![], seq![Shape::Int, Shape::Int], Shape::Bool)),
        ("=="@, sig(seq![], seq![Shape::Int, Shape::Int], Shape::Bool)),
        ("!="@, sig(seq![], seq![Shape::Int, Shape::Int], Shape::Bool)),
        ("="@, sig(seq![], seq![Shape::Int, Shape::Int], Shape::Bool)),
        ("+."@, sig(seq![], seq![Shape::Float, Shape::Float], Shape::Float)),
        ("-."@, sig(seq![], seq![Shape::Float, Shape::Float], Shape::Float)),
        ("*."@, sig(seq![], seq![Shape::Float, Shape::Float], Shape::Float)),
        ("/."@, sig(seq![], seq![Shape::Float, Shape::Float], Shape::Float)),
    ]
}

#[verifier::spinoff_prover]
fn add_arith(env: &mut Vec<(String, TypeScheme)>, n: u64, Ghost(table): Ghost<Seq<(Seq<char>, Scheme)>>)
    requires
        entries_are(old(env)@, table),
        n <= u64::MAX - 23,
    ensures
        entries_are(final(env)@, table + builtin_arith(n)),
{
    let ghost mut t = table;
    let vars: Vec<u64> = Vec::new();
    let params: Vec<Shape> = vec![Shape::Int, Shape::Int];
    assert(vars@ =~= Seq::<u64>::empty());
    assert(params@ =~= seq![Shape::Int, Shape::Int]);
    add_sig(env, "+", vars, params, Shape::Int, Ghost(t));
    proof {
        t = t.push(("+"@, sig(seq![], seq![Shape::Int, Shape::Int], Shape::Int)));
    }
    let vars: Vec<u64> = Vec::new();
    let params: Vec<Shape> = vec![Shape::Int, Shape::Int];
    assert(vars@ =~= Seq::<u64>::empty());
    assert(params@ =~= seq![Shape::Int, Shape::Int]);
    add_sig(env, "-", vars, params, Shape::Int, Ghost(t));
    proof {
        t = t.push(("-"@, sig(seq![], seq![Shape::Int, Shape::Int], Shape::Int)));
    }
    let vars: Vec<u64> = Vec::new();
    let params: Vec<Shape> = vec![Shape::Int, Shape::Int];
    assert(vars@ =~= Seq::<u64>::empty());
    assert(params@ =~= seq![Shape::Int, Shape::Int]);
    add_sig(env, "*", vars, params, Shape::Int, Ghost(t));
    proof {
        t = t.push(("*"@, sig(seq![], seq![Shape::Int, Shape::Int], Shape::Int)));
    }
    let vars: Vec<u64> = Vec::new();
    let params: Vec<Shape> = vec![Shape::Int, Shape::Int];
    assert(vars@ =~= Seq::<u64>::empty());
    assert(params@ =~= seq![Shape::Int, Shape::Int]);
    add_sig(env, "/", vars, params, Shape::Int, Ghost(t));
    proof {
        t = t.push(("/"@, sig(seq![], seq![Shape::Int, Shape::Int], Shape::Int)));
    }
    let vars: Vec<u64> = Vec::new();
    let params: Vec<Shape> = vec![Shape::Int, Shape::Int];
    assert(vars@ =~= Seq::<u64>::empty());
    assert(params@ =~= seq![Shape::Int, Shape::Int]);
    add_sig(env, "%", vars, params, Shape::Int, Ghost(t));
    proof {
        t = t.push(("%"@, sig(seq![], seq![Shape::Int, Shape::Int], Shape::Int)));
    }
    let vars: Vec<u64> = Vec::new();
    let params: Vec<Shape> = vec![Shape::Int, Shape::Int];
    assert(vars@ =~= Seq::<u64>::empty());
    assert(params@ =~= seq![Shape::Int, Shape::Int]);
    add_sig(env, "<", vars, params, Shape::Bool, Ghost(t));
    proof {
        t = t.push(("<"@, sig(seq![], seq![Shape::Int, Shape::Int], Shape::Bool)));
    }
    let vars: Vec<u64> = Vec::new();
    let params: Vec<Shape> = vec![Shape::Int, Shape::Int];
    assert(vars@ =~= Seq::<u64>::empty());
    assert(params@ =~= seq![Shape::Int, Shape::Int]);
    add_sig(env, ">", vars, params, Shape::Bool, Ghost(t));
    proof {
        t = t.push((">"@, sig(seq![], seq![Shape::Int, Shape::Int], Shape::Bool)));
    }
    let vars: Vec<u64> = Vec::new();
    let params: Vec<Shape> = vec![Shape::Int, Shape::Int];
    assert(vars@ =~= Seq::<u64>::empty());
    assert(params@ =~= seq![Shape::Int, Shape::Int]);
    add_sig(env, "<=", vars, params, Shape::Bool, Ghost(t));
    proof {
        t = t.push(("<="@, sig(seq![], seq![Shape::Int, Shape::Int], Shape::Bool)));
    }
    let vars: Vec<u64> = Vec::new();
    let params: Vec<Shape> = vec![Shape::Int, Shape::Int];
    assert(vars@ =~= Seq::<u64>::empty());
    assert(params@ =~= seq![Shape::Int, Shape::Int]);
    add_sig(env, ">=", vars, params, Shape::Bool, Ghost(t));
    proof {
        t = t.push((">="@, sig(seq![], seq![Shape::Int, Shape::Int], Shape::Bool)));
    }
    let vars: Vec<u64> = Vec::new();
    let params: Vec<Shape> = vec![Shape::Int, Shape::Int];
    assert(vars@ =~= Seq::<u64>::empty());
    assert(params@ =~= seq![Shape::Int, Shape::Int]);
    add_sig(env, "==", vars, params, Shape::Bool, Ghost(t));
    proof {
        t = t.push(("=="@, sig(seq![], seq![Shape::Int, Shape::Int], Shape::Bool)));
    }
    let vars: Vec<u64> = Vec::new();
    let params: Vec<Shape> = vec![Shape::Int, Shape::Int];
    assert(vars@ =~= Seq::<u64>::empty());
    assert(params@ =~= seq![Shape::Int, Shape::Int]);
    add_sig(env, "!=", vars, params, Shape::Bool, Ghost(t));
    proof {
        t = t.push(("!="@, sig(seq![], seq![Shape::Int, Shape::Int], Shape::Bool)));
    }
    let vars: Vec<u64> = Vec::new();
    let params: Vec<Shape> = vec![Shape::Int, Shape::Int];
    assert(vars@ =~= Seq::<u64>::empty());
    assert(params@ =~= seq![Shape::Int, Shape::Int]);
    add_sig(env, "=", vars, params, Shape::Bool, Ghost(t));
    proof {
        t = t.push(("="@, sig(seq![], seq![Shape::Int, Shape::Int], Shape::Bool)));
    }
    let vars: Vec<u64> = Vec::new();
    let params: Vec<Shape> = vec![Shape::Float, Shape::Float];
    assert(vars@ =~= Seq::<u64>::empty());
    assert(params@ =~= seq![Shape::Float, Shape::Float]);
    add_sig(env, "+.", vars, params, Shape::Float, Ghost(t));
    proof {
        t = t.push(("+."@, sig(seq![], seq![Shape::Float, Shape::Float], Shape::Float)));
    }
    let vars: Vec<u64> = Vec::new();
    let params: Vec<Shape> = vec![Shape::Float, Shape::Float];
    assert(vars@ =~= Seq::<u64>::empty());
    assert(params@ =~= seq![Shape::Float, Shape::Float]);
    add_sig(env, "-.", vars, params, Shape::Float, Ghost(t));
    proof {
        t = t.push(("-."@, sig(seq![], seq![Shape::Float, Shape::Float], Shape::Float)));
    }
    let vars: Vec<u64> = Vec::new();
    let params: Vec<Shape> = vec![Shape::Float, Shape::Float];
    assert(vars@ =~= Seq::<u64>::empty());
    assert(params@ =~= seq![Shape::Float, Shape::Float]);
    add_sig(env, "*.", vars, params, Shape::Float, Ghost(t));
    proof {
        t = t.push(("*."@, sig(seq![], seq![Shape::Float, Shape::Float], Shape::Float)));
    }
    let vars: Vec<u64> = Vec::new();
    let params: Vec<Shape> = vec![Shape::Float, Shape::Float];
    assert(vars@ =~= Seq::<u64>::empty());
    assert(params@ =~= seq![Shape::Float, Shape::Float]);
    add_sig(env, "/.", vars, params, Shape::Float, Ghost(t));
    proof {
        t = t.push(("/."@, sig(seq![], seq![Shape::Float, Shape::Float], Shape::Float)));
    }
    assert(t =~= table + builtin_arith(n));
}

/// The built-in signatures of the `strings` group, with type variables
/// numbered from `n`.
pub open spec fn builtin_strings(n: u64) -> Seq<(Seq<char>, Scheme)> {
    seq![
        ("print"@, sig(seq![(n + 0) as u64], seq![Shape::Var((n + 0) as u64)], Shape::Unit)),
        ("__alloc"@, sig(seq![], seq![Shape::Int], Shape::Int)),
        ("string-length"@, sig(seq![], seq![Shape::Str], Shape::Int)),
        ("string-concat"@, sig(seq![], seq![Shape::Str, Shape::Str], Shape::Str)),
        ("string-eq"@, sig(seq![], seq![Shape::Str, Shape::Str], Shape::Bool)),
        ("print-string"@, sig(seq![], seq![Shape::Str], Shape::Unit)),
        ("string-char-at"@, sig(seq![], seq![Shape::Str, Shape::Int], Shape::Int)),
        ("substring"@, sig(seq![], seq![Shape::Str, Shape::Int, Shape::Int], Shape::Str)),
        ("int-to-string"@, sig(seq![], seq![Shape::Int], Shape::Str)),
        ("proc-exit"@, sig(seq![], seq![Shape::Int], Shape::Unit)),
    ]
}

#[verifier::spinoff_prover]
fn add_strings(env: &mut Vec<(String, TypeScheme)>, n: u64, Ghost(table): Ghost<Seq<(Seq<char>, Scheme)>>)
    requires
        entries_are(old(env)@, table),
        n <= u64::MAX - 23,
    ensures
        entries_are(final(env)@, table + builtin_strings(n)),
{
    let ghost mut t = table;
    let vars: Vec<u64> = vec![n + 0];
    let params: Vec<Shape> = vec![Shape::Var(n + 0)];
    assert(vars@ =~= seq![(n + 0) as u64]);
    assert(params@ =~= seq![Shape::Var((n + 0) as u64)]);
    add_sig(env, "print", vars, params, Shape::Unit, Ghost(t));
    proof {
        t = t.push(("print"@, sig(seq![(n + 0) as u64], seq![Shape::Var((n + 0) as u64)], Shape::Unit)));
    }
    let vars: Vec<u64> = Vec::new();
    let params: Vec<Shape> = vec![Shape::Int];
    assert(vars@ =~= Seq::<u64>::empty());
    assert(params@ =~= seq![Shape::Int]);
    add_sig(env, "__alloc", vars, params, Shape::Int, Ghost(t));
    proof {
        t = t.push(("__alloc"@, sig(seq![], seq![Shape::Int], Shape::Int)));
    }
    let vars: Vec<u64> = Vec::new();
    let params: Vec<Shape> = vec![Shape::Str];
    assert(vars@ =~= Seq::<u64>::empty());
    assert(params@ =~= seq![Shape::Str]);
    add_sig(env, "string-length", vars, params, Shape::Int, Ghost(t));
    proof {
        t = t.push(("string-length"@, sig(seq![], seq![Shape::Str], Shape::Int)));
    }
    let vars: Vec<u64> = Vec::new();
    let params: Vec<Shape> = vec![Shape::Str, Shape::Str];
    assert(vars@ =~= Seq::<u64>::empty());
    assert(params@ =~= seq![Shape::Str, Shape::Str]);
    add_sig(env, "string-concat", vars, params, Shape::Str, Ghost(t));
    proof {
        t = t.push(("string-concat"@, sig(seq![], seq![Shape::Str, Shape::Str], Shape::Str)));
    }
    let vars: Vec<u64> = Vec::new();
    let params: Vec<Shape> = vec![Shape::Str, Shape::Str];
    assert(vars@ =~= Seq::<u64>::empty());
    assert(params@ =~= seq![Shape::Str, Shape::Str]);
    add_sig(env, "string-eq", vars, params, Shape::Bool, Ghost(t));
    proof {
        t = t.push(("string-eq"@, sig(seq![], seq![Shape::Str, Shape::Str], Shape::Bool)));
    }
    let vars: Vec<u64> = Vec::new();
    let params: Vec<Shape> = vec![Shape::Str];
    assert(vars@ =~= Seq::<u64>::empty());
    assert(params@ =~= seq![Shape::Str]);
    add_sig(env, "print-string", vars, params, Shape::Unit, Ghost(t));
    proof {
        t = t.push(("print-string"@, sig(seq![], seq![Shape::Str], Shape::Unit)));
    }
    let vars: Vec<u64> = Vec::new();
    let params: Vec<Shape> = vec![Shape::Str, Shape::Int];
    assert(vars@ =~= Seq::<u64>::empty());
    assert(params@ =~= seq![Shape::Str, Shape::Int]);
    add_sig(env, "string-char-at", vars, params, Shape::Int, Ghost(t));
    proof {
        t = t.push(("string-char-at"@, sig(seq![], seq![Shape::Str, Shape::Int], Shape::Int)));
    }
    let vars: Vec<u64> = Vec::new();
    let params: Vec<Shape> = vec![Shape::Str, Shape::Int, Shape::Int];
    assert(vars@ =~= Seq::<u64>::empty());
    assert(params@ =~= seq![Shape::Str, Shape::Int, Shape::Int]);
    add_sig(env, "substring", vars, params, Shape::Str, Ghost(t));
    proof {
        t = t.push(("substring"@, sig(seq![], seq![Shape::Str, Shape::Int, Shape::Int], Shape::Str)));
    }
    let vars: Vec<u64> = Vec::new();
    let params: Vec<Shape> = vec![Shape::Int];
    assert(vars@ =~= Seq::<u64>::empty());
    assert(params@ =~= seq![Shape::Int]);
    add_sig(env, "int-to-string", vars, params, Shape::Str, Ghost(t));
    proof {
        t = t.push(("int-to-string"@, sig(seq![], seq![Shape::Int], Shape::Str)));
    }
    let vars: Vec<u64> = Vec::new();
    let params: Vec<Shape> = vec![Shape::Int];
    assert(vars@ =~= Seq::<u64>::empty());
    assert(params@ =~= seq![Shape::Int]);
    add_sig(env, "proc-exit", vars, params, Shape::Unit, Ghost(t));
    proof {
        t = t.push(("proc-exit"@, sig(seq![], seq![Shape::Int], Shape::Unit)));
    }
    assert(t =~= table + builtin_strings(n));
}

/// The built-in signatures of the `refs` group, with type variables
/// numbered from `n`.
pub open spec fn builtin_refs(n: u64) -> Seq<(Seq<char>, Scheme)> {
    seq![
        ("ref-new"@, sig(seq![(n + 1) as u64], seq![Shape::Var((n + 1) as u64)], Shape::RefOf((n + 1) as u64))),
        ("ref-get"@, sig(seq![(n + 2) as u64], seq![Shape::RefOf((n + 2) as u64)], Shape::Var((n + 2) as u64))),
        ("ref-set"@, sig(seq![(n + 3) as u64], seq![Shape::RefOf((n + 3) as u64), Shape::Var((n + 3) as u64)], Shape::Unit)),
        ("vector-new"@, sig(seq![], seq![Shape::Int], Shape::Vector)),
        ("vector-length"@, sig(seq![], seq![Shape::Vector], Shape::Int)),
        ("vector-get"@, sig(seq![(n + 4) as u64], seq![Shape::Vector, Shape::Int], Shape::Var((n + 4) as u64))),
        ("vector-set"@, sig(seq![(n + 5) as u64], seq![Shape::Vector, Shape::Int, Shape::Var((n + 5) as u64)], Shape::Vector)),
        ("vector-push"@, sig(seq![(n + 6) as u64], seq![Shape::Vector, Shape::Var((n + 6) as u64)], Shape::Vector)),
    ]
}

#[verifier::spinoff_prover]
fn add_refs(env: &mut Vec<(String, TypeScheme)>, n: u64, Ghost(table): Ghost<Seq<(Seq<char>, Scheme)>>)
    requires
        entries_are(old(env)@, table),
        n <= u64::MAX - 23,
    ensures
        entries_are(final(env)@, table + builtin_refs(n)),
{
    let ghost mut t = table;
    let vars: Vec<u64> = vec![n + 1];
    let params: Vec<Shape> = vec![Shape::Var(n + 1)];
    assert(vars@ =~= seq![(n + 1) as u64]);
    assert(params@ =~= seq![Shape::Var((n + 1) as u64)]);
    add_sig(env, "ref-new", vars, params, Shape::RefOf(n + 1), Ghost(t));
    proof {
        t = t.push(("ref-new"@, sig(seq![(n + 1) as u64], seq![Shape::Var((n + 1) as u64)], Shape::RefOf((n + 1) as u64))));
    }
    let vars: Vec<u64> = vec![n + 2];
    let params: Vec<Shape> = vec![Shape::RefOf(n + 2)];
    assert(vars@ =~= seq![(n + 2) as u64]);
    assert(params@ =~= seq![Shape::RefOf((n + 2) as u64)]);
    add_sig(env, "ref-get", vars, params, Shape::Var(n + 2), Ghost(t));
    proof {
        t = t.push(("ref-get"@, sig(seq![(n + 2) as u64], seq![Shape::RefOf((n + 2) as u64)], Shape::Var((n + 2) as u64))));
    }
    let vars: Vec<u64> = vec![n + 3];
    let params: Vec<Shape> = vec![Shape::RefOf(n + 3), Shape::Var(n + 3)];
    assert(vars@ =~= seq![(n + 3) as u64]);
    assert(params@ =~= seq![Shape::RefOf((n + 3) as u64), Shape::Var((n + 3) as u64)]);
    add_sig(env, "ref-set", vars, params, Shape::Unit, Ghost(t));
    proof {
        t = t.push(("ref-set"@, sig(seq![(n + 3) as u64], seq![Shape::RefOf((n + 3) as u64), Shape::Var((n + 3) as u64)], Shape::Unit)));
    }
    let vars: Vec<u64> = Vec::new();
    let params: Vec<Shape> = vec![Shape::Int];
    assert(vars@ =~= Seq::<u64>::empty());
    assert(params@ =~= seq![Shape::Int]);
    add_sig(env, "vector-new", vars, params, Shape::Vector, Ghost(t));
    proof {
        t = t.push(("vector-new"@, sig(seq![], seq![Shape::Int], Shape::Vector)));
    }
    let vars: Vec<u64> = Vec::new();
    let params: Vec<Shape> = vec![Shape::Vector];
    assert(vars@ =~= Seq::<u64>::empty());
    assert(params@ =~= seq![Shape::Vector]);
    add_sig(env, "vector-length", vars, params, Shape::Int, Ghost(t));
    proof {
        t = t.push(("vector-length"@, sig(seq![], seq![Shape::Vector], Shape::Int)));
    }
    let vars: Vec<u64> = vec![n + 4];
    let params: Vec<Shape> = vec![Shape::Vector, Shape::Int];
    assert(vars@ =~= seq![(n + 4) as u64]);
    assert(params@ =~= seq![Shape::Vector, Shape::Int]);
    add_sig(env, "vector-get", vars, params, Shape::Var(n + 4), Ghost(t));
    proof {
        t = t.push(("vector-get"@, sig(seq![(n + 4) as u64], seq![Shape::Vector, Shape::Int], Shape::Var((n + 4) as u64))));
    }
    let vars: Vec<u64> = vec![n + 5];
    let params: Vec<Shape> = vec![Shape::Vector, Shape::Int, Shape::Var(n + 5)];
    assert(vars@ =~= seq![(n + 5) as u64]);
    assert(params@ =~= seq![Shape::Vector, Shape::Int, Shape::Var((n + 5) as u64)]);
    add_sig(env, "vector-set", vars, params, Shape::Vector, Ghost(t));
    proof {
        t = t.push(("vector-set"@, sig(seq![(n + 5) as u64], seq![Shape::Vector, Shape::Int, Shape::Var((n + 5) as u64)], Shape::Vector)));
    }
    let vars: Vec<u64> = vec![n + 6];
    let params: Vec<Shape> = vec![Shape::Vector, Shape::Var(n + 6)];
    assert(vars@ =~= seq![(n + 6) as u64]);
    assert(params@ =~= seq![Shape::Vector, Shape::Var((n + 6) as u64)]);
    add_sig(env, "vector-push", vars, params, Shape::Vector, Ghost(t));
    proof {
        t = t.push(("vector-push"@, sig(seq![(n + 6) as u64], seq![Shape::Vector, Shape::Var((n + 6) as u64)], Shape::Vector)));
    }
    assert(t =~= table + builtin_refs(n));
}

/// The built-in signatures of the `maps` group, with type variables
/// numbered from `n`.
pub open spec fn builtin_maps(n: u64) -> Seq<(Seq<char>, Scheme)> {
    seq![
        ("map-new"@, sig(seq![], seq![], Shape::Dict)),
        ("map-size"@, sig(seq![], seq![Shape::Dict], Shape::Int)),
        ("map-insert"@, sig(seq![(n + 7) as u64, (n + 8) as u64], seq![Shape::Dict, Shape::Var((n + 7) as u64), Shape::Var((n + 8) as u64)], Shape::Dict)),
        ("map-get"@, sig(seq![(n + 9) as u64, (n + 10) as u64], seq![Shape::Dict, Shape::Var((n + 9) as u64)], Shape::Var((n + 10) as u64))),
        ("map-contains?"@, sig(seq![(n + 11) as u64], seq![Shape::Dict, Shape::Var((n + 11) as u64)], Shape::Bool)),
        ("map-remove"@, sig(seq![(n + 12) as u64], seq![Shape::Dict, Shape::Var((n + 12) as u64)], Shape::Dict)),
    ]
}

#[verifier::spinoff_prover]
fn add_maps(env: &mut Vec<(String, TypeScheme)>, n: u64, Ghost(table): Ghost<Seq<(Seq<char>, Scheme)>>)
    requires
        entries_are(old(env)@, table),
        n <= u64::MAX - 23,
    ensures
        entries_are(final(env)@, table + builtin_maps(n)),
{
    let ghost mut t = table;
    let vars: Vec<u64> = Vec::new();
    let params: Vec<Shape> = Vec::new();
    assert(vars@ =~= Seq::<u64>::empty());
    assert(params@ =~= Seq::<Shape>::empty());
    add_sig(env, "map-new", vars, params, Shape::Dict, Ghost(t));
    proof {
        t = t.push(("map-new"@, sig(seq![], seq![], Shape::Dict)));
    }
    let vars: Vec<u64> = Vec::new();
    let params: Vec<Shape> = vec![Shape::Dict];
    assert(vars@ =~= Seq::<u64>::empty());
    assert(params@ =~= seq![Shape::Dict]);
    add_sig(env, "map-size", vars, params, Shape::Int, Ghost(t));
    proof {
        t = t.push(("map-size"@, sig(seq![], seq![Shape::Dict], Shape::Int)));
    }
    let vars: Vec<u64> = vec![n + 7, n + 8];
    let params: Vec<Shape> = vec![Shape::Dict, Shape::Var(n + 7), Shape::Var(n + 8)];
    assert(vars@ =~= seq![(n + 7) as u64, (n + 8) as u64]);
    assert(params@ =~= seq![Shape::Dict, Shape::Var((n + 7) as u64), Shape::Var((n + 8) as u64)]);
    add_sig(env, "map-insert", vars, params, Shape::Dict, Ghost(t));
    proof {
        t = t.push(("map-insert"@, sig(seq![(n + 7) as u64, (n + 8) as u64], seq![Shape::Dict, Shape::Var((n + 7) as u64), Shape::Var((n + 8) as u64)], Shape::Dict)));
    }
    let vars: Vec<u64> = vec![n + 9, n + 10];
    let params: Vec<Shape> = vec![Shape::Dict, Shape::Var(n + 9)];
    assert(vars@ =~= seq![(n + 9) as u64, (n + 10) as u64]);
    assert(params@ =~= seq![Shape::Dict, Shape::Var((n + 9) as u64)]);
    add_sig(env, "map-get", vars, params, Shape::Var(n + 10), Ghost(t));
    proof {
        t = t.push(("map-get"@, sig(seq![(n + 9) as u64, (n + 10) as u64], seq![Shape::Dict, Shape::Var((n + 9) as u64)], Shape::Var((n + 10) as u64))));
    }
    let vars: Vec<u64> = vec![n + 11];
    let params: Vec<Shape> = vec![Shape::Dict, Shape::Var(n + 11)];
    assert(vars@ =~= seq![(n + 11) as u64]);
    assert(params@ =~= seq![Shape::Dict, Shape::Var((n + 11) as u64)]);
    add_sig(env, "map-contains?", vars, params, Shape::Bool, Ghost(t));
    proof {
        t = t.push(("map-contains?"@, sig(seq![(n + 11) as u64], seq![Shape::Dict, Shape::Var((n + 11) as u64)], Shape::Bool)));
    }
    let vars: Vec<u64> = vec![n + 12];
    let params: Vec<Shape> = vec![Shape::Dict, Shape::Var(n + 12)];
    assert(vars@ =~= seq![(n + 12) as u64]);
    assert(params@ =~= seq![Shape::Dict, Shape::Var((n + 12) as u64)]);
    add_sig(env, "map-remove", vars, params, Shape::Dict, Ghost(t));
    proof {
        t = t.push(("map-remove"@, sig(seq![(n + 12) as u64], seq![Shape::Dict, Shape::Var((n + 12) as u64)], Shape::Dict)));
    }
    assert(t =~= table + builtin_maps(n));
}

/// The built-in signatures of the `system` group, with type variables
/// numbered from `n`.
pub open spec fn builtin_system(n: u64) -> Seq<(Seq<char>, Scheme)> {
    seq![
        ("read-file"@, sig(seq![], seq![Shape::Str], Shape::Str)),
        ("write-file"@, sig(seq![], seq![Shape::Str, Shape::Str], Shape::Int)),
        ("write-file-bytes"@, sig(seq![], seq![Shape::Str, Shape::Vector], Shape::Int)),
        ("file-exists?"@, sig(seq![], seq![Shape::Str], Shape::Bool)),
        ("command-line-args"@, sig(seq![], seq![], Shape::Int)),
        ("command-line-arg"@, sig(seq![], seq![Shape::Int], Shape::Str)),
        ("read-stdin"@, sig(seq![], seq![], Shape::Str)),
        ("root_push"@, sig(seq![(n + 13) as u64], seq![Shape::Var((n + 13) as u64)], Shape::Int)),
        ("root_pop"@, sig(seq![(n + 14) as u64], seq![], Shape::Var((n + 14) as u64))),
        ("root_set"@, sig(seq![(n + 15) as u64], seq![Shape::Int, Shape::Var((n + 15) as u64)], Shape::Int)),
        ("not"@, sig(seq![], seq![Shape::Bool], Shape::Bool)),
        ("and"@, sig(seq![], seq![Shape::Bool, Shape::Bool], Shape::Bool)),
        ("or"@, sig(seq![], seq![Shape::Bool, Shape::Bool], Shape::Bool)),
    ]
}

#[verifier::spinoff_prover]
fn add_system(env: &mut Vec<(String, TypeScheme)>, n: u64, Ghost(table): Ghost<Seq<(Seq<char>, Scheme)>>)
    requires
        entries_are(old(env)@, table),
        n <= u64::MAX - 23,
    ensures
        entries_are(final(env)@, table + builtin_system(n)),
{
    let ghost mut t = table;
    let vars: Vec<u64> = Vec::new();
    let params: Vec<Shape> = vec![Shape::Str];
    assert(vars@ =~= Seq::<u64>::empty());
    assert(params@ =~= seq![Shape::Str]);
    add_sig(env, "read-file", vars, params, Shape::Str, Ghost(t));
    proof {
        t = t.push(("read-file"@, sig(seq![], seq![Shape::Str], Shape::Str)));
    }
    let vars: Vec<u64> = Vec::new();
    let params: Vec<Shape> = vec![Shape::Str, Shape::Str];
    assert(vars@ =~= Seq::<u64>::empty());
    assert(params@ =~= seq![Shape::Str, Shape::Str]);
    add_sig(env, "write-file", vars, params, Shape::Int, Ghost(t));
    proof {
        t = t.push(("write-file"@, sig(seq![], seq![Shape::Str, Shape::Str], Shape::Int)));
    }
    let vars: Vec<u64> = Vec::new();
    let params: Vec<Shape> = vec![Shape::Str, Shape::Vector];
    assert(vars@ =~= Seq::<u64>::empty());
    assert(params@ =~= seq![Shape::Str, Shape::Vector]);
    add_sig(env, "write-file-bytes", vars, params, Shape::Int, Ghost(t));
    proof {
        t = t.push(("write-file-bytes"@, sig(seq![], seq![Shape::Str, Shape::Vector], Shape::Int)));
    }
    let vars: Vec<u64> = Vec::new();
    let params: Vec<Shape> = vec![Shape::Str];
    assert(vars@ =~= Seq::<u64>::empty());
    assert(params@ =~= seq![Shape::Str]);
    add_sig(env, "file-exists?", vars, params, Shape::Bool, Ghost(t));
    proof {
        t = t.push(("file-exists?"@, sig(seq![], seq![Shape::Str], Shape::Bool)));
    }
    let vars: Vec<u64> = Vec::new();
    let params: Vec<Shape> = Vec::new();
    assert(vars@ =~= Seq::<u64>::empty());
    assert(params@ =~= Seq::<Shape>::empty());
    add_sig(env, "command-line-args", vars, params, Shape::Int, Ghost(t));
    proof {
        t = t.push(("command-line-args"@, sig(seq![], seq![], Shape::Int)));
    }
    let vars: Vec<u64> = Vec::new();
    let params: Vec<Shape> = vec![Shape::Int];
    assert(vars@ =~= Seq::<u64>::empty());
    assert(params@ =~= seq![Shape::Int]);
    add_sig(env, "command-line-arg", vars, params, Shape::Str, Ghost(t));
    proof {
        t = t.push(("command-line-arg"@, sig(seq![], seq![Shape::Int], Shape::Str)));
    }
    let vars: Vec<u64> = Vec::new();
    let params: Vec<Shape> = Vec::new();
    assert(vars@ =~= Seq::<u64>::empty());
    assert(params@ =~= Seq::<Shape>::empty());
    add_sig(env, "read-stdin", vars, params, Shape::Str, Ghost(t));
    proof {
        t = t.push(("read-stdin"@, sig(seq![], seq![], Shape::Str)));
    }
    let vars: Vec<u64> = vec![n + 13];
    let params: Vec<Shape> = vec![Shape::Var(n + 13)];
    assert(vars@ =~= seq![(n + 13) as u64]);
    assert(params@ =~= seq![Shape::Var((n + 13) as u64)]);
    add_sig(env, "root_push", vars, params, Shape::Int, Ghost(t));
    proof {
        t = t.push(("root_push"@, sig(seq![(n + 13) as u64], seq![Shape::Var((n + 13) as u64)], Shape::Int)));
    }
    let vars: Vec<u64> = vec![n + 14];
    let params: Vec<Shape> = Vec::new();
    assert(vars@ =~= seq![(n + 14) as u64]);
    assert(params@ =~= Seq::<Shape>::empty());
    add_sig(env, "root_pop", vars, params, Shape::Var(n + 14), Ghost(t));
    proof {
        t = t.push(("root_pop"@, sig(seq![(n + 14) as u64], seq![], Shape::Var((n + 14) as u64))));
    }
    let vars: Vec<u64> = vec![n + 15];
    let params: Vec<Shape> = vec![Shape::Int, Shape::Var(n + 15)];
    assert(vars@ =~= seq![(n + 15) as u64]);
    assert(params@ =~= seq![Shape::Int, Shape::Var((n + 15) as u64)]);
    add_sig(env, "root_set", vars, params, Shape::Int, Ghost(t));
    proof {
        t = t.push(("root_set"@, sig(seq![(n + 15) as u64], seq![Shape::Int, Shape::Var((n + 15) as u64)], Shape::Int)));
    }
    let vars: Vec<u64> = Vec::new();
    let params: Vec<Shape> = vec![Shape::Bool];
    assert(vars@ =~= Seq::<u64>::empty());
    assert(params@ =~= seq![Shape::Bool]);
    add_sig(env, "not", vars, params, Shape::Bool, Ghost(t));
    proof {
        t = t.push(("not"@, sig(seq![], seq![Shape::Bool], Shape::Bool)));
    }
    let vars: Vec<u64> = Vec::new();
    let params: Vec<Shape> = vec![Shape::Bool, Shape::Bool];
    assert(vars@ =~= Seq::<u64>::empty());
    assert(params@ =~= seq![Shape::Bool, Shape::Bool]);
    add_sig(env, "and", vars, params, Shape::Bool, Ghost(t));
    proof {
        t = t.push(("and"@, sig(seq![], seq![Shape::Bool, Shape::Bool], Shape::Bool)));
    }
    let vars: Vec<u64> = Vec::new();
    let params: Vec<Shape> = vec![Shape::Bool, Shape::Bool];
    assert(vars@ =~= Seq::<u64>::empty());
    assert(params@ =~= seq![Shape::Bool, Shape::Bool]);
    add_sig(env, "or", vars, params, Shape::Bool, Ghost(t));
    proof {
        t = t.push(("or"@, sig(seq![], seq![Shape::Bool, Shape::Bool], Shape::Bool)));
    }
    assert(t =~= table + builtin_system(n));
}

/// The built-in operators and functions with their schemes, in the order
/// they are registered; type variables are numbered from `n`.
pub open spec fn builtin_table(n: u64) -> Seq<(Seq<char>, Scheme)> {
    builtin_arith(n) + builtin_strings(n) + builtin_refs(n) + builtin_maps(n) + builtin_system(n)
}

/// A built-in trait: its name, its type parameter and its methods.
pub struct TraitInfo {
    pub name: String,
    pub type_param: u64,
    pub methods: Vec<(String, TypeScheme)>,
}

/// The shape of a trait: name, type parameter and method schemes.
pub struct TraitShape {
    pub name: Seq<char>,
    pub type_param: u64,
    pub methods: Seq<(Seq<char>, Scheme)>,
}

/// Whether the trait `t` has the shape `v`.
pub open spec fn trait_is(t: TraitInfo, v: TraitShape) -> bool {
    t.name@ == v.name && t.type_param == v.type_param && entries_are(t.methods@, v.methods)
}

/// `fmap : (a -> b) -> f a -> f b` of `Functor f`.
pub open spec fn functor_shape(n: u64) -> TraitShape {
    let f = (n + 16) as u64;
    let a = (n + 17) as u64;
    let b = (n + 18) as u64;
    TraitShape {
        name: "Functor"@,
        type_param: f,
        methods: seq![
            (
                "fmap"@,
                Scheme {
                    vars: seq![f, a, b],
                    constraints: seq![("Functor"@, f)],
                    ty: fun_t(
                        seq![fun_t(seq![Ty::Var(a)], Ty::Var(b)), Ty::App("__f__"@, seq![Ty::Var(a)])],
                        Ty::App("__f__"@, seq![Ty::Var(b)]),
                    ),
                },
            ),
        ],
    }
}

/// `bind : m a -> (a -> m b) -> m b` and `pure : a -> m a` of `Monad m`.
pub open spec fn monad_shape(n: u64) -> TraitShape {
    let m = (n + 19) as u64;
    let a = (n + 20) as u64;
    let b = (n + 21) as u64;
    let a2 = (n + 22) as u64;
    TraitShape {
        name: "Monad"@,
        type_param: m,
        methods: seq![
            (
                "bind"@,
                Scheme {
                    vars: seq![m, a, b],
                    constraints: seq![("Monad"@, m)],
                    ty: fun_t(
                        seq![
                            Ty::App("__m__"@, seq![Ty::Var(a)]),
                            fun_t(seq![Ty::Var(a)], Ty::App("__m__"@, seq![Ty::Var(b)])),
                        ],
                        Ty::App("__m__"@, seq![Ty::Var(b)]),
                    ),
                },
            ),
            (
                "pure"@,
                Scheme {
                    vars: seq![m, a2],
                    constraints: seq![("Monad"@, m)],
                    ty: fun_t(seq![Ty::Var(a2)], Ty::App("__m__"@, seq![Ty::Var(a2)])),
                },
            ),
        ],
    }
}

/// The kinds of the built-in types and traits, in the order they are
/// registered.
pub open spec fn builtin_kinds() -> Seq<(Seq<char>, Kind)> {
    seq![
        ("Int"@, Kind::Star),
        ("Float"@, Kind::Star),
        ("String"@, Kind::Star),
        ("Bool"@, Kind::Star),
        ("Unit"@, Kind::Star),
        ("Functor"@, Kind::Arrow(Box::new(Kind::Star), Box::new(Kind::Star))),
        ("Monad"@, Kind::Arrow(Box::new(Kind::Star), Box::new(Kind::Star))),
    ]
}

/// The one-element list of types.
pub open spec fn ty1(v: Ty) -> Seq<Ty> {
    seq![v]
}

/// The two-element list of types.
pub open spec fn ty2(a: Ty, b: Ty) -> Seq<Ty> {
    seq![a, b]
}

fn one_type(a: Type, Ghost(va): Ghost<Ty>) -> (v: Vec<Type>)
    requires
        type_is(a, va),
    ensures
        all_are(v@, ty1(va)),
{
    let mut v: Vec<Type> = Vec::new();
    v.push(a);
    assert(v@[0] == a);
    v
}

fn two_types(a: Type, b: Type, Ghost(va): Ghost<Ty>, Ghost(vb): Ghost<Ty>) -> (v: Vec<Type>)
    requires
        type_is(a, va),
        type_is(b, vb),
    ensures
        all_are(v@, ty2(va, vb)),
{
    let mut v: Vec<Type> = Vec::new();
    v.push(a);
    v.push(b);
    assert(v@[0] == a && v@[1] == b);
    v
}

fn app_of(name: &str, args: Vec<Type>, Ghost(vargs): Ghost<Seq<Ty>>) -> (t: Type)
    requires
        all_are(args@, vargs),
    ensures
        type_is(t, Ty::App(name@, vargs)),
{
    Type::App(owned(name), args)
}

fn fun_of(params: Vec<Type>, ret: Type, Ghost(vps): Ghost<Seq<Ty>>, Ghost(vr): Ghost<Ty>) -> (t: Type)
    requires
        all_are(params@, vps),
        type_is(ret, vr),
    ensures
        type_is(t, fun_t(vps, vr)),
{
    Type::Fun(params, Box::new(ret))
}

fn constraint_of(trait_name: &str, type_var: u64) -> (r: Vec<TraitConstraint>)
    ensures
        r@.len() == 1,
        r@[0].trait_name@ == trait_name@,
        r@[0].type_var == type_var,
{
    let mut r: Vec<TraitConstraint> = Vec::new();
    r.push(TraitConstraint { trait_name: owned(trait_name), type_var });
    r
}

fn var_list(a: u64, b: u64, c: Option<u64>) -> (r: Vec<u64>)
    ensures
        r@ == match c {
            Some(x) => seq![a, b, x],
            None => seq![a, b],
        },
{
    let mut r: Vec<u64> = Vec::new();
    r.push(a);
    r.push(b);
    if let Some(x) = c {
        r.push(x);
    }
    assert(r@ =~= match c {
        Some(x) => seq![a, b, x],
        None => seq![a, b],
    });
    r
}

fn single_method(name: &str, scheme: TypeScheme, Ghost(v): Ghost<Scheme>) -> (r: Vec<(String, TypeScheme)>)
    requires
        scheme_is(scheme, v),
    ensures
        entries_are(r@, seq![(name@, v)]),
{
    let mut r: Vec<(String, TypeScheme)> = Vec::new();
    r.push((owned(name), scheme));
    r
}

#[verifier::spinoff_prover]
fn functor_trait(n: u64) -> (t: TraitInfo)
    requires
        n <= u64::MAX - 23,
    ensures
        trait_is(t, functor_shape(n)),
{
    let f = n + 16;
    let a = n + 17;
    let b = n + 18;
    let ghost shape = functor_shape(n);
    let ghost fmap = shape.methods[0].1;
    let ab = fun_of(one_type(Type::Var(a), Ghost(Ty::Var(a))), Type::Var(b), Ghost(ty1(Ty::Var(a))), Ghost(Ty::Var(b)));
    let fa = app_of("__f__", one_type(Type::Var(a), Ghost(Ty::Var(a))), Ghost(ty1(Ty::Var(a))));
    let fb = app_of("__f__", one_type(Type::Var(b), Ghost(Ty::Var(b))), Ghost(ty1(Ty::Var(b))));
    let ghost vab = fun_t(seq![Ty::Var(a)], Ty::Var(b));
    let ghost vfa = Ty::App("__f__"@, seq![Ty::Var(a)]);
    let ghost vfb = Ty::App("__f__"@, seq![Ty::Var(b)]);
    let ty = fun_of(two_types(ab, fa, Ghost(vab), Ghost(vfa)), fb, Ghost(ty2(vab, vfa)), Ghost(vfb));
    let scheme = TypeScheme { vars: var_list(f, a, Some(b)), constraints: constraint_of("Functor", f), ty };
    assert(scheme_is(scheme, fmap));
    TraitInfo { name: owned("Functor"), type_param: f, methods: single_method("fmap", scheme, Ghost(fmap)) }
}

#[verifier::spinoff_prover]
fn monad_trait(n: u64) -> (t: TraitInfo)
    requires
        n <= u64::MAX - 23,
    ensures
        trait_is(t, monad_shape(n)),
{
    let m = n + 19;
    let a = n + 20;
    let b = n + 21;
    let a2 = n + 22;
    let ghost shape = monad_shape(n);
    let ghost bind = shape.methods[0].1;
    let ghost pure = shape.methods[1].1;
    let ghost vma = Ty::App("__m__"@, seq![Ty::Var(a)]);
    let ghost vmb = Ty::App("__m__"@, seq![Ty::Var(b)]);
    let ghost vk = fun_t(seq![Ty::Var(a)], vmb);
    let ma = app_of("__m__", one_type(Type::Var(a), Ghost(Ty::Var(a))), Ghost(ty1(Ty::Var(a))));
    let mb1 = app_of("__m__", one_type(Type::Var(b), Ghost(Ty::Var(b))), Ghost(ty1(Ty::Var(b))));
    let k = fun_of(one_type(Type::Var(a), Ghost(Ty::Var(a))), mb1, Ghost(ty1(Ty::Var(a))), Ghost(vmb));
    let mb2 = app_of("__m__", one_type(Type::Var(b), Ghost(Ty::Var(b))), Ghost(ty1(Ty::Var(b))));
    let bind_ty = fun_of(two_types(ma, k, Ghost(vma), Ghost(vk)), mb2, Ghost(ty2(vma, vk)), Ghost(vmb));
    let bind_scheme = TypeScheme { vars: var_list(m, a, Some(b)), constraints: constraint_of("Monad", m), ty: bind_ty };
    assert(scheme_is(bind_scheme, bind));
    let ghost vma2 = Ty::App("__m__"@, seq![Ty::Var(a2)]);
    let ma2 = app_of("__m__", one_type(Type::Var(a2), Ghost(Ty::Var(a2))), Ghost(ty1(Ty::Var(a2))));
    let pure_ty = fun_of(one_type(Type::Var(a2), Ghost(Ty::Var(a2))), ma2, Ghost(ty1(Ty::Var(a2))), Ghost(vma2));
    let pure_scheme = TypeScheme { vars: var_list(m, a2, None), constraints: constraint_of("Monad", m), ty: pure_ty };
    assert(scheme_is(pure_scheme, pure));
    let mut methods: Vec<(String, TypeScheme)> = Vec::new();
    methods.push((owned("bind"), bind_scheme));
    methods.push((owned("pure"), pure_scheme));
    let t = TraitInfo { name: owned("Monad"), type_param: m, methods };
    assert(entries_are(t.methods@, shape.methods)) by {
        assert(t.methods@.len() == 2);
        assert forall|i: int| 0 <= i < 2 implies (#[trigger] t.methods@[i]).0@ == shape.methods[i].0
            && scheme_is(t.methods@[i].1, shape.methods[i].1) by {
            if i == 0 {
                assert(t.methods@[0].1 == bind_scheme);
            } else {
                assert(t.methods@[1].1 == pure_scheme);
            }
        }
    }
    t
}

/// The built-in environment with its traits and kinds, and the next free
/// type variable.
pub struct BuiltinEnv {
    pub env: Vec<(String, TypeScheme)>,
    pub traits: Vec<TraitInfo>,
    pub kinds: Vec<(String, Kind)>,
    pub next_var: u64,
}

fn kind_entries() -> (r: Vec<(String, Kind)>)
    ensures
        r@.len() == builtin_kinds().len(),
        forall|i: int|
            0 <= i < r@.len() ==> (#[trigger] r@[i]).0@ == builtin_kinds()[i].0 && r@[i].1
                == builtin_kinds()[i].1,
{
    let mut r: Vec<(String, Kind)> = Vec::new();
    r.push((owned("Int"), Kind::star()));
    r.push((owned("Float"), Kind::star()));
    r.push((owned("String"), Kind::star()));
    r.push((owned("Bool"), Kind::star()));
    r.push((owned("Unit"), Kind::star()));
    r.push((owned("Functor"), Kind::unary()));
    r.push((owned("Monad"), Kind::unary()));
    r
}

/// The built-in type environment, with type variables numbered from
/// `first_var`: the schemes of the built-in operators and functions (see
/// [`builtin_table`]), the traits `Functor` and `Monad`, the kinds of the
/// built-in types and traits, and the next free type variable.
pub fn builtin_env(first_var: u64) -> (r: BuiltinEnv)
    requires
        first_var <= u64::MAX - 23,
    ensures
        entries_are(r.env@, builtin_table(first_var)),
        r.traits@.len() == 2,
        trait_is(r.traits@[0], functor_shape(first_var)),
        trait_is(r.traits@[1], monad_shape(first_var)),
        r.kinds@.len() == builtin_kinds().len(),
        forall|i: int|
            0 <= i < r.kinds@.len() ==> (#[trigger] r.kinds@[i]).0@ == builtin_kinds()[i].0
                && r.kinds@[i].1 == builtin_kinds()[i].1,
        r.next_var == first_var + 23,
{
    let n = first_var;
    let mut env: Vec<(String, TypeScheme)> = Vec::new();
    let ghost empty = Seq::<(Seq<char>, Scheme)>::empty();
    add_arith(&mut env, n, Ghost(empty));
    assert(empty + builtin_arith(n) =~= builtin_arith(n));
    add_strings(&mut env, n, Ghost(builtin_arith(n)));
    add_refs(&mut env, n, Ghost(builtin_arith(n) + builtin_strings(n)));
    add_maps(&mut env, n, Ghost(builtin_arith(n) + builtin_strings(n) + builtin_refs(n)));
    add_system(
        &mut env,
        n,
        Ghost(builtin_arith(n) + builtin_strings(n) + builtin_refs(n) + builtin_maps(n)),
    );
    let mut traits: Vec<TraitInfo> = Vec::new();
    traits.push(functor_trait(n));
    traits.push(monad_trait(n));
    BuiltinEnv { env, traits, kinds: kind_entries(), next_var: n + 23 }
}

/// The scheme of the first entry named `name`, if any.
pub open spec fn scheme_named(table: Seq<(Seq<char>, Scheme)>, name: Seq<char>) -> Option<Scheme>
    decreases table.len(),
{
    if table.len() == 0 {
        None
    } else if table[0].0 == name {
        Some(table[0].1)
    } else {
        scheme_named(table.drop_first(), name)
    }
}

proof fn lemma_scheme_named_concat(a: Seq<(Seq<char>, Scheme)>, b: Seq<(Seq<char>, Scheme)>, name: Seq<char>)
    requires
        scheme_named(a, name) is Some,
    ensures
        scheme_named(a + b, name) == scheme_named(a, name),
    decreases a.len(),
{
    if a[0].0 != name {
        assert((a + b).drop_first() =~= a.drop_first() + b);
        lemma_scheme_named_concat(a.drop_first(), b, name);
    }
}

/// Whether `s` is the monomorphic scheme `(x, x) -> y` of the named types.
pub open spec fn is_binary_mono(s: Scheme, x: Seq<char>, y: Seq<char>) -> bool {
    &&& s.vars.len() == 0
    &&& s.constraints.len() == 0
    &&& s.ty matches Ty::Fun(ps, r) && ps.len() == 2 && ps[0] == Ty::Con(x) && ps[1] == Ty::Con(x)
        && *r == Ty::Con(y)
}

/// The first entry named `op` among the arithmetic and comparison
/// operators is the first entry named `op` in the whole table.
proof fn lemma_arith_lookup(n: u64, op: Seq<char>)
    requires
        scheme_named(builtin_arith(n), op) is Some,
    ensures
        scheme_named(builtin_table(n), op) == scheme_named(builtin_arith(n), op),
{
    let arith = builtin_arith(n);
    lemma_scheme_named_concat(arith, builtin_strings(n), op);
    lemma_scheme_named_concat(arith + builtin_strings(n), builtin_refs(n), op);
    lemma_scheme_named_concat(arith + builtin_strings(n) + builtin_refs(n), builtin_maps(n), op);
    lemma_scheme_named_concat(
        arith + builtin_strings(n) + builtin_refs(n) + builtin_maps(n),
        builtin_system(n),
        op,
    );
}

proof fn lemma_scheme_named_at(table: Seq<(Seq<char>, Scheme)>, name: Seq<char>, k: int)
    requires
        0 <= k < table.len(),
        table[k].0 == name,
        forall|j: int| 0 <= j < k ==> (#[trigger] table[j]).0 != name,
    ensures
        scheme_named(table, name) == Some(table[k].1),
    decreases k,
{
    if k > 0 {
        assert(table[0].0 != name);
        assert forall|j: int| 0 <= j < k - 1 implies (#[trigger] table.drop_first()[j]).0 != name by {
            assert(table.drop_first()[j] == table[j + 1]);
        }
        lemma_scheme_named_at(table.drop_first(), name, k - 1);
    }
}

proof fn lemma_binary_sig(p: Shape, r: Shape, x: Seq<char>, y: Seq<char>)
    requires
        shape_ty(p) == Ty::Con(x),
        shape_ty(r) == Ty::Con(y),
    ensures
        is_binary_mono(sig(seq![], seq![p, p], r), x, y),
{
    let ps = seq![p, p].map_values(|q: Shape| shape_ty(q));
    assert(ps.len() == 2 && ps[0] == Ty::Con(x) && ps[1] == Ty::Con(x));
}

#[verifier::spinoff_prover]
proof fn lemma_op_5(n: u64)
    requires
        n <= u64::MAX - 23,
    ensures
        scheme_named(builtin_table(n), "<"@) matches Some(s) && is_binary_mono(s, "Int"@, "Bool"@),
{
    reveal_strlit("%");
    reveal_strlit("*");
    reveal_strlit("+");
    reveal_strlit("-");
    reveal_strlit("/");
    reveal_strlit("<");
    reveal_strlit("Int");
    reveal_strlit("Bool");
    let arith = builtin_arith(n);
    let op = "<"@;
    assert(arith[5] == (op, sig(seq![], seq![Shape::Int, Shape::Int], Shape::Bool)));
    assert(arith[0].0 == "+"@);
    assert("+"@[0] != "<"@[0]);
    assert(arith[0].0 != op);
    assert(arith[1].0 == "-"@);
    assert("-"@[0] != "<"@[0]);
    assert(arith[1].0 != op);
    assert(arith[2].0 == "*"@);
    assert("*"@[0] != "<"@[0]);
    assert(arith[2].0 != op);
    assert(arith[3].0 == "/"@);
    assert("/"@[0] != "<"@[0]);
    assert(arith[3].0 != op);
    assert(arith[4].0 == "%"@);
    assert("%"@[0] != "<"@[0]);
    assert(arith[4].0 != op);
    lemma_scheme_named_at(arith, op, 5);
    lemma_binary_sig(Shape::Int, Shape::Bool, "Int"@, "Bool"@);
    lemma_arith_lookup(n, op);
}

#[verifier::spinoff_prover]
proof fn lemma_op_6(n: u64)
    requires
        n <= u64::MAX - 23,
    ensures
        scheme_named(builtin_table(n), ">"@) matches Some(s) && is_binary_mono(s, "Int"@, "Bool"@),
{
    reveal_strlit("%");
    reveal_strlit("*");
    reveal_strlit("+");
    reveal_strlit("-");
    reveal_strlit("/");
    reveal_strlit("<");
    reveal_strlit(">");
    reveal_strlit("Int");
    reveal_strlit("Bool");
    let arith = builtin_arith(n);
    let op = ">"@;
    assert(arith[6] == (op, sig(seq![], seq![Shape::Int, Shape::Int], Shape::Bool)));
    assert(arith[0].0 == "+"@);
    assert("+"@[0] != ">"@[0]);
    assert(arith[0].0 != op);
    assert(arith[1].0 == "-"@);
    assert("-"@[0] != ">"@[0]);
    assert(arith[1].0 != op);
    assert(arith[2].0 == "*"@);
    assert("*"@[0] != ">"@[0]);
    assert(arith[2].0 != op);
    assert(arith[3].0 == "/"@);
    assert("/"@[0] != ">"@[0]);
    assert(arith[3].0 != op);
    assert(arith[4].0 == "%"@);
    assert("%"@[0] != ">"@[0]);
    assert(arith[4].0 != op);
    assert(arith[5].0 == "<"@);
    assert("<"@[0] != ">"@[0]);
    assert(arith[5].0 != op);
    lemma_scheme_named_at(arith, op, 6);
    lemma_binary_sig(Shape::Int, Shape::Bool, "Int"@, "Bool"@);
    lemma_arith_lookup(n, op);
}

#[verifier::spinoff_prover]
proof fn lemma_op_7(n: u64)
    requires
        n <= u64::MAX - 23,
    ensures
        scheme_named(builtin_table(n), "<="@) matches Some(s) && is_binary_mono(s, "Int"@, "Bool"@),
{
    reveal_strlit("%");
    reveal_strlit("*");
    reveal_strlit("+");
    reveal_strlit("-");
    reveal_strlit("/");
    reveal_strlit("<");
    reveal_strlit("<=");
    reveal_strlit(">");
    reveal_strlit("Int");
    reveal_strlit("Bool");
    let arith = builtin_arith(n);
    let op = "<="@;
    assert(arith[7] == (op, sig(seq![], seq![Shape::Int, Shape::Int], Shape::Bool)));
    assert(arith[0].0 == "+"@);
    assert("+"@.len() != "<="@.len());
    assert(arith[0].0 != op);
    assert(arith[1].0 == "-"@);
    assert("-"@.len() != "<="@.len());
    assert(arith[1].0 != op);
    assert(arith[2].0 == "*"@);
    assert("*"@.len() != "<="@.len());
    assert(arith[2].0 != op);
    assert(arith[3].0 == "/"@);
    assert("/"@.len() != "<="@.len());
    assert(arith[3].0 != op);
    assert(arith[4].0 == "%"@);
    assert("%"@.len() != "<="@.len());
    assert(arith[4].0 != op);
    assert(arith[5].0 == "<"@);
    assert("<"@.len() != "<="@.len());
    assert(arith[5].0 != op);
    assert(arith[6].0 == ">"@);
    assert(">"@.len() != "<="@.len());
    assert(arith[6].0 != op);
    lemma_scheme_named_at(arith, op, 7);
    lemma_binary_sig(Shape::Int, Shape::Bool, "Int"@, "Bool"@);
    lemma_arith_lookup(n, op);
}

#[verifier::spinoff_prover]
proof fn lemma_op_8(n: u64)
    requires
        n <= u64::MAX - 23,
    ensures
        scheme_named(builtin_table(n), ">="@) matches Some(s) && is_binary_mono(s, "Int"@, "Bool"@),
{
    reveal_strlit("%");
    reveal_strlit("*");
    reveal_strlit("+");
    reveal_strlit("-");
    reveal_strlit("/");
    reveal_strlit("<");
    reveal_strlit("<=");
    reveal_strlit(">");
    reveal_strlit(">=");
    reveal_strlit("Int");
    reveal_strlit("Bool");
    let arith = builtin_arith(n);
    let op = ">="@;
    assert(arith[8] == (op, sig(seq![], seq![Shape::Int, Shape::Int], Shape::Bool)));
    assert(arith[0].0 == "+"@);
    assert("+"@.len() != ">="@.len());
    assert(arith[0].0 != op);
    assert(arith[1].0 == "-"@);
    assert("-"@.len() != ">="@.len());
    assert(arith[1].0 != op);
    assert(arith[2].0 == "*"@);
    assert("*"@.len() != ">="@.len());
    assert(arith[2].0 != op);
    assert(arith[3].0 == "/"@);
    assert("/"@.len() != ">="@.len());
    assert(arith[3].0 != op);
    assert(arith[4].0 == "%"@);
    assert("%"@.len() != ">="@.len());
    assert(arith[4].0 != op);
    assert(arith[5].0 == "<"@);
    assert("<"@.len() != ">="@.len());
    assert(arith[5].0 != op);
    assert(arith[6].0 == ">"@);
    assert(">"@.len() != ">="@.len());
    assert(arith[6].0 != op);
    assert(arith[7].0 == "<="@);
    assert("<="@[0] != ">="@[0]);
    assert(arith[7].0 != op);
    lemma_scheme_named_at(arith, op, 8);
    lemma_binary_sig(Shape::Int, Shape::Bool, "Int"@, "Bool"@);
    lemma_arith_lookup(n, op);
}

#[verifier::spinoff_prover]
proof fn lemma_op_9(n: u64)
    requires
        n <= u64::MAX - 23,
    ensures
        scheme_named(builtin_table(n), "=="@) matches Some(s) && is_binary_mono(s, "Int"@, "Bool"@),
{
    reveal_strlit("%");
    reveal_strlit("*");
    reveal_strlit("+");
    reveal_strlit("-");
    reveal_strlit("/");
    reveal_strlit("<");
    reveal_strlit("<=");
    reveal_strlit("==");
    reveal_strlit(">");
    reveal_strlit(">=");
    reveal_strlit("Int");
    reveal_strlit("Bool");
    let arith = builtin_arith(n);
    let op = "=="@;
    assert(arith[9] == (op, sig(seq![], seq![Shape::Int, Shape::Int], Shape::Bool)));
    assert(arith[0].0 == "+"@);
    assert("+"@.len() != "=="@.len());
    assert(arith[0].0 != op);
    assert(arith[1].0 == "-"@);
    assert("-"@.len() != "=="@.len());
    assert(arith[1].0 != op);
    assert(arith[2].0 == "*"@);
    assert("*"@.len() != "=="@.len());
    assert(arith[2].0 != op);
    assert(arith[3].0 == "/"@);
    assert("/"@.len() != "=="@.len());
    assert(arith[3].0 != op);
    assert(arith[4].0 == "%"@);
    assert("%"@.len() != "=="@.len());
    assert(arith[4].0 != op);
    assert(arith[5].0 == "<"@);
    assert("<"@.len() != "=="@.len());
    assert(arith[5].0 != op);
    assert(arith[6].0 == ">"@);
    assert(">"@.len() != "=="@.len());
    assert(arith[6].0 != op);
    assert(arith[7].0 == "<="@);
    assert("<="@[0] != "=="@[0]);
    assert(arith[7].0 != op);
    assert(arith[8].0 == ">="@);
    assert(">="@[0] != "=="@[0]);
    assert(arith[8].0 != op);
    lemma_scheme_named_at(arith, op, 9);
    lemma_binary_sig(Shape::Int, Shape::Bool, "Int"@, "Bool"@);
    lemma_arith_lookup(n, op);
}

#[verifier::spinoff_prover]
proof fn lemma_op_10(n: u64)
    requires
        n <= u64::MAX - 23,
    ensures
        scheme_named(builtin_table(n), "!="@) matches Some(s) && is_binary_mono(s, "Int"@, "Bool"@),
{
    reveal_strlit("!=");
    reveal_strlit("%");
    reveal_strlit("*");
    reveal_strlit("+");
    reveal_strlit("-");
    reveal_strlit("/");
    reveal_strlit("<");
    reveal_strlit("<=");
    reveal_strlit("==");
    reveal_strlit(">");
    reveal_strlit(">=");
    reveal_strlit("Int");
    reveal_strlit("Bool");
    let arith = builtin_arith(n);
    let op = "!="@;
    assert(arith[10] == (op, sig(seq![], seq![Shape::Int, Shape::Int], Shape::Bool)));
    assert(arith[0].0 == "+"@);
    assert("+"@.len() != "!="@.len());
    assert(arith[0].0 != op);
    assert(arith[1].0 == "-"@);
    assert("-"@.len() != "!="@.len());
    assert(arith[1].0 != op);
    assert(arith[2].0 == "*"@);
    assert("*"@.len() != "!="@.len());
    assert(arith[2].0 != op);
    assert(arith[3].0 == "/"@);
    assert("/"@.len() != "!="@.len());
    assert(arith[3].0 != op);
    assert(arith[4].0 == "%"@);
    assert("%"@.len() != "!="@.len());
    assert(arith[4].0 != op);
    assert(arith[5].0 == "<"@);
    assert("<"@.len() != "!="@.len());
    assert(arith[5].0 != op);
    assert(arith[6].0 == ">"@);
    assert(">"@.len() != "!="@.len());
    assert(arith[6].0 != op);
    assert(arith[7].0 == "<="@);
    assert("<="@[0] != "!="@[0]);
    assert(arith[7].0 != op);
    assert(arith[8].0 == ">="@);
    assert(">="@[0] != "!="@[0]);
    assert(arith[8].0 != op);
    assert(arith[9].0 == "=="@);
    assert("=="@[0] != "!="@[0]);
    assert(arith[9].0 != op);
    lemma_scheme_named_at(arith, op, 10);
    lemma_binary_sig(Shape::Int, Shape::Bool, "Int"@, "Bool"@);
    lemma_arith_lookup(n, op);
}

#[verifier::spinoff_prover]
proof fn lemma_op_11(n: u64)
    requires
        n <= u64::MAX - 23,
    ensures
        scheme_named(builtin_table(n), "="@) matches Some(s) && is_binary_mono(s, "Int"@, "Bool"@),
{
    reveal_strlit("!=");
    reveal_strlit("%");
    reveal_strlit("*");
    reveal_strlit("+");
    reveal_strlit("-");
    reveal_strlit("/");
    reveal_strlit("<");
    reveal_strlit("<=");
    reveal_strlit("=");
    reveal_strlit("==");
    reveal_strlit(">");
    reveal_strlit(">=");
    reveal_strlit("Int");
    reveal_strlit("Bool");
    let arith = builtin_arith(n);
    let op = "="@;
    assert(arith[11] == (op, sig(seq![], seq![Shape::Int, Shape::Int], Shape::Bool)));
    assert(arith[0].0 == "+"@);
    assert("+"@[0] != "="@[0]);
    assert(arith[0].0 != op);
    assert(arith[1].0 == "-"@);
    assert("-"@[0] != "="@[0]);
    assert(arith[1].0 != op);
    assert(arith[2].0 == "*"@);
    assert("*"@[0] != "="@[0]);
    assert(arith[2].0 != op);
    assert(arith[3].0 == "/"@);
    assert("/"@[0] != "="@[0]);
    assert(arith[3].0 != op);
    assert(arith[4].0 == "%"@);
    assert("%"@[0] != "="@[0]);
    assert(arith[4].0 != op);
    assert(arith[5].0 == "<"@);
    assert("<"@[0] != "="@[0]);
    assert(arith[5].0 != op);
    assert(arith[6].0 == ">"@);
    assert(">"@[0] != "="@[0]);
    assert(arith[6].0 != op);
    assert(arith[7].0 == "<="@);
    assert("<="@.len() != "="@.len());
    assert(arith[7].0 != op);
    assert(arith[8].0 == ">="@);
    assert(">="@.len() != "="@.len());
    assert(arith[8].0 != op);
    assert(arith[9].0 == "=="@);
    assert("=="@.len() != "="@.len());
    assert(arith[9].0 != op);
    assert(arith[10].0 == "!="@);
    assert("!="@.len() != "="@.len());
    assert(arith[10].0 != op);
    lemma_scheme_named_at(arith, op, 11);
    lemma_binary_sig(Shape::Int, Shape::Bool, "Int"@, "Bool"@);
    lemma_arith_lookup(n, op);
}

#[verifier::spinoff_prover]
proof fn lemma_op_0(n: u64)
    requires
        n <= u64::MAX - 23,
    ensures
        scheme_named(builtin_table(n), "+"@) matches Some(s) && is_binary_mono(s, "Int"@, "Int"@),
{
    reveal_strlit("+");
    reveal_strlit("Int");
    reveal_strlit("Int");
    let arith = builtin_arith(n);
    let op = "+"@;
    assert(arith[0] == (op, sig(seq![], seq![Shape::Int, Shape::Int], Shape::Int)));

    lemma_scheme_named_at(arith, op, 0);
    lemma_binary_sig(Shape::Int, Shape::Int, "Int"@, "Int"@);
    lemma_arith_lookup(n, op);
}

#[verifier::spinoff_prover]
proof fn lemma_op_1(n: u64)
    requires
        n <= u64::MAX - 23,
    ensures
        scheme_named(builtin_table(n), "-"@) matches Some(s) && is_binary_mono(s, "Int"@, "Int"@),
{
    reveal_strlit("+");
    reveal_strlit("-");
    reveal_strlit("Int");
    reveal_strlit("Int");
    let arith = builtin_arith(n);
    let op = "-"@;
    assert(arith[1] == (op, sig(seq![], seq![Shape::Int, Shape::Int], Shape::Int)));
    assert(arith[0].0 == "+"@);
    assert("+"@[0] != "-"@[0]);
    assert(arith[0].0 != op);
    lemma_scheme_named_at(arith, op, 1);
    lemma_binary_sig(Shape::Int, Shape::Int, "Int"@, "Int"@);
    lemma_arith_lookup(n, op);
}

#[verifier::spinoff_prover]
proof fn lemma_op_2(n: u64)
    requires
        n <= u64::MAX - 23,
    ensures
        scheme_named(builtin_table(n), "*"@) matches Some(s) && is_binary_mono(s, "Int"@, "Int"@),
{
    reveal_strlit("*");
    reveal_strlit("+");
    reveal_strlit("-");
    reveal_strlit("Int");
    reveal_strlit("Int");
    let arith = builtin_arith(n);
    let op = "*"@;
    assert(arith[2] == (op, sig(seq![], seq![Shape::Int, Shape::Int], Shape::Int)));
    assert(arith[0].0 == "+"@);
    assert("+"@[0] != "*"@[0]);
    assert(arith[0].0 != op);
    assert(arith[1].0 == "-"@);
    assert("-"@[0] != "*"@[0]);
    assert(arith[1].0 != op);
    lemma_scheme_named_at(arith, op, 2);
    lemma_binary_sig(Shape::Int, Shape::Int, "Int"@, "Int"@);
    lemma_arith_lookup(n, op);
}

#[verifier::spinoff_prover]
proof fn lemma_op_3(n: u64)
    requires
        n <= u64::MAX - 23,
    ensures
        scheme_named(builtin_table(n), "/"@) matches Some(s) && is_binary_mono(s, "Int"@, "Int"@),
{
    reveal_strlit("*");
    reveal_strlit("+");
    reveal_strlit("-");
    reveal_strlit("/");
    reveal_strlit("Int");
    reveal_strlit("Int");
    let arith = builtin_arith(n);
    let op = "/"@;
    assert(arith[3] == (op, sig(seq![], seq![Shape::Int, Shape::Int], Shape::Int)));
    assert(arith[0].0 == "+"@);
    assert("+"@[0] != "/"@[0]);
    assert(arith[0].0 != op);
    assert(arith[1].0 == "-"@);
    assert("-"@[0] != "/"@[0]);
    assert(arith[1].0 != op);
    assert(arith[2].0 == "*"@);
    assert("*"@[0] != "/"@[0]);
    assert(arith[2].0 != op);
    lemma_scheme_named_at(arith, op, 3);
    lemma_binary_sig(Shape::Int, Shape::Int, "Int"@, "Int"@);
    lemma_arith_lookup(n, op);
}

#[verifier::spinoff_prover]
proof fn lemma_op_4(n: u64)
    requires
        n <= u64::MAX - 23,
    ensures
        scheme_named(builtin_table(n), "%"@) matches Some(s) && is_binary_mono(s, "Int"@, "Int"@),
{
    reveal_strlit("%");
    reveal_strlit("*");
    reveal_strlit("+");
    reveal_strlit("-");
    reveal_strlit("/");
    reveal_strlit("Int");
    reveal_strlit("Int");
    let arith = builtin_arith(n);
    let op = "%"@;
    assert(arith[4] == (op, sig(seq![], seq![Shape::Int, Shape::Int], Shape::Int)));
    assert(arith[0].0 == "+"@);
    assert("+"@[0] != "%"@[0]);
    assert(arith[0].0 != op);
    assert(arith[1].0 == "-"@);
    assert("-"@[0] != "%"@[0]);
    assert(arith[1].0 != op);
    assert(arith[2].0 == "*"@);
    assert("*"@[0] != "%"@[0]);
    assert(arith[2].0 != op);
    assert(arith[3].0 == "/"@);
    assert("/"@[0] != "%"@[0]);
    assert(arith[3].0 != op);
    lemma_scheme_named_at(arith, op, 4);
    lemma_binary_sig(Shape::Int, Shape::Int, "Int"@, "Int"@);
    lemma_arith_lookup(n, op);
}

/// The comparison operators `<`, `>`, `<=`, `>=`, `==`, `!=` and `=` of the
/// built-in environment compare two integers and answer a boolean, and the
/// arithmetic operators `+`, `-`, `*`, `/` and `%` take two integers to an
/// integer. None of them binds a type variable.
pub proof fn law_builtin_operators_have_their_types(n: u64)
    requires
        n <= u64::MAX - 23,
    ensures
        scheme_named(builtin_table(n), "<"@) matches Some(s) && is_binary_mono(s, "Int"@, "Bool"@),
        scheme_named(builtin_table(n), ">"@) matches Some(s) && is_binary_mono(s, "Int"@, "Bool"@),
        scheme_named(builtin_table(n), "<="@) matches Some(s) && is_binary_mono(s, "Int"@, "Bool"@),
        scheme_named(builtin_table(n), ">="@) matches Some(s) && is_binary_mono(s, "Int"@, "Bool"@),
        scheme_named(builtin_table(n), "=="@) matches Some(s) && is_binary_mono(s, "Int"@, "Bool"@),
        scheme_named(builtin_table(n), "!="@) matches Some(s) && is_binary_mono(s, "Int"@, "Bool"@),
        scheme_named(builtin_table(n), "="@) matches Some(s) && is_binary_mono(s, "Int"@, "Bool"@),
        scheme_named(builtin_table(n), "+"@) matches Some(s) && is_binary_mono(s, "Int"@, "Int"@),
        scheme_named(builtin_table(n), "-"@) matches Some(s) && is_binary_mono(s, "Int"@, "Int"@),
        scheme_named(builtin_table(n), "*"@) matches Some(s) && is_binary_mono(s, "Int"@, "Int"@),
        scheme_named(builtin_table(n), "/"@) matches Some(s) && is_binary_mono(s, "Int"@, "Int"@),
        scheme_named(builtin_table(n), "%"@) matches Some(s) && is_binary_mono(s, "Int"@, "Int"@),
{
    lemma_op_5(n);
    lemma_op_6(n);
    lemma_op_7(n);
    lemma_op_8(n);
    lemma_op_9(n);
    lemma_op_10(n);
    lemma_op_11(n);
    lemma_op_0(n);
    lemma_op_1(n);
    lemma_op_2(n);
    lemma_op_3(n);
    lemma_op_4(n);
}

} // verus!
