use lsharp::infer::builtin_env::{builtin_env, BuiltinEnv, TypeScheme};
use lsharp::types::{Kind, Type};

fn render(t: &Type) -> String {
    match t {
        Type::Con(name) => name.clone(),
        Type::Var(id) => format!("t{id}"),
        Type::Fun(params, ret) => {
            let ps: Vec<String> = params.iter().map(render).collect();
            format!("({}) -> {}", ps.join(", "), render(ret))
        }
        Type::App(name, args) => {
            let xs: Vec<String> = args.iter().map(render).collect();
            format!("{name} {}", xs.join(" "))
        }
        Type::Record(name, _) => name.clone(),
    }
}

fn lookup<'a>(env: &'a BuiltinEnv, name: &str) -> Option<&'a TypeScheme> {
    env.env.iter().find(|(n, _)| n == name).map(|(_, s)| s)
}

fn scheme(env: &BuiltinEnv, name: &str) -> (Vec<u64>, String) {
    let s = lookup(env, name).unwrap_or_else(|| panic!("{name} is built in"));
    (s.vars.clone(), render(&s.ty))
}

#[test]
fn arithmetic_and_comparison_operators() {
    let env = builtin_env(0);
    assert_eq!(scheme(&env, "+"), (vec![], "(Int, Int) -> Int".to_string()));
    assert_eq!(scheme(&env, "%"), (vec![], "(Int, Int) -> Int".to_string()));
    assert_eq!(scheme(&env, "=="), (vec![], "(Int, Int) -> Bool".to_string()));
    assert_eq!(scheme(&env, "="), (vec![], "(Int, Int) -> Bool".to_string()));
    assert_eq!(scheme(&env, "+."), (vec![], "(Float, Float) -> Float".to_string()));
    assert_eq!(scheme(&env, "and"), (vec![], "(Bool, Bool) -> Bool".to_string()));
    assert_eq!(scheme(&env, "not"), (vec![], "(Bool) -> Bool".to_string()));
}

#[test]
fn polymorphic_builtins_get_fresh_variables_in_order() {
    let env = builtin_env(100);
    assert_eq!(scheme(&env, "print"), (vec![100], "(t100) -> Unit".to_string()));
    assert_eq!(scheme(&env, "ref-new"), (vec![101], "(t101) -> Ref t101".to_string()));
    assert_eq!(scheme(&env, "ref-set"), (vec![103], "(Ref t103, t103) -> Unit".to_string()));
    assert_eq!(scheme(&env, "vector-push"), (vec![106], "(Vector, t106) -> Vector".to_string()));
    assert_eq!(scheme(&env, "map-insert"), (vec![107, 108], "(Map, t107, t108) -> Map".to_string()));
    assert_eq!(scheme(&env, "map-contains?"), (vec![111], "(Map, t111) -> Bool".to_string()));
    assert_eq!(scheme(&env, "root_pop"), (vec![114], "() -> t114".to_string()));
    assert_eq!(scheme(&env, "map-new"), (vec![], "() -> Map".to_string()));
    assert_eq!(env.next_var, 123);
}

#[test]
fn the_environment_lists_each_builtin_once() {
    let env = builtin_env(0);
    assert_eq!(env.env.len(), 53);
    let mut names: Vec<&str> = env.env.iter().map(|(n, _)| n.as_str()).collect();
    names.sort();
    names.dedup();
    assert_eq!(names.len(), 53);
    assert!(lookup(&env, "str").is_none());
    assert!(lookup(&env, "substring").is_some());
}

#[test]
fn builtin_traits_and_kinds() {
    let env = builtin_env(0);
    let functor = &env.traits[0];
    assert_eq!(functor.name, "Functor");
    assert_eq!(functor.type_param, 16);
    let fmap = &functor.methods[0];
    assert_eq!(fmap.0, "fmap");
    assert_eq!(render(&fmap.1.ty), "((t17) -> t18, __f__ t17) -> __f__ t18");
    assert_eq!(fmap.1.constraints[0].trait_name, "Functor");
    let monad = &env.traits[1];
    assert_eq!(monad.name, "Monad");
    assert_eq!(render(&monad.methods[0].1.ty), "(__m__ t20, (t20) -> __m__ t21) -> __m__ t21");
    assert_eq!(monad.methods[1].0, "pure");
    assert_eq!(monad.methods[1].1.vars, vec![19, 22]);
    let kinds: Vec<(&str, bool)> =
        env.kinds.iter().map(|(n, k)| (n.as_str(), matches!(k, Kind::Star))).collect();
    assert_eq!(
        kinds,
        vec![("Int", true), ("Float", true), ("String", true), ("Bool", true), ("Unit", true), ("Functor", false), ("Monad", false)]
    );
}
