use lsharp::api_doc::{
    build_api_doc, build_file_api_doc, extract_module_doc, module_name_from_program,
    package_api_doc, ApiModule, RenderedScheme,
};
use lsharp::syntax::{Decl, Metadata, Program, Span};

fn sp() -> Span {
    Span::new(0, 0)
}

fn metadata(
    doc: Option<&str>,
    params: Vec<(&str, &str)>,
    returns: Option<&str>,
    examples: Vec<&str>,
) -> Metadata {
    Metadata {
        doc: doc.map(|d| d.to_string()),
        params: params
            .into_iter()
            .map(|(n, d)| (n.to_string(), d.to_string()))
            .collect(),
        returns: returns.map(|r| r.to_string()),
        see_also: Vec::new(),
        forms: Vec::new(),
        invariant: None,
        example: Vec::new(),
        example_text: examples.into_iter().map(|e| e.to_string()).collect(),
    }
}

fn defn(name: &str, params: Vec<&str>, meta: Option<Metadata>) -> Decl {
    Decl::Defn {
        name: name.to_string(),
        params: params.into_iter().map(|p| p.to_string()).collect(),
        return_ty: None,
        metadata: meta,
        span: sp(),
    }
}

fn scheme(params: Vec<&str>, ret: &str, signature: &str) -> RenderedScheme {
    RenderedScheme {
        param_types: params.into_iter().map(|p| p.to_string()).collect(),
        return_type: ret.to_string(),
        signature: signature.to_string(),
    }
}

fn module(name: &str) -> ApiModule {
    ApiModule { name: name.to_string(), doc: None, functions: Vec::new(), types: Vec::new() }
}

/// `(module Geometry) (defn add [x y] :doc ... :params ... :returns ... :example [(add 1 2)] (+ x y))`
fn geometry_program() -> Program {
    Program {
        decls: vec![
            Decl::ModuleDecl { name: "Geometry".to_string(), body: Vec::new(), span: sp() },
            defn(
                "add",
                vec!["x", "y"],
                Some(metadata(
                    Some("2 つの整数を加算する"),
                    vec![("x", "左オペランド"), ("y", "右オペランド")],
                    Some("加算結果"),
                    vec!["(add 1 2)"],
                )),
            ),
        ],
    }
}

#[test]
fn test_build_api_doc_includes_metadata_signature_and_return_docs() {
    let program = geometry_program();
    let type_results = vec![("add".to_string(), scheme(vec!["Int", "Int"], "Int", "Int -> Int -> Int"))];

    let api = build_api_doc("demo", "0.1.0", &program, &type_results, Some("Geometry"), &[]);
    let module = api.modules.first().expect("a module is required");
    let function = module.functions.first().expect("a function is required");

    assert_eq!(api.package, "demo");
    assert_eq!(module.name, "Geometry");
    assert_eq!(function.name, "add");
    assert_eq!(function.signature, "Int -> Int -> Int");
    assert_eq!(function.params.len(), 2);
    assert_eq!(function.params[0].doc.as_deref(), Some("左オペランド"));
    assert_eq!(function.returns.doc.as_deref(), Some("加算結果"));
    assert_eq!(function.doc.as_deref(), Some("2 つの整数を加算する"));
    assert_eq!(function.example.as_deref(), Some("(add 1 2)"));
}

#[test]
fn api_doc_param_types_come_from_the_scheme() {
    let program = geometry_program();
    let type_results = vec![("add".to_string(), scheme(vec!["Int", "Int"], "Int", "Int -> Int -> Int"))];
    let api = build_api_doc("demo", "0.1.0", &program, &type_results, None, &[]);
    let module = &api.modules[0];
    assert_eq!(module.name, "Main");
    assert_eq!(module.doc, None);
    let function = &module.functions[0];
    assert_eq!(function.params[0].name, "x");
    assert_eq!(function.params[0].ty, "Int");
    assert_eq!(function.params[1].ty, "Int");
    assert_eq!(function.params[1].doc.as_deref(), Some("右オペランド"));
    assert_eq!(function.returns.ty, "Int");
}

#[test]
fn api_doc_unknown_scheme_shows_question_marks() {
    let program = Program { decls: vec![defn("f", vec!["a", "b"], None)] };
    let api = build_api_doc("demo", "0.1.0", &program, &[], None, &[]);
    let function = &api.modules[0].functions[0];
    assert_eq!(function.signature, "?");
    assert_eq!(function.params[0].ty, "?");
    assert_eq!(function.params[1].ty, "?");
    assert_eq!(function.returns.ty, "?");
    assert_eq!(function.params[0].doc, None);
    assert_eq!(function.doc, None);
    assert_eq!(function.example, None);
}

#[test]
fn api_doc_short_scheme_pads_with_question_marks() {
    let program = Program { decls: vec![defn("main", vec!["extra"], None)] };
    let type_results = vec![("main".to_string(), scheme(vec![], "Int", "Int"))];
    let api = build_api_doc("demo", "0.1.0", &program, &type_results, None, &[]);
    let function = &api.modules[0].functions[0];
    assert_eq!(function.params[0].ty, "?");
    assert_eq!(function.returns.ty, "Int");
    assert_eq!(function.signature, "Int");
}

#[test]
fn api_doc_leaves_out_private_functions_and_types() {
    let program = Program {
        decls: vec![
            defn("shown", vec![], None),
            Decl::Private { inner: Box::new(defn("hidden", vec![], None)), span: sp() },
            defn("listed", vec![], None),
            Decl::RecordDef { name: "Point".to_string(), span: sp() },
            Decl::TypeDef {
                name: "Shape".to_string(),
                type_params: Vec::new(),
                variants: Vec::new(),
                doc: None,
                span: sp(),
            },
            Decl::TypeAlias { name: "Meters".to_string(), span: sp() },
            Decl::TraitDef { name: "Show".to_string(), span: sp() },
            Decl::Private {
                inner: Box::new(Decl::RecordDef { name: "Secret".to_string(), span: sp() }),
                span: sp(),
            },
        ],
    };
    let privates = vec!["listed".to_string()];
    let api = build_api_doc("demo", "0.1.0", &program, &[], None, &privates);
    let module = &api.modules[0];
    let names: Vec<&str> = module.functions.iter().map(|f| f.name.as_str()).collect();
    assert_eq!(names, vec!["shown"]);
    let types: Vec<(&str, &str)> =
        module.types.iter().map(|t| (t.name.as_str(), t.kind.as_str())).collect();
    assert_eq!(
        types,
        vec![("Point", "record"), ("Shape", "adt"), ("Meters", "alias"), ("Show", "trait")]
    );
}

#[test]
fn module_doc_skips_the_file_header_line() {
    let source = ";; Sample.ls - 説明\n;;\n;; モジュール概要\n(defn hello [name] name)\n";
    assert_eq!(extract_module_doc(source).as_deref(), Some("モジュール概要"));
}

#[test]
fn module_doc_joins_comment_lines() {
    let source = "\n  ;;  first line  \n\n;; second\r\n(defn f [] 1)\n;; not part of the doc\n";
    assert_eq!(extract_module_doc(source).as_deref(), Some("first line\nsecond"));
}

#[test]
fn module_doc_header_with_colon_is_dropped() {
    assert_eq!(extract_module_doc(";; Lib.ls: helpers\n(defn f [] 1)"), None);
    assert_eq!(
        extract_module_doc(";; Lib.ls: helpers\n;; Helpers.\n"),
        Some("Helpers.".to_string())
    );
}

#[test]
fn module_doc_absent() {
    assert_eq!(extract_module_doc(""), None);
    assert_eq!(extract_module_doc("(defn f [] 1)\n;; late comment"), None);
    assert_eq!(extract_module_doc(";;\n;;   \n"), None);
}

#[test]
fn module_name_is_the_first_module_declaration() {
    let program = geometry_program();
    assert_eq!(module_name_from_program(&program).as_deref(), Some("Geometry"));
    let none = Program { decls: vec![defn("f", vec![], None)] };
    assert_eq!(module_name_from_program(&none), None);
}

#[test]
fn test_build_api_doc_for_file_uses_file_stem_and_header_comment_for_module_metadata() {
    let source = ";; Sample.ls - 説明\n;;\n;; モジュール概要\n(defn hello\n  [name]\n  name)\n";
    let program = Program {
        decls: vec![defn(
            "hello",
            vec!["name"],
            Some(metadata(
                Some("挨拶を返す"),
                vec![("name", "対象名")],
                Some("挨拶文字列"),
                vec!["(hello \"L#\")"],
            )),
        )],
    };
    let api = build_file_api_doc("demo", "0.1.0", source, &program, &[], None, &[], Some("Sample"));
    let module = api.modules.first().expect("a module is required");
    assert_eq!(module.name, "Sample");
    assert_eq!(module.doc.as_deref(), Some("モジュール概要"));
    assert_eq!(module.functions[0].name, "hello");
}

#[test]
fn file_module_name_prefers_inferred_then_declared() {
    let program = geometry_program();
    let api = build_file_api_doc("d", "1", "", &program, &[], Some("Inferred"), &[], Some("Stem"));
    assert_eq!(api.modules[0].name, "Inferred");
    let api = build_file_api_doc("d", "1", "", &program, &[], None, &[], Some("Stem"));
    assert_eq!(api.modules[0].name, "Geometry");
    let bare = Program { decls: Vec::new() };
    let api = build_file_api_doc("d", "1", "", &bare, &[], None, &[], None);
    assert_eq!(api.modules[0].name, "Main");
}

#[test]
fn test_build_api_doc_for_package_collects_modules_from_src_in_sorted_order() {
    let api = package_api_doc("demo", "0.1.0", vec![module("Beta"), module("Alpha")]);
    let names: Vec<&str> = api.modules.iter().map(|m| m.name.as_str()).collect();
    assert_eq!(names, vec!["Alpha", "Beta"]);
    assert_eq!(api.package, "demo");
    assert_eq!(api.version, "0.1.0");
}

#[test]
fn package_modules_sort_is_stable() {
    let mut first = module("Same");
    first.doc = Some("first".to_string());
    let mut second = module("Same");
    second.doc = Some("second".to_string());
    let api = package_api_doc("demo", "0.1.0", vec![module("Zed"), first, module("Able"), second]);
    let names: Vec<&str> = api.modules.iter().map(|m| m.name.as_str()).collect();
    assert_eq!(names, vec!["Able", "Same", "Same", "Zed"]);
    assert_eq!(api.modules[1].doc.as_deref(), Some("first"));
    assert_eq!(api.modules[2].doc.as_deref(), Some("second"));
}
