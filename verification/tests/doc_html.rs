use lsharp::doc_html::render_doc_html;
use lsharp::syntax::{Decl, Metadata, Program, Span};

fn sp() -> Span {
    Span::new(0, 0)
}

fn greet_program() -> Program {
    Program {
        decls: vec![Decl::Defn {
            name: "greet".to_string(),
            params: vec!["name".to_string()],
            return_ty: None,
            metadata: Some(Metadata {
                doc: Some("挨拶を返す".to_string()),
                params: vec![("name".to_string(), "名前".to_string())],
                returns: Some("挨拶文字列".to_string()),
                see_also: Vec::new(),
                forms: Vec::new(),
                invariant: None,
                example: Vec::new(),
                example_text: Vec::new(),
            }),
            span: sp(),
        }],
    }
}

#[test]
fn test_render_doc_html_includes_metadata_sections() {
    let program = greet_program();
    let schemes = vec![("greet".to_string(), "a -> a".to_string())];
    let html = render_doc_html("/tmp/Main.ls", "Main", &program, &schemes);
    assert!(html.contains("<h2>greet</h2>"));
    assert!(html.contains("挨拶を返す"));
    assert!(html.contains("<code>name</code> - 名前"));
    assert!(html.contains("<strong>戻り値:</strong> 挨拶文字列"));
}

#[test]
fn doc_html_page_is_exact() {
    let program = Program {
        decls: vec![
            Decl::Defn {
                name: "add".to_string(),
                params: vec!["x".to_string(), "y".to_string()],
                return_ty: Some("Int".to_string()),
                metadata: None,
                span: sp(),
            },
            Decl::TypeDef {
                name: "Option".to_string(),
                type_params: vec!["a".to_string()],
                variants: vec!["Some".to_string(), "None".to_string()],
                doc: Some("optional".to_string()),
                span: sp(),
            },
            Decl::RecordDef { name: "Point".to_string(), span: sp() },
        ],
    };
    let html = render_doc_html("a/M.ls", "M", &program, &[]);
    let expected = [
        "<!DOCTYPE html>\n<html><head><meta charset=\"utf-8\">\n",
        "<title>L# API - a/M.ls</title>\n",
        "<style>body{font-family:sans-serif;max-width:800px;margin:0 auto;padding:20px}\n",
        "h1{color:#333}h2{color:#555;border-bottom:1px solid #ddd;padding-bottom:5px}\n",
        ".sig{background:#f5f5f5;padding:8px;border-radius:4px;font-family:monospace}\n",
        ".doc{color:#666;margin:8px 0}.params{margin-left:20px}\n",
        "</style></head><body>\n",
        "<h1>M</h1>\n",
        "<h2>add</h2>\n",
        "<div class=\"sig\">add: (x, y) -> Int</div>\n",
        "<h2>type Option</h2>\n",
        "<div class=\"sig\">type (Option a)</div>\n",
        "<ul>\n<li><code>Some</code></li>\n<li><code>None</code></li>\n</ul>\n",
        "<div class=\"doc\">optional</div>\n",
        "</body></html>\n",
    ]
    .concat();
    assert_eq!(html, expected);
}

#[test]
fn doc_html_signature_falls_back_to_question_mark() {
    let program = Program {
        decls: vec![Decl::Defn {
            name: "f".to_string(),
            params: Vec::new(),
            return_ty: None,
            metadata: None,
            span: sp(),
        }],
    };
    let html = render_doc_html("f.ls", "f", &program, &[]);
    assert!(html.contains("<div class=\"sig\">f: () -> ?</div>\n"));
}
