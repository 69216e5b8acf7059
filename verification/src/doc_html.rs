//! The HTML page of the `doc` command: one section per function and per
//! algebraic data type, with their signatures and metadata docs.

use vstd::prelude::*;
use crate::syntax::{Decl, Metadata, Program};
use crate::text::{push_str, str_eq};

verus! {

/// `items` separated by `sep`.
pub open spec fn join_with(items: Seq<Seq<char>>, sep: Seq<char>) -> Seq<char>
    decreases items.len(),
{
    if items.len() == 0 {
        Seq::empty()
    } else if items.len() == 1 {
        items[0]
    } else {
        join_with(items.drop_last(), sep) + sep + items.last()
    }
}

/// The contents of a list of strings.
pub open spec fn string_views(v: Seq<String>) -> Seq<Seq<char>> {
    v.map_values(|s: String| s@)
}

/// The rendered type scheme recorded for `name`: that of the first entry.
pub open spec fn rendered_scheme_for(schemes: Seq<(String, String)>, name: Seq<char>) -> Option<
    Seq<char>,
>
    decreases schemes.len(),
{
    if schemes.len() == 0 {
        None
    } else if schemes[0].0@ == name {
        Some(schemes[0].1@)
    } else {
        rendered_scheme_for(schemes.drop_first(), name)
    }
}

/// The type shown for a function: its inferred scheme, else its parameters
/// and declared return type (`?` when it declares none).
pub open spec fn defn_type_text(
    name: Seq<char>,
    params: Seq<String>,
    return_ty: Option<String>,
    schemes: Seq<(String, String)>,
) -> Seq<char> {
    match rendered_scheme_for(schemes, name) {
        Some(t) => t,
        None => "("@ + join_with(string_views(params), ", "@) + ") -> "@ + match return_ty {
            Some(r) => r@,
            None => "?"@,
        },
    }
}

/// The list items of `:params`.
pub open spec fn param_items(entries: Seq<(String, String)>) -> Seq<char>
    decreases entries.len(),
{
    if entries.len() == 0 {
        Seq::empty()
    } else {
        param_items(entries.drop_last()) + "<li><code>"@ + entries.last().0@ + "</code> - "@
            + entries.last().1@ + "</li>\n"@
    }
}

/// The list items of the variants of a type.
pub open spec fn variant_items(variants: Seq<String>) -> Seq<char>
    decreases variants.len(),
{
    if variants.len() == 0 {
        Seq::empty()
    } else {
        variant_items(variants.drop_last()) + "<li><code>"@ + variants.last()@ + "</code></li>\n"@
    }
}

/// A `:doc` block, if there is a doc.
pub open spec fn doc_block(doc: Option<String>) -> Seq<char> {
    match doc {
        Some(d) => "<div class=\"doc\">"@ + d@ + "</div>\n"@,
        None => Seq::empty(),
    }
}

/// The metadata part of a function's section.
pub open spec fn defn_meta_html(m: Metadata) -> Seq<char> {
    doc_block(m.doc) + (if m.params@.len() > 0 {
        "<div class=\"params\"><strong>パラメータ:</strong><ul>\n"@ + param_items(m.params@)
            + "</ul></div>\n"@
    } else {
        Seq::empty()
    }) + match m.returns {
        Some(r) => "<div class=\"doc\"><strong>戻り値:</strong> "@ + r@ + "</div>\n"@,
        None => Seq::empty(),
    }
}

/// The section of a top-level declaration: functions and algebraic data
/// types have one, other declarations none.
pub open spec fn decl_html(d: Decl, schemes: Seq<(String, String)>) -> Seq<char> {
    match d {
        Decl::Defn { name, params, return_ty, metadata, .. } => "<h2>"@ + name@ + "</h2>\n"@
            + "<div class=\"sig\">"@ + name@ + ": "@ + defn_type_text(
            name@,
            params@,
            return_ty,
            schemes,
        ) + "</div>\n"@ + match metadata {
            Some(m) => defn_meta_html(m),
            None => Seq::empty(),
        },
        Decl::TypeDef { name, type_params, variants, doc, .. } => "<h2>type "@ + name@ + "</h2>\n"@
            + (if type_params@.len() > 0 {
            "<div class=\"sig\">type ("@ + name@ + " "@ + join_with(string_views(type_params@), " "@)
                + ")</div>\n"@
        } else {
            Seq::empty()
        }) + "<ul>\n"@ + variant_items(variants@) + "</ul>\n"@ + doc_block(doc),
        _ => Seq::empty(),
    }
}

/// The sections of a list of declarations, in order.
pub open spec fn decls_html(decls: Seq<Decl>, schemes: Seq<(String, String)>) -> Seq<char>
    decreases decls.len(),
{
    if decls.len() == 0 {
        Seq::empty()
    } else {
        decls_html(decls.drop_last(), schemes) + decl_html(decls.last(), schemes)
    }
}

/// The head of the page, titled by the file and headed by its stem.
pub open spec fn page_head(title: Seq<char>, heading: Seq<char>) -> Seq<char> {
    "<!DOCTYPE html>\n<html><head><meta charset=\"utf-8\">\n"@ + "<title>L# API - "@ + title
        + "</title>\n"@
        + "<style>body{font-family:sans-serif;max-width:800px;margin:0 auto;padding:20px}\n"@
        + "h1{color:#333}h2{color:#555;border-bottom:1px solid #ddd;padding-bottom:5px}\n"@
        + ".sig{background:#f5f5f5;padding:8px;border-radius:4px;font-family:monospace}\n"@
        + ".doc{color:#666;margin:8px 0}.params{margin-left:20px}\n"@
        + "</style></head><body>\n"@ + "<h1>"@ + heading + "</h1>\n"@
}

/// The whole page.
pub open spec fn doc_html_spec(
    title: Seq<char>,
    heading: Seq<char>,
    decls: Seq<Decl>,
    schemes: Seq<(String, String)>,
) -> Seq<char> {
    page_head(title, heading) + decls_html(decls, schemes) + "</body></html>\n"@
}

fn push_joined(s: &mut String, items: &Vec<String>, sep: &str)
    ensures
        final(s)@ == old(s)@ + join_with(string_views(items@), sep@),
{
    let ghost base = s@;
    let mut i: usize = 0;
    assert(string_views(items@.take(0)) =~= Seq::<Seq<char>>::empty());
    while i < items.len()
        invariant
            i <= items.len(),
            s@ == base + join_with(string_views(items@.take(i as int)), sep@),
        decreases items.len() - i,
    {
        let ghost prev = string_views(items@.take(i as int));
        let ghost next = string_views(items@.take(i + 1));
        assert(next.drop_last() =~= prev);
        assert(next.last() == items@[i as int]@);
        if i > 0 {
            push_str(s, sep);
        }
        push_str(s, items[i].as_str());
        proof {
            if i == 0 {
                assert(prev =~= Seq::<Seq<char>>::empty());
                assert(next.len() == 1);
                assert(s@ =~= base + join_with(next, sep@));
            } else {
                assert(s@ =~= base + join_with(next, sep@));
            }
        }
        i = i + 1;
    }
    assert(items@.take(items.len() as int) =~= items@);
}

fn find_rendered_scheme<'a>(schemes: &'a [(String, String)], name: &str) -> (r: Option<&'a String>)
    ensures
        match r {
            Some(t) => rendered_scheme_for(schemes@, name@) == Some(t@),
            None => rendered_scheme_for(schemes@, name@) is None,
        },
{
    let mut i: usize = 0;
    assert(schemes@.skip(0) =~= schemes@);
    while i < schemes.len()
        invariant
            i <= schemes.len(),
            rendered_scheme_for(schemes@, name@) == rendered_scheme_for(
                schemes@.skip(i as int),
                name@,
            ),
        decreases schemes.len() - i,
    {
        proof {
            assert(schemes@.skip(i as int)[0] == schemes@[i as int]);
            assert(schemes@.skip(i as int).drop_first() =~= schemes@.skip(i + 1));
        }
        if str_eq(schemes[i].0.as_str(), name) {
            return Some(&schemes[i].1);
        }
        i = i + 1;
    }
    None
}

fn push_doc_block(s: &mut String, doc: &Option<String>)
    ensures
        final(s)@ == old(s)@ + doc_block(*doc),
{
    match doc {
        Some(d) => {
            push_str(s, "<div class=\"doc\">");
            push_str(s, d.as_str());
            push_str(s, "</div>\n");
        },
        None => {},
    }
}

fn push_meta_html(s: &mut String, m: &Metadata)
    ensures
        final(s)@ == old(s)@ + defn_meta_html(*m),
{
    let ghost base = s@;
    push_doc_block(s, &m.doc);
    let ghost after_doc = s@;
    if m.params.len() > 0 {
        push_str(s, "<div class=\"params\"><strong>パラメータ:</strong><ul>\n");
        let ghost start = s@;
        let mut i: usize = 0;
        assert(m.params@.take(0) =~= Seq::<(String, String)>::empty());
        while i < m.params.len()
            invariant
                i <= m.params.len(),
                s@ == start + param_items(m.params@.take(i as int)),
            decreases m.params.len() - i,
        {
            proof {
                assert(m.params@.take(i + 1).drop_last() =~= m.params@.take(i as int));
                assert(m.params@.take(i + 1).last() == m.params@[i as int]);
            }
            push_str(s, "<li><code>");
            push_str(s, m.params[i].0.as_str());
            push_str(s, "</code> - ");
            push_str(s, m.params[i].1.as_str());
            push_str(s, "</li>\n");
            i = i + 1;
        }
        assert(m.params@.take(m.params.len() as int) =~= m.params@);
        push_str(s, "</ul></div>\n");
    }
    let ghost after_params = s@;
    match &m.returns {
        Some(r) => {
            push_str(s, "<div class=\"doc\"><strong>戻り値:</strong> ");
            push_str(s, r.as_str());
            push_str(s, "</div>\n");
        },
        None => {},
    }
    assert(s@ =~= base + defn_meta_html(*m));
}

fn push_decl_html(s: &mut String, d: &Decl, schemes: &[(String, String)])
    ensures
        final(s)@ == old(s)@ + decl_html(*d, schemes@),
{
    let ghost base = s@;
    match d {
        Decl::Defn { name, params, return_ty, metadata, .. } => {
            push_str(s, "<h2>");
            push_str(s, name.as_str());
            push_str(s, "</h2>\n");
            push_str(s, "<div class=\"sig\">");
            push_str(s, name.as_str());
            push_str(s, ": ");
            let ghost before_type = s@;
            match find_rendered_scheme(schemes, name.as_str()) {
                Some(t) => {
                    push_str(s, t.as_str());
                },
                None => {
                    push_str(s, "(");
                    push_joined(s, params, ", ");
                    push_str(s, ") -> ");
                    match return_ty {
                        Some(r) => push_str(s, r.as_str()),
                        None => push_str(s, "?"),
                    }
                },
            }
            assert(s@ =~= before_type + defn_type_text(name@, params@, *return_ty, schemes@));
            push_str(s, "</div>\n");
            let ghost before_meta = s@;
            match metadata {
                Some(m) => push_meta_html(s, m),
                None => {},
            }
            assert(s@ =~= base + decl_html(*d, schemes@));
        },
        Decl::TypeDef { name, type_params, variants, doc, .. } => {
            push_str(s, "<h2>type ");
            push_str(s, name.as_str());
            push_str(s, "</h2>\n");
            let ghost before_sig = s@;
            if type_params.len() > 0 {
                push_str(s, "<div class=\"sig\">type (");
                push_str(s, name.as_str());
                push_str(s, " ");
                push_joined(s, type_params, " ");
                push_str(s, ")</div>\n");
            }
            push_str(s, "<ul>\n");
            let ghost start = s@;
            let mut i: usize = 0;
            assert(variants@.take(0) =~= Seq::<String>::empty());
            while i < variants.len()
                invariant
                    i <= variants.len(),
                    s@ == start + variant_items(variants@.take(i as int)),
                decreases variants.len() - i,
            {
                proof {
                    assert(variants@.take(i + 1).drop_last() =~= variants@.take(i as int));
                    assert(variants@.take(i + 1).last() == variants@[i as int]);
                }
                push_str(s, "<li><code>");
                push_str(s, variants[i].as_str());
                push_str(s, "</code></li>\n");
                i = i + 1;
            }
            assert(variants@.take(variants.len() as int) =~= variants@);
            push_str(s, "</ul>\n");
            push_doc_block(s, doc);
            assert(s@ =~= base + decl_html(*d, schemes@));
        },
        _ => {
            assert(s@ =~= base + decl_html(*d, schemes@));
        },
    }
}

/// The HTML page of a program's documentation. `title` is how the file is
/// shown, `heading` its stem, and `schemes` the rendered type scheme of each
/// inferred definition; only top-level functions and algebraic data types get
/// a section.
pub fn render_doc_html(
    title: &str,
    heading: &str,
    program: &Program,
    schemes: &[(String, String)],
) -> (r: String)
    ensures
        r@ == doc_html_spec(title@, heading@, program.decls@, schemes@),
{
    let mut html = String::new();
    assert(html@ =~= Seq::<char>::empty());
    push_str(&mut html, "<!DOCTYPE html>\n<html><head><meta charset=\"utf-8\">\n");
    push_str(&mut html, "<title>L# API - ");
    push_str(&mut html, title);
    push_str(&mut html, "</title>\n");
    push_str(
        &mut html,
        "<style>body{font-family:sans-serif;max-width:800px;margin:0 auto;padding:20px}\n",
    );
    push_str(
        &mut html,
        "h1{color:#333}h2{color:#555;border-bottom:1px solid #ddd;padding-bottom:5px}\n",
    );
    push_str(
        &mut html,
        ".sig{background:#f5f5f5;padding:8px;border-radius:4px;font-family:monospace}\n",
    );
    push_str(&mut html, ".doc{color:#666;margin:8px 0}.params{margin-left:20px}\n");
    push_str(&mut html, "</style></head><body>\n");
    push_str(&mut html, "<h1>");
    push_str(&mut html, heading);
    push_str(&mut html, "</h1>\n");
    let ghost head = html@;
    assert(head =~= page_head(title@, heading@));
    let decls = &program.decls;
    let mut i: usize = 0;
    assert(decls@.take(0) =~= Seq::<Decl>::empty());
    while i < decls.len()
        invariant
            i <= decls.len(),
            html@ == head + decls_html(decls@.take(i as int), schemes@),
        decreases decls.len() - i,
    {
        proof {
            assert(decls@.take(i + 1).drop_last() =~= decls@.take(i as int));
            assert(decls@.take(i + 1).last() == decls@[i as int]);
        }
        push_decl_html(&mut html, &decls[i], schemes);
        i = i + 1;
    }
    assert(decls@.take(decls.len() as int) =~= decls@);
    push_str(&mut html, "</body></html>\n");
    html
}

} // verus!
