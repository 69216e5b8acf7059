//! The public API description of a module: its exported functions with their
//! signatures and metadata docs, and its exported types.

use vstd::prelude::*;
use crate::sorting::{is_stable_sort_of, stable_sort_by_key, TextKey};
use crate::syntax::{Decl, Metadata, Program};
use crate::text::{
    char_vec_views, chars_of, contains_chars, has_infix, lemma_trim_start_at, lines_spec, owned,
    push_char, skip_white, split_lines, str_eq, string_from_chars, trim_spec, trim_start_spec,
    trimmed_range,
};

verus! {

/// A documented parameter.
#[derive(Debug, Clone, PartialEq, Eq)]
pub struct ApiParam {
    pub name: String,
    pub ty: String,
    pub doc: Option<String>,
}

/// A documented return value.
#[derive(Debug, Clone, PartialEq, Eq)]
pub struct ApiReturn {
    pub ty: String,
    pub doc: Option<String>,
}

/// A documented function.
#[derive(Debug, Clone, PartialEq, Eq)]
pub struct ApiFunction {
    pub name: String,
    pub signature: String,
    pub params: Vec<ApiParam>,
    pub returns: ApiReturn,
    pub doc: Option<String>,
    pub example: Option<String>,
}

/// A documented type with its kind (`record`, `adt`, `alias` or `trait`).
#[derive(Debug, Clone, PartialEq, Eq)]
pub struct ApiType {
    pub name: String,
    pub kind: String,
}

/// A documented module.
#[derive(Debug, Clone, PartialEq, Eq)]
pub struct ApiModule {
    pub name: String,
    pub doc: Option<String>,
    pub functions: Vec<ApiFunction>,
    pub types: Vec<ApiType>,
}

/// The API description of a package.
#[derive(Debug, Clone, PartialEq, Eq)]
pub struct ApiDoc {
    pub package: String,
    pub version: String,
    pub modules: Vec<ApiModule>,
}

/// The inferred type of a definition, as its parts are shown in the docs:
/// the parameter types, the return type, and the whole signature.
#[derive(Debug, Clone, PartialEq, Eq)]
pub struct RenderedScheme {
    pub param_types: Vec<String>,
    pub return_type: String,
    pub signature: String,
}

/// The content of an optional string.
pub open spec fn opt_view(o: Option<String>) -> Option<Seq<char>> {
    match o {
        Some(s) => Some(s@),
        None => None,
    }
}

pub struct ApiParamView {
    pub name: Seq<char>,
    pub ty: Seq<char>,
    pub doc: Option<Seq<char>>,
}

pub struct ApiReturnView {
    pub ty: Seq<char>,
    pub doc: Option<Seq<char>>,
}

pub struct ApiFunctionView {
    pub name: Seq<char>,
    pub signature: Seq<char>,
    pub params: Seq<ApiParamView>,
    pub returns: ApiReturnView,
    pub doc: Option<Seq<char>>,
    pub example: Option<Seq<char>>,
}

pub struct ApiTypeView {
    pub name: Seq<char>,
    pub kind: Seq<char>,
}

pub struct ApiModuleView {
    pub name: Seq<char>,
    pub doc: Option<Seq<char>>,
    pub functions: Seq<ApiFunctionView>,
    pub types: Seq<ApiTypeView>,
}

pub struct ApiDocView {
    pub package: Seq<char>,
    pub version: Seq<char>,
    pub modules: Seq<ApiModuleView>,
}

impl View for ApiParam {
    type V = ApiParamView;

    open spec fn view(&self) -> ApiParamView {
        ApiParamView { name: self.name@, ty: self.ty@, doc: opt_view(self.doc) }
    }
}

impl View for ApiReturn {
    type V = ApiReturnView;

    open spec fn view(&self) -> ApiReturnView {
        ApiReturnView { ty: self.ty@, doc: opt_view(self.doc) }
    }
}

impl View for ApiFunction {
    type V = ApiFunctionView;

    open spec fn view(&self) -> ApiFunctionView {
        ApiFunctionView {
            name: self.name@,
            signature: self.signature@,
            params: self.params@.map_values(|p: ApiParam| p@),
            returns: self.returns@,
            doc: opt_view(self.doc),
            example: opt_view(self.example),
        }
    }
}

impl View for ApiType {
    type V = ApiTypeView;

    open spec fn view(&self) -> ApiTypeView {
        ApiTypeView { name: self.name@, kind: self.kind@ }
    }
}

impl View for ApiModule {
    type V = ApiModuleView;

    open spec fn view(&self) -> ApiModuleView {
        ApiModuleView {
            name: self.name@,
            doc: opt_view(self.doc),
            functions: self.functions@.map_values(|f: ApiFunction| f@),
            types: self.types@.map_values(|t: ApiType| t@),
        }
    }
}

impl View for ApiDoc {
    type V = ApiDocView;

    open spec fn view(&self) -> ApiDocView {
        ApiDocView {
            package: self.package@,
            version: self.version@,
            modules: self.modules@.map_values(|m: ApiModule| m@),
        }
    }
}

// ---------------------------------------------------------------------------
// Module docs from the leading comment block.

/// A trimmed line that is a `;;` comment.
pub open spec fn is_doc_comment(t: Seq<char>) -> bool {
    t.len() >= 2 && t[0] == ';' && t[1] == ';'
}

/// The comment texts of the leading block of `;;` comments and blank lines.
pub open spec fn leading_docs(lines: Seq<Seq<char>>) -> Seq<Seq<char>>
    decreases lines.len(),
{
    if lines.len() == 0 {
        Seq::empty()
    } else {
        let t = trim_start_spec(lines[0]);
        if is_doc_comment(t) {
            seq![trim_spec(t.skip(2))] + leading_docs(lines.drop_first())
        } else if t.len() == 0 {
            leading_docs(lines.drop_first())
        } else {
            Seq::empty()
        }
    }
}

/// The non-empty lines joined by `'\n'`.
pub open spec fn join_nonempty(ls: Seq<Seq<char>>) -> Seq<char>
    decreases ls.len(),
{
    if ls.len() == 0 {
        Seq::empty()
    } else {
        let init = join_nonempty(ls.drop_last());
        let l = ls.last();
        if l.len() == 0 {
            init
        } else if init.len() == 0 {
            l
        } else {
            init + seq!['\n'] + l
        }
    }
}

/// A header line that names the file (`Foo.ls - ...` or `Foo.ls: ...`).
pub open spec fn names_file(l: Seq<char>) -> bool {
    has_infix(l, ".ls -"@) || has_infix(l, ".ls:"@)
}

/// The module doc of a source: its leading `;;` comment block without a
/// header line that names the file, empty lines dropped, or `None` when
/// nothing is left.
pub open spec fn module_doc_spec(source: Seq<char>) -> Option<Seq<char>> {
    let docs = leading_docs(lines_spec(source));
    if docs.len() == 0 {
        None
    } else {
        let kept = if names_file(docs[0]) {
            docs.drop_first()
        } else {
            docs
        };
        let text = join_nonempty(kept);
        if text.len() == 0 {
            None
        } else {
            Some(text)
        }
    }
}

/// The comment texts of the leading comment block of `lines`.
fn leading_doc_lines(lines: &Vec<Vec<char>>) -> (r: Vec<Vec<char>>)
    ensures
        char_vec_views(r@) == leading_docs(char_vec_views(lines@)),
{
    let ghost all = char_vec_views(lines@);
    let mut docs: Vec<Vec<char>> = Vec::new();
    let mut i: usize = 0;
    assert(all.skip(0) =~= all);
    while i < lines.len()
        invariant
            i <= lines.len(),
            all == char_vec_views(lines@),
            leading_docs(all) == char_vec_views(docs@) + leading_docs(all.skip(i as int)),
        decreases lines.len() - i,
    {
        let line = &lines[i];
        let a = skip_white(line, 0, line.len());
        let ghost rest = all.skip(i as int);
        proof {
            assert(rest[0] == line@);
            assert(rest.drop_first() =~= all.skip(i + 1));
            assert(line@.subrange(0, line@.len() as int) =~= line@);
            lemma_trim_start_at(line@, a as int);
        }
        let ghost before = docs@;
        if line.len() - a >= 2 && line[a] == ';' && line[a + 1] == ';' {
            let text = trimmed_range(line, a + 2, line.len());
            proof {
                assert(line@.skip(a as int).skip(2) =~= line@.subrange(a + 2, line@.len() as int));
            }
            docs.push(text);
            proof {
                assert(char_vec_views(docs@) =~= char_vec_views(before).push(text@));
                assert(char_vec_views(docs@) + leading_docs(all.skip(i + 1)) =~= char_vec_views(
                    before,
                ) + leading_docs(rest));
            }
        } else if a == line.len() {
            proof {
                assert(line@.skip(a as int).len() == 0);
            }
        } else {
            proof {
                let t = line@.skip(a as int);
                assert(t.len() > 0);
                assert(!is_doc_comment(t)) by {
                    if t.len() >= 2 {
                        assert(t[0] == line@[a as int]);
                        assert(t[1] == line@[a + 1]);
                    }
                }
                assert(leading_docs(rest) == Seq::<Seq<char>>::empty());
                assert(char_vec_views(docs@) + Seq::<Seq<char>>::empty() =~= char_vec_views(
                    docs@,
                ));
            }
            return docs;
        }
        i = i + 1;
    }
    proof {
        assert(all.skip(lines.len() as int) =~= Seq::<Seq<char>>::empty());
        assert(char_vec_views(docs@) + Seq::<Seq<char>>::empty() =~= char_vec_views(docs@));
    }
    docs
}

/// The module doc of a source file: the text of its leading `;;` comment
/// block, without a first line that names the file and without empty lines.
pub fn extract_module_doc(source: &str) -> (r: Option<String>)
    ensures
        opt_view(r) == module_doc_spec(source@),
{
    let chars = chars_of(source);
    let lines = split_lines(&chars);
    let docs = leading_doc_lines(&lines);
    let ghost dv = char_vec_views(docs@);
    if docs.len() == 0 {
        return None;
    }
    let dash = chars_of(".ls -");
    let colon = chars_of(".ls:");
    let skip_first = contains_chars(&docs[0], &dash) || contains_chars(&docs[0], &colon);
    let start: usize = if skip_first {
        1
    } else {
        0
    };
    let ghost kept = dv.subrange(start as int, dv.len() as int);
    proof {
        if skip_first {
            assert(kept =~= dv.drop_first());
        } else {
            assert(kept =~= dv);
        }
    }
    let mut out: Vec<char> = Vec::new();
    let mut i: usize = start;
    assert(dv.subrange(start as int, start as int) =~= Seq::<Seq<char>>::empty());
    while i < docs.len()
        invariant
            start <= i <= docs.len(),
            dv == char_vec_views(docs@),
            out@ == join_nonempty(dv.subrange(start as int, i as int)),
        decreases docs.len() - i,
    {
        let line = &docs[i];
        proof {
            let s = dv.subrange(start as int, i + 1);
            assert(s.drop_last() =~= dv.subrange(start as int, i as int));
            assert(s.last() == line@);
        }
        if line.len() > 0 {
            if out.len() > 0 {
                push_char_vec(&mut out, '\n');
            }
            let mut k: usize = 0;
            let ghost base = out@;
            while k < line.len()
                invariant
                    k <= line.len(),
                    out@ == base + line@.take(k as int),
                decreases line.len() - k,
            {
                push_char_vec(&mut out, line[k]);
                assert(out@ =~= base + line@.take(k + 1));
                k = k + 1;
            }
            assert(line@.take(line@.len() as int) =~= line@);
        }
        i = i + 1;
    }
    assert(dv.subrange(start as int, dv.len() as int) == kept);
    if out.len() == 0 {
        None
    } else {
        Some(string_from_chars(&out))
    }
}

fn push_char_vec(v: &mut Vec<char>, c: char)
    ensures
        final(v)@ == old(v)@.push(c),
{
    v.push(c);
}

// ---------------------------------------------------------------------------
// The module name declared by a program.

/// The name of the first `(module ...)` declaration at the top level.
pub open spec fn first_module_name(decls: Seq<Decl>) -> Option<Seq<char>>
    decreases decls.len(),
{
    if decls.len() == 0 {
        None
    } else {
        match decls[0] {
            Decl::ModuleDecl { name, .. } => Some(name@),
            _ => first_module_name(decls.drop_first()),
        }
    }
}

/// The name of the first module declaration of `program`.
pub fn module_name_from_program(program: &Program) -> (r: Option<String>)
    ensures
        opt_view(r) == first_module_name(program.decls@),
{
    let decls = &program.decls;
    let mut i: usize = 0;
    assert(decls@.skip(0) =~= decls@);
    while i < decls.len()
        invariant
            i <= decls.len(),
            decls@ == program.decls@,
            first_module_name(decls@) == first_module_name(decls@.skip(i as int)),
        decreases decls.len() - i,
    {
        proof {
            assert(decls@.skip(i as int)[0] == decls@[i as int]);
            assert(decls@.skip(i as int).drop_first() =~= decls@.skip(i + 1));
        }
        let d = &decls[i];
        match d {
            Decl::ModuleDecl { name, .. } => {
                let r = Some(owned(name.as_str()));
                proof {
                    let rest = decls@.skip(i as int);
                    assert(rest[0] == *d);
                    assert(first_module_name(rest) == Some(name@));
                }
                return r;
            },
            _ => {},
        }
        i = i + 1;
    }
    None
}

// ---------------------------------------------------------------------------
// Functions and types of a module.

/// `"?"`, shown where a type is unknown.
pub open spec fn unknown() -> Seq<char> {
    seq!['?']
}

/// The scheme recorded for `name`: the first entry under that name.
pub open spec fn scheme_for(results: Seq<(String, RenderedScheme)>, name: Seq<char>) -> Option<
    RenderedScheme,
>
    decreases results.len(),
{
    if results.len() == 0 {
        None
    } else if results[0].0@ == name {
        Some(results[0].1)
    } else {
        scheme_for(results.drop_first(), name)
    }
}

/// The shown type of parameter `index` under an optional scheme.
pub open spec fn param_type_of(s: Option<RenderedScheme>, index: int) -> Seq<char> {
    match s {
        Some(sc) => if 0 <= index < sc.param_types@.len() {
            sc.param_types@[index]@
        } else {
            unknown()
        },
        None => unknown(),
    }
}

/// The shown return type under an optional scheme.
pub open spec fn return_type_of(s: Option<RenderedScheme>) -> Seq<char> {
    match s {
        Some(sc) => sc.return_type@,
        None => unknown(),
    }
}

/// The shown signature under an optional scheme.
pub open spec fn signature_of(s: Option<RenderedScheme>) -> Seq<char> {
    match s {
        Some(sc) => sc.signature@,
        None => unknown(),
    }
}

/// The description `:params` gives a parameter: that of its first entry.
pub open spec fn param_doc(entries: Seq<(String, String)>, name: Seq<char>) -> Option<Seq<char>>
    decreases entries.len(),
{
    if entries.len() == 0 {
        None
    } else if entries[0].0@ == name {
        Some(entries[0].1@)
    } else {
        param_doc(entries.drop_first(), name)
    }
}

/// A parameter's description under optional metadata.
pub open spec fn meta_param_doc(meta: Option<Metadata>, name: Seq<char>) -> Option<Seq<char>> {
    match meta {
        Some(m) => param_doc(m.params@, name),
        None => None,
    }
}

/// The `:returns` description under optional metadata.
pub open spec fn meta_returns(meta: Option<Metadata>) -> Option<Seq<char>> {
    match meta {
        Some(m) => opt_view(m.returns),
        None => None,
    }
}

/// The `:doc` text under optional metadata.
pub open spec fn meta_doc(meta: Option<Metadata>) -> Option<Seq<char>> {
    match meta {
        Some(m) => opt_view(m.doc),
        None => None,
    }
}

/// The rendering of the first `:example` under optional metadata.
pub open spec fn meta_example(meta: Option<Metadata>) -> Option<Seq<char>> {
    match meta {
        Some(m) => if m.example_text@.len() > 0 {
            Some(m.example_text@[0]@)
        } else {
            None
        },
        None => None,
    }
}

/// The documented parameter at `index`.
pub open spec fn param_view(
    params: Seq<String>,
    meta: Option<Metadata>,
    s: Option<RenderedScheme>,
    index: int,
) -> ApiParamView {
    ApiParamView {
        name: params[index]@,
        ty: param_type_of(s, index),
        doc: meta_param_doc(meta, params[index]@),
    }
}

/// The documented function for a definition.
pub open spec fn function_view(
    name: Seq<char>,
    params: Seq<String>,
    meta: Option<Metadata>,
    results: Seq<(String, RenderedScheme)>,
) -> ApiFunctionView {
    let s = scheme_for(results, name);
    ApiFunctionView {
        name,
        signature: signature_of(s),
        params: Seq::new(params.len(), |i: int| param_view(params, meta, s, i)),
        returns: ApiReturnView { ty: return_type_of(s), doc: meta_returns(meta) },
        doc: meta_doc(meta),
        example: meta_example(meta),
    }
}

/// Whether `name` is among `names`.
pub open spec fn names_contain(names: Seq<String>, name: Seq<char>) -> bool {
    exists|i: int| 0 <= i < names.len() && #[trigger] names[i]@ == name
}

/// A declaration with one `private` wrapper removed, and whether there was one.
pub open spec fn unwrap_private(d: Decl) -> (Decl, bool) {
    match d {
        Decl::Private { inner, .. } => (*inner, true),
        other => (other, false),
    }
}

/// The exported function a declaration documents, if any.
pub open spec fn decl_function(
    d: Decl,
    results: Seq<(String, RenderedScheme)>,
    privates: Seq<String>,
) -> Option<ApiFunctionView> {
    let (inner, is_private) = unwrap_private(d);
    match inner {
        Decl::Defn { name, params, metadata, .. } => if is_private || names_contain(
            privates,
            name@,
        ) {
            None
        } else {
            Some(function_view(name@, params@, metadata, results))
        },
        _ => None,
    }
}

/// The name and kind of a type declaration.
pub open spec fn type_decl(d: Decl) -> Option<(Seq<char>, Seq<char>)> {
    match d {
        Decl::RecordDef { name, .. } => Some((name@, "record"@)),
        Decl::TypeDef { name, .. } => Some((name@, "adt"@)),
        Decl::TypeAlias { name, .. } => Some((name@, "alias"@)),
        Decl::TraitDef { name, .. } => Some((name@, "trait"@)),
        _ => None,
    }
}

/// The exported type a declaration documents, if any.
pub open spec fn decl_type(d: Decl, privates: Seq<String>) -> Option<ApiTypeView> {
    let (inner, is_private) = unwrap_private(d);
    match type_decl(inner) {
        Some((name, kind)) => if is_private || names_contain(privates, name) {
            None
        } else {
            Some(ApiTypeView { name, kind })
        },
        None => None,
    }
}

/// The exported functions of a list of declarations, in order.
pub open spec fn api_functions(
    decls: Seq<Decl>,
    results: Seq<(String, RenderedScheme)>,
    privates: Seq<String>,
) -> Seq<ApiFunctionView>
    decreases decls.len(),
{
    if decls.len() == 0 {
        Seq::empty()
    } else {
        let init = api_functions(decls.drop_last(), results, privates);
        match decl_function(decls.last(), results, privates) {
            Some(f) => init.push(f),
            None => init,
        }
    }
}

/// The exported types of a list of declarations, in order.
pub open spec fn api_types(decls: Seq<Decl>, privates: Seq<String>) -> Seq<ApiTypeView>
    decreases decls.len(),
{
    if decls.len() == 0 {
        Seq::empty()
    } else {
        let init = api_types(decls.drop_last(), privates);
        match decl_type(decls.last(), privates) {
            Some(t) => init.push(t),
            None => init,
        }
    }
}

/// `"Main"`, the name of a module that declares none.
pub open spec fn main_module() -> Seq<char> {
    "Main"@
}

/// The API description of one module of a program.
pub open spec fn api_doc_spec(
    package: Seq<char>,
    version: Seq<char>,
    decls: Seq<Decl>,
    results: Seq<(String, RenderedScheme)>,
    module_name: Option<Seq<char>>,
    privates: Seq<String>,
) -> ApiDocView {
    ApiDocView {
        package,
        version,
        modules: seq![
            ApiModuleView {
                name: match module_name {
                    Some(n) => n,
                    None => main_module(),
                },
                doc: None,
                functions: api_functions(decls, results, privates),
                types: api_types(decls, privates),
            },
        ],
    }
}

fn copy_opt(o: &Option<String>) -> (r: Option<String>)
    ensures
        opt_view(r) == opt_view(*o),
{
    match o {
        Some(s) => Some(owned(s.as_str())),
        None => None,
    }
}

fn contains_name(names: &[String], name: &str) -> (r: bool)
    ensures
        r == names_contain(names@, name@),
{
    let mut i: usize = 0;
    while i < names.len()
        invariant
            i <= names.len(),
            forall|j: int| 0 <= j < i ==> #[trigger] names@[j]@ != name@,
        decreases names.len() - i,
    {
        if str_eq(names[i].as_str(), name) {
            return true;
        }
        i = i + 1;
    }
    false
}

fn find_scheme<'a>(results: &'a [(String, RenderedScheme)], name: &str) -> (r: Option<
    &'a RenderedScheme,
>)
    ensures
        match r {
            Some(s) => scheme_for(results@, name@) == Some(*s),
            None => scheme_for(results@, name@) is None,
        },
{
    let mut i: usize = 0;
    assert(results@.skip(0) =~= results@);
    while i < results.len()
        invariant
            i <= results.len(),
            scheme_for(results@, name@) == scheme_for(results@.skip(i as int), name@),
        decreases results.len() - i,
    {
        proof {
            assert(results@.skip(i as int)[0] == results@[i as int]);
            assert(results@.skip(i as int).drop_first() =~= results@.skip(i + 1));
        }
        if str_eq(results[i].0.as_str(), name) {
            return Some(&results[i].1);
        }
        i = i + 1;
    }
    None
}

fn find_param_doc(entries: &Vec<(String, String)>, name: &str) -> (r: Option<String>)
    ensures
        opt_view(r) == param_doc(entries@, name@),
{
    let mut i: usize = 0;
    assert(entries@.skip(0) =~= entries@);
    while i < entries.len()
        invariant
            i <= entries.len(),
            param_doc(entries@, name@) == param_doc(entries@.skip(i as int), name@),
        decreases entries.len() - i,
    {
        proof {
            assert(entries@.skip(i as int)[0] == entries@[i as int]);
            assert(entries@.skip(i as int).drop_first() =~= entries@.skip(i + 1));
        }
        if str_eq(entries[i].0.as_str(), name) {
            return Some(owned(entries[i].1.as_str()));
        }
        i = i + 1;
    }
    None
}

fn unknown_text() -> (s: String)
    ensures
        s@ == unknown(),
{
    let mut s = String::new();
    push_char(&mut s, '?');
    assert(s@ =~= unknown());
    s
}

/// The documented function for a definition.
fn build_function(
    name: &String,
    params: &Vec<String>,
    metadata: &Option<Metadata>,
    type_results: &[(String, RenderedScheme)],
) -> (f: ApiFunction)
    ensures
        f@ == function_view(name@, params@, *metadata, type_results@),
{
    let scheme = find_scheme(type_results, name.as_str());
    let ghost s = scheme_for(type_results@, name@);
    let mut api_params: Vec<ApiParam> = Vec::new();
    let mut i: usize = 0;
    while i < params.len()
        invariant
            i <= params.len(),
            s == scheme_for(type_results@, name@),
            match scheme {
                Some(sc) => s == Some(*sc),
                None => s is None,
            },
            api_params@.len() == i,
            forall|k: int|
                0 <= k < i ==> #[trigger] api_params@[k]@ == param_view(
                    params@,
                    *metadata,
                    s,
                    k,
                ),
        decreases params.len() - i,
    {
        let ty = match scheme {
            Some(sc) => if i < sc.param_types.len() {
                owned(sc.param_types[i].as_str())
            } else {
                unknown_text()
            },
            None => unknown_text(),
        };
        let doc = match metadata {
            Some(m) => find_param_doc(&m.params, params[i].as_str()),
            None => None,
        };
        let p = ApiParam { name: owned(params[i].as_str()), ty, doc };
        api_params.push(p);
        i = i + 1;
    }
    let return_type = match scheme {
        Some(sc) => owned(sc.return_type.as_str()),
        None => unknown_text(),
    };
    let signature = match scheme {
        Some(sc) => owned(sc.signature.as_str()),
        None => unknown_text(),
    };
    let (returns_doc, doc, example) = match metadata {
        Some(m) => {
            let example = if m.example_text.len() > 0 {
                Some(owned(m.example_text[0].as_str()))
            } else {
                None
            };
            (copy_opt(&m.returns), copy_opt(&m.doc), example)
        },
        None => (None, None, None),
    };
    let f = ApiFunction {
        name: owned(name.as_str()),
        signature,
        params: api_params,
        returns: ApiReturn { ty: return_type, doc: returns_doc },
        doc,
        example,
    };
    assert(f@.params =~= Seq::new(params@.len(), |k: int| param_view(params@, *metadata, s, k)));
    f
}

fn kind_text(kind: &str) -> (s: String)
    ensures
        s@ == kind@,
{
    owned(kind)
}

/// The API description of one module of a program: its functions and types
/// that are neither declared `private` nor listed in `privates`, in
/// declaration order. A function's parameter and return types and its
/// signature come from the first entry of `type_results` under its name,
/// and are `"?"` without one; its docs come from its metadata. The module is
/// `module_name`, or `"Main"` without one.
pub fn build_api_doc(
    package: &str,
    version: &str,
    program: &Program,
    type_results: &[(String, RenderedScheme)],
    module_name: Option<&str>,
    privates: &[String],
) -> (r: ApiDoc)
    ensures
        r@ == api_doc_spec(
            package@,
            version@,
            program.decls@,
            type_results@,
            match module_name {
                Some(n) => Some(n@),
                None => None,
            },
            privates@,
        ),
{
    let decls = &program.decls;
    let mut functions: Vec<ApiFunction> = Vec::new();
    let mut types: Vec<ApiType> = Vec::new();
    let mut i: usize = 0;
    while i < decls.len()
        invariant
            i <= decls.len(),
            functions@.map_values(|f: ApiFunction| f@) == api_functions(
                decls@.take(i as int),
                type_results@,
                privates@,
            ),
            types@.map_values(|t: ApiType| t@) == api_types(decls@.take(i as int), privates@),
        decreases decls.len() - i,
    {
        proof {
            assert(decls@.take(i + 1).drop_last() =~= decls@.take(i as int));
            assert(decls@.take(i + 1).last() == decls@[i as int]);
        }
        let ghost fbefore = functions@;
        let ghost tbefore = types@;
        let (inner, is_private): (&Decl, bool) = match &decls[i] {
            Decl::Private { inner, .. } => (&**inner, true),
            other => (other, false),
        };
        match inner {
            Decl::Defn { name, params, metadata, .. } => {
                if !is_private && !contains_name(privates, name.as_str()) {
                    let f = build_function(name, params, metadata, type_results);
                    functions.push(f);
                    assert(functions@.map_values(|f: ApiFunction| f@) =~= fbefore.map_values(
                        |f: ApiFunction| f@,
                    ).push(f@));
                }
            },
            Decl::RecordDef { name, .. } | Decl::TypeDef { name, .. } | Decl::TypeAlias {
                name,
                ..
            } | Decl::TraitDef { name, .. } => {
                if !is_private && !contains_name(privates, name.as_str()) {
                    let kind = match inner {
                        Decl::RecordDef { .. } => kind_text("record"),
                        Decl::TypeDef { .. } => kind_text("adt"),
                        Decl::TypeAlias { .. } => kind_text("alias"),
                        _ => kind_text("trait"),
                    };
                    let t = ApiType { name: owned(name.as_str()), kind };
                    types.push(t);
                    assert(types@.map_values(|t: ApiType| t@) =~= tbefore.map_values(
                        |t: ApiType| t@,
                    ).push(t@));
                }
            },
            _ => {},
        }
        i = i + 1;
    }
    assert(decls@.take(decls.len() as int) =~= decls@);
    let name = match module_name {
        Some(n) => owned(n),
        None => owned("Main"),
    };
    let module = ApiModule { name, doc: None, functions, types };
    let mut modules: Vec<ApiModule> = Vec::new();
    modules.push(module);
    let r = ApiDoc { package: owned(package), version: owned(version), modules };
    assert(r@.modules =~= seq![module@]);
    r
}


// ---------------------------------------------------------------------------
// Per-file and per-package assembly.

impl TextKey for ApiModule {
    open spec fn key_view(&self) -> Seq<char> {
        self.name@
    }

    fn key_str(&self) -> (s: &str) {
        self.name.as_str()
    }
}

/// The module name of a file: the inferred module name, else the program's
/// first module declaration, else the file stem, else `"Main"`.
pub open spec fn file_module_name_spec(
    inferred: Option<Seq<char>>,
    decls: Seq<Decl>,
    file_stem: Option<Seq<char>>,
) -> Seq<char> {
    match inferred {
        Some(n) => n,
        None => match first_module_name(decls) {
            Some(n) => n,
            None => match file_stem {
                Some(n) => n,
                None => main_module(),
            },
        },
    }
}

/// The content of an optional string slice.
pub open spec fn opt_str_view(o: Option<&str>) -> Option<Seq<char>> {
    match o {
        Some(s) => Some(s@),
        None => None,
    }
}

/// The API description of one source file.
pub open spec fn file_api_doc_spec(
    package: Seq<char>,
    version: Seq<char>,
    source: Seq<char>,
    decls: Seq<Decl>,
    results: Seq<(String, RenderedScheme)>,
    inferred_module: Option<Seq<char>>,
    privates: Seq<String>,
    file_stem: Option<Seq<char>>,
) -> ApiDocView {
    let module = ApiModuleView {
        name: file_module_name_spec(inferred_module, decls, file_stem),
        doc: module_doc_spec(source),
        functions: api_functions(decls, results, privates),
        types: api_types(decls, privates),
    };
    ApiDocView { package, version, modules: seq![module] }
}

/// The API description of one source file: [`build_api_doc`] for its
/// program, with the module named by [`file_module_name_spec`] and
/// documented by the file's leading comment block.
pub fn build_file_api_doc(
    package: &str,
    version: &str,
    source: &str,
    program: &Program,
    type_results: &[(String, RenderedScheme)],
    inferred_module: Option<&str>,
    privates: &[String],
    file_stem: Option<&str>,
) -> (r: ApiDoc)
    ensures
        r@ == file_api_doc_spec(
            package@,
            version@,
            source@,
            program.decls@,
            type_results@,
            opt_str_view(inferred_module),
            privates@,
            opt_str_view(file_stem),
        ),
{
    let mut api = build_api_doc(package, version, program, type_results, inferred_module, privates);
    assert(api.modules@.map_values(|m: ApiModule| m@).len() == 1);
    let ghost built = api.modules@[0];
    assert(built@ == api@.modules[0]);
    let first = api.modules.pop().unwrap();
    assert(first == built);
    let name = match inferred_module {
        Some(n) => owned(n),
        None => match module_name_from_program(program) {
            Some(n) => n,
            None => match file_stem {
                Some(n) => owned(n),
                None => owned("Main"),
            },
        },
    };
    let doc = extract_module_doc(source);
    let module = ApiModule { name, doc, functions: first.functions, types: first.types };
    let mut out: Vec<ApiModule> = Vec::new();
    out.push(module);
    let r = ApiDoc { package: api.package, version: api.version, modules: out };
    assert(r@.modules =~= seq![module@]);
    r
}

/// The API description of a package: its modules ordered by name, modules
/// of equal names in the given order.
pub fn package_api_doc(package: &str, version: &str, modules: Vec<ApiModule>) -> (r: ApiDoc)
    ensures
        r.package@ == package@,
        r.version@ == version@,
        is_stable_sort_of(r.modules@, modules@),
{
    let sorted = stable_sort_by_key(modules);
    ApiDoc { package: owned(package), version: owned(version), modules: sorted }
}


/// The API description documents no function or type that is declared
/// `private` or listed among the module's private names.
pub proof fn law_private_names_stay_undocumented(
    decls: Seq<Decl>,
    results: Seq<(String, RenderedScheme)>,
    privates: Seq<String>,
)
    ensures
        forall|i: int|
            0 <= i < api_functions(decls, results, privates).len() ==> !names_contain(
                privates,
                #[trigger] api_functions(decls, results, privates)[i].name,
            ),
        forall|i: int|
            0 <= i < api_types(decls, privates).len() ==> !names_contain(
                privates,
                #[trigger] api_types(decls, privates)[i].name,
            ),
    decreases decls.len(),
{
    if decls.len() > 0 {
        let init = decls.drop_last();
        law_private_names_stay_undocumented(init, results, privates);
        let fs = api_functions(decls, results, privates);
        let fi = api_functions(init, results, privates);
        assert forall|i: int| 0 <= i < fs.len() implies !names_contain(
            privates,
            #[trigger] fs[i].name,
        ) by {
            if i < fi.len() {
                assert(fs[i] == fi[i]);
            }
        }
        let ts = api_types(decls, privates);
        let ti = api_types(init, privates);
        assert forall|i: int| 0 <= i < ts.len() implies !names_contain(
            privates,
            #[trigger] ts[i].name,
        ) by {
            if i < ti.len() {
                assert(ts[i] == ti[i]);
            }
        }
    }
}

} // verus!
