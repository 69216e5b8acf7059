//! Compile targets and backends, and the compile pipeline's result record.

use vstd::prelude::*;
use crate::artifact_cache::{file_extension, key_schema, last_dot};
use crate::sorting::{is_stable_sort_of, stable_sort_by_key, TextKey};
use crate::text::{chars_of, owned, push_char, push_str, str_eq, string_from_range};

verus! {

/// std's `PathBuf`, declared so that a path can be carried through the
/// library's records; nothing is claimed of what it holds.
#[verifier::external_type_specification]
#[verifier::external_body]
pub struct ExPathBuf(std::path::PathBuf);

/// The compile target.
#[derive(Debug, Clone, Copy, PartialEq, Eq, Structural, Hash)]
pub enum CompileTarget {
    WasiPreview1,
    WasiComponent,
    WebWasm,
    Native,
}

/// The value-representation backend.
#[derive(Debug, Clone, Copy, PartialEq, Eq, Structural, Hash)]
pub enum CompileBackend {
    /// The linear-memory backend of each target.
    Linear,
    /// The optional backend on WasmGC structs and arrays.
    WasmGc,
}

/// The result of the compile pipeline.
#[derive(Debug, PartialEq, Eq)]
pub struct CompileArtifacts {
    pub output_path: std::path::PathBuf,
    pub formatted: bool,
    /// Whether an artifact cache hit short-circuited the pipeline.
    pub from_cache: bool,
}

/// The stable tag of a compile target.
pub open spec fn target_tag_spec(target: CompileTarget) -> Seq<char> {
    match target {
        CompileTarget::WasiPreview1 => "wasi-preview1"@,
        CompileTarget::WasiComponent => "wasi-component"@,
        CompileTarget::WebWasm => "web-wasm"@,
        CompileTarget::Native => "native"@,
    }
}

/// The stable tag of a backend.
pub open spec fn backend_tag_spec(backend: CompileBackend) -> Seq<char> {
    match backend {
        CompileBackend::Linear => "linear"@,
        CompileBackend::WasmGc => "wasmgc"@,
    }
}

/// The stable tag of a compile target, as used in cache keys.
pub fn target_tag(target: CompileTarget) -> (s: &'static str)
    ensures
        s@ == target_tag_spec(target),
{
    match target {
        CompileTarget::WasiPreview1 => "wasi-preview1",
        CompileTarget::WasiComponent => "wasi-component",
        CompileTarget::WebWasm => "web-wasm",
        CompileTarget::Native => "native",
    }
}

/// The stable tag of a backend, as used in cache keys.
pub fn backend_tag(backend: CompileBackend) -> (s: &'static str)
    ensures
        s@ == backend_tag_spec(backend),
{
    match backend {
        CompileBackend::Linear => "linear",
        CompileBackend::WasmGc => "wasmgc",
    }
}

/// The outcome of a format check.
#[derive(Debug)]
pub enum FmtResult {
    /// Already formatted.
    Unchanged,
    /// Formatting changes the source.
    Changed {
        /// The formatted source.
        formatted: String,
    },
}

/// Compares a source with the formatter's output for it.
///
/// `formatted` is what the formatter produced for `source` (or its error);
/// an error is passed through, equal text is `Unchanged`, other text is
/// `Changed` with that text.
pub fn check_format(source: &str, formatted: Result<String, String>) -> (r: Result<FmtResult, String>)
    ensures
        match formatted {
            Err(e) => r matches Err(e2) && e2@ == e@,
            Ok(f) => if f@ == source@ {
                r matches Ok(FmtResult::Unchanged)
            } else {
                r matches Ok(FmtResult::Changed { formatted: g }) && g@ == f@
            },
        },
{
    match formatted {
        Err(e) => Err(e),
        Ok(f) => {
            if crate::text::str_eq(f.as_str(), source) {
                Ok(FmtResult::Unchanged)
            } else {
                Ok(FmtResult::Changed { formatted: f })
            }
        },
    }
}


// ---------------------------------------------------------------------------
// Choosing the target from the output path.

/// Whether `s` ends with `p`.
pub open spec fn ends_with(s: Seq<char>, p: Seq<char>) -> bool {
    p.len() <= s.len() && s.skip(s.len() - p.len()) == p
}

/// The target an output path asks for, from its file name and its
/// extension: a `*.component.wasm` file is a WASI component, another file
/// with the extension `wasm` is WASI preview 1, anything else a native
/// executable. A name or extension that is absent (or not UTF-8) is `None`.
pub open spec fn target_for_output(name: Option<Seq<char>>, extension: Option<Seq<char>>) -> CompileTarget {
    let n = match name {
        Some(n) => n,
        None => Seq::empty(),
    };
    if ends_with(n, ".component.wasm"@) {
        CompileTarget::WasiComponent
    } else if extension == Some("wasm"@) {
        CompileTarget::WasiPreview1
    } else {
        CompileTarget::Native
    }
}

fn ends_with_str(s: &Vec<char>, p: &str) -> (r: bool)
    ensures
        r == ends_with(s@, p@),
{
    let pc = chars_of(p);
    if pc.len() > s.len() {
        return false;
    }
    let start = s.len() - pc.len();
    let tail = string_from_range(s, start, s.len());
    assert(tail@ =~= s@.skip(start as int));
    str_eq(tail.as_str(), p)
}

/// The target an output path asks for, given its file name and its
/// extension as `Path::file_name` and `Path::extension` give them in UTF-8.
pub fn infer_target_from_output_name(name: Option<&str>, extension: Option<&str>) -> (t: CompileTarget)
    ensures
        t == target_for_output(
            match name {
                Some(n) => Some(n@),
                None => None,
            },
            match extension {
                Some(e) => Some(e@),
                None => None,
            },
        ),
{
    let chars = match name {
        Some(n) => chars_of(n),
        None => Vec::new(),
    };
    if ends_with_str(&chars, ".component.wasm") {
        CompileTarget::WasiComponent
    } else {
        match extension {
            Some(e) => if str_eq(e, "wasm") {
                CompileTarget::WasiPreview1
            } else {
                CompileTarget::Native
            },
            None => CompileTarget::Native,
        }
    }
}

/// A driver I/O failure as it is reported: its message behind the driver's
/// diagnostic code.
pub fn driver_io_error(message: &str) -> (r: String)
    ensures
        r@ == "[LS5001] "@ + message@,
{
    let mut s = owned("[LS5001] ");
    push_str(&mut s, message);
    s
}

/// The error when no output path was given.
pub open spec fn missing_output_message() -> Seq<char> {
    "[LS5001] "@ + "output path が必要です"@
}

/// The compile target and the output path: the requested target, else the
/// one the output path asks for. `output` is the output path with its file
/// name and its extension in UTF-8 (`None` where absent or not UTF-8); an
/// output path is required.
pub fn resolve_compile_target<P>(
    output: Option<(P, Option<&str>, Option<&str>)>,
    requested_target: Option<CompileTarget>,
) -> (r: Result<(CompileTarget, P), String>)
    ensures
        match output {
            None => r matches Err(e) && e@ == missing_output_message(),
            Some((path, name, extension)) => r matches Ok((t, p)) && p == path && t == match requested_target {
                Some(t) => t,
                None => target_for_output(
                    match name {
                        Some(n) => Some(n@),
                        None => None,
                    },
                    match extension {
                        Some(e) => Some(e@),
                        None => None,
                    },
                ),
            },
        },
{
    match output {
        None => Err(driver_io_error("output path が必要です")),
        Some((path, name, extension)) => {
            let target = match requested_target {
                Some(t) => t,
                None => infer_target_from_output_name(name, extension),
            };
            Ok((target, path))
        },
    }
}

/// The extension a default output path gets for a target, or `None` for a
/// native executable, which is named by the source file's stem.
pub fn default_output_extension(target: CompileTarget) -> (r: Option<&'static str>)
    ensures
        match target {
            CompileTarget::WasiPreview1 | CompileTarget::WebWasm => r matches Some(e) && e@
                == "wasm"@,
            CompileTarget::WasiComponent => r matches Some(e) && e@ == "component.wasm"@,
            CompileTarget::Native => r is None,
        },
{
    match target {
        CompileTarget::WasiPreview1 => Some("wasm"),
        CompileTarget::WasiComponent => Some("component.wasm"),
        CompileTarget::WebWasm => Some("wasm"),
        CompileTarget::Native => None,
    }
}

// ---------------------------------------------------------------------------
// The compile cache key.

/// One module of a compiled module graph, as it enters the cache key.
#[derive(Debug)]
pub struct ModuleSource {
    pub name: String,
    pub canonical_path: String,
    /// The fingerprint of the module's source text.
    pub fingerprint: String,
}

impl TextKey for ModuleSource {
    open spec fn key_view(&self) -> Seq<char> {
        self.name@
    }

    fn key_str(&self) -> (s: &str) {
        self.name.as_str()
    }
}

/// The file name of the default output for a source file with stem `stem`:
/// the stem with the target's extension, or the bare stem for a native
/// executable.
pub open spec fn default_output_name(stem: Seq<char>, target: CompileTarget) -> Seq<char> {
    match target {
        CompileTarget::WasiComponent => stem + ".component.wasm"@,
        CompileTarget::Native => stem,
        _ => stem + ".wasm"@,
    }
}

/// The stem of a file name, as `Path::file_stem` gives it: what precedes the
/// last `'.'`, unless that dot begins the name or there is none.
pub open spec fn file_stem(name: Seq<char>) -> Seq<char> {
    match last_dot(name) {
        Some(i) => if i > 0 {
            name.take(i)
        } else {
            name
        },
        None => name,
    }
}

/// The file name of the default output of the source file named `name`.
pub open spec fn default_output_file_name_spec(name: Seq<char>, target: CompileTarget) -> Seq<char> {
    default_output_name(file_stem(name), target)
}

/// The file name of the default output of the source file named `name`:
/// its stem with the target's extension, or the bare stem for a native
/// executable (as `Path::with_extension` and `Path::file_stem` make them).
pub fn default_output_file_name(name: &str, target: CompileTarget) -> (r: String)
    ensures
        r@ == default_output_file_name_spec(name@, target),
{
    let chars = chars_of(name);
    let mut k = chars.len();
    assert(chars@.take(k as int) =~= chars@);
    while k > 0 && chars[k - 1] != '.'
        invariant
            k <= chars.len(),
            last_dot(chars@) == last_dot(chars@.take(k as int)),
        decreases k,
    {
        assert(chars@.take(k as int).drop_last() =~= chars@.take(k - 1));
        k = k - 1;
    }
    let stem = if k <= 1 {
        proof {
            if k == 0 {
                assert(chars@.take(0) =~= Seq::<char>::empty());
            } else {
                assert(chars@.take(1).last() == chars@[0]);
            }
        }
        owned(name)
    } else {
        assert(chars@.take(k as int).last() == chars@[k - 1]);
        string_from_range(&chars, 0, k - 1)
    };
    assert(stem@ =~= file_stem(name@));
    let mut out = stem;
    match target {
        CompileTarget::WasiComponent => push_str(&mut out, ".component.wasm"),
        CompileTarget::Native => {},
        _ => push_str(&mut out, ".wasm"),
    }
    out
}

proof fn lemma_last_dot_none(s: Seq<char>)
    requires
        !s.contains('.'),
    ensures
        last_dot(s) is None,
    decreases s.len(),
{
    if s.len() > 0 {
        assert(s.last() == s[s.len() - 1]);
        assert forall|i: int| 0 <= i < s.drop_last().len() implies s.drop_last()[i] != '.' by {
            assert(s.drop_last()[i] == s[i]);
        }
        lemma_last_dot_none(s.drop_last());
    }
}

proof fn lemma_last_dot_after(s: Seq<char>, t: Seq<char>)
    requires
        !t.contains('.'),
    ensures
        last_dot(s + t) == last_dot(s),
    decreases t.len(),
{
    if t.len() == 0 {
        assert(s + t =~= s);
    } else {
        assert((s + t).drop_last() =~= s + t.drop_last());
        assert((s + t).last() == t[t.len() - 1]);
        assert forall|i: int| 0 <= i < t.drop_last().len() implies t.drop_last()[i] != '.' by {
            assert(t.drop_last()[i] == t[i]);
        }
        lemma_last_dot_after(s, t.drop_last());
    }
}

/// A name that ends in `.component.wasm` holds a dot at the start of that
/// suffix.
proof fn lemma_component_suffix_dot(n: Seq<char>)
    requires
        ends_with(n, ".component.wasm"@),
    ensures
        n[n.len() - 15] == '.',
{
    reveal_strlit(".component.wasm");
    assert(n.skip(n.len() - 15)[0] == n[n.len() - 15]);
}

/// The default output of a source file asks for the target it was made for:
/// a stem without dots, given the target's extension, infers that target
/// back. (The WebWasm default ends in `.wasm` like a WASI preview 1 output,
/// and infers WASI preview 1.)
pub proof fn law_default_output_infers_its_target(stem: Seq<char>, target: CompileTarget)
    requires
        stem.len() > 0,
        !stem.contains('.'),
        target != CompileTarget::WebWasm,
    ensures
        target_for_output(
            Some(default_output_name(stem, target)),
            file_extension(default_output_name(stem, target)),
        ) == target,
{
    reveal_strlit(".component.wasm");
    reveal_strlit(".wasm");
    reveal_strlit("wasm");
    let n = default_output_name(stem, target);
    match target {
        CompileTarget::WasiComponent => {
            assert(n.skip(n.len() - 15) =~= ".component.wasm"@);
        },
        CompileTarget::Native => {
            if ends_with(n, ".component.wasm"@) {
                lemma_component_suffix_dot(n);
                assert(stem.contains(stem[stem.len() - 15]));
            }
            lemma_last_dot_none(stem);
        },
        _ => {
            if ends_with(n, ".component.wasm"@) {
                lemma_component_suffix_dot(n);
                assert(n[n.len() - 15] == stem[n.len() - 15]);
                assert(stem.contains(stem[n.len() - 15]));
            }
            let dot = seq!['.'];
            assert(n =~= (stem + dot) + "wasm"@);
            assert(!"wasm"@.contains('.')) by {
                assert forall|i: int| 0 <= i < 4 implies "wasm"@[i] != '.' by {}
            }
            lemma_last_dot_after(stem + dot, "wasm"@);
            assert((stem + dot).last() == '.');
            assert(n.skip(stem.len() + 1int) =~= "wasm"@);
        },
    }
}

/// The default output of a source file asks for the target it was made for,
/// when the file's stem holds no dot (WebWasm excepted, as above).
pub proof fn law_default_output_file_infers_its_target(name: Seq<char>, target: CompileTarget)
    requires
        file_stem(name).len() > 0,
        !file_stem(name).contains('.'),
        target != CompileTarget::WebWasm,
    ensures
        target_for_output(
            Some(default_output_file_name_spec(name, target)),
            file_extension(default_output_file_name_spec(name, target)),
        ) == target,
{
    law_default_output_infers_its_target(file_stem(name), target);
}

/// The manifest line of a module: name, path and fingerprint, separated by
/// NUL characters.
pub open spec fn module_line(m: ModuleSource) -> Seq<char> {
    m.name@ + seq!['\0'] + m.canonical_path@ + seq!['\0'] + m.fingerprint@ + seq!['\n']
}

/// The manifest lines of modules, in order.
pub open spec fn module_lines(ms: Seq<ModuleSource>) -> Seq<char>
    decreases ms.len(),
{
    if ms.len() == 0 {
        Seq::empty()
    } else {
        module_lines(ms.drop_last()) + module_line(ms.last())
    }
}

/// The manifest header: key schema, compiler version, entry file identity,
/// target tag and backend tag, one per line.
pub open spec fn manifest_header(
    version: Seq<char>,
    entry_identity: Seq<char>,
    target: CompileTarget,
    backend: CompileBackend,
) -> Seq<char> {
    key_schema() + seq!['\n'] + version + seq!['\n'] + entry_identity + seq!['\n']
        + target_tag_spec(target) + seq!['\n'] + backend_tag_spec(backend) + seq!['\n']
}

/// The text whose fingerprint identifies a compilation: the header, then
/// one line per module of the graph, modules ordered by name (modules of
/// equal names in the given order).
pub fn compile_key_manifest(
    version: &str,
    entry_identity: &str,
    target: CompileTarget,
    backend: CompileBackend,
    modules: Vec<ModuleSource>,
) -> (r: String)
    ensures
        exists|sorted: Seq<ModuleSource>|
            is_stable_sort_of(sorted, modules@) && r@ == manifest_header(
                version@,
                entry_identity@,
                target,
                backend,
            ) + module_lines(sorted),
{
    let sorted = stable_sort_by_key(modules);
    let mut text = owned("lsharp-compile-key-v1");
    push_char(&mut text, '\n');
    push_str(&mut text, version);
    push_char(&mut text, '\n');
    push_str(&mut text, entry_identity);
    push_char(&mut text, '\n');
    push_str(&mut text, target_tag(target));
    push_char(&mut text, '\n');
    push_str(&mut text, backend_tag(backend));
    push_char(&mut text, '\n');
    let ghost header = text@;
    assert(header =~= manifest_header(version@, entry_identity@, target, backend));
    let mut i: usize = 0;
    while i < sorted.len()
        invariant
            i <= sorted.len(),
            text@ == header + module_lines(sorted@.take(i as int)),
        decreases sorted.len() - i,
    {
        let m = &sorted[i];
        push_str(&mut text, m.name.as_str());
        push_char(&mut text, '\0');
        push_str(&mut text, m.canonical_path.as_str());
        push_char(&mut text, '\0');
        push_str(&mut text, m.fingerprint.as_str());
        push_char(&mut text, '\n');
        proof {
            assert(sorted@.take(i + 1).drop_last() =~= sorted@.take(i as int));
            assert(sorted@.take(i + 1).last() == *m);
            assert(text@ =~= header + module_lines(sorted@.take(i + 1)));
        }
        i = i + 1;
    }
    assert(sorted@.take(sorted.len() as int) =~= sorted@);
    text
}

/// The identity of a compilation for the artifact cache: the fingerprint of
/// its manifest, the target and the backend.
#[derive(Debug, Clone, PartialEq, Eq, Hash)]
pub struct CompileCacheKey {
    graph_fingerprint: String,
    target: CompileTarget,
    backend: CompileBackend,
}

impl CompileCacheKey {
    pub closed spec fn spec_fingerprint(&self) -> Seq<char> {
        self.graph_fingerprint@
    }

    pub closed spec fn spec_target(&self) -> CompileTarget {
        self.target
    }

    pub closed spec fn spec_backend(&self) -> CompileBackend {
        self.backend
    }

    /// The key with the given manifest fingerprint, target and backend.
    pub fn new(graph_fingerprint: String, target: CompileTarget, backend: CompileBackend) -> (r:
        Self)
        ensures
            r.spec_fingerprint() == graph_fingerprint@,
            r.spec_target() == target,
            r.spec_backend() == backend,
    {
        CompileCacheKey { graph_fingerprint, target, backend }
    }

    /// The manifest fingerprint.
    pub fn fingerprint(&self) -> (r: &str)
        ensures
            r@ == self.spec_fingerprint(),
    {
        self.graph_fingerprint.as_str()
    }

    pub fn target(&self) -> (r: CompileTarget)
        ensures
            r == self.spec_target(),
    {
        self.target
    }

    pub fn backend(&self) -> (r: CompileBackend)
        ensures
            r == self.spec_backend(),
    {
        self.backend
    }
}

} // verus!
