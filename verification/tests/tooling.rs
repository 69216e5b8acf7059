use std::path::Path;
use lsharp::artifact_cache::ArtifactCache;
use lsharp::compile::{
    backend_tag, check_format, compile_key_manifest, default_output_extension, default_output_file_name,
    infer_target_from_output_name, resolve_compile_target, target_tag, CompileBackend,
    CompileCacheKey, CompileTarget, FmtResult, ModuleSource,
};
use lsharp::metadata_check::{test_kind_label, TestKind};

fn output(path: &Path) -> Option<(&Path, Option<&str>, Option<&str>)> {
    Some((path, path.file_name().and_then(|n| n.to_str()), path.extension().and_then(|e| e.to_str())))
}

fn target_of(name: &str) -> CompileTarget {
    let path = Path::new(name);
    infer_target_from_output_name(
        path.file_name().and_then(|n| n.to_str()),
        path.extension().and_then(|e| e.to_str()),
    )
}

#[test]
fn test_compile_target_and_backend_tags_are_stable() {
    assert_eq!(target_tag(CompileTarget::WasiComponent), "wasi-component");
    assert_eq!(target_tag(CompileTarget::Native), "native");
    assert_eq!(backend_tag(CompileBackend::Linear), "linear");
    assert_eq!(backend_tag(CompileBackend::WasmGc), "wasmgc");
}

#[test]
fn remaining_target_tags() {
    assert_eq!(target_tag(CompileTarget::WasiPreview1), "wasi-preview1");
    assert_eq!(target_tag(CompileTarget::WebWasm), "web-wasm");
}

#[test]
fn test_fmt_check_changed() {
    let source = "(defn   main  []   42)\n";
    let formatted = Ok("(defn main [] 42)\n".to_string());
    match check_format(source, formatted).unwrap() {
        FmtResult::Changed { formatted } => {
            assert!(formatted.contains("defn main"));
        }
        FmtResult::Unchanged => {}
    }
}

#[test]
fn fmt_check_reports_changed_text_exactly() {
    let source = "(defn   main  []   42)\n";
    match check_format(source, Ok("(defn main [] 42)\n".to_string())).unwrap() {
        FmtResult::Changed { formatted } => assert_eq!(formatted, "(defn main [] 42)\n"),
        FmtResult::Unchanged => panic!("different text must be reported as changed"),
    }
}

#[test]
fn fmt_check_unchanged_for_formatted_source() {
    let source = "(defn main [] 42)\n";
    assert!(matches!(
        check_format(source, Ok(source.to_string())),
        Ok(FmtResult::Unchanged)
    ));
}

#[test]
fn fmt_check_passes_formatter_error_through() {
    let result = check_format("(defn", Err("unexpected end of input".to_string()));
    match result {
        Err(message) => assert_eq!(message, "unexpected end of input"),
        Ok(_) => panic!("a formatter error must be returned"),
    }
}

#[test]
fn artifact_cache_keeps_its_root() {
    let root = std::path::PathBuf::from("/tmp/lsharp-cache-root");
    let cache = ArtifactCache::new(root.clone());
    assert_eq!(cache.root(), &root);
}

#[test]
fn test_kind_labels() {
    assert_eq!(test_kind_label(&TestKind::Example), "example");
    assert_eq!(test_kind_label(&TestKind::Invariant), "invariant");
}

#[test]
fn output_name_chooses_target() {
    assert_eq!(target_of("app.component.wasm"), CompileTarget::WasiComponent);
    assert_eq!(target_of("app.wasm"), CompileTarget::WasiPreview1);
    assert_eq!(target_of("app"), CompileTarget::Native);
    assert_eq!(target_of(".wasm"), CompileTarget::Native);
    assert_eq!(infer_target_from_output_name(None, None), CompileTarget::Native);
    assert_eq!(infer_target_from_output_name(None, Some("wasm")), CompileTarget::WasiPreview1);
}

#[test]
fn resolve_compile_target_needs_an_output() {
    assert_eq!(
        resolve_compile_target::<&Path>(None, None),
        Err("[LS5001] output path が必要です".to_string())
    );
    let out = Path::new("out.wasm");
    assert_eq!(resolve_compile_target(output(out), Some(CompileTarget::Native)), Ok((CompileTarget::Native, out)));
    assert_eq!(resolve_compile_target(output(out), None), Ok((CompileTarget::WasiPreview1, out)));
}

#[test]
fn default_output_extensions() {
    assert_eq!(default_output_extension(CompileTarget::WasiPreview1), Some("wasm"));
    assert_eq!(default_output_extension(CompileTarget::WasiComponent), Some("component.wasm"));
    assert_eq!(default_output_extension(CompileTarget::WebWasm), Some("wasm"));
    assert_eq!(default_output_extension(CompileTarget::Native), None);
}

#[test]
fn compile_key_manifest_orders_modules_by_name() {
    let modules = vec![
        ModuleSource {
            name: "Main".to_string(),
            canonical_path: "/src/Main.ls".to_string(),
            fingerprint: "f2".to_string(),
        },
        ModuleSource {
            name: "Lib".to_string(),
            canonical_path: "/src/Lib.ls".to_string(),
            fingerprint: "f1".to_string(),
        },
    ];
    let manifest = compile_key_manifest(
        "0.1.0",
        "/src/Main.ls",
        CompileTarget::WasiPreview1,
        CompileBackend::Linear,
        modules,
    );
    assert_eq!(
        manifest,
        "lsharp-compile-key-v1\n0.1.0\n/src/Main.ls\nwasi-preview1\nlinear\nLib\0/src/Lib.ls\0f1\nMain\0/src/Main.ls\0f2\n"
    );
}

#[test]
fn compile_cache_key_keeps_its_parts() {
    let key = CompileCacheKey::new("abc".to_string(), CompileTarget::Native, CompileBackend::WasmGc);
    assert_eq!(key.fingerprint(), "abc");
    assert_eq!(key.target(), CompileTarget::Native);
    assert_eq!(key.backend(), CompileBackend::WasmGc);
}

#[test]
fn test_resolve_compile_target_uses_output_extension_when_flag_missing() {
    let component_output = Path::new("demo.component.wasm");
    let wasm_output = Path::new("demo.wasm");
    let native_output = Path::new("demo");

    let (component_target, component_path) =
        resolve_compile_target(output(component_output), None).unwrap();
    let (wasm_target, wasm_path) = resolve_compile_target(output(wasm_output), None).unwrap();
    let (native_target, native_path) = resolve_compile_target(output(native_output), None).unwrap();

    assert_eq!(component_target, CompileTarget::WasiComponent);
    assert_eq!(component_path, component_output);
    assert_eq!(wasm_target, CompileTarget::WasiPreview1);
    assert_eq!(wasm_path, wasm_output);
    assert_eq!(native_target, CompileTarget::Native);
    assert_eq!(native_path, native_output);
}

#[test]
fn test_resolve_compile_target_prefers_explicit_flag() {
    let out = Path::new("demo.component.wasm");
    let (target, resolved_path) =
        resolve_compile_target(output(out), Some(CompileTarget::WebWasm)).unwrap();

    assert_eq!(target, CompileTarget::WebWasm);
    assert_eq!(resolved_path, out);
}

#[test]
fn default_output_names_infer_their_targets() {
    for target in [CompileTarget::WasiPreview1, CompileTarget::WasiComponent, CompileTarget::Native] {
        let name = match default_output_extension(target) {
            Some(extension) => format!("Main.{extension}"),
            None => "Main".to_string(),
        };
        assert_eq!(target_of(&name), target);
    }
    let web = format!("Main.{}", default_output_extension(CompileTarget::WebWasm).unwrap());
    assert_eq!(target_of(&web), CompileTarget::WasiPreview1);
}

#[test]
fn default_output_file_names_follow_path_stems() {
    for name in ["Main.ls", "Main", ".hidden", "a.b.ls", "x."] {
        let path = Path::new(name);
        for target in [CompileTarget::WasiPreview1, CompileTarget::WasiComponent, CompileTarget::WebWasm] {
            let expected = path.with_extension(default_output_extension(target).unwrap());
            assert_eq!(default_output_file_name(name, target), expected.to_str().unwrap());
        }
        let stem = path.file_stem().unwrap().to_str().unwrap();
        assert_eq!(default_output_file_name(name, CompileTarget::Native), stem);
    }
    assert_eq!(default_output_file_name("Main.ls", CompileTarget::WasiComponent), "Main.component.wasm");
    assert_eq!(default_output_file_name("Main.ls", CompileTarget::Native), "Main");
}
