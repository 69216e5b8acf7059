use lsharp::compile::{CompileBackend, CompileTarget};
use lsharp::compile_pipeline::{
    compile_route, default_target, emission, validation_mode, CompilePipeline, CompileRoute,
    Emission, PipelineAction, PipelineEvent, ValidationMode,
};

#[test]
fn cache_hit_finishes_from_the_cache() {
    let mut p = CompilePipeline::new(CompileTarget::WasiComponent, CompileBackend::Linear, false, true);
    assert!(p.caching);
    assert_eq!(p.advance(PipelineEvent::SourcePrepared { formatted: true }), PipelineAction::ComputeCacheKey);
    assert_eq!(
        p.advance(PipelineEvent::CacheKeyComputed),
        PipelineAction::LoadCachedArtifact { mode: Some(ValidationMode::Component) }
    );
    assert_eq!(p.advance(PipelineEvent::CacheLoaded { hit: true }), PipelineAction::WriteCachedArtifact);
    assert_eq!(
        p.advance(PipelineEvent::ArtifactWritten),
        PipelineAction::Finish { formatted: true, from_cache: true }
    );
}

#[test]
fn cache_miss_compiles_writes_and_stores() {
    let mut p = CompilePipeline::new(CompileTarget::WasiPreview1, CompileBackend::Linear, false, true);
    assert_eq!(p.advance(PipelineEvent::SourcePrepared { formatted: false }), PipelineAction::ComputeCacheKey);
    assert_eq!(
        p.advance(PipelineEvent::CacheKeyComputed),
        PipelineAction::LoadCachedArtifact { mode: Some(ValidationMode::Core) }
    );
    assert_eq!(p.advance(PipelineEvent::CacheLoaded { hit: false }), PipelineAction::CompileModule);
    assert_eq!(
        p.advance(PipelineEvent::ModuleCompiled),
        PipelineAction::Emit { emission: Emission::WasiPreview1, validate: Some(ValidationMode::Core) }
    );
    assert_eq!(p.advance(PipelineEvent::ArtifactEmitted { valid: true }), PipelineAction::WriteArtifact);
    assert_eq!(p.advance(PipelineEvent::ArtifactWritten), PipelineAction::StoreArtifact);
    assert_eq!(
        p.advance(PipelineEvent::ArtifactStored),
        PipelineAction::Finish { formatted: false, from_cache: false }
    );
}

#[test]
fn invalid_fresh_artifact_fails_when_caching() {
    let mut p = CompilePipeline::new(CompileTarget::WebWasm, CompileBackend::WasmGc, false, true);
    p.advance(PipelineEvent::SourcePrepared { formatted: false });
    p.advance(PipelineEvent::CacheKeyComputed);
    p.advance(PipelineEvent::CacheLoaded { hit: false });
    assert_eq!(
        p.advance(PipelineEvent::ModuleCompiled),
        PipelineAction::Emit { emission: Emission::WasmGc, validate: Some(ValidationMode::CoreWasmGc) }
    );
    assert_eq!(
        p.advance(PipelineEvent::ArtifactEmitted { valid: false }),
        PipelineAction::Fail("生成された Wasm artifact が target/backend の検証に失敗しました".to_string())
    );
}

#[test]
fn without_cache_the_artifact_is_written_only() {
    let mut p = CompilePipeline::new(CompileTarget::WasiComponent, CompileBackend::Linear, false, false);
    assert!(!p.caching);
    assert_eq!(p.advance(PipelineEvent::SourcePrepared { formatted: true }), PipelineAction::CompileModule);
    assert_eq!(
        p.advance(PipelineEvent::ModuleCompiled),
        PipelineAction::Emit { emission: Emission::WasiComponent, validate: None }
    );
    assert!(p.expects(PipelineEvent::ArtifactEmitted { valid: false }));
    assert!(!p.expects(PipelineEvent::ArtifactStored));
    assert_eq!(p.advance(PipelineEvent::ArtifactEmitted { valid: false }), PipelineAction::WriteArtifact);
    assert_eq!(
        p.advance(PipelineEvent::ArtifactWritten),
        PipelineAction::Finish { formatted: true, from_cache: false }
    );
}

#[test]
fn ir_dump_skips_codegen_and_cache() {
    let mut p = CompilePipeline::new(CompileTarget::WasiComponent, CompileBackend::Linear, true, true);
    assert!(!p.caching);
    assert_eq!(p.advance(PipelineEvent::SourcePrepared { formatted: false }), PipelineAction::CompileModule);
    assert_eq!(p.advance(PipelineEvent::ModuleCompiled), PipelineAction::DumpIr);
    assert_eq!(
        p.advance(PipelineEvent::IrDumped),
        PipelineAction::Finish { formatted: false, from_cache: false }
    );
}

#[test]
fn wasmgc_needs_web_wasm() {
    let mut p = CompilePipeline::new(CompileTarget::WasiPreview1, CompileBackend::WasmGc, false, false);
    p.advance(PipelineEvent::SourcePrepared { formatted: false });
    assert_eq!(
        p.advance(PipelineEvent::ModuleCompiled),
        PipelineAction::Fail("[LS4001] WasmGC backend は現在 --target web-wasm と組み合わせてください".to_string())
    );
}

#[test]
fn native_builds_without_cache() {
    let mut p = CompilePipeline::new(CompileTarget::Native, CompileBackend::Linear, false, true);
    assert!(!p.caching);
    p.advance(PipelineEvent::SourcePrepared { formatted: false });
    assert_eq!(
        p.advance(PipelineEvent::ModuleCompiled),
        PipelineAction::Emit { emission: Emission::Native, validate: None }
    );
    assert_eq!(
        p.advance(PipelineEvent::ArtifactEmitted { valid: true }),
        PipelineAction::Finish { formatted: false, from_cache: false }
    );
}

#[test]
fn pipeline_tables() {
    assert_eq!(default_target(CompileBackend::Linear), CompileTarget::WasiComponent);
    assert_eq!(default_target(CompileBackend::WasmGc), CompileTarget::WebWasm);
    assert_eq!(validation_mode(CompileTarget::Native, CompileBackend::Linear), None);
    assert_eq!(validation_mode(CompileTarget::WasiComponent, CompileBackend::WasmGc), None);
    assert_eq!(emission(CompileTarget::WebWasm, CompileBackend::Linear), Some(Emission::CoreWasm));
    assert_eq!(emission(CompileTarget::Native, CompileBackend::WasmGc), None);
}

#[test]
fn import_routes() {
    assert_eq!(compile_route(false, CompileBackend::WasmGc), Ok(CompileRoute::SingleFile));
    assert_eq!(compile_route(true, CompileBackend::Linear), Ok(CompileRoute::MultiFile));
    assert_eq!(
        compile_route(true, CompileBackend::WasmGc),
        Err("[LS4001] WasmGC backend は現時点で import を含む compile をサポートしていません".to_string())
    );
}

#[test]
fn test_wasmgc_backend_rejects_file_imports_explicitly() {
    let error = compile_route(true, CompileBackend::WasmGc)
        .expect_err("WasmGC backend は未対応の file import を曖昧に処理してはならない");

    assert!(error.contains("[LS4001]"));
    assert!(error.contains("import"));
}
