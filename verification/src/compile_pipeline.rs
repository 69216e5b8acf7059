//! The decisions of the compile pipeline (format, check, codegen, with an
//! optional artifact cache), as a state machine: the caller performs each
//! action (formatting, loading, compiling, emitting, writing) and reports
//! what happened; the pipeline answers with the next action.

use vstd::prelude::*;
use crate::compile::{CompileBackend, CompileTarget};
use crate::text::owned;

verus! {

/// The target compiled to when none is requested and no output path is given.
pub open spec fn default_target_spec(backend: CompileBackend) -> CompileTarget {
    match backend {
        CompileBackend::Linear => CompileTarget::WasiComponent,
        CompileBackend::WasmGc => CompileTarget::WebWasm,
    }
}

/// The target compiled to when none is requested and no output path is given:
/// a WASI component for the linear backend, browser wasm for WasmGC.
pub fn default_target(backend: CompileBackend) -> (t: CompileTarget)
    ensures
        t == default_target_spec(backend),
{
    match backend {
        CompileBackend::Linear => CompileTarget::WasiComponent,
        CompileBackend::WasmGc => CompileTarget::WebWasm,
    }
}

/// How a wasm artifact is validated.
#[derive(Debug, Clone, Copy, PartialEq, Eq, Structural)]
pub enum ValidationMode {
    /// A WASI component.
    Component,
    /// A core module.
    Core,
    /// A core module that uses WasmGC.
    CoreWasmGc,
}

/// The validation of artifacts of a target and backend; `None` where no
/// artifact can be validated, so none is ever taken from the cache.
pub open spec fn validation_mode_spec(target: CompileTarget, backend: CompileBackend) -> Option<ValidationMode> {
    match (target, backend) {
        (CompileTarget::WasiComponent, CompileBackend::Linear) => Some(ValidationMode::Component),
        (CompileTarget::WasiPreview1, CompileBackend::Linear) => Some(ValidationMode::Core),
        (CompileTarget::WebWasm, CompileBackend::Linear) => Some(ValidationMode::Core),
        (CompileTarget::WebWasm, CompileBackend::WasmGc) => Some(ValidationMode::CoreWasmGc),
        _ => None,
    }
}

/// The validation of artifacts of a target and backend.
pub fn validation_mode(target: CompileTarget, backend: CompileBackend) -> (r: Option<ValidationMode>)
    ensures
        r == validation_mode_spec(target, backend),
{
    match (target, backend) {
        (CompileTarget::WasiComponent, CompileBackend::Linear) => Some(ValidationMode::Component),
        (CompileTarget::WasiPreview1, CompileBackend::Linear) => Some(ValidationMode::Core),
        (CompileTarget::WebWasm, CompileBackend::Linear) => Some(ValidationMode::Core),
        (CompileTarget::WebWasm, CompileBackend::WasmGc) => Some(ValidationMode::CoreWasmGc),
        _ => None,
    }
}

/// The code generator an artifact is emitted with.
#[derive(Debug, Clone, Copy, PartialEq, Eq, Structural)]
pub enum Emission {
    /// A WASI preview 1 core module.
    WasiPreview1,
    /// A WASI preview 2 component.
    WasiComponent,
    /// A browser core module.
    CoreWasm,
    /// A native executable, written by its own toolchain.
    Native,
    /// A WasmGC core module.
    WasmGc,
}

/// The message when WasmGC is combined with a target other than browser wasm.
pub open spec fn wasmgc_target_message() -> Seq<char> {
    "[LS4001] WasmGC backend は現在 --target web-wasm と組み合わせてください"@
}

/// The code generator of a target and backend: the linear backend has one per
/// target; WasmGC supports browser wasm only.
pub open spec fn emission_spec(target: CompileTarget, backend: CompileBackend) -> Option<Emission> {
    match backend {
        CompileBackend::Linear => Some(
            match target {
                CompileTarget::WasiPreview1 => Emission::WasiPreview1,
                CompileTarget::WasiComponent => Emission::WasiComponent,
                CompileTarget::WebWasm => Emission::CoreWasm,
                CompileTarget::Native => Emission::Native,
            },
        ),
        CompileBackend::WasmGc => if target == CompileTarget::WebWasm {
            Some(Emission::WasmGc)
        } else {
            None
        },
    }
}

/// The message when WasmGC is asked to compile a program with imports.
pub open spec fn wasmgc_imports_message() -> Seq<char> {
    "[LS4001] WasmGC backend は現時点で import を含む compile をサポートしていません"@
}

/// How a source is compiled: alone, or with the files it imports.
#[derive(Debug, Clone, Copy, PartialEq, Eq, Structural)]
pub enum CompileRoute {
    SingleFile,
    MultiFile,
}

/// The route of a source: one with file imports is compiled with its module
/// graph, which the WasmGC backend does not support.
pub fn compile_route(has_file_imports: bool, backend: CompileBackend) -> (r: Result<
    CompileRoute,
    String,
>)
    ensures
        has_file_imports && backend == CompileBackend::WasmGc ==> (r matches Err(m) && m@
            == wasmgc_imports_message()),
        has_file_imports && backend == CompileBackend::Linear ==> r == Ok::<
            CompileRoute,
            String,
        >(CompileRoute::MultiFile),
        !has_file_imports ==> r == Ok::<CompileRoute, String>(CompileRoute::SingleFile),
{
    if has_file_imports {
        match backend {
            CompileBackend::WasmGc => Err(
                owned("[LS4001] WasmGC backend は現時点で import を含む compile をサポートしていません"),
            ),
            CompileBackend::Linear => Ok(CompileRoute::MultiFile),
        }
    } else {
        Ok(CompileRoute::SingleFile)
    }
}

/// The message when a freshly emitted artifact fails validation.
pub open spec fn invalid_artifact_message() -> Seq<char> {
    "生成された Wasm artifact が target/backend の検証に失敗しました"@
}

/// Where the pipeline stands.
#[derive(Debug, Clone, Copy, PartialEq, Eq, Structural)]
pub enum Stage {
    /// Waiting for the source to be formatted.
    Preparing,
    /// Waiting for the cache key.
    Keying,
    /// Waiting for the cache lookup.
    Loading,
    /// Waiting for the cached artifact to be written to the output.
    WritingCached,
    /// Waiting for the module to be compiled.
    Compiling,
    /// Waiting for the IR dump.
    Dumping,
    /// Waiting for the artifact to be emitted.
    Emitting,
    /// Waiting for the artifact to be written to the output.
    Writing,
    /// Waiting for the artifact to be stored in the cache.
    Storing,
    /// Finished or failed.
    Done,
}

/// What the caller reports.
#[derive(Debug, Clone, Copy, PartialEq, Eq, Structural)]
pub enum PipelineEvent {
    /// The source was formatted, and written back when formatting changed it.
    SourcePrepared { formatted: bool },
    /// The cache key of the module graph was computed.
    CacheKeyComputed,
    /// The cache was consulted: `hit` when an artifact was found and passed
    /// validation.
    CacheLoaded { hit: bool },
    /// The module was compiled.
    ModuleCompiled,
    /// The IR was printed.
    IrDumped,
    /// The artifact was emitted; `valid` is the outcome of the validation the
    /// emit action asked for, and `true` when it asked for none.
    ArtifactEmitted { valid: bool },
    /// The artifact bytes were written to the output path.
    ArtifactWritten,
    /// The artifact was stored in the cache.
    ArtifactStored,
}

/// What the caller does next.
#[derive(Debug, Clone, PartialEq, Eq)]
pub enum PipelineAction {
    /// Compute the cache key of the entry file's module graph.
    ComputeCacheKey,
    /// Look the artifact up in the cache, validating what is found in the
    /// given mode (without a mode, nothing found counts).
    LoadCachedArtifact { mode: Option<ValidationMode> },
    /// Write the cached artifact to the output path.
    WriteCachedArtifact,
    /// Compile the module from the formatted source.
    CompileModule,
    /// Print the module's IR.
    DumpIr,
    /// Emit the artifact with a code generator, validating it in the given mode.
    Emit { emission: Emission, validate: Option<ValidationMode> },
    /// Write the artifact to the output path.
    WriteArtifact,
    /// Store the artifact in the cache.
    StoreArtifact,
    /// Done: whether formatting changed the source, and whether the artifact came from the cache.
    Finish { formatted: bool, from_cache: bool },
    /// Stop with an error message.
    Fail(String),
}

/// The content of a [`PipelineAction`].
pub enum ActionView {
    ComputeCacheKey,
    LoadCachedArtifact(Option<ValidationMode>),
    WriteCachedArtifact,
    CompileModule,
    DumpIr,
    Emit(Emission, Option<ValidationMode>),
    WriteArtifact,
    StoreArtifact,
    Finish(bool, bool),
    Fail(Seq<char>),
}

impl View for PipelineAction {
    type V = ActionView;

    open spec fn view(&self) -> ActionView {
        match self {
            PipelineAction::ComputeCacheKey => ActionView::ComputeCacheKey,
            PipelineAction::LoadCachedArtifact { mode } => ActionView::LoadCachedArtifact(*mode),
            PipelineAction::WriteCachedArtifact => ActionView::WriteCachedArtifact,
            PipelineAction::CompileModule => ActionView::CompileModule,
            PipelineAction::DumpIr => ActionView::DumpIr,
            PipelineAction::Emit { emission, validate } => ActionView::Emit(*emission, *validate),
            PipelineAction::WriteArtifact => ActionView::WriteArtifact,
            PipelineAction::StoreArtifact => ActionView::StoreArtifact,
            PipelineAction::Finish { formatted, from_cache } => ActionView::Finish(
                *formatted,
                *from_cache,
            ),
            PipelineAction::Fail(m) => ActionView::Fail(m@),
        }
    }
}

/// The state of a compile.
#[derive(Debug, Clone, Copy, PartialEq, Eq, Structural)]
pub struct CompilePipeline {
    pub target: CompileTarget,
    pub backend: CompileBackend,
    pub emit_ir: bool,
    /// Whether the artifact cache takes part.
    pub caching: bool,
    /// Whether formatting changed the source.
    pub formatted: bool,
    pub stage: Stage,
}

/// Whether the artifact cache takes part: one is configured, no IR dump is
/// asked for, and the target is not native.
pub open spec fn caching_spec(has_artifact_cache: bool, emit_ir: bool, target: CompileTarget) -> bool {
    has_artifact_cache && !emit_ir && target != CompileTarget::Native
}

/// The stage an event answers.
pub open spec fn event_stage(e: PipelineEvent) -> Set<Stage> {
    match e {
        PipelineEvent::SourcePrepared { .. } => set![Stage::Preparing],
        PipelineEvent::CacheKeyComputed => set![Stage::Keying],
        PipelineEvent::CacheLoaded { .. } => set![Stage::Loading],
        PipelineEvent::ModuleCompiled => set![Stage::Compiling],
        PipelineEvent::IrDumped => set![Stage::Dumping],
        PipelineEvent::ArtifactEmitted { .. } => set![Stage::Emitting],
        PipelineEvent::ArtifactWritten => set![Stage::WritingCached, Stage::Writing],
        PipelineEvent::ArtifactStored => set![Stage::Storing],
    }
}

/// The pipeline with a new stage.
pub open spec fn at(p: CompilePipeline, stage: Stage) -> CompilePipeline {
    CompilePipeline { stage, ..p }
}

/// One step: the state after an event and the next action.
pub open spec fn step_spec(p: CompilePipeline, e: PipelineEvent) -> (CompilePipeline, ActionView) {
    match e {
        PipelineEvent::SourcePrepared { formatted } => {
            let q = CompilePipeline { formatted, ..p };
            if p.caching {
                (at(q, Stage::Keying), ActionView::ComputeCacheKey)
            } else {
                (at(q, Stage::Compiling), ActionView::CompileModule)
            }
        },
        PipelineEvent::CacheKeyComputed => (
            at(p, Stage::Loading),
            ActionView::LoadCachedArtifact(validation_mode_spec(p.target, p.backend)),
        ),
        PipelineEvent::CacheLoaded { hit } => if hit {
            (at(p, Stage::WritingCached), ActionView::WriteCachedArtifact)
        } else {
            (at(p, Stage::Compiling), ActionView::CompileModule)
        },
        PipelineEvent::ModuleCompiled => if p.emit_ir {
            (at(p, Stage::Dumping), ActionView::DumpIr)
        } else {
            match emission_spec(p.target, p.backend) {
                Some(em) => (
                    at(p, Stage::Emitting),
                    ActionView::Emit(
                        em,
                        if p.caching {
                            validation_mode_spec(p.target, p.backend)
                        } else {
                            None
                        },
                    ),
                ),
                None => (at(p, Stage::Done), ActionView::Fail(wasmgc_target_message())),
            }
        },
        PipelineEvent::IrDumped => (at(p, Stage::Done), ActionView::Finish(p.formatted, false)),
        PipelineEvent::ArtifactEmitted { valid } => if emission_spec(p.target, p.backend) == Some(
            Emission::Native,
        ) {
            (at(p, Stage::Done), ActionView::Finish(p.formatted, false))
        } else if p.caching && !valid {
            (at(p, Stage::Done), ActionView::Fail(invalid_artifact_message()))
        } else {
            (at(p, Stage::Writing), ActionView::WriteArtifact)
        },
        PipelineEvent::ArtifactWritten => if p.stage == Stage::WritingCached {
            (at(p, Stage::Done), ActionView::Finish(p.formatted, true))
        } else if p.caching {
            (at(p, Stage::Storing), ActionView::StoreArtifact)
        } else {
            (at(p, Stage::Done), ActionView::Finish(p.formatted, false))
        },
        PipelineEvent::ArtifactStored => (at(p, Stage::Done), ActionView::Finish(p.formatted, false)),
    }
}

impl CompilePipeline {
    /// A compile to `target` with `backend`; the first action is to prepare
    /// (format) the source, which the caller does and reports.
    pub fn new(
        target: CompileTarget,
        backend: CompileBackend,
        emit_ir: bool,
        has_artifact_cache: bool,
    ) -> (r: CompilePipeline)
        ensures
            r.target == target,
            r.backend == backend,
            r.emit_ir == emit_ir,
            r.caching == caching_spec(has_artifact_cache, emit_ir, target),
            !r.formatted,
            r.stage == Stage::Preparing,
    {
        let caching = has_artifact_cache && !emit_ir && target != CompileTarget::Native;
        CompilePipeline { target, backend, emit_ir, caching, formatted: false, stage: Stage::Preparing }
    }

    /// Whether `event` answers the action the pipeline is waiting on.
    pub fn expects(&self, event: PipelineEvent) -> (r: bool)
        ensures
            r == event_stage(event).contains(self.stage),
    {
        match event {
            PipelineEvent::SourcePrepared { .. } => self.stage == Stage::Preparing,
            PipelineEvent::CacheKeyComputed => self.stage == Stage::Keying,
            PipelineEvent::CacheLoaded { .. } => self.stage == Stage::Loading,
            PipelineEvent::ModuleCompiled => self.stage == Stage::Compiling,
            PipelineEvent::IrDumped => self.stage == Stage::Dumping,
            PipelineEvent::ArtifactEmitted { .. } => self.stage == Stage::Emitting,
            PipelineEvent::ArtifactWritten => self.stage == Stage::WritingCached || self.stage
                == Stage::Writing,
            PipelineEvent::ArtifactStored => self.stage == Stage::Storing,
        }
    }

    /// Takes in what happened and gives the next action.
    pub fn advance(&mut self, event: PipelineEvent) -> (a: PipelineAction)
        requires
            event_stage(event).contains(old(self).stage),
        ensures
            (*final(self), a@) == step_spec(*old(self), event),
    {
        match event {
            PipelineEvent::SourcePrepared { formatted } => {
                self.formatted = formatted;
                if self.caching {
                    self.stage = Stage::Keying;
                    PipelineAction::ComputeCacheKey
                } else {
                    self.stage = Stage::Compiling;
                    PipelineAction::CompileModule
                }
            },
            PipelineEvent::CacheKeyComputed => {
                self.stage = Stage::Loading;
                PipelineAction::LoadCachedArtifact { mode: validation_mode(self.target, self.backend) }
            },
            PipelineEvent::CacheLoaded { hit } => {
                if hit {
                    self.stage = Stage::WritingCached;
                    PipelineAction::WriteCachedArtifact
                } else {
                    self.stage = Stage::Compiling;
                    PipelineAction::CompileModule
                }
            },
            PipelineEvent::ModuleCompiled => {
                if self.emit_ir {
                    self.stage = Stage::Dumping;
                    PipelineAction::DumpIr
                } else {
                    match emission(self.target, self.backend) {
                        Some(em) => {
                            let validate = if self.caching {
                                validation_mode(self.target, self.backend)
                            } else {
                                None
                            };
                            self.stage = Stage::Emitting;
                            PipelineAction::Emit { emission: em, validate }
                        },
                        None => {
                            self.stage = Stage::Done;
                            PipelineAction::Fail(
                                owned(
                                    "[LS4001] WasmGC backend は現在 --target web-wasm と組み合わせてください",
                                ),
                            )
                        },
                    }
                }
            },
            PipelineEvent::IrDumped => {
                self.stage = Stage::Done;
                PipelineAction::Finish { formatted: self.formatted, from_cache: false }
            },
            PipelineEvent::ArtifactEmitted { valid } => {
                if emission(self.target, self.backend) == Some(Emission::Native) {
                    self.stage = Stage::Done;
                    PipelineAction::Finish { formatted: self.formatted, from_cache: false }
                } else if self.caching && !valid {
                    self.stage = Stage::Done;
                    PipelineAction::Fail(
                        owned("生成された Wasm artifact が target/backend の検証に失敗しました"),
                    )
                } else {
                    self.stage = Stage::Writing;
                    PipelineAction::WriteArtifact
                }
            },
            PipelineEvent::ArtifactWritten => {
                if self.stage == Stage::WritingCached {
                    self.stage = Stage::Done;
                    PipelineAction::Finish { formatted: self.formatted, from_cache: true }
                } else if self.caching {
                    self.stage = Stage::Storing;
                    PipelineAction::StoreArtifact
                } else {
                    self.stage = Stage::Done;
                    PipelineAction::Finish { formatted: self.formatted, from_cache: false }
                }
            },
            PipelineEvent::ArtifactStored => {
                self.stage = Stage::Done;
                PipelineAction::Finish { formatted: self.formatted, from_cache: false }
            },
        }
    }
}

/// The code generator of a target and backend.
pub fn emission(target: CompileTarget, backend: CompileBackend) -> (r: Option<Emission>)
    ensures
        r == emission_spec(target, backend),
{
    match backend {
        CompileBackend::Linear => Some(
            match target {
                CompileTarget::WasiPreview1 => Emission::WasiPreview1,
                CompileTarget::WasiComponent => Emission::WasiComponent,
                CompileTarget::WebWasm => Emission::CoreWasm,
                CompileTarget::Native => Emission::Native,
            },
        ),
        CompileBackend::WasmGc => if target == CompileTarget::WebWasm {
            Some(Emission::WasmGc)
        } else {
            None
        },
    }
}

/// An artifact comes from the cache only when a cache lookup reported a hit:
/// the pipeline finishes from the cache only after writing a cached artifact,
/// and it asks to write one only right after a hit.
pub proof fn law_cached_results_follow_a_hit(p: CompilePipeline, e: PipelineEvent)
    requires
        event_stage(e).contains(p.stage),
    ensures
        step_spec(p, e).1 matches ActionView::Finish(_, from_cache) && from_cache ==> p.stage
            == Stage::WritingCached,
        step_spec(p, e).0.stage == Stage::WritingCached ==> e == (PipelineEvent::CacheLoaded {
            hit: true,
        }),
{
}

/// The cache never takes part in a native compile or an IR dump.
pub proof fn law_no_caching_for_native_or_ir(has_artifact_cache: bool, emit_ir: bool, target: CompileTarget)
    ensures
        (target == CompileTarget::Native || emit_ir) ==> !caching_spec(
            has_artifact_cache,
            emit_ir,
            target,
        ),
{
}

} // verus!
