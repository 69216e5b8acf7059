//! L# type-level tooling: constrained-type evaluation, canonical contract
//! checks, intent/evidence graph identities and small compiler helpers.

pub mod text;
pub mod sorting;
pub mod syntax;
pub mod types;
pub mod infer;
pub mod pattern;
pub mod constraints;
pub mod intent;
pub mod evidence;
pub mod compile;
pub mod compile_pipeline;
pub mod native;
pub mod artifact_cache;
pub mod api_doc;
pub mod doc_html;
pub mod contract_check;
pub mod metadata_check;

use vstd::prelude::*;

verus! {

} // verus!
