//! Why a prompt could not be loaded, resolved, rendered or composed.
use crate::prompt::model::PromptKind;
use vstd::prelude::*;

verus! {

#[derive(Debug, Clone)]
pub enum PromptError {
    CatalogLoad(String),
    CatalogNotLoaded,
    SlotNotFound(String),
    PackNotFound(String),
    AssetNotFound(String),
    KindMismatch { slot: String, expected: Vec<PromptKind>, actual: PromptKind },
    RenderError(String),
    SchemaValidationFailed(String),
    InheritanceCycleOrDepthExceeded(String),
    PolicyViolation(String),
    ChildRenderFailed(String),
    OutputContractViolation { slot: String, reason: String },
    DuplicateProfileRegistration(String),
    ProfileNotRegistered(String),
    DuplicateLayerSlot { profile: String, slot: String },
    LayerMustRenderAsText { profile: String, layer: String },
    TrustBoundaryViolation(String),
}

} // verus!
