use vstd::prelude::*;

verus! {

/// Why a narrative evaluation failed.
#[derive(Debug, Clone, Copy, PartialEq, Eq)]
pub enum NarrativeError {
    InvalidGraph,
}

/// Why a writer plan could not be built.
#[derive(Debug, Clone, PartialEq, Eq)]
pub enum PlanningError {
    Narrative(NarrativeError),
    InvalidOutput { code: &'static str },
    UnknownRole,
    PlayerRoleRequested,
    DuplicateRoleTarget,
    UnknownRetrievalKey,
    KnowledgeAudienceViolation,
    LimitExceeded { limit: &'static str },
}

impl PlanningError {
    /// The turn failure code this error is reported under.
    pub fn turn_code(&self) -> (r: &'static str)
        ensures
            self is Narrative ==> r == "narrative_evaluation_failed",
            !(self is Narrative) ==> r == "writer_plan_invalid",
    {
        match self {
            PlanningError::Narrative(_) => "narrative_evaluation_failed",
            _ => "writer_plan_invalid",
        }
    }
}

} // verus!
