//! A request to a model: the profile, the context to render, and limits.
use crate::prompt::profile::PromptProfile;
use vstd::prelude::*;

verus! {

/// What a model call is for.
#[derive(Debug, Clone, Copy, PartialEq, Eq, Structural)]
pub enum LlmCallPurpose {
    WriterPlan,
}

#[derive(Debug, Clone)]
pub struct ModelRequest<C> {
    profile: PromptProfile,
    context: C,
    max_output_tokens: u32,
    purpose: LlmCallPurpose,
}

impl<C> ModelRequest<C> {
    pub closed spec fn spec_profile(&self) -> PromptProfile {
        self.profile
    }

    pub closed spec fn spec_context(&self) -> C {
        self.context
    }

    pub closed spec fn spec_max_output_tokens(&self) -> u32 {
        self.max_output_tokens
    }

    pub closed spec fn spec_purpose(&self) -> LlmCallPurpose {
        self.purpose
    }

    pub fn new(profile: PromptProfile, context: C, max_output_tokens: u32, purpose: LlmCallPurpose) -> (r: Self)
        ensures
            r.spec_profile() == profile,
            r.spec_context() == context,
            r.spec_max_output_tokens() == max_output_tokens,
            r.spec_purpose() == purpose,
    {
        ModelRequest { profile, context, max_output_tokens, purpose }
    }

    pub fn profile(&self) -> (r: PromptProfile)
        ensures
            r == self.spec_profile(),
    {
        self.profile
    }

    pub fn context(&self) -> (r: &C)
        ensures
            *r == self.spec_context(),
    {
        &self.context
    }

    pub fn into_context(self) -> (r: C)
        ensures
            r == self.spec_context(),
    {
        self.context
    }

    pub fn max_output_tokens(&self) -> (r: u32)
        ensures
            r == self.spec_max_output_tokens(),
    {
        self.max_output_tokens
    }

    pub fn purpose(&self) -> (r: LlmCallPurpose)
        ensures
            r == self.spec_purpose(),
    {
        self.purpose
    }
}

} // verus!
