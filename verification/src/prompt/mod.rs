//! Prompt assembly: the views of the story, the narrative and knowledge that
//! prompts render, and the registry, policies and models of prompt assets.
pub mod error;
pub mod knowledge_view;
pub mod model;
pub mod narrative_direction;
pub mod player_contribution;
pub mod policy;
pub mod profile;
pub mod story_profile_view;
pub mod pack;
pub mod resolver;
pub mod slot;
pub mod composition;
pub mod metadata;
pub mod model_request;
pub mod asset;
pub mod section_extractor;
pub mod catalog;
pub mod loader;
pub mod pack_check;
pub mod runtime_context_encoder;
pub mod context_merger;
