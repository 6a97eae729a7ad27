//! Writer planning: the planner's output contract, the merge of narrative
//! impulses into character think requests, and the retrieval plan built from
//! a validated planner output.
pub mod error;
pub mod planner_output;
pub mod request_key;
pub mod retrieval_plan_builder;
pub mod writer_planner;
pub mod writer_planner_prompt;
