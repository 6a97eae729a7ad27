//! The decisions the stores make around their queries: how failures map to
//! store errors, which knowledge filters are allowed, how stored rows are
//! read back and held to their limits, what a commit, a knowledge
//! mutation or a new story writes, and how history is paged.
pub mod knowledge;
pub mod snapshot;
pub mod store;
pub mod asset_store;
pub mod usage;
pub mod commit;
pub mod knowledge_write;
pub mod instance;
pub mod activation;
pub mod history;
