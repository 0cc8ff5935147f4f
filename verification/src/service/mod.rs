pub mod conflict_resolver;
pub mod sync_plan;
pub mod chunking;
pub mod specification;
pub mod policy_enforcer;
