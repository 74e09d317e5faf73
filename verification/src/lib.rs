//! Fleet use cases: the decisions, validations, and plans behind the fleet
//! control plane, stated and proved as contracts.
//!
//! Every module keeps the storage and transport ports out: what lives here is
//! what is true about a request, a record, or a plan, never how it travels.

pub mod apply;
pub mod audit;
pub mod authz;
pub mod capability;
pub mod composition;
pub mod difference;
pub mod events;
pub mod images;
pub mod lab;
pub mod machine;
pub mod node;
pub mod observed;
pub mod onboarding;
pub mod operation;
pub mod planner;
pub mod project;
pub mod proxmox;
pub mod ready;
pub mod skill_catalog;
pub mod skills;
pub mod source;
pub mod tailnet;
pub mod text;
pub mod worker;
