//! A guild-state engine for a chat bot: keyword responses, a reputation
//! ledger and a daily announcement, scoped by community.

pub mod attachments;
pub mod cache;
pub mod channels;
pub mod dispatch;
pub mod engine;
pub mod laws;
pub mod ledger;
pub mod model;
pub mod pattern;
pub mod replies;
pub mod scheduler;
pub mod store;
pub mod text;
