//! Verified decision logic of the coevo control-plane server.
pub mod briefing;
pub mod cost;
pub mod headers;
pub mod ids;
pub mod meeting;
pub mod organization;
pub mod playground;
pub mod prompts;
pub mod reply;
pub mod resolution;
pub mod scope;
pub mod stream;
pub mod text;
pub mod timeline;
pub mod tools;
pub mod traces;
pub mod worker;
