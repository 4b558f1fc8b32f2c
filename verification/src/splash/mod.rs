//! Scripted apps: what each of them is allowed, and the decisions behind the
//! services that they call.
pub mod dataset;
pub mod ip;
pub mod l0;
pub mod news;
pub mod policy;
pub mod url;
