//! Core of a minimal HTTP/1.1 application server: wire-protocol parsing and
//! serialization, a pattern router with parameter extraction, per-request
//! context helpers, CORS and upgrade decisions, and the plugin lifecycle
//! bookkeeping, all with verified contracts.
use vstd::prelude::*;

pub mod bindings;
pub mod codes;
pub mod config;
pub mod context;
pub mod cors;
pub mod dispatch;
pub mod entity;
pub mod headers;
pub mod http1;
pub mod jsonlib;
pub mod modules;
pub mod registry;
pub mod validator;
pub mod router;
pub mod text;

verus! {

} // verus!
