//! The verified core of `fffq`, a client for a local file-search sidecar, and of the sidecar's
//! own HTTP surface.

pub mod text;
pub mod number;
pub mod utf8;
pub mod http;
pub mod retry;
pub mod sse;
pub mod json;
pub mod registry;
pub mod query;
pub mod call;
pub mod launch;
pub mod client;
pub mod sidecar;
pub mod laws;
