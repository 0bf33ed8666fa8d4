//! What holds of the client and the sidecar as a whole.

pub mod calls;
pub mod client;
pub mod failures;
pub mod flows;
pub mod http;
pub mod numbers;
pub mod pieces;
pub mod queries;
pub mod records;
pub mod replies;
pub mod requests;
pub mod responses;
pub mod sidecar;
pub mod streams;
pub mod text;
pub mod views;
pub mod words;
