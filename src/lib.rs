//! Content-addressed storage and deterministic sandbox validation of
//! WebAssembly proof modules.

pub mod digest;
pub mod error;
pub mod failures;
pub mod flight;
pub mod github;
pub mod identity;
pub mod messages;
pub mod record;
pub mod sandbox;
pub mod store;
pub mod text;
pub mod upload;
pub mod validator;
