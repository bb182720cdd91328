//! A registry of backend RPC nodes ("validators") with a request forwarder.
//!
//! The library covers the verified core of a JSON-RPC reverse proxy:
//! parsing one configuration row into a validated node record, assembling
//! the immutable registry with its uniqueness invariant, selecting a node
//! by name, by location or at random, and the pure decisions of the
//! forwarder (host header, response-size cap, error taxonomy).

pub mod text;
pub mod urls;
pub mod rows;
pub mod endpoint;
pub mod validators;
pub mod errors;
pub mod forward;
pub mod config;

pub use config::Settings;
pub use errors::AppError;
pub use validators::Validator;
pub use validators::ValidatorRegistry;
pub use validators::ValidatorSummary;
