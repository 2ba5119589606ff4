//! A gRPC-aware reverse proxy library: Basic-auth authentication against
//! memory-hard password hashes, per-user call authorization, request-target
//! rewriting for a single upstream, and translation of every failure into the
//! gRPC status convention, with the metric labels each outcome produces.

pub mod auth;
pub mod config;
pub mod error;
pub mod percent;
pub mod pipeline;
pub mod text;

pub use auth::authenticate;
pub use auth::authorize;
pub use config::parse_credentials;
pub use config::Config;
pub use config::Credentials;
pub use config::UserConfig;
pub use error::ErrorReply;
pub use error::ProxyError;
pub use percent::percent_encode;
pub use pipeline::decide_request;
pub use pipeline::failure_observation;
pub use pipeline::parse_grpc_path;
pub use pipeline::success_labels;
pub use pipeline::upstream_target;
pub use pipeline::FailureObservation;
pub use pipeline::RequestLabels;
