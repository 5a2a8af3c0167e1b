//! A single-backend HTTP gateway: bearer-token authentication, a fixed-window
//! rate limiter and a time-limited response cache, shared by every request,
//! and the steps that take a request from arrival to the backend and back.

pub mod config;
pub mod errors;
pub mod forward;
pub mod headers;
pub mod middleware;
pub mod models;
pub mod pipeline;
pub mod services;
pub mod table;
pub mod text;

pub use errors::GatewayError;
pub use models::{AppState, CacheEntry, RateLimit};
