//! Webhook-driven integration connector: authenticates signed webhook
//! deliveries, normalizes them into canonical events, runs them through
//! configurable filter/map pipelines, and hands them to document sinks.
pub mod auth;
pub mod codec;
pub mod config;
pub mod digest;
pub mod error;
pub mod event;
pub mod filter;
pub mod handler;
pub mod jira;
pub mod json;
pub mod mapper;
pub mod numbers;
pub mod paths;
pub mod processors;
pub mod secret;
pub mod serialize;
pub mod sinks;
pub mod text;

pub use error::AppError;
