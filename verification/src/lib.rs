//! Core of a real-time chat backend: the message ingestion pipeline
//! (validate, authorize, persist, fan out), the direct-chat resolver,
//! the in-process connection registry, and the per-connection session
//! policy, all with verified contracts over an explicit model of the
//! durable state.

pub mod auth;
pub mod content;
pub mod errors;
pub mod models;
pub mod pipeline;
pub mod registry;
pub mod resolver;
pub mod session;
pub mod store;
pub mod upload;
