pub mod cache;
pub mod config;
pub mod discovery;
pub mod envelope;
pub mod error;
pub mod health;
pub mod ingest;
pub mod media;
pub mod platform;
pub mod ratelimit;
pub mod records;
pub mod relay;
pub mod send;
pub mod store;
pub mod sync;
pub mod text;
