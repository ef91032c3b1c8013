//! Core of a product-restock watcher: a polling engine that classifies
//! fetched retailer pages into an availability taxonomy, tracks per-key
//! rate-limit cool-downs, and aggregates one cycle's outcomes into the set
//! of targets to notify about.

pub mod checked;
pub mod engine;
pub mod error;
pub mod notifier;
pub mod pattern;
pub mod ratelimit;
pub mod scraper;
pub mod target;
pub mod text;
