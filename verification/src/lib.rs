//! Verified core of a URL-shortening service.
//!
//! The crate covers the logic behind the three public operations of the
//! service — create, redirect and stats — together with the pieces they are
//! built from: a base-62 encoder, code validation and generation, a record
//! store with conditional create, deduplication by original URL, expiry
//! filtering and click counting, and the request-scoped resolver that wires
//! them together. Transport adapters, process configuration loading and the
//! wire protocol of the backing store live outside this crate; the store is
//! modelled here as the authoritative table of records, and every operation
//! on it carries a full functional contract.

pub mod attrs;
pub mod base62;
pub mod codegen;
pub mod config;
pub mod decimal;
pub mod error;
pub mod models;
pub mod resolver;
pub mod store;
mod text;
pub mod timefmt;
pub mod validation;
