//! Ersha: verified core of a LoRaWAN-style farm monitoring platform.
//!
//! The crate holds the wire protocol spoken by edge devices, the shared
//! domain model, the in-memory registries and storage used by the
//! dispatcher and the prime service, the query builders for the SQL
//! backends, and the decision logic of the long-running services.
pub mod protocol;
pub mod model;
pub mod filter;
pub mod text;
pub mod ordering;
pub mod registry;
pub mod storage;
pub mod codes;
pub mod idtext;
pub mod query;
pub mod rows;
pub mod columnar;
pub mod dispatch;
pub mod prime;
pub mod api;
pub mod dashboard;
pub mod edge;
pub mod config;
