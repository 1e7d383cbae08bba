//! Ingestion and URL health monitoring for dataset catalogues published by
//! several independent providers.
//!
//! The library holds the decisions of the pipeline: credential caching,
//! discovery of new record ids, detail processing, failure classification,
//! health records and the batch discipline of the analytical store. Network
//! and storage I/O are performed by the caller, who hands plain values in.
pub mod category;
pub mod config;
pub mod credential;
pub mod dataset;
pub mod discovery;
pub mod fetch;
pub mod health;
pub mod monitor;
pub mod table;
pub mod json;
