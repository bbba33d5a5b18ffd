//! Verified core of a road routing engine: coordinate types, polyline
//! encoding, storage records, OSM tag interpretation and shortest-path search.

pub mod text;
pub mod types;
pub mod polyline;
pub mod storage;
pub mod algorithm;
pub mod import_pbf;
pub mod service;
pub mod server;
