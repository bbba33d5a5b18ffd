//! The importer's reading of OSM tags.

pub mod tags;
pub mod tags_convert;
pub mod importer;
pub mod config;
