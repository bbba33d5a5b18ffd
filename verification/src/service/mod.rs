//! Routing profiles, speed configuration and edge costs of the routing service.

pub mod profile;
pub mod speed_config;
pub mod route;
pub mod meta;
pub mod cost;
pub mod common;
pub mod info;
pub mod inspect;
pub mod isochrone;
pub mod error;
pub mod matrix;
pub mod graph;
pub mod virtual_graph;
