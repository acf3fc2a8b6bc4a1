//! Core of a geocoding backend: administrative enrichment of raw address
//! records and planning of autocomplete queries.
//!
//! Angles are fixed-point integers counting tenths of a microdegree
//! (1 degree = 10 000 000 units); ranking weights are non-negative integers.

pub mod error;
pub mod text;
pub mod place_type;
pub mod coord;
pub mod admin;
pub mod geofinder;
pub mod bano;
pub mod shape;
pub mod autocomplete;
pub mod pool;
