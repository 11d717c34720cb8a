//! Verified core of the spatial-bench benchmark drivers: the SBDS dataset
//! format, registration matching and listing, the harness's case loop, and
//! the tag-driven configuration of the kiddo drivers.

pub mod kiddo_config;
pub mod dataset;
pub mod text_order;
pub mod registry;
pub mod harness;
pub mod generator;
