//! Conformance-test runner core for a DMN evaluation service.
//!
//! The library holds the runner's logic: the value model and its transfer
//! shape, the value-equivalence relation with its decimal and duration
//! carve-outs, path utilities, the model registry, file discovery, the test
//! driver's decisions and the reporter. Input and output (file system, HTTP,
//! console) stay with the caller.

pub mod context;
pub mod decimal;
pub mod discovery;
pub mod driver;
pub mod dto;
pub mod duration;
pub mod equivalence;
pub mod model;
pub mod ordered;
pub mod paths;
pub mod report;
pub mod text;
