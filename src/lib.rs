//! Security-audit orchestration for smart-contract projects: toolchain
//! dispatch, detector metadata assembly, diagnostic classification and the
//! report summary model.
pub mod blockchain;
pub mod build_config;
pub mod classify;
pub mod detectors_info;
pub mod json;
pub mod report;
pub mod startup;
pub mod telemetry;
pub mod text;
