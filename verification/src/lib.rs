//! Trust-adaptive residual fusion: envelope tracking, trust mapping, convex
//! weight normalisation, hierarchical composition and state correction.
pub mod bench;
pub mod bench_config;
pub mod binary64;
pub mod correlated;
pub mod curves;
pub mod ddmf;
pub mod disturbances;
pub mod echo;
pub mod envelope;
pub mod error;
pub mod events;
pub mod fusion_layer;
pub mod graph;
pub mod grid;
pub mod hret;
pub mod laws;
pub mod metrics;
pub mod monte_carlo;
pub mod multi_steps;
pub mod observer;
pub mod params;
pub mod regions;
pub mod rlt;
pub mod rounding;
pub mod sim;
pub mod starship;
pub mod state;
pub mod tcp;
pub mod sweep_config;
pub mod trust;
pub mod validate;
pub mod walk;
pub mod words;
