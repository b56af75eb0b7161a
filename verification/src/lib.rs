pub mod adapter;
pub mod agenda;
pub mod broadcast;
pub mod bytes;
pub mod config;
pub mod engine;
pub mod grpc;
pub mod id_registry;
pub mod ids;
pub mod namespace;
pub mod orchestrator;
pub mod output;
pub mod placement;
pub mod pod_map;
pub mod scan;
pub mod service;
pub mod sm;
pub mod sorted_map;
pub mod text;
pub mod types;
pub mod workload;
