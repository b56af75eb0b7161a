pub mod core_laws;
pub mod namespace;
pub mod orchestrator;
pub mod placement_table;
pub mod protocol;
pub mod routing;
pub mod scheduler;
pub mod scheduler_laws;
pub mod timer_wheel;
pub mod types;
pub mod worker_laws;
pub mod worker_state;
