//! What stands between the signal router and the rest: each adapter turns what a port delivers into
//! actions, or what happens outside into changes to ports.
pub mod backend_need;
pub mod delivery_laws;
pub mod dns_registry;
pub mod endpoint;
pub mod endpoint_demand;
pub mod management;
pub mod names;
pub mod pod_assignment;
pub mod ports;
pub mod schedule_request;
pub mod timer;
