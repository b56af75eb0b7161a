//! The orchestrator's settings.
use vstd::prelude::*;

verus! {

#[derive(Debug)]
pub struct OrchestratorConfig {
    pub grpc: GrpcConfig,
    pub workers: WorkersConfig,
    pub wireguard: WireguardConfig,
}

/// The client interface.
#[derive(Debug)]
pub struct GrpcConfig {
    pub listen: String,
    pub secret: Option<String>,
}

/// The worker interface.
#[derive(Debug)]
pub struct WorkersConfig {
    pub listen: String,
    pub secret: Option<String>,
}

#[derive(Debug)]
pub struct WireguardConfig {
    pub listen_port: u16,
}

/// The port that WireGuard listens on where nothing else is set.
pub fn default_wg_port() -> (r: u16)
    ensures
        r == 51820,
{
    51820
}

impl Default for WireguardConfig {
    fn default() -> (r: Self)
        ensures
            r.listen_port == 51820,
    {
        WireguardConfig { listen_port: default_wg_port() }
    }
}

/// A setting from the command line wins over the same setting in the file.
pub fn setting(command_line: Option<String>, file: Option<String>) -> (r: Option<String>)
    ensures
        r == (match command_line {
            Some(s) => Some(s),
            None => file,
        }),
{
    match command_line {
        Some(s) => Some(s),
        None => file,
    }
}

} // verus!
