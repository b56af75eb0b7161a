use std::collections::HashSet;

use distvirt_orchestrator::broadcast::{
    broadcast_to_active_workers, broadcast_to_active_workers_except, send_to_worker,
};
use distvirt_orchestrator::ids::{NamespaceId, WorkerId};
use distvirt_orchestrator::output::NamespaceOutput;
use distvirt_orchestrator::sorted_map::SortedMap;
use distvirt_orchestrator::types::{
    FabricStatus, NamespaceWorkerState, PressureBand, WorkerCommand,
};

fn wid(s: &str) -> WorkerId {
    WorkerId(s.into())
}

fn make_workers(entries: &[(&str, FabricStatus)]) -> SortedMap<WorkerId, NamespaceWorkerState> {
    let mut workers = SortedMap::new();
    for (id, status) in entries {
        workers.insert(
            wid(id),
            NamespaceWorkerState {
                fabric_status: *status,
                primary_pool_id: None,
                pressure_band: PressureBand::Normal,
            },
        );
    }
    workers
}

fn dummy_cmd(_wid: &WorkerId) -> WorkerCommand {
    WorkerCommand::DestroyNamespace { namespace_id: NamespaceId("test-ns".into()) }
}

#[test]
fn broadcast_all_active() {
    let workers = make_workers(&[
        ("w1", FabricStatus::Active),
        ("w2", FabricStatus::Active),
        ("w3", FabricStatus::Active),
    ]);
    let mut out = NamespaceOutput::default();
    broadcast_to_active_workers(&workers, &mut out, dummy_cmd);
    assert_eq!(out.worker_commands.len(), 3);
}

#[test]
fn broadcast_mixed_status() {
    let workers = make_workers(&[
        ("w1", FabricStatus::Active),
        ("w2", FabricStatus::Creating),
        ("w3", FabricStatus::Destroying),
    ]);
    let mut out = NamespaceOutput::default();
    broadcast_to_active_workers(&workers, &mut out, dummy_cmd);
    assert_eq!(out.worker_commands.len(), 1);
    assert_eq!(out.worker_commands[0].0, wid("w1"));
}

#[test]
fn broadcast_none_active() {
    let workers = make_workers(&[
        ("w1", FabricStatus::Creating),
        ("w2", FabricStatus::Destroying),
    ]);
    let mut out = NamespaceOutput::default();
    broadcast_to_active_workers(&workers, &mut out, dummy_cmd);
    assert_eq!(out.worker_commands.len(), 0);
}

#[test]
fn broadcast_empty_workers() {
    let workers = SortedMap::new();
    let mut out = NamespaceOutput::default();
    broadcast_to_active_workers(&workers, &mut out, dummy_cmd);
    assert_eq!(out.worker_commands.len(), 0);
}

#[test]
fn broadcast_except_excludes() {
    let workers = make_workers(&[("w1", FabricStatus::Active), ("w2", FabricStatus::Active)]);
    let mut out = NamespaceOutput::default();
    broadcast_to_active_workers_except(&workers, &wid("w1"), &mut out, dummy_cmd);
    assert_eq!(out.worker_commands.len(), 1);
    assert_eq!(out.worker_commands[0].0, wid("w2"));
}

#[test]
fn broadcast_except_nonexistent() {
    let workers = make_workers(&[("w1", FabricStatus::Active), ("w2", FabricStatus::Active)]);
    let mut out = NamespaceOutput::default();
    broadcast_to_active_workers_except(&workers, &wid("w_unknown"), &mut out, dummy_cmd);
    assert_eq!(out.worker_commands.len(), 2);
}

#[test]
fn send_to_worker_appends_one() {
    let mut out = NamespaceOutput::default();
    send_to_worker(
        &wid("w1"),
        &mut out,
        WorkerCommand::DestroyNamespace { namespace_id: NamespaceId("test-ns".into()) },
    );
    assert_eq!(out.worker_commands.len(), 1);
    assert_eq!(out.worker_commands[0].0, wid("w1"));
}

#[test]
fn make_cmd_receives_correct_ids() {
    let workers = make_workers(&[
        ("w1", FabricStatus::Active),
        ("w2", FabricStatus::Active),
        ("w3", FabricStatus::Creating),
    ]);
    let mut out = NamespaceOutput::default();
    broadcast_to_active_workers(&workers, &mut out, dummy_cmd);
    let cmd_worker_ids: HashSet<String> =
        out.worker_commands.iter().map(|(w, _)| w.0.clone()).collect();
    assert!(cmd_worker_ids.contains("w1"));
    assert!(cmd_worker_ids.contains("w2"));
    assert!(!cmd_worker_ids.contains("w3"));
    assert_eq!(cmd_worker_ids.len(), 2);
}

#[test]
fn each_target_gets_one_command() {
    let workers = make_workers(&[
        ("w3", FabricStatus::Active),
        ("w1", FabricStatus::Active),
        ("w3", FabricStatus::Active),
        ("w2", FabricStatus::Creating),
    ]);
    let mut out = NamespaceOutput::default();
    broadcast_to_active_workers_except(&workers, &wid("w2"), &mut out, dummy_cmd);
    let to: Vec<&str> = out.worker_commands.iter().map(|(w, _)| w.0.as_str()).collect();
    assert_eq!(to, vec!["w1", "w3"]);
}
