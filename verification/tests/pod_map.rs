use distvirt_orchestrator::ids::{PodId, WorkerId, WorkloadId};
use distvirt_orchestrator::pod_map::{PodInfo, PodMap};

fn wid(s: &str) -> WorkerId {
    WorkerId(s.to_string())
}

fn pid(s: &str) -> PodId {
    PodId(s.to_string())
}

fn info(worker: &str, workload: &str) -> PodInfo {
    PodInfo {
        worker_id: wid(worker),
        workload_id: WorkloadId(workload.to_string()),
    }
}

/// The count of each worker is the number of its pods.
fn assert_consistency(map: &PodMap) {
    let pods = map.iter();
    for (pod_id, pod_info) in pods.iter() {
        assert!(map.contains(pod_id));
        let on_worker = pods
            .iter()
            .filter(|(_, other)| other.worker_id == pod_info.worker_id)
            .count();
        assert_eq!(map.worker_pod_count(&pod_info.worker_id), on_worker);
    }
    assert_eq!(map.len(), pods.len());
}

#[test]
fn insert_and_get() {
    let mut m = PodMap::new();
    m.insert(pid("p1"), info("w1", "wl1"));
    assert_eq!(m.len(), 1);
    assert!(m.contains(&pid("p1")));
    assert_eq!(m.get(&pid("p1")).unwrap().worker_id, wid("w1"));
    assert_eq!(m.worker_pod_count(&wid("w1")), 1);
    assert_consistency(&m);
}

#[test]
fn insert_multiple_same_worker() {
    let mut m = PodMap::new();
    m.insert(pid("p1"), info("w1", "wl1"));
    m.insert(pid("p2"), info("w1", "wl2"));
    assert_eq!(m.len(), 2);
    assert_eq!(m.worker_pod_count(&wid("w1")), 2);
    assert_consistency(&m);
}

#[test]
fn insert_multiple_different_workers() {
    let mut m = PodMap::new();
    m.insert(pid("p1"), info("w1", "wl1"));
    m.insert(pid("p2"), info("w2", "wl2"));
    assert_eq!(m.worker_pod_count(&wid("w1")), 1);
    assert_eq!(m.worker_pod_count(&wid("w2")), 1);
    assert_consistency(&m);
}

#[test]
fn remove_decrements_count() {
    let mut m = PodMap::new();
    m.insert(pid("p1"), info("w1", "wl1"));
    m.insert(pid("p2"), info("w1", "wl2"));
    let removed = m.remove(&pid("p1"));
    assert!(removed.is_some());
    assert_eq!(m.worker_pod_count(&wid("w1")), 1);
    assert_eq!(m.len(), 1);
    assert_consistency(&m);
}

#[test]
fn remove_last_clears_worker() {
    let mut m = PodMap::new();
    m.insert(pid("p1"), info("w1", "wl1"));
    m.remove(&pid("p1"));
    assert_eq!(m.worker_pod_count(&wid("w1")), 0);
    assert!(m.is_empty());
    assert_consistency(&m);
}

#[test]
fn remove_nonexistent() {
    let mut m = PodMap::new();
    m.insert(pid("p1"), info("w1", "wl1"));
    assert!(m.remove(&pid("p999")).is_none());
    assert_eq!(m.len(), 1);
    assert_consistency(&m);
}

#[test]
fn remove_worker_pods_returns_correct_ids() {
    let mut m = PodMap::new();
    m.insert(pid("p1"), info("w1", "wl1"));
    m.insert(pid("p2"), info("w1", "wl2"));
    m.insert(pid("p3"), info("w2", "wl3"));
    let removed = m.remove_worker_pods(&wid("w1"));
    assert_eq!(removed, vec![pid("p1"), pid("p2")]);
    assert_eq!(m.len(), 1);
    assert_eq!(m.worker_pod_count(&wid("w1")), 0);
    assert_consistency(&m);
}

#[test]
fn remove_worker_pods_empty() {
    let mut m = PodMap::new();
    let removed = m.remove_worker_pods(&wid("w_unknown"));
    assert!(removed.is_empty());
    assert_consistency(&m);
}

#[test]
fn clear_resets_everything() {
    let mut m = PodMap::new();
    m.insert(pid("p1"), info("w1", "wl1"));
    m.insert(pid("p2"), info("w2", "wl2"));
    m.clear();
    assert!(m.is_empty());
    assert_eq!(m.worker_pod_count(&wid("w1")), 0);
    assert_consistency(&m);
}

#[test]
fn insert_then_remove_is_undone() {
    let mut m = PodMap::new();
    m.insert(pid("p2"), info("w1", "wl2"));
    m.insert(pid("p1"), info("w1", "wl1"));
    assert_eq!(m.remove(&pid("p1")), Some(info("w1", "wl1")));
    assert_eq!(m.iter(), vec![(&pid("p2"), &info("w1", "wl2"))]);
}

#[test]
fn iteration_is_in_name_order() {
    let mut m = PodMap::default();
    for name in ["pod-2", "pod-10", "pod-1"] {
        m.insert(pid(name), info("w1", "wl"));
    }
    let names: Vec<&str> = m.iter().iter().map(|(p, _)| p.0.as_str()).collect();
    assert_eq!(names, vec!["pod-1", "pod-10", "pod-2"]);
}

#[test]
fn worker_counts_add_up() {
    let mut map = PodMap::new();
    map.insert(pid("a"), info("w1", "x"));
    map.insert(pid("b"), info("w2", "x"));
    map.insert(pid("c"), info("w1", "y"));
    let counts: usize = ["w1", "w2", "w3"].iter().map(|w| map.worker_pod_count(&wid(w))).sum();
    assert_eq!(counts, map.len());
}

#[test]
fn a_copied_map_holds_the_same() {
    let mut map = PodMap::new();
    map.insert(pid("b"), info("w1", "x"));
    map.insert(pid("a"), info("w2", "y"));
    let mut copy = map.clone();
    assert_eq!(copy, map);
    assert_eq!(copy.worker_pod_count(&wid("w1")), 1);
    copy.remove(&pid("a"));
    assert_ne!(copy, map);
    assert!(map.contains(&pid("a")));
}
