use rik::manager::Manager;
use rik::scheduler::{Channel, Metrics, SchedulerError, Worker, WorkerState};

#[test]
fn registry_takes_255_workers_and_no_more() {
    let mut manager = Manager::new();
    for n in 0..255u64 {
        let r = manager.register(Channel::new(n), format!("10.0.0.1:{}", n), format!("node-{}", n));
        assert!(r.is_ok());
    }
    assert_eq!(manager.worker_count(), 255);
    let r = manager.register(Channel::new(999), "10.0.0.1:999".to_string(), "late".to_string());
    assert!(matches!(r, Err(SchedulerError::ClusterFull)));
    assert_eq!(manager.worker_count(), 255);
    let first = manager.get_worker_by_hostname(&"node-0".to_string()).unwrap();
    assert_eq!(first.id, 1);
    assert_eq!(*first.get_state(), WorkerState::NotReady);
    let last = manager.get_worker_by_hostname(&"node-254".to_string()).unwrap();
    assert_eq!(last.id, 255);
    assert_eq!(manager.get_worker_sender(255), Some(Channel::new(254)));
    assert_eq!(manager.get_worker_sender(0), None);
}

#[test]
fn empty_hostname_is_not_registered() {
    let mut manager = Manager::new();
    let r = manager.register(Channel::new(1), "a".to_string(), "".to_string());
    match r {
        Err(SchedulerError::RegistrationFailed(h)) => assert_eq!(h, ""),
        other => panic!("unexpected answer: {:?}", other),
    }
    assert_eq!(manager.worker_count(), 0);
}

#[test]
fn worker_is_ready_exactly_when_its_channel_is_open() {
    let mut worker = Worker::new(7, Channel::new(1), "a".to_string(), "n1".to_string());
    assert!(!worker.is_ready());
    assert!(worker.get_metrics().is_none());
    worker.set_metrics(Metrics { document: "{\"cpu\":1}".to_string() });
    assert!(worker.is_ready());
    assert_eq!(worker.get_metrics().as_ref().unwrap().document, "{\"cpu\":1}");
    worker.channel_closed();
    assert!(!worker.is_ready());
    worker.set_metrics(Metrics { document: "{}".to_string() });
    assert!(!worker.is_ready());
    worker.set_channel(Channel::new(2));
    assert!(worker.is_ready());
    worker.set_state(WorkerState::NotReady);
    assert_eq!(*worker.get_state(), WorkerState::NotReady);
    assert_eq!(WorkerState::Ready.label(), "Ready");
    assert_eq!(WorkerState::NotReady.label(), "Not Ready");
    worker.set_channel(Channel { id: 3, closed: true });
    assert!(!worker.is_ready());
}

#[test]
fn eligible_worker_is_a_ready_one() {
    let mut manager = Manager::new();
    assert!(manager.get_eligible_worker().is_none());
    manager.register(Channel::new(1), "a".to_string(), "n1".to_string()).unwrap();
    manager.register(Channel::new(2), "b".to_string(), "n2".to_string()).unwrap();
    manager.register(Channel::new(3), "c".to_string(), "n3".to_string()).unwrap();
    assert!(manager.get_eligible_worker().is_none());
    assert!(manager.set_metrics(&"n2".to_string(), Metrics { document: "{}".to_string() }));
    assert!(!manager.set_metrics(&"n9".to_string(), Metrics { document: "{}".to_string() }));
    for _ in 0..20 {
        assert_eq!(manager.get_eligible_worker().unwrap().hostname, "n2");
    }
    manager.set_metrics(&"n3".to_string(), Metrics { document: "{}".to_string() });
    for _ in 0..20 {
        let h = manager.get_eligible_worker().unwrap().hostname.clone();
        assert!(h == "n2" || h == "n3");
    }
    let workers = vec![
        Worker::new(1, Channel::new(1), "a".to_string(), "x".to_string()),
        {
            let mut w = Worker::new(2, Channel::new(2), "b".to_string(), "y".to_string());
            w.set_state(WorkerState::Ready);
            w
        },
    ];
    assert_eq!(rik::state_manager::eligible_workers(&workers), vec![1]);
    assert_eq!(
        rik::state_manager::StateManager::get_eligible_worker(&workers),
        Some("y".to_string())
    );
}

#[test]
fn wire_workload_with_its_worker() {
    let wire = || rik::proto::WorkloadScheduling {
        workload_id: "w1".to_string(),
        definition: "{}".to_string(),
        request: 0,
    };
    let mut unplaced = rik::scheduler::WorkloadInstance::new(wire(), None);
    assert!(!unplaced.has_worker());
    assert_eq!(unplaced.get_worker_id(), None);
    assert_eq!(unplaced.get_workload_id(), "w1");
    unplaced.set_worker(7);
    assert!(unplaced.has_worker());
    assert_eq!(unplaced.get_worker_id(), Some(7));
    let worker = Worker::new(3, Channel::new(1), "a".to_string(), "n1".to_string());
    let placed = rik::scheduler::WorkloadInstance::new(wire(), Some(worker));
    assert_eq!(placed.get_worker_id(), Some(3));
    let workload = placed.get_workload();
    assert_eq!((workload.workload_id.as_str(), workload.definition.as_str(), workload.request), ("w1", "{}", 0));
}
