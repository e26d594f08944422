use rik::definition::{Container, Spec, WorkloadDefinition};
use rik::manager::{Action, Manager};
use rik::proto::{
    InstanceMetric, ResourceStatus, StatusPayload, WorkerMetric, WorkloadRequestKind,
};
use rik::scheduler::{Channel, Event, Metrics, SchedulerError, WorkerState, WorkloadRequest};

fn definition(name: &str, replicas: Option<u16>) -> WorkloadDefinition {
    WorkloadDefinition {
        api_version: "v0".to_string(),
        kind: "Pods".to_string(),
        name: name.to_string(),
        replicas,
        spec: Spec {
            containers: vec![Container {
                name: "c".to_string(),
                image: "busybox:latest".to_string(),
                env: None,
                ports: None,
            }],
        },
    }
}

fn request(id: &str, name: &str, replicas: Option<u16>, action: WorkloadRequestKind) -> Event {
    Event::ScheduleRequest(WorkloadRequest {
        workload_id: id.to_string(),
        definition: definition(name, replicas),
        document: format!("{{\"name\":\"{}\"}}", name),
        action,
    })
}

fn ready_worker(manager: &mut Manager, channel: u64, hostname: &str) {
    let out = manager.listen(Event::Register(
        Channel::new(channel),
        "10.0.0.1:4000".to_string(),
        hostname.to_string(),
    ));
    assert!(out.is_empty());
    let out = manager.listen(Event::WorkerMetric(
        hostname.to_string(),
        WorkerMetric { status: ResourceStatus::Running, metrics: "{}".to_string() },
        Some(Metrics { document: "{}".to_string() }),
    ));
    assert!(out.is_empty());
}

fn creates(actions: &[Action]) -> Vec<(u64, String, String)> {
    let mut found = Vec::new();
    for a in actions {
        if let Action::Schedule(channel, host, command) = a {
            if command.action == WorkloadRequestKind::Create {
                found.push((*channel, host.clone(), command.instance_id.clone()));
            }
        }
    }
    found
}

fn destroys(actions: &[Action]) -> Vec<(u64, String, String)> {
    let mut found = Vec::new();
    for a in actions {
        if let Action::Schedule(channel, host, command) = a {
            if command.action == WorkloadRequestKind::Destroy {
                found.push((*channel, host.clone(), command.instance_id.clone()));
            }
        }
    }
    found
}

fn notifications(actions: &[Action]) -> Vec<(u64, String, ResourceStatus)> {
    let mut found = Vec::new();
    for a in actions {
        if let Action::Notify(channel, status) = a {
            if let StatusPayload::Instance(m) = &status.payload {
                found.push((*channel, m.instance_id.clone(), m.status));
            }
        }
    }
    found
}

fn instance_count(manager: &Manager, id: &str) -> usize {
    manager.state().get(&id.to_string()).map(|w| w.instances.len()).unwrap_or(0)
}

fn is_instance_id(id: &str, name: &str) -> bool {
    let prefix = format!("{}-", name);
    id.starts_with(&prefix)
        && id.len() == prefix.len() + 4
        && id[prefix.len()..].chars().all(|c| c.is_ascii_digit() || c.is_ascii_lowercase())
}

#[test]
fn single_replica_happy_path() {
    let mut manager = Manager::new();
    ready_worker(&mut manager, 1, "n1");
    manager.listen(Event::Subscribe(Channel::new(10), "10.0.0.9:1".to_string()));
    manager.listen(Event::Subscribe(Channel::new(11), "10.0.0.9:2".to_string()));

    let out = manager.listen(request("w1", "app", Some(1), WorkloadRequestKind::Create));

    let created = creates(&out);
    assert_eq!(created.len(), 1);
    assert_eq!(created[0].0, 1);
    assert_eq!(created[0].1, "n1");
    assert!(is_instance_id(&created[0].2, "app"));
    let notes = notifications(&out);
    assert_eq!(notes.len(), 2);
    assert_eq!(notes[0], (10, created[0].2.clone(), ResourceStatus::Pending));
    assert_eq!(notes[1], (11, created[0].2.clone(), ResourceStatus::Pending));
    assert_eq!(out.len(), 3);
    assert_eq!(instance_count(&manager, "w1"), 1);
    let workload = manager.state().get(&"w1".to_string()).unwrap();
    assert_eq!(workload.replicas, 1);
    assert_eq!(workload.instances[0].status, ResourceStatus::Pending);
    assert_eq!(workload.instances[0].worker_id, Some("n1".to_string()));
    assert_eq!(workload.instances[0].definition, "{\"name\":\"app\"}");
    // the worker is sent the document as the controller wrote it
    match &out[0] {
        Action::Schedule(_, _, command) => assert_eq!(command.definition, "{\"name\":\"app\"}"),
        other => panic!("unexpected action: {:?}", other),
    }
}

#[test]
fn commands_for_a_closed_channel_are_not_sent() {
    let mut manager = Manager::new();
    ready_worker(&mut manager, 1, "n1");
    let command = rik::proto::InstanceScheduling {
        instance_id: "app-ab12".to_string(),
        action: WorkloadRequestKind::Destroy,
        definition: "{}".to_string(),
    };
    let sent = manager.schedule(&"n1".to_string(), command.clone()).unwrap();
    assert_eq!(sent.len(), 1);
    assert!(matches!(&sent[0], Action::Schedule(1, host, _) if host == "n1"));
    assert!(manager.schedule(&"n7".to_string(), command.clone()).unwrap().is_empty());
    manager.disconnect(1);
    assert!(matches!(
        manager.schedule(&"n1".to_string(), command),
        Err(SchedulerError::ClientDisconnected)
    ));
}

#[test]
fn scale_up_adds_the_request_replicas() {
    let mut manager = Manager::new();
    ready_worker(&mut manager, 1, "n1");
    manager.listen(request("w1", "app", Some(1), WorkloadRequestKind::Create));

    let out = manager.listen(request("w1", "app", Some(2), WorkloadRequestKind::Create));

    assert_eq!(creates(&out).len(), 2);
    let workload = manager.state().get(&"w1".to_string()).unwrap();
    assert_eq!(workload.replicas, 3);
    assert_eq!(workload.instances.len(), 3);
}

#[test]
fn destroy_tears_the_workload_down() {
    let mut manager = Manager::new();
    ready_worker(&mut manager, 1, "n1");
    manager.listen(request("w1", "app", Some(1), WorkloadRequestKind::Create));
    manager.listen(request("w1", "app", Some(2), WorkloadRequestKind::Create));
    let ids: Vec<String> = manager
        .state()
        .get(&"w1".to_string())
        .unwrap()
        .instances
        .iter()
        .map(|i| i.id.clone())
        .collect();
    assert_eq!(ids.len(), 3);

    let out = manager.listen(request("w1", "app", Some(3), WorkloadRequestKind::Destroy));

    let destroyed = destroys(&out);
    assert_eq!(destroyed.len(), 3);
    for (k, d) in destroyed.iter().enumerate() {
        assert_eq!(d.0, 1);
        assert_eq!(d.1, "n1");
        assert_eq!(d.2, ids[k]);
    }
    let workload = manager.state().get(&"w1".to_string()).unwrap();
    assert_eq!(workload.status, ResourceStatus::Destroying);
    assert_eq!(workload.replicas, 0);
    assert!(workload.instances.iter().all(|i| i.status == ResourceStatus::Destroying));

    for (k, id) in ids.iter().enumerate() {
        assert!(manager.state().get(&"w1".to_string()).is_some());
        manager.listen(Event::InstanceMetric(
            "n1".to_string(),
            InstanceMetric {
                instance_id: id.clone(),
                status: ResourceStatus::Terminated,
                metrics: "{}".to_string(),
            },
        ));
        assert_eq!(instance_count(&manager, "w1"), 2 - k);
    }
    assert!(manager.state().get(&"w1".to_string()).is_none());
    assert_eq!(manager.state().len(), 0);
}

#[test]
fn worker_reconnect_keeps_its_id() {
    let mut manager = Manager::new();
    assert!(manager
        .register(Channel::new(1), "10.0.0.1:1".to_string(), "n1".to_string())
        .is_ok());
    assert_eq!(manager.get_worker_by_hostname(&"n1".to_string()).unwrap().id, 1);
    manager.disconnect(1);
    {
        let worker = manager.get_worker_by_hostname(&"n1".to_string()).unwrap();
        assert!(worker.channel.is_closed());
        assert_eq!(*worker.get_state(), WorkerState::NotReady);
    }

    let again = manager.register(Channel::new(2), "10.0.0.1:2".to_string(), "n1".to_string());

    assert!(again.is_ok());
    let worker = manager.get_worker_by_hostname(&"n1".to_string()).unwrap();
    assert_eq!(*worker.get_state(), WorkerState::Ready);
    assert_eq!(worker.id, 1);
    assert_eq!(worker.channel, Channel::new(2));
    assert_eq!(manager.worker_count(), 1);
    let next = manager.register(Channel::new(3), "10.0.0.1:3".to_string(), "n2".to_string());
    assert!(next.is_ok());
    assert_eq!(manager.get_worker_by_hostname(&"n2".to_string()).unwrap().id, 2);
}

#[test]
fn name_collision_on_a_live_channel_is_refused() {
    let mut manager = Manager::new();
    assert!(manager
        .register(Channel::new(1), "10.0.0.1:1".to_string(), "n1".to_string())
        .is_ok());

    let second = manager.register(Channel::new(2), "10.0.0.1:2".to_string(), "n1".to_string());

    match second {
        Err(SchedulerError::RegistrationFailed(h)) => assert_eq!(h, "n1"),
        other => panic!("unexpected answer: {:?}", other),
    }
    let worker = manager.get_worker_by_hostname(&"n1".to_string()).unwrap();
    assert_eq!(worker.channel, Channel::new(1));
    assert_eq!(manager.worker_count(), 1);

    let out = manager.listen(Event::Register(
        Channel::new(3),
        "10.0.0.1:3".to_string(),
        "n1".to_string(),
    ));
    assert_eq!(out.len(), 1);
    match &out[0] {
        Action::Refuse(channel, SchedulerError::RegistrationFailed(h)) => {
            assert_eq!(*channel, 3);
            assert_eq!(h, "n1");
        }
        other => panic!("unexpected action: {:?}", other),
    }
    let status = rik::grpc::status_of(&SchedulerError::RegistrationFailed("n1".to_string()));
    assert_eq!(status.code, rik::grpc::Code::AlreadyExists);
}

#[test]
fn controller_fan_out_relays_the_same_payload_in_order() {
    let mut manager = Manager::new();
    ready_worker(&mut manager, 1, "n1");
    manager.listen(Event::Subscribe(Channel::new(10), "10.0.0.9:1".to_string()));
    manager.listen(Event::Subscribe(Channel::new(11), "10.0.0.9:2".to_string()));
    assert_eq!(manager.controller_count(), 2);
    let out = manager.listen(request("w1", "app", Some(1), WorkloadRequestKind::Create));
    let id = creates(&out)[0].2.clone();

    let first = manager.listen(Event::InstanceMetric(
        "n1".to_string(),
        InstanceMetric {
            instance_id: id.clone(),
            status: ResourceStatus::Running,
            metrics: "{\"cpu\": 3}".to_string(),
        },
    ));
    let second = manager.listen(Event::InstanceMetric(
        "n1".to_string(),
        InstanceMetric {
            instance_id: id.clone(),
            status: ResourceStatus::Failed,
            metrics: "{\"cpu\": 0}".to_string(),
        },
    ));

    for (out, status, metrics) in [
        (&first, ResourceStatus::Running, "{\"cpu\": 3}"),
        (&second, ResourceStatus::Failed, "{\"cpu\": 0}"),
    ] {
        assert_eq!(out.len(), 2);
        for (k, channel) in [10u64, 11u64].iter().enumerate() {
            match &out[k] {
                Action::Notify(c, update) => {
                    assert_eq!(c, channel);
                    assert_eq!(update.identifier, "n1");
                    match &update.payload {
                        StatusPayload::Instance(m) => {
                            assert_eq!(m.instance_id, id);
                            assert_eq!(m.status, status);
                            assert_eq!(m.metrics, metrics);
                        }
                        other => panic!("unexpected payload: {:?}", other),
                    }
                }
                other => panic!("unexpected action: {:?}", other),
            }
        }
    }
    let workload = manager.state().get(&"w1".to_string()).unwrap();
    assert_eq!(workload.instances[0].status, ResourceStatus::Failed);
}

#[test]
fn metric_for_an_unknown_instance_is_ignored() {
    let mut manager = Manager::new();
    ready_worker(&mut manager, 1, "n1");
    manager.listen(Event::Subscribe(Channel::new(10), "10.0.0.9:1".to_string()));
    let out = manager.listen(Event::InstanceMetric(
        "n1".to_string(),
        InstanceMetric {
            instance_id: "ghost-0000".to_string(),
            status: ResourceStatus::Running,
            metrics: "{}".to_string(),
        },
    ));
    assert!(out.is_empty());
}

#[test]
fn no_ready_worker_leaves_the_divergence() {
    let mut manager = Manager::new();
    manager.listen(Event::Register(Channel::new(1), "a".to_string(), "n1".to_string()));
    let out = manager.listen(request("w1", "app", Some(2), WorkloadRequestKind::Create));
    assert!(out.is_empty());
    assert_eq!(instance_count(&manager, "w1"), 0);
    assert_eq!(manager.state().get(&"w1".to_string()).unwrap().replicas, 2);

    let out = manager.listen(Event::WorkerMetric(
        "n1".to_string(),
        WorkerMetric { status: ResourceStatus::Running, metrics: "{}".to_string() },
        Some(Metrics { document: "{}".to_string() }),
    ));
    assert_eq!(creates(&out).len(), 2);
    assert_eq!(instance_count(&manager, "w1"), 2);
}

#[test]
fn unreadable_metrics_leave_the_worker_as_it_is() {
    let mut manager = Manager::new();
    manager.listen(Event::Register(Channel::new(1), "a".to_string(), "n1".to_string()));
    manager.listen(Event::WorkerMetric(
        "n1".to_string(),
        WorkerMetric { status: ResourceStatus::Running, metrics: "not json".to_string() },
        None,
    ));
    let worker = manager.get_worker_by_hostname(&"n1".to_string()).unwrap();
    assert_eq!(*worker.get_state(), WorkerState::NotReady);
    assert!(worker.get_metrics().is_none());
}

#[test]
fn failed_send_reverts_the_instance_and_demotes_the_worker() {
    let mut manager = Manager::new();
    ready_worker(&mut manager, 1, "n1");
    let out = manager.listen(request("w1", "app", Some(1), WorkloadRequestKind::Create));
    assert_eq!(instance_count(&manager, "w1"), 1);
    let send = out
        .iter()
        .find(|a| matches!(a, Action::Schedule(_, _, _)))
        .unwrap();

    manager.send_failed(send);

    assert_eq!(instance_count(&manager, "w1"), 0);
    let worker = manager.get_worker_by_hostname(&"n1".to_string()).unwrap();
    assert_eq!(*worker.get_state(), WorkerState::NotReady);
    assert!(!worker.channel.is_closed());
    // the divergence is taken up again once the worker reports
    let out = manager.listen(Event::WorkerMetric(
        "n1".to_string(),
        WorkerMetric { status: ResourceStatus::Running, metrics: "{}".to_string() },
        Some(Metrics { document: "{}".to_string() }),
    ));
    assert_eq!(creates(&out).len(), 1);
    assert_eq!(instance_count(&manager, "w1"), 1);
}

#[test]
fn failed_notification_ends_the_subscription() {
    let mut manager = Manager::new();
    manager.listen(Event::Subscribe(Channel::new(10), "a".to_string()));
    manager.listen(Event::Subscribe(Channel::new(11), "b".to_string()));
    let note = Action::Notify(
        10,
        rik::proto::WorkerStatus {
            identifier: "n1".to_string(),
            payload: StatusPayload::Instance(InstanceMetric {
                instance_id: "x".to_string(),
                status: ResourceStatus::Running,
                metrics: "{}".to_string(),
            }),
        },
    );
    manager.send_failed(&note);
    assert_eq!(manager.controller_count(), 1);
    manager.disconnect(11);
    assert_eq!(manager.controller_count(), 0);
}

#[test]
fn shutdown_closes_every_channel_and_stops() {
    let mut manager = Manager::new();
    ready_worker(&mut manager, 1, "n1");
    manager.listen(Event::Subscribe(Channel::new(10), "a".to_string()));
    let out = manager.listen(Event::Shutdown);
    assert_eq!(out.len(), 2);
    assert!(matches!(out[0], Action::Close(1)));
    assert!(matches!(out[1], Action::Close(10)));
    assert!(!manager.is_running());
    let out = manager.listen(request("w1", "app", Some(1), WorkloadRequestKind::Create));
    assert!(out.is_empty());
    assert_eq!(manager.state().len(), 0);
}

#[test]
fn scale_down_marks_the_oldest_instances() {
    let mut manager = Manager::new();
    ready_worker(&mut manager, 1, "n1");
    manager.listen(request("w1", "app", Some(3), WorkloadRequestKind::Create));
    let ids: Vec<String> = manager
        .state()
        .get(&"w1".to_string())
        .unwrap()
        .instances
        .iter()
        .map(|i| i.id.clone())
        .collect();

    let out = manager.listen(request("w1", "app", Some(2), WorkloadRequestKind::Destroy));

    let destroyed = destroys(&out);
    assert_eq!(destroyed.len(), 2);
    assert_eq!(destroyed[0].2, ids[0]);
    assert_eq!(destroyed[1].2, ids[1]);
    let workload = manager.state().get(&"w1".to_string()).unwrap();
    assert_eq!(workload.replicas, 1);
    assert_eq!(workload.status, ResourceStatus::Pending);
    assert_eq!(workload.instances[0].status, ResourceStatus::Destroying);
    assert_eq!(workload.instances[1].status, ResourceStatus::Destroying);
    assert_eq!(workload.instances[2].status, ResourceStatus::Pending);
    // a destroying instance that reports failure is removed
    manager.listen(Event::InstanceMetric(
        "n1".to_string(),
        InstanceMetric {
            instance_id: ids[0].clone(),
            status: ResourceStatus::Failed,
            metrics: "{}".to_string(),
        },
    ));
    let workload = manager.state().get(&"w1".to_string()).unwrap();
    assert_eq!(workload.instances.len(), 2);
    assert_eq!(workload.instances[0].id, ids[1]);
}

#[test]
fn request_errors_are_reported() {
    let mut manager = Manager::new();
    ready_worker(&mut manager, 1, "n1");
    let out = manager.listen(request("nope", "app", Some(1), WorkloadRequestKind::Destroy));
    assert_eq!(out.len(), 1);
    match &out[0] {
        Action::Failed(SchedulerError::WorkloadDontExists(id)) => assert_eq!(id, "nope"),
        other => panic!("unexpected action: {:?}", other),
    }
    manager.listen(request("w1", "app", Some(1), WorkloadRequestKind::Create));
    manager.listen(request("w1", "app", Some(1), WorkloadRequestKind::Destroy));
    let out = manager.listen(request("w1", "app", Some(1), WorkloadRequestKind::Create));
    assert!(out
        .iter()
        .any(|a| matches!(a, Action::Failed(SchedulerError::CannotDoubleReplicas))));
}

#[test]
fn taking_in_and_reconciling_are_the_two_halves_of_a_step() {
    let mut manager = Manager::new();
    ready_worker(&mut manager, 1, "n1");
    let mut actions = Vec::new();
    manager.accept(request("w1", "app", Some(2), WorkloadRequestKind::Create), &mut actions);
    assert!(actions.is_empty());
    assert_eq!(instance_count(&manager, "w1"), 0);
    let actions = manager.reconcile();
    assert_eq!(creates(&actions).len(), 2);
    assert_eq!(instance_count(&manager, "w1"), 2);
    assert!(manager.reconcile().is_empty());
}

#[test]
fn destroy_of_a_workload_without_instances_is_reaped_by_the_same_step() {
    let mut manager = Manager::new();
    // no worker is ready: the workload gets no instance
    manager.listen(request("w1", "app", Some(2), WorkloadRequestKind::Create));
    assert_eq!(instance_count(&manager, "w1"), 0);
    let mut actions = Vec::new();
    manager.accept(request("w1", "app", Some(2), WorkloadRequestKind::Destroy), &mut actions);
    assert!(actions.is_empty());
    {
        let torn = manager.state().get(&"w1".to_string()).unwrap();
        assert_eq!(torn.status, ResourceStatus::Destroying);
        assert_eq!(torn.replicas, 0);
    }
    assert!(manager.reconcile().is_empty());
    assert!(manager.state().get(&"w1".to_string()).is_none());

    manager.listen(request("w2", "app", Some(2), WorkloadRequestKind::Create));
    let out = manager.listen(request("w2", "app", Some(5), WorkloadRequestKind::Destroy));
    assert!(out.is_empty());
    assert_eq!(manager.state().len(), 0);
}

#[test]
fn create_commands_go_only_to_workers_that_are_still_ready() {
    let mut manager = Manager::new();
    ready_worker(&mut manager, 1, "n1");
    let out = manager.listen(request("w1", "app", Some(2), WorkloadRequestKind::Create));
    let sends: Vec<&Action> =
        out.iter().filter(|a| matches!(a, Action::Schedule(_, _, _))).collect();
    assert_eq!(sends.len(), 2);
    assert!(manager.may_send(sends[0]));
    // the first send fails: the worker is not ready any more
    manager.send_failed(sends[0]);
    assert!(!manager.may_send(sends[1]));
    manager.send_failed(sends[1]);
    assert_eq!(instance_count(&manager, "w1"), 0);

    let destroy = Action::Schedule(
        1,
        "n1".to_string(),
        rik::proto::InstanceScheduling {
            instance_id: "app-ab12".to_string(),
            action: WorkloadRequestKind::Destroy,
            definition: "{}".to_string(),
        },
    );
    assert!(manager.may_send(&destroy));
    let unknown = Action::Schedule(
        9,
        "n9".to_string(),
        rik::proto::InstanceScheduling {
            instance_id: "app-cd34".to_string(),
            action: WorkloadRequestKind::Create,
            definition: "{}".to_string(),
        },
    );
    assert!(!manager.may_send(&unknown));
    assert!(manager.may_send(&Action::Close(1)));
    for note in out.iter().filter(|a| matches!(a, Action::Notify(_, _))) {
        assert!(manager.may_send(note));
    }
}
