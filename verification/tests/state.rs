use rik::definition::{Spec, WorkloadDefinition};
use rik::proto::{InstanceScheduling, ResourceStatus, WorkloadRequestKind, WorkloadScheduling};
use rik::scheduler::{Channel, Event, SchedulerError, Worker, WorkerState, WorkloadRequest};
use rik::state_manager::{
    instance_id, next_status_of, StateManager, StateManagerEvent, WorkloadInstance,
};

fn definition(name: &str, replicas: Option<u16>) -> WorkloadDefinition {
    WorkloadDefinition {
        api_version: "v0".to_string(),
        kind: "Pods".to_string(),
        name: name.to_string(),
        replicas,
        spec: Spec { containers: vec![] },
    }
}

fn request(id: &str, replicas: Option<u16>, action: WorkloadRequestKind) -> WorkloadRequest {
    WorkloadRequest {
        workload_id: id.to_string(),
        definition: definition("app", replicas),
        document: "{\"name\": \"app\"}".to_string(),
        action,
    }
}

fn ready(hostname: &str) -> Worker {
    let mut w = Worker::new(1, Channel::new(1), "a".to_string(), hostname.to_string());
    w.set_state(WorkerState::Ready);
    w
}

#[test]
fn create_inserts_with_declared_replicas_or_one() {
    let mut state = StateManager::new();
    assert!(state.process_schedule_request(request("a", Some(4), WorkloadRequestKind::Create)).is_ok());
    assert!(state.process_schedule_request(request("b", None, WorkloadRequestKind::Create)).is_ok());
    assert_eq!(state.len(), 2);
    let a = state.get(&"a".to_string()).unwrap();
    assert_eq!(a.replicas, 4);
    assert_eq!(a.status, ResourceStatus::Pending);
    assert_eq!(a.document, "{\"name\": \"app\"}");
    assert!(a.instances.is_empty());
    assert_eq!(state.get(&"b".to_string()).unwrap().replicas, 1);
    assert!(state.get(&"c".to_string()).is_none());
}

#[test]
fn create_on_a_known_workload_adds_and_saturates() {
    let mut state = StateManager::new();
    state.process_schedule_request(request("a", Some(65000), WorkloadRequestKind::Create)).unwrap();
    state.process_schedule_request(request("a", Some(500), WorkloadRequestKind::Create)).unwrap();
    assert_eq!(state.get(&"a".to_string()).unwrap().replicas, 65500);
    state.process_schedule_request(request("a", Some(500), WorkloadRequestKind::Create)).unwrap();
    assert_eq!(state.get(&"a".to_string()).unwrap().replicas, 65535);
}

#[test]
fn destroy_scales_down_or_tears_down() {
    let mut state = StateManager::new();
    state.process_schedule_request(request("a", Some(5), WorkloadRequestKind::Create)).unwrap();
    state.process_schedule_request(request("a", Some(2), WorkloadRequestKind::Destroy)).unwrap();
    assert_eq!(state.get(&"a".to_string()).unwrap().replicas, 3);
    assert_eq!(state.get(&"a".to_string()).unwrap().status, ResourceStatus::Pending);
    // a full destroy leaves the workload destroying, with no replica wanted
    state.process_schedule_request(request("a", Some(3), WorkloadRequestKind::Destroy)).unwrap();
    {
        let torn = state.get(&"a".to_string()).unwrap();
        assert_eq!(torn.status, ResourceStatus::Destroying);
        assert_eq!(torn.replicas, 0);
        assert!(torn.instances.is_empty());
    }
    // with no instance to wait for, the next pass of reconciliation removes it
    assert!(state.update_state(&Vec::new()).is_empty());
    assert!(state.get(&"a".to_string()).is_none());
    assert_eq!(state.len(), 0);
    match state.process_schedule_request(request("a", Some(1), WorkloadRequestKind::Destroy)) {
        Err(SchedulerError::WorkloadDontExists(id)) => assert_eq!(id, "a"),
        other => panic!("unexpected answer: {:?}", other),
    }
}

#[test]
fn destroying_twice_is_a_no_op() {
    let mut state = StateManager::new();
    let workers = vec![ready("n1")];
    state.process_schedule_request(request("a", Some(2), WorkloadRequestKind::Create)).unwrap();
    state.update_state(&workers);
    state.process_schedule_request(request("a", Some(2), WorkloadRequestKind::Destroy)).unwrap();
    let before: Vec<(String, ResourceStatus)> = state
        .get(&"a".to_string())
        .unwrap()
        .instances
        .iter()
        .map(|i| (i.id.clone(), i.status))
        .collect();
    assert_eq!(state.get(&"a".to_string()).unwrap().status, ResourceStatus::Destroying);

    let again = state.process_schedule_request(request("a", Some(7), WorkloadRequestKind::Destroy));

    assert!(again.is_ok());
    let workload = state.get(&"a".to_string()).unwrap();
    assert_eq!(workload.status, ResourceStatus::Destroying);
    assert_eq!(workload.replicas, 0);
    let after: Vec<(String, ResourceStatus)> =
        workload.instances.iter().map(|i| (i.id.clone(), i.status)).collect();
    assert_eq!(before, after);
    assert!(matches!(
        state.process_schedule_request(request("a", Some(1), WorkloadRequestKind::Create)),
        Err(SchedulerError::CannotDoubleReplicas)
    ));
}

#[test]
fn create_with_zero_replicas_is_a_destroy() {
    let mut state = StateManager::new();
    match state.process_schedule_request(request("a", Some(0), WorkloadRequestKind::Create)) {
        Err(SchedulerError::WorkloadDontExists(id)) => assert_eq!(id, "a"),
        other => panic!("unexpected answer: {:?}", other),
    }
    assert_eq!(state.len(), 0);
    state.process_schedule_request(request("a", Some(2), WorkloadRequestKind::Create)).unwrap();
    state.process_schedule_request(request("a", Some(0), WorkloadRequestKind::Create)).unwrap();
    assert_eq!(state.get(&"a".to_string()).unwrap().replicas, 2);
}

#[test]
fn create_intake_with_zero_replicas_never_adds_a_workload() {
    let mut state = StateManager::new();
    match state.action_create_workload(request("a", Some(0), WorkloadRequestKind::Create)) {
        Err(SchedulerError::WorkloadDontExists(id)) => assert_eq!(id, "a"),
        other => panic!("unexpected answer: {:?}", other),
    }
    assert_eq!(state.len(), 0);
    assert!(state.action_create_workload(request("a", Some(3), WorkloadRequestKind::Create)).is_ok());
    // as a destroy that declares no replica: nothing is taken away
    assert!(state.action_create_workload(request("a", Some(0), WorkloadRequestKind::Create)).is_ok());
    let a = state.get(&"a".to_string()).unwrap();
    assert_eq!((a.replicas, a.status), (3, ResourceStatus::Pending));
    assert!(state.action_destroy_workload(request("a", Some(3), WorkloadRequestKind::Destroy)).is_ok());
    assert_eq!(state.get(&"a".to_string()).unwrap().status, ResourceStatus::Destroying);
    // a workload that is being destroyed refuses every create, also one of no replica
    assert!(matches!(
        state.action_create_workload(request("a", Some(0), WorkloadRequestKind::Create)),
        Err(SchedulerError::CannotDoubleReplicas)
    ));
    assert!(matches!(
        state.action_create_workload(request("a", Some(1), WorkloadRequestKind::Create)),
        Err(SchedulerError::CannotDoubleReplicas)
    ));
    let a = state.get(&"a".to_string()).unwrap();
    assert_eq!((a.replicas, a.status), (0, ResourceStatus::Destroying));
}

#[test]
fn create_on_a_workload_being_destroyed_is_refused_whatever_it_declares() {
    let workers = vec![ready("n1")];
    for declared in [Some(0), Some(1), Some(7), None] {
        let mut state = StateManager::new();
        state.process_schedule_request(request("a", Some(2), WorkloadRequestKind::Create)).unwrap();
        state.update_state(&workers);
        state.process_schedule_request(request("a", Some(2), WorkloadRequestKind::Destroy)).unwrap();
        let before: Vec<(String, ResourceStatus)> = state
            .get(&"a".to_string())
            .unwrap()
            .instances
            .iter()
            .map(|i| (i.id.clone(), i.status))
            .collect();
        assert_eq!(before.len(), 2);
        assert!(matches!(
            state.process_schedule_request(request("a", declared, WorkloadRequestKind::Create)),
            Err(SchedulerError::CannotDoubleReplicas)
        ));
        assert_eq!(state.len(), 1);
        let a = state.get(&"a".to_string()).unwrap();
        assert_eq!((a.replicas, a.status), (0, ResourceStatus::Destroying));
        let after: Vec<(String, ResourceStatus)> =
            a.instances.iter().map(|i| (i.id.clone(), i.status)).collect();
        assert_eq!(after, before);
        // the destroy request is still answered with success there
        assert!(state.process_schedule_request(request("a", declared, WorkloadRequestKind::Destroy)).is_ok());
    }
}

#[test]
fn create_destroy_create_starts_afresh() {
    let mut state = StateManager::new();
    let workers = vec![ready("n1")];
    state.process_schedule_request(request("a", Some(2), WorkloadRequestKind::Create)).unwrap();
    state.update_state(&workers);
    state.process_schedule_request(request("a", Some(2), WorkloadRequestKind::Destroy)).unwrap();
    state.update_state(&workers);
    let ids: Vec<String> =
        state.get(&"a".to_string()).unwrap().instances.iter().map(|i| i.id.clone()).collect();
    for id in ids {
        assert!(state.update_instance_status(&id, ResourceStatus::Terminated));
    }
    assert!(state.get(&"a".to_string()).is_none());
    state.process_schedule_request(request("a", Some(5), WorkloadRequestKind::Create)).unwrap();
    assert_eq!(state.get(&"a".to_string()).unwrap().replicas, 5);
}

#[test]
fn place_instance_places_exactly_the_named_instance() {
    let mut state = StateManager::new();
    state.process_schedule_request(request("a", Some(2), WorkloadRequestKind::Create)).unwrap();
    let events = state.place_instance(&"a".to_string(), &"ab12".to_string(), "n1".to_string());
    assert_eq!(events.len(), 2);
    match &events[0] {
        Event::Schedule(host, InstanceScheduling { instance_id, action, definition }) => {
            assert_eq!(host, "n1");
            assert_eq!(instance_id, "app-ab12");
            assert_eq!(*action, WorkloadRequestKind::Create);
            assert_eq!(definition, "{\"name\": \"app\"}");
        }
        other => panic!("unexpected event: {:?}", other),
    }
    match &events[1] {
        Event::InstanceMetric(sender, metric) => {
            assert_eq!(sender, "scheduler");
            assert_eq!(metric.instance_id, "app-ab12");
            assert_eq!(metric.status, ResourceStatus::Pending);
            assert_eq!(metric.metrics, "\"workload_id\": \"app-ab12\"");
        }
        other => panic!("unexpected event: {:?}", other),
    }
    // the same name again is refused, and so is a third instance
    assert!(state.place_instance(&"a".to_string(), &"ab12".to_string(), "n1".to_string()).is_empty());
    assert_eq!(state.place_instance(&"a".to_string(), &"cd34".to_string(), "n2".to_string()).len(), 2);
    assert!(state.place_instance(&"a".to_string(), &"ef56".to_string(), "n1".to_string()).is_empty());
    assert!(state.place_instance(&"zz".to_string(), &"ef56".to_string(), "n1".to_string()).is_empty());
    let workload = state.get(&"a".to_string()).unwrap();
    assert_eq!(workload.instances.len(), 2);
    assert_eq!(workload.instances[1].id, "app-cd34");
    assert_eq!(workload.instances[1].worker_id, Some("n2".to_string()));
    assert!(state.contains_instance(&"app-cd34".to_string()));
    assert!(!state.contains_instance(&"app-ef56".to_string()));
    assert!(state.revert_instance(&"app-ab12".to_string()));
    assert!(!state.revert_instance(&"app-ab12".to_string()));
    assert_eq!(state.get(&"a".to_string()).unwrap().instances.len(), 1);
}

#[test]
fn status_transitions_follow_the_table() {
    let pending = ResourceStatus::Pending;
    let running = ResourceStatus::Running;
    let failed = ResourceStatus::Failed;
    let terminated = ResourceStatus::Terminated;
    let destroying = ResourceStatus::Destroying;
    assert_eq!(next_status_of(pending, pending, running), Some(running));
    assert_eq!(next_status_of(pending, pending, failed), Some(failed));
    assert_eq!(next_status_of(pending, pending, terminated), None);
    assert_eq!(next_status_of(pending, running, running), Some(running));
    assert_eq!(next_status_of(pending, running, failed), Some(failed));
    assert_eq!(next_status_of(pending, running, terminated), None);
    assert_eq!(next_status_of(pending, failed, running), Some(failed));
    assert_eq!(next_status_of(pending, failed, failed), Some(failed));
    assert_eq!(next_status_of(pending, failed, terminated), None);
    assert_eq!(next_status_of(pending, destroying, running), Some(destroying));
    assert_eq!(next_status_of(pending, destroying, failed), None);
    assert_eq!(next_status_of(pending, destroying, terminated), None);
    assert_eq!(next_status_of(destroying, running, failed), None);
    assert_eq!(next_status_of(destroying, running, running), Some(running));
}

#[test]
fn reconciliation_without_ready_worker_changes_nothing() {
    let mut state = StateManager::new();
    let workers = vec![Worker::new(1, Channel::new(1), "a".to_string(), "n1".to_string())];
    state.process_schedule_request(request("a", Some(3), WorkloadRequestKind::Create)).unwrap();
    assert!(state.update_state(&workers).is_empty());
    assert!(state.update_state(&Vec::new()).is_empty());
    assert!(state.get(&"a".to_string()).unwrap().instances.is_empty());
    assert_eq!(StateManager::get_eligible_worker(&workers), None);
}

#[test]
fn reconciliation_fills_up_to_the_replicas() {
    let mut state = StateManager::new();
    let workers = vec![ready("n1")];
    state.process_schedule_request(request("a", Some(40), WorkloadRequestKind::Create)).unwrap();
    let events = state.update_state(&workers);
    assert_eq!(events.len(), 80);
    let workload = state.get(&"a".to_string()).unwrap();
    assert_eq!(workload.instances.len(), 40);
    let mut ids: Vec<&String> = workload.instances.iter().map(|i| &i.id).collect();
    ids.sort();
    ids.dedup();
    assert_eq!(ids.len(), 40);
    assert!(workload.instances.iter().all(|i| i.status == ResourceStatus::Pending
        && i.worker_id == Some("n1".to_string())
        && i.id.starts_with("app-")
        && i.id.len() == 8));
    assert!(state.update_state(&workers).is_empty());
}

#[test]
fn state_manager_loop_turns() {
    let mut state = StateManager::new();
    let workers = vec![ready("n1")];
    assert!(matches!(state.run(None, &workers), Err(SchedulerError::StateManagerFailed)));
    assert!(matches!(state.run(Some(StateManagerEvent::Shutdown), &workers), Ok(None)));
    let turn = state.run(
        Some(StateManagerEvent::Schedule(request("a", Some(1), WorkloadRequestKind::Create))),
        &workers,
    );
    assert_eq!(turn.unwrap().unwrap().len(), 2);
    assert_eq!(state.get(&"a".to_string()).unwrap().instances.len(), 1);
}

#[test]
fn instance_accessors() {
    let mut instance =
        WorkloadInstance::new("app-0000".to_string(), ResourceStatus::Pending, None, "{}".to_string());
    assert_eq!(instance.id, "app-0000");
    assert_eq!(instance.worker_id, None);
    instance.status_update(ResourceStatus::Running);
    assert_eq!(instance.status, ResourceStatus::Running);
    instance.set_worker(Some("n1".to_string()));
    assert_eq!(instance.worker_id, Some("n1".to_string()));
    assert_eq!(instance_id(&"web".to_string(), &"a1b2".to_string()), "web-a1b2");
}

#[test]
fn request_is_built_from_the_wire() {
    let wire = |request: i32| WorkloadScheduling {
        workload_id: "w1".to_string(),
        definition: "{ \"name\" : \"app\" }".to_string(),
        request,
    };
    let r = WorkloadRequest::new(wire(1), Some(definition("app", None))).unwrap();
    assert_eq!(r.action, WorkloadRequestKind::Destroy);
    assert_eq!(r.workload_id, "w1");
    assert_eq!(r.document, "{ \"name\" : \"app\" }");
    assert_eq!(r.definition.declared_replicas(), 1);
    let r = WorkloadRequest::new(wire(0), Some(definition("app", Some(9)))).unwrap();
    assert_eq!(r.action, WorkloadRequestKind::Create);
    assert_eq!(r.definition.declared_replicas(), 9);
    let r = WorkloadRequest::new(wire(7), Some(definition("app", None))).unwrap();
    assert_eq!(r.action, WorkloadRequestKind::Create);
    assert!(matches!(WorkloadRequest::new(wire(0), None), Err(SchedulerError::Transport)));
}

#[test]
fn wire_codes_round_trip() {
    for code in 0..6 {
        assert_eq!(ResourceStatus::from_i32(code).unwrap().to_i32(), code);
    }
    assert_eq!(ResourceStatus::from_i32(4), Some(ResourceStatus::Terminated));
    assert_eq!(ResourceStatus::from_i32(6), None);
    assert_eq!(ResourceStatus::from_i32(-1), None);
    assert_eq!(WorkloadRequestKind::Create.to_i32(), 0);
    assert_eq!(WorkloadRequestKind::Destroy.to_i32(), 1);
    assert_eq!(WorkloadRequestKind::from_i32(1), WorkloadRequestKind::Destroy);
}

#[test]
fn random_suffix_is_lower_case_alphanumeric() {
    for size in [0usize, 1, 4, 32] {
        let s = rik::random::random_suffix(size);
        assert_eq!(s.chars().count(), size);
        assert!(s.chars().all(|c| c.is_ascii_digit() || c.is_ascii_lowercase()));
        let h = rik::random::get_random_hash(size);
        assert_eq!(h.chars().count(), size);
        assert!(h.chars().all(|c| c.is_ascii_alphanumeric()));
    }
    // lower-casing is applied: 200 draws of 32 characters hold no capital
    let mut seen_letter = false;
    for _ in 0..200 {
        let s = rik::random::random_suffix(32);
        assert!(!s.chars().any(|c| c.is_ascii_uppercase()));
        seen_letter = seen_letter || s.chars().any(|c| c.is_ascii_lowercase());
    }
    assert!(seen_letter);
}

#[test]
fn suffixes_count_in_base_36() {
    assert_eq!(rik::naming::suffix(0), "0000");
    assert_eq!(rik::naming::suffix(9), "0009");
    assert_eq!(rik::naming::suffix(10), "000a");
    assert_eq!(rik::naming::suffix(35), "000z");
    assert_eq!(rik::naming::suffix(36), "0010");
    assert_eq!(rik::naming::suffix(46656), "1000");
    assert_eq!(rik::naming::suffix(1679615), "zzzz");
    assert_eq!(rik::naming::SUFFIXES, 36 * 36 * 36 * 36);
}
