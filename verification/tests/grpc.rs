use rik::definition::{Spec, WorkloadDefinition};
use rik::grpc::{
    get_status_updates, register, schedule_instance, send_status_updates, status_of, unavailable,
    Code, UNKNOWN_PEER,
};
use rik::proto::{
    InstanceMetric, ResourceStatus, StatusPayload, WorkerMetric, WorkerRegistration, WorkerStatus,
    WorkloadRequestKind, WorkloadScheduling,
};
use rik::scheduler::{Channel, Event, Metrics, SchedulerError};

#[test]
fn test_no_remote_register() {
    let hostname = "debian".to_string();
    let event = register(WorkerRegistration { hostname: hostname.clone() }, Channel::new(1), None);
    match event.unwrap() {
        Event::Register(_, socket, host) => {
            assert_eq!(hostname, host);
            assert_eq!("0.0.0.0:0", socket);
        }
        _ => assert!(false),
    };
}

#[test]
fn test_no_hostname() {
    let fallback = register(WorkerRegistration { hostname: "".to_string() }, Channel::new(1), None);
    assert!(fallback.is_err());
    assert_eq!(fallback.err().unwrap().code, Code::FailedPrecondition);
}

#[test]
fn test_register_event() {
    let event = register(
        WorkerRegistration { hostname: "debian".to_string() },
        Channel::new(4),
        Some("10.1.2.3:4995".to_string()),
    );
    match event.unwrap() {
        Event::Register(channel, addr, _) => {
            assert_eq!(channel, Channel::new(4));
            assert_eq!(addr, "10.1.2.3:4995");
        }
        _ => assert!(false),
    };
}

#[test]
fn test_schedule_event() {
    let workload = WorkloadScheduling {
        workload_id: "uuid".to_string(),
        definition: "{}".to_string(),
        request: 0,
    };
    let parsed = WorkloadDefinition {
        api_version: "v0".to_string(),
        kind: "Pods".to_string(),
        name: "app".to_string(),
        replicas: None,
        spec: Spec { containers: vec![] },
    };
    match schedule_instance(workload, Some(parsed)).unwrap() {
        Event::ScheduleRequest(content) => {
            assert_eq!(content.workload_id, "uuid");
            assert_eq!(content.document, "{}");
            assert_eq!(content.action, WorkloadRequestKind::Create);
            assert_eq!(content.definition.name, "app");
        }
        _ => assert!(false),
    };
    let unreadable = WorkloadScheduling {
        workload_id: "uuid".to_string(),
        definition: "{".to_string(),
        request: 0,
    };
    assert_eq!(schedule_instance(unreadable, None).err().unwrap().code, Code::InvalidArgument);
}

#[test]
fn test_status_update_no_remote() {
    match get_status_updates(Channel::new(2), None) {
        Event::Subscribe(channel, socket) => {
            assert_eq!(UNKNOWN_PEER, socket);
            assert_eq!(channel, Channel::new(2));
        }
        _ => assert!(false),
    };
    match get_status_updates(Channel::new(2), Some("1.2.3.4:5".to_string())) {
        Event::Subscribe(_, socket) => assert_eq!("1.2.3.4:5", socket),
        _ => assert!(false),
    };
}

#[test]
fn status_updates_become_events_under_the_sender_name() {
    let instance = WorkerStatus {
        identifier: "n1".to_string(),
        payload: StatusPayload::Instance(InstanceMetric {
            instance_id: "app-ab12".to_string(),
            status: ResourceStatus::Running,
            metrics: "{}".to_string(),
        }),
    };
    match send_status_updates(instance, None) {
        Event::InstanceMetric(host, metric) => {
            assert_eq!(host, "n1");
            assert_eq!(metric.instance_id, "app-ab12");
            assert_eq!(metric.status, ResourceStatus::Running);
        }
        other => panic!("unexpected event: {:?}", other),
    }
    let worker = WorkerStatus {
        identifier: "n2".to_string(),
        payload: StatusPayload::Worker(WorkerMetric {
            status: ResourceStatus::Running,
            metrics: "{\"cpu\":1}".to_string(),
        }),
    };
    match send_status_updates(worker, Some(Metrics { document: "{\"cpu\":1}".to_string() })) {
        Event::WorkerMetric(host, metric, parsed) => {
            assert_eq!(host, "n2");
            assert_eq!(metric.metrics, "{\"cpu\":1}");
            assert_eq!(parsed.unwrap().document, "{\"cpu\":1}");
        }
        other => panic!("unexpected event: {:?}", other),
    }
}

#[test]
fn errors_map_to_status_codes() {
    assert_eq!(status_of(&SchedulerError::ClusterFull).code, Code::ResourceExhausted);
    let refused = status_of(&SchedulerError::RegistrationFailed("n1".to_string()));
    assert_eq!(refused.code, Code::AlreadyExists);
    assert_eq!(refused.message, "Worker with this hostname already exist");
    let nameless = status_of(&SchedulerError::RegistrationFailed(String::new()));
    assert_eq!(nameless.code, Code::FailedPrecondition);
    assert_eq!(nameless.message, "No hostname specified");
    assert_eq!(status_of(&SchedulerError::ClientDisconnected).code, Code::Unavailable);
    assert_eq!(status_of(&SchedulerError::StateManagerFailed).code, Code::Internal);
    assert_eq!(status_of(&SchedulerError::WorkloadDontExists("w".to_string())).code, Code::NotFound);
    assert_eq!(status_of(&SchedulerError::CannotDoubleReplicas).code, Code::FailedPrecondition);
    assert_eq!(status_of(&SchedulerError::Transport).code, Code::InvalidArgument);
    assert_eq!(unavailable().code, Code::Unavailable);
}
