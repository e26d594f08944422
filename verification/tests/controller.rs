use rik::controller::api::{ApiChannel, ExternalAPI, InternalAPI, RikError, Server, CRUD};
use rik::controller::database::{RikDataBase, RikRepository, DEFAULT_LOCATION};
use rik::controller::logger::{LogType, Logger, Logging};
use rik::controller::routes::{
    create_instance, create_workload, delete, get, instance_created, instance_key,
    not_implemented, send_create_instance, workload_key,
};
use rik::controller::types::{Element, InstanceDefinition, OnlyId, Tenant};
use rik::definition::{Container, EnvConfig, PortConfig, Spec, WorkloadDefinition};
use std::sync::mpsc::channel;

fn message(action: CRUD, workload_id: usize) -> ApiChannel {
    ApiChannel { action, workload_id, instance_id: None, workload_definition: None }
}

#[test]
fn elements_and_tenants() {
    let mut element = Element::new(3, "/workload/pods/default/a".to_string(), "{}".to_string());
    assert_eq!(element.describe(), "Id: 3, Name: /workload/pods/default/a, Value: {}");
    element.set_name("n".to_string());
    element.set_value("v".to_string());
    assert_eq!((element.id, element.name.as_str(), element.value.as_str()), (3, "n", "v"));
    let copy = element.clone();
    assert_eq!(copy.describe(), "Id: 3, Name: n, Value: v");
    assert_eq!(Tenant::new(12, "acme".to_string()).describe(), "Id: 12, Name: acme");
    assert_eq!(OnlyId { id: 4 }.id, 4);
}

#[test]
fn instance_definition_defaults() {
    let mut instance = InstanceDefinition { name: None, workload_id: 1, replicas: None };
    assert_eq!(instance.get_replicas(), 1);
    assert_eq!(instance.replicas, Some(1));
    let name = instance.get_name().clone();
    assert!(!name.is_empty());
    assert_eq!(instance.get_name(), &name);
    instance.set_name("web".to_string());
    assert_eq!(instance.get_name(), "web");
    let mut other = InstanceDefinition { name: None, workload_id: 1, replicas: Some(4) };
    assert_eq!(other.get_replicas(), 4);
    assert_eq!(other.name_or("fallback".to_string()), "fallback");
    assert_eq!(other.name_or("again".to_string()), "fallback");
}

#[test]
fn instance_route_answers() {
    let mut unnamed = InstanceDefinition { name: None, workload_id: 9, replicas: Some(3) };
    let (n, answer) = create_instance(&mut unnamed, false, false);
    assert_eq!((n, answer.status, answer.body.as_str()), (0, 404, "Workload id 9 not found"));
    let (n, answer) = create_instance(&mut unnamed, true, true);
    assert_eq!((n, answer.status, answer.body.as_str()), (3, 201, ""));
    let mut named = InstanceDefinition { name: Some("web".to_string()), workload_id: 9, replicas: None };
    let (n, answer) = create_instance(&mut named, true, true);
    assert_eq!((n, answer.status, answer.body.as_str()), (0, 404, "Name already used"));
    let (n, answer) = create_instance(&mut named, true, false);
    assert_eq!((n, answer.status), (1, 201));
    let mut many = InstanceDefinition { name: Some("web".to_string()), workload_id: 9, replicas: Some(2) };
    let (n, answer) = create_instance(&mut many, true, false);
    assert_eq!(
        (n, answer.status, answer.body.as_str()),
        (0, 400, "Cannot use name with multiple replicas")
    );
}

#[test]
fn other_route_answers() {
    assert_eq!(workload_key("pods", "default", "web"), "/workload/pods/default/web");
    assert_eq!(instance_key("pods", "web-1"), "/instance/pods/default/web-1");
    assert_eq!(not_implemented().status, 204);
    let ok = create_workload("{\"name\":\"a\"}".to_string(), false, true);
    assert_eq!((ok.status, ok.body.as_str(), ok.json), (200, "{\"name\":\"a\"}", true));
    assert_eq!(create_workload("{}".to_string(), true, true).status, 404);
    let failed = create_workload("{}".to_string(), false, false);
    assert_eq!((failed.status, failed.body.as_str()), (500, "Cannot create workload"));
    assert_eq!(delete("Workload", 5, true).status, 204);
    let missing = delete("Tenant", 5, false);
    assert_eq!((missing.status, missing.body.as_str()), (404, "Tenant id 5 not found"));
    let found = get(Some("[]".to_string()), "Cannot find tenant");
    assert_eq!((found.status, found.body.as_str(), found.json), (200, "[]", true));
    let none = get(None, "Cannot find tenant");
    assert_eq!((none.status, none.body.as_str()), (500, "Cannot find tenant"));
}

#[test]
fn database_statements() {
    let db = RikDataBase::new("rik".to_string());
    db.drop_tables();
    assert_eq!(db.open(None), format!("{}rik.db", DEFAULT_LOCATION));
    assert_eq!(db.open(Some("/tmp/".to_string())), "/tmp/rik.db");
    assert!(db.init_tables().starts_with("CREATE TABLE IF NOT EXISTS cluster"));
    assert_eq!(
        RikRepository::find_one(12, "/workload"),
        "SELECT id, name, value FROM cluster WHERE id = 12 AND name LIKE '/workload%'"
    );
    assert_eq!(
        RikRepository::find_all("/tenant"),
        "SELECT id, name, value FROM cluster WHERE name LIKE '/tenant%'"
    );
    assert_eq!(
        RikRepository::check_duplicate_name("/workload/default/a"),
        "SELECT id, name, value FROM cluster WHERE name LIKE '/workload/default/a%'"
    );
}

#[test]
fn logger_lines() {
    let (sender, receiver) = channel::<Logging>();
    let logger = Logger::new(receiver, "Main".to_string());
    assert_eq!(logger.line("2021-01-01 00:00:00 UTC", "hello"), "[Rik] - 2021-01-01 00:00:00 UTC [Main] hello");
    sender.send(Logging { message: "one".to_string(), log_type: LogType::Log }).unwrap();
    sender.send(Logging { message: "two".to_string(), log_type: LogType::Error }).unwrap();
    sender.send(Logging { message: "three".to_string(), log_type: LogType::Debug }).unwrap();
    let lines = logger.run(2);
    assert_eq!(lines.len(), 2);
    assert!(lines[0].starts_with("[Rik] - ") && lines[0].ends_with(" [Main] one"));
    assert!(lines[1].ends_with(" [Main] two"));
    let lines = logger.run(10);
    assert_eq!(lines.len(), 1);
    assert!(lines[0].ends_with(" [Main] three"));
    assert!(logger.run(10).is_empty());
    let written = logger.write(&Logging { message: "w".to_string(), log_type: LogType::Warn });
    assert!(written.ends_with(" [Main] w"));
}

#[test]
fn halves_of_the_controller() {
    let (log_tx, log_rx) = channel::<Logging>();
    let (internal_tx, internal_rx) = channel::<ApiChannel>();
    let (external_tx, external_rx) = channel::<ApiChannel>();
    let external = ExternalAPI::new(log_tx.clone(), internal_tx.clone(), external_rx);
    let mut internal = InternalAPI::new(log_tx.clone(), external_tx.clone(), internal_rx);

    assert_eq!(external.run().ok(), Some("127.0.0.1:5000".to_string()));
    let logged = log_rx.try_recv().unwrap();
    assert!(
        logged.message == "Server running on http://127.0.0.1:5000"
            || logged.message == "\u{1b}[32mServer running on http://127.0.0.1:5000\u{1b}[0m"
    );
    assert_eq!(logged.log_type, LogType::Log);

    assert!(internal.run());
    let logged = log_rx.try_recv().unwrap();
    assert_eq!(logged.message, "Internal server not implemented");
    assert_eq!(logged.log_type, LogType::Error);

    internal_tx.send(message(CRUD::Create, 7)).unwrap();
    assert_eq!(internal.listen(5), 2);
    assert_eq!(log_rx.try_recv().unwrap().message, "Delte Workload: 1");
    assert_eq!(log_rx.try_recv().unwrap().message, "Create Workload: 7");
    assert_eq!(internal.listen(5), 0);

    internal.external_api_mut().send(message(CRUD::Delete, 2)).unwrap();
    external_tx.send(message(CRUD::Create, 30)).unwrap();
    assert_eq!(
        external.listen_notification(8),
        vec!["Action: Delete, Workload id: 2", "Action: Create, Workload id: 30"]
    );
    assert_eq!(message(CRUD::Create, 0).describe(), "Action: Create, Workload id: 0");

    drop(internal);
    match external.run() {
        Err(RikError::IoError(_)) => {}
        other => panic!("unexpected answer: {:?}", other),
    }
}

#[test]
fn containers_are_handed_out_in_order() {
    let definition = WorkloadDefinition {
        api_version: "v0".to_string(),
        kind: "Pods".to_string(),
        name: "app".to_string(),
        replicas: Some(1),
        spec: Spec {
            containers: vec![
                Container {
                    name: "a".to_string(),
                    image: "busybox:latest".to_string(),
                    env: Some(vec![EnvConfig { name: "K".to_string(), value: "V".to_string() }]),
                    ports: None,
                },
                Container {
                    name: "b".to_string(),
                    image: "nginx:1".to_string(),
                    env: None,
                    ports: Some(vec![PortConfig {
                        port: 80,
                        target_port: 8080,
                        protocol: None,
                        port_type: "clusterIP".to_string(),
                    }]),
                },
            ],
        },
    };
    assert_eq!(definition.declared_replicas(), 1);
    let uuid = definition.get_uuid();
    assert_eq!(uuid.len(), 15);
    assert!(uuid.chars().all(|c| c.is_ascii_alphanumeric()));
    let containers = definition.get_containers();
    assert_eq!(containers[0].get_uuid().len(), 5);
    assert_eq!(containers.len(), 2);
    assert_eq!(containers[0].name, "a");
    assert_eq!(containers[1].ports.as_ref().unwrap()[0].target_port, 8080);
}

#[test]
fn internal_server_asks_the_scheduler() {
    let created = instance_created(4, 17, "{\"name\":\"app\"}".to_string());
    assert_eq!(created.action, CRUD::Create);
    assert_eq!((created.workload_id, created.instance_id), (4, Some(17)));
    let (logging, ask) = Server::note(created);
    assert_eq!(logging.message, "Ctrl to scheduler create instance: Some(17), workload_id : 4");
    assert_eq!(logging.log_type, LogType::Log);
    let ask = ask.unwrap();
    assert_eq!(ask.workload_id, "4");
    assert_eq!(ask.definition, "{\"name\":\"app\"}");
    assert_eq!(ask.request, 0);

    let (logging, ask) = Server::note(message(CRUD::Delete, 4));
    assert_eq!(logging.message, "Ctrl to scheduler delete instance: None");
    assert!(ask.is_none());
    let (logging, ask) = Server::note(ApiChannel {
        action: CRUD::Delete,
        workload_id: 4,
        instance_id: Some(2),
        workload_definition: Some("{}".to_string()),
    });
    assert_eq!(logging.message, "Ctrl to scheduler delete instance: Some(2)");
    assert_eq!(ask.unwrap().request, 1);
    let (_, ask) = Server::note(ApiChannel {
        action: CRUD::Create,
        workload_id: 4,
        instance_id: Some(2),
        workload_definition: None,
    });
    assert!(ask.is_none());

    let (log_tx, log_rx) = channel::<Logging>();
    let (internal_tx, internal_rx) = channel::<ApiChannel>();
    let (external_tx, _external_rx) = channel::<ApiChannel>();
    let server = Server::new(log_tx, external_tx, internal_rx);
    internal_tx.send(instance_created(1, 2, "{}".to_string())).unwrap();
    internal_tx.send(message(CRUD::Delete, 1)).unwrap();
    internal_tx.send(instance_created(3, 4, "{\"a\":1}".to_string())).unwrap();
    let asks = server.listen_notification(2);
    assert_eq!(asks.len(), 1);
    assert_eq!(asks[0].workload_id, "1");
    let asks = server.listen_notification(9);
    assert_eq!(asks.len(), 1);
    assert_eq!((asks[0].workload_id.as_str(), asks[0].definition.as_str()), ("3", "{\"a\":1}"));
    assert_eq!(log_rx.try_iter().count(), 3);
}

#[test]
fn instance_rows() {
    assert_eq!(
        send_create_instance("pods", &Some("web".to_string())),
        "/instance/pods/default/web"
    );
    let drawn = send_create_instance("pods", &None);
    assert!(drawn.starts_with("/instance/pods/default/"));
    assert!(drawn.len() > "/instance/pods/default/".len());
}

#[test]
fn start_of_the_external_half() {
    assert_eq!(ExternalAPI::started(true, true).ok(), Some("127.0.0.1:5000".to_string()));
    match ExternalAPI::started(false, true) {
        Err(RikError::IoError(m)) => assert_eq!(m, "the internal half is gone"),
        other => panic!("unexpected answer: {:?}", other),
    }
    match ExternalAPI::started(false, false) {
        Err(RikError::IoError(m)) => assert_eq!(m, "the internal half is gone"),
        other => panic!("unexpected answer: {:?}", other),
    }
    match ExternalAPI::started(true, false) {
        Err(RikError::IoError(m)) => assert_eq!(m, "the log is gone"),
        other => panic!("unexpected answer: {:?}", other),
    }
    // through the queues: with the log gone the start fails and names the log
    let (log_tx, log_rx) = channel::<Logging>();
    let (internal_tx, _internal_rx) = channel::<ApiChannel>();
    let (_external_tx, external_rx) = channel::<ApiChannel>();
    let external = ExternalAPI::new(log_tx, internal_tx, external_rx);
    drop(log_rx);
    match external.run() {
        Err(RikError::IoError(m)) => assert_eq!(m, "the log is gone"),
        other => panic!("unexpected answer: {:?}", other),
    }
}
