use rik::riklet::command::{
    select_output, Binary, BinaryError, RikCommand, Runc as RuncCommand, Skopeo, Umoci, OCI,
};
use rik::riklet::container::{launch, CreateArgs, Runc, RuncConfiguration, RuncError};
use rik::riklet::image::{generate_hash, Image};
use rik::riklet::image_manager::ImageManager;
use rik::text::u64_to_string;

#[test]
fn test_it_parse_a_image_string() {
    let image_str = "alpine:latest";

    let image = Image::from(image_str);

    assert_eq!(image.name, "alpine");
    assert_eq!(image.tag, "latest");
}

#[test]
fn image_parts_follow_the_colons() {
    let image = Image::from("registry:5000/app:v1");
    assert_eq!(image.oci, "registry:5000/app:v1");
    assert_eq!(image.name, "registry");
    assert_eq!(image.tag, "5000/app");
    assert!(image.bundle.is_none());
    let image = Image::from(":");
    assert_eq!(image.name, "");
    assert_eq!(image.tag, "");
    let image = Image::from("héllo:wörld");
    assert_eq!(image.name, "héllo");
    assert_eq!(image.tag, "wörld");
}

#[test]
fn image_names_carry_the_hash() {
    let mut image = Image::from("alpine:latest");
    assert_eq!(image.uuid_with(42), "alpine-42");
    assert_eq!(image.hashed_oci_with(18446744073709551615), "alpine-18446744073709551615:latest");
    let hash = image.get_hash();
    assert_eq!(hash, generate_hash(&image));
    assert_eq!(image.get_uuid(), format!("alpine-{}", hash));
    assert_eq!(image.get_hashed_oci(), format!("alpine-{}:latest", hash));
    image.set_bundle("/var/lib/riklet/bundles/1");
    assert_eq!(image.bundle, Some("/var/lib/riklet/bundles/1".to_string()));
}

#[test]
fn decimal_digits() {
    assert_eq!(u64_to_string(0), "0");
    assert_eq!(u64_to_string(7), "7");
    assert_eq!(u64_to_string(10), "10");
    assert_eq!(u64_to_string(1234567890), "1234567890");
    assert_eq!(u64_to_string(u64::MAX), "18446744073709551615");
}

#[test]
fn command_lines() {
    let skopeo = Skopeo::new(Some("/usr/bin/skopeo".to_string())).unwrap();
    let copy = skopeo.copy("docker://alpine:latest", "oci:/tmp/images/alpine");
    assert_eq!(copy.binary, "/usr/bin/skopeo");
    assert_eq!(copy.args, vec!["copy", "docker://alpine:latest", "oci:/tmp/images/alpine"]);
    assert!(Skopeo::new(None).is_none());

    let umoci = Umoci::new(Some("/usr/bin/umoci".to_string())).unwrap();
    let unpack = umoci.unpack("/tmp/images/alpine", "/tmp/bundles/1");
    assert_eq!(unpack.binary, "/usr/bin/umoci");
    assert_eq!(
        unpack.args,
        vec!["unpack", "--rootless", "--image", "/tmp/images/alpine", "/tmp/bundles/1"]
    );
    assert!(Umoci::new(None).is_none());

    let runc = RuncCommand::new(Some("/usr/bin/cri".to_string())).unwrap();
    let run = runc.run("/tmp/bundles/1", "web");
    assert_eq!(run.args, vec!["run", "-b", "/tmp/bundles/1", "web"]);
    assert!(RuncCommand::new(None).is_none());

    let oci = OCI::new().unpack(&"a".to_string(), &"b".to_string());
    assert_eq!(oci.binary, "umoci");
    assert_eq!(oci.args, vec!["unpack", "--rootless", "--image", "a", "b"]);

    let echo = RikCommand::create("echo").execute(vec!["test".to_string()]);
    assert_eq!(echo.binary, "echo");
    assert_eq!(echo.args, vec!["test"]);
    match Binary::create("cat", None) {
        Err(BinaryError::NotFound(name)) => assert_eq!(name, "cat"),
        other => panic!("unexpected answer: {:?}", other),
    }
    assert_eq!(Binary::create("cat", Some("/bin/cat".to_string())).unwrap().binary, "/bin/cat");
}

#[test]
fn output_of_a_run() {
    assert_eq!(select_output(b"out".to_vec(), b"err".to_vec(), true), b"out");
    assert_eq!(select_output(b"out".to_vec(), b"err".to_vec(), false), b"err");
    assert_eq!(select_output(b"out".to_vec(), Vec::new(), false), b"out");
    assert_eq!(select_output(Vec::new(), Vec::new(), true), b"");
}

#[test]
fn create_args_in_order() {
    let all = CreateArgs {
        pid_file: Some("/run/web.pid".to_string()),
        console_socket: Some("/tmp/web.sock".to_string()),
        no_pivot: true,
        no_new_keyring: true,
        detach: true,
    };
    assert_eq!(
        all.args(),
        vec![
            "--pid-file",
            "/run/web.pid",
            "--console-socket",
            "/tmp/web.sock",
            "--no-pivot",
            "--no-new-keyring",
            "--detach"
        ]
    );
    let none = CreateArgs {
        pid_file: None,
        console_socket: None,
        no_pivot: false,
        no_new_keyring: false,
        detach: false,
    };
    assert!(none.args().is_empty());
    let some = CreateArgs {
        pid_file: None,
        console_socket: Some("/tmp/s".to_string()),
        no_pivot: false,
        no_new_keyring: false,
        detach: true,
    };
    assert_eq!(some.args(), vec!["--console-socket", "/tmp/s", "--detach"]);
}

#[test]
fn runtime_command_lines() {
    assert_eq!(Runc::new(RuncConfiguration::default(), None).err(), Some(RuncError::NotFound));
    let found = Runc::new(RuncConfiguration::default(), Some("/usr/bin/runc".to_string())).unwrap();
    assert_eq!(found.command, "/usr/bin/runc");
    assert_eq!(found.timeout, 5000);
    assert!(found.args().is_empty());
    let config = RuncConfiguration {
        command: Some("/opt/runc".to_string()),
        timeout: Some(100),
        root: Some("/run/runc".to_string()),
        rootless: true,
        debug: true,
    };
    let runc = Runc::new(config, Some("/usr/bin/runc".to_string())).unwrap();
    assert_eq!(runc.command, "/opt/runc");
    assert_eq!(runc.timeout, 100);
    assert_eq!(runc.args(), vec!["--root", "/run/runc", "--rootless=true", "--debug"]);
    assert_eq!(
        runc.list().args,
        vec!["--root", "/run/runc", "--rootless=true", "--debug", "list", "--format=json"]
    );
    assert_eq!(
        runc.state("web").args,
        vec!["--root", "/run/runc", "--rootless=true", "--debug", "state", "web"]
    );
    let plan = launch("app", "web", "wu", "cu");
    assert_eq!(plan.id, "app-web-wu-cu");
    assert_eq!(plan.socket_path, "/tmp/web-cu");
    let run = runc.run(&plan.id, "/bundles/1", Some(&plan.args));
    assert_eq!(run.binary, "/opt/runc");
    assert_eq!(
        run.args,
        vec![
            "--root",
            "/run/runc",
            "--rootless=true",
            "--debug",
            "run",
            "--console-socket",
            "/tmp/web-cu",
            "--detach",
            "--bundle",
            "/bundles/1",
            "app-web-wu-cu"
        ]
    );
    assert_eq!(found.run("x", "/b", None).args, vec!["run", "--bundle", "/b", "x"]);
}

#[test]
fn pull_plan() {
    let manager = ImageManager::new(
        "/var/lib/riklet",
        Some("/usr/bin/skopeo".to_string()),
        Some("/usr/bin/umoci".to_string()),
    );
    assert_eq!(manager.pull_directory, "/var/lib/riklet/images");
    assert_eq!(manager.bundle_directory, "/var/lib/riklet/bundles");
    assert_eq!(manager.format_image_src("alpine:latest"), "docker://alpine:latest");
    assert_eq!(
        manager.format_image_dest(&"alpine-7:latest".to_string()),
        "oci:/var/lib/riklet/images/alpine-7:latest"
    );
    let plan = manager.pull_with("alpine:latest", 7);
    assert_eq!(plan.image.name, "alpine");
    assert_eq!(plan.image.bundle, Some("/var/lib/riklet/bundles/7".to_string()));
    assert_eq!(plan.copy.binary, "/usr/bin/skopeo");
    assert_eq!(
        plan.copy.args,
        vec!["copy", "docker://alpine:latest", "oci:/var/lib/riklet/images/alpine-7:latest"]
    );
    assert_eq!(plan.unpack.binary, "/usr/bin/umoci");
    assert_eq!(
        plan.unpack.args,
        vec![
            "unpack",
            "--rootless",
            "--image",
            "/var/lib/riklet/images/alpine-7:latest",
            "/var/lib/riklet/bundles/7"
        ]
    );
    let hash = Image::from("alpine:latest").get_hash();
    let drawn = manager.pull("alpine:latest");
    assert_eq!(drawn.copy.args, manager.pull_with("alpine:latest", hash).copy.args);
    assert_eq!(manager.pull_image("alpine:latest").unpack.args, drawn.unpack.args);
    let bare = ImageManager::new("/r", None, None);
    assert!(bare.skopeo.is_none() && bare.umoci.is_none());
}

#[test]
fn node_metrics_in_bytes() {
    use_memory(8, 3, 8192, 5120);
    use_memory(3, 8, 3072, 0);
    use_memory(0, 0, 0, 0);
    use_memory(u64::MAX, 0, u64::MAX, u64::MAX);
    use_memory(u64::MAX / 1024, 0, (u64::MAX / 1024) * 1024, (u64::MAX / 1024) * 1024);
    use_memory(u64::MAX / 1024 + 1, 1, u64::MAX, (u64::MAX / 1024) * 1024);
    let named = rik::node_metrics::disk(Some("/dev/sda1".to_string()), 100, 40);
    assert_eq!((named.disk_name.as_str(), named.total, named.free), ("/dev/sda1", 100, 40));
    assert_eq!(rik::node_metrics::disk(None, 1, 1).disk_name, "unknown");
    assert_eq!(rik::node_metrics::processors(8), 8);
    assert_eq!(rik::node_metrics::processors(255), 255);
    assert_eq!(rik::node_metrics::processors(0), 0);
    assert_eq!(rik::node_metrics::processors(256), 255);
    assert_eq!(rik::node_metrics::processors(300), 255);
    assert_eq!(rik::node_metrics::processors(usize::MAX), 255);
}

fn use_memory(total: u64, used: u64, want_total: u64, want_free: u64) {
    let m = rik::node_metrics::memory(total, used);
    assert_eq!((m.total, m.free), (want_total, want_free));
}

#[test]
fn default_configuration() {
    let config = rik::riklet::config::Configuration::default();
    assert_eq!(config.scheduler, "http://127.0.0.1:4995");
    assert_eq!(config.runner.timeout, Some(30000));
    assert!(config.runner.command.is_none() && config.runner.root.is_none());
    assert_eq!(
        config.manager.image_puller.images_directory,
        Some("/var/lib/riklet/images".to_string())
    );
    assert_eq!(
        config.manager.oci_manager.bundles_directory,
        Some("/var/lib/riklet/bundles".to_string())
    );
    assert_eq!(config.bootstrap(), vec!["/var/lib/riklet/bundles", "/var/lib/riklet/images"]);
    assert_eq!(
        rik::riklet::config::Configuration::load(None, true),
        rik::riklet::config::Load::Read("/etc/riklet/configuration.toml".to_string())
    );
    assert_eq!(
        rik::riklet::config::Configuration::load(Some("/tmp/r.toml".to_string()), false),
        rik::riklet::config::Load::Create("/tmp/r.toml".to_string())
    );
}

#[test]
fn metrics_report() {
    let updates =
        rik::riklet::emitters::MetricsEmitter::emit_event("n1", "{\"cpu\":1}".to_string());
    assert_eq!(updates.len(), 1);
    assert_eq!(updates[0].identifier, "n1");
    match &updates[0].payload {
        rik::proto::StatusPayload::Worker(m) => {
            assert_eq!(m.status, rik::proto::ResourceStatus::Running);
            assert_eq!(m.status.to_i32(), 2);
            assert_eq!(m.metrics, "{\"cpu\":1}");
        }
        other => panic!("unexpected payload: {:?}", other),
    }
}

#[test]
fn image_hash_depends_on_the_fields_alone() {
    let a = Image::from("alpine:latest");
    let b = Image::from("alpine:latest");
    assert_eq!(a.get_hash(), b.get_hash());
    assert_eq!(a.get_hash(), a.get_hash());
    assert_eq!(generate_hash(&a), a.get_hash());
    assert_eq!(a.get_uuid(), b.get_uuid());
    assert_eq!(a.get_hashed_oci(), b.get_hashed_oci());
    let other_tag = Image::from("alpine:edge");
    assert_ne!(a.get_hash(), other_tag.get_hash());
    let mut unpacked = Image::from("alpine:latest");
    unpacked.set_bundle("/var/lib/riklet/bundles/1");
    assert_ne!(a.get_hash(), unpacked.get_hash());
}

#[test]
fn pull_comes_to_an_image_exactly_when_the_copy_succeeded() {
    let manager = ImageManager::new(
        "/var/lib/riklet",
        Some("/usr/bin/skopeo".to_string()),
        Some("/usr/bin/umoci".to_string()),
    );
    let plan = manager.pull("alpine:latest");
    assert_eq!(plan.copy.args[1], "docker://alpine:latest");
    assert!(plan.copy.args[2].starts_with("oci:/var/lib/riklet/images/alpine-"));
    assert!(plan.copy.args[2].ends_with(":latest"));
    assert!(plan.unpack_after(false).is_none());
    assert_eq!(plan.unpack_after(true).unwrap().args, plan.unpack.args);
    let image = plan.finish(true).unwrap();
    assert_eq!((image.oci.as_str(), image.name.as_str(), image.tag.as_str()), ("alpine:latest", "alpine", "latest"));
    assert!(image.bundle.unwrap().starts_with("/var/lib/riklet/bundles/"));

    let failed = manager.pull_image("alpine:latest");
    assert!(failed.unpack_after(false).is_none());
    assert!(failed.finish(false).is_none());
}

#[test]
fn command_it_execute_echo_command() {
    let command = RikCommand::create("echo");

    let invocation = command.execute(vec!["test".to_string()]);
    assert_eq!(invocation.binary, "echo");
    assert_eq!(invocation.args, vec!["test"]);

    // of a run that succeeded, what it wrote to its output is handed on
    let result = select_output(b"test\n".to_vec(), b"warning\n".to_vec(), true);

    let result_str = String::from_utf8_lossy(&result);

    assert_eq!(result_str, "test\n");
}

#[test]
fn command_it_return_error() {
    let command = RikCommand::create("cat");

    let invocation = command.execute(vec!["/somethingnotexisting".to_string()]);
    assert_eq!(invocation.binary, "cat");
    assert_eq!(invocation.args, vec!["/somethingnotexisting"]);

    // of a run that failed, what it wrote about the failure is handed on
    let complaint = b"cat: /somethingnotexisting: No such file or directory\n".to_vec();
    let result = select_output(Vec::new(), complaint.clone(), false);

    assert_eq!(result, complaint);
}

#[test]
fn binary_it_execute_echo_command() {
    let command = Binary::create("echo", Some("/bin/echo".to_string())).unwrap();

    let invocation = command.execute(vec!["test".to_string()]);
    assert_eq!(invocation.binary, "/bin/echo");
    assert_eq!(invocation.args, vec!["test"]);

    let result = select_output(b"test\n".to_vec(), Vec::new(), true);

    let result_str = String::from_utf8_lossy(&result);

    assert_eq!(result_str, "test\n");
}

#[test]
fn binary_it_return_error() {
    let command = Binary::create("cat", Some("/bin/cat".to_string())).unwrap();

    let invocation = command.execute(vec!["/somethingnotexisting".to_string()]);
    assert_eq!(invocation.binary, "/bin/cat");
    assert_eq!(invocation.args, vec!["/somethingnotexisting"]);

    let complaint = b"cat: /somethingnotexisting: No such file or directory\n".to_vec();
    let result = select_output(b"partial".to_vec(), complaint.clone(), false);

    assert_eq!(result, complaint);
}
