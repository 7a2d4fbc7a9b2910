use raproxy::config::{Config, ServiceSpec};
use raproxy::control::terminate_plan;
use raproxy::haproxy::{HAProxy, HAProxyProcessError};
use raproxy::listener::ListenerRegistry;

fn empty_config() -> Config {
    Config::new("/usr/sbin/haproxy", "/etc/haproxy.cfg", "/tmp/haproxy.pid", vec![])
}

#[test]
fn worker_pid_invalid_contents() {
    let hap = HAProxy::init_from_config(empty_config());
    match hap.worker_pid(Ok("abc".to_string())) {
        Err(e) => assert!(matches!(e, HAProxyProcessError::InvalidPID)),
        Ok(_) => panic!("accepted non-numeric contents"),
    }
}

#[test]
fn worker_pid_read_failure() {
    let hap = HAProxy::init_from_config(empty_config());
    match hap.worker_pid(Err(2)) {
        Err(HAProxyProcessError::ReadWorkerPIDFailed(e)) => assert_eq!(e, 2),
        _ => panic!("expected the read failure to surface"),
    }
}

#[test]
fn worker_pid_parses_trimmed_number() {
    let hap = HAProxy::init_from_config(empty_config());
    assert_eq!(hap.worker_pid(Ok("1234\n".to_string())).unwrap(), 1234);
    assert_eq!(hap.worker_pid(Ok("  42\t\n".to_string())).unwrap(), 42);
    assert_eq!(hap.worker_pid(Ok("4294967295".to_string())).unwrap(), u32::MAX);
}

#[test]
fn worker_pid_rejects_empty_and_overflow() {
    let hap = HAProxy::init_from_config(empty_config());
    assert!(hap.worker_pid(Ok("".to_string())).is_err());
    assert!(hap.worker_pid(Ok("  \n".to_string())).is_err());
    assert!(hap.worker_pid(Ok("4294967296".to_string())).is_err());
    assert!(hap.worker_pid(Ok("12 34".to_string())).is_err());
    assert!(hap.worker_pid(Ok("-5".to_string())).is_err());
}

#[test]
fn registry_caches_descriptors() {
    let spec = ServiceSpec::from_str("svc=127.0.0.1:0@128").unwrap();
    let mut reg = ListenerRegistry::new();
    assert_eq!(reg.bound_count(), 0);
    let fd1 = reg.ensure_listening(&spec).unwrap();
    let fd2 = reg.ensure_listening(&spec).unwrap();
    assert_eq!(fd1, fd2);
    assert!(fd1 >= 0);
    assert_eq!(reg.bound_count(), 1);
}

#[test]
fn registry_keys_by_full_tuple() {
    let a = ServiceSpec::from_str("svc=127.0.0.1:0@16").unwrap();
    let b = ServiceSpec::from_str("svc=127.0.0.1:0@32").unwrap();
    let mut reg = ListenerRegistry::new();
    let fd_a = reg.ensure_listening(&a).unwrap();
    let fd_b = reg.ensure_listening(&b).unwrap();
    assert_ne!(fd_a, fd_b);
    assert_eq!(reg.bound_count(), 2);
    assert_eq!(reg.ensure_listening(&a).unwrap(), fd_a);
    assert_eq!(reg.bound_count(), 2);
}

#[test]
fn end_to_end_reload_scenario() {
    let cfg = Config::new(
        "/usr/sbin/haproxy",
        "/etc/haproxy.cfg",
        "/tmp/haproxy.pid",
        vec!["web=127.0.0.1:8080@511"],
    );
    let mut hap = HAProxy::init_from_config(cfg);
    assert_eq!(hap.process, None);

    // First spawn: no predecessor, so the PID file is not consulted.
    let cmd1 = hap.create_command(Err(2)).unwrap();
    assert_eq!(cmd1.binary, "/usr/sbin/haproxy");
    assert_eq!(cmd1.args.len(), 5);
    assert_eq!(cmd1.args[0], "-f");
    assert_eq!(cmd1.args[1], "/etc/haproxy.cfg");
    assert_eq!(cmd1.args[2], "-p");
    assert_eq!(cmd1.args[3], "/tmp/haproxy.pid");
    assert_eq!(cmd1.args[4], "-Ds");
    assert_eq!(cmd1.env.len(), 1);
    assert_eq!(cmd1.env[0].0, "web");
    let fd_text = cmd1.env[0].1.clone();
    assert!(fd_text.parse::<i32>().unwrap() >= 0);
    assert_eq!(hap.bound_count(), 1);
    assert_eq!(hap.start_process(Ok(101)).unwrap(), 101);
    assert_eq!(hap.process, Some(101));

    // Reload: the handoff pid comes from the PID file at call time.
    let cmd2 = hap.create_command(Ok("101\n".to_string())).unwrap();
    assert_eq!(cmd2.args.len(), 7);
    assert_eq!(cmd2.args[5], "-sf");
    assert_eq!(cmd2.args[6], "101");
    assert_eq!(cmd2.env.len(), 1);
    assert_eq!(cmd2.env[0].0, "web");
    assert_eq!(cmd2.env[0].1, fd_text);
    assert_eq!(hap.bound_count(), 1);
    assert_eq!(hap.start_process(Ok(102)).unwrap(), 102);
    assert_eq!(hap.process, Some(102));

    // Terminate: signal whichever pid the PID file reports, remove the
    // file, exit non-zero.
    let wp = hap.worker_pid(Ok("102".to_string()));
    let plan = terminate_plan(&wp);
    assert_eq!(plan.kill_pid, Some(102));
    assert!(plan.remove_pid_file);
    assert_eq!(plan.exit_code, 1);
}

#[test]
fn reload_with_unreadable_pid_file_fails_and_changes_nothing() {
    let cfg = Config::new("/bin/true", "/tmp/c", "/tmp/p", vec!["web=127.0.0.1:0@4"]);
    let mut hap = HAProxy::init_from_config(cfg);
    hap.create_command(Err(2)).unwrap();
    hap.start_process(Ok(7)).unwrap();
    match hap.create_command(Err(13)) {
        Err(HAProxyProcessError::ReadWorkerPIDFailed(e)) => assert_eq!(e, 13),
        _ => panic!("expected the PID-file read failure to surface"),
    }
    // The previous worker stays current; a later reload can still work.
    assert_eq!(hap.process, Some(7));
    match hap.create_command(Ok("abc".to_string())) {
        Err(e) => assert!(matches!(e, HAProxyProcessError::InvalidPID)),
        _ => panic!("expected invalid contents to surface"),
    }
    let cmd = hap.create_command(Ok("7".to_string())).unwrap();
    assert_eq!(cmd.args[6], "7");
}

#[test]
fn spawn_failure_keeps_previous_worker() {
    let cfg = Config::new("/bin/true", "/tmp/c", "/tmp/p", vec![]);
    let mut hap = HAProxy::init_from_config(cfg);
    hap.create_command(Err(2)).unwrap();
    assert_eq!(hap.start_process(Ok(50)).unwrap(), 50);
    match hap.start_process(Err(2)) {
        Err(HAProxyProcessError::StartCommandFailed(e)) => assert_eq!(e, 2),
        _ => panic!("expected the spawn failure to surface"),
    }
    assert_eq!(hap.process, Some(50));
}
