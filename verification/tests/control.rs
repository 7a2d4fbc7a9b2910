use raproxy::cli::{self, CliError};
use raproxy::config::ConfigBuilder;
use raproxy::control::{
    action_for_signal, directive_for, reap_one, reaper_backoff_seconds, send_graceful_stop,
    terminate_plan, ControlAction, ControlSignal, ReaperDirective,
};
use raproxy::haproxy::HAProxyProcessError;

#[test]
fn reload_signal_reloads_terminate_signals_terminate() {
    assert_eq!(action_for_signal(ControlSignal::Hup), ControlAction::Reload);
    assert_eq!(action_for_signal(ControlSignal::Term), ControlAction::Terminate);
    assert_eq!(action_for_signal(ControlSignal::Int), ControlAction::Terminate);
}

#[test]
fn terminate_plan_without_worker() {
    let plan = terminate_plan(&Err(HAProxyProcessError::InvalidPID));
    assert_eq!(plan.kill_pid, None);
    assert!(!plan.remove_pid_file);
    assert_eq!(plan.exit_code, 1);
}

#[test]
fn reaper_directive_mapping() {
    assert_eq!(directive_for(Ok(Some(5))), ReaperDirective::Reaped(Some(5)));
    assert_eq!(directive_for(Ok(None)), ReaperDirective::Reaped(None));
    assert_eq!(directive_for(Err(10)), ReaperDirective::Backoff(10));
}

#[test]
fn reaper_with_no_children_backs_off() {
    match reap_one() {
        ReaperDirective::Backoff(e) => assert!(e > 0),
        ReaperDirective::Reaped(_) => panic!("no child exists to reap"),
    }
    assert_eq!(reaper_backoff_seconds(), 10);
}

#[test]
fn graceful_stop_to_absent_worker_reports_error() {
    // Far above any real pid, so delivery must fail with an OS error.
    assert!(send_graceful_stop(999_999_999).is_err());
}

#[test]
fn cli_validates_and_builds() {
    let cl = cli::new(
        "/usr/sbin/haproxy".to_string(),
        "/etc/haproxy.cfg".to_string(),
        "/tmp/haproxy.pid".to_string(),
        vec!["a=127.0.0.1:9000@4".to_string(), "b=127.0.0.1:9001".to_string()],
    )
    .unwrap();
    let config = cl.build();
    assert_eq!(config.binary, "/usr/sbin/haproxy");
    assert_eq!(config.config, "/etc/haproxy.cfg");
    assert_eq!(config.pid, "/tmp/haproxy.pid");
    assert_eq!(config.services.len(), 2);
    assert_eq!(config.services[0].name, "a");
    assert_eq!(config.services[0].backlog, 4);
    assert_eq!(config.services[1].name, "b");
    assert_eq!(config.services[1].backlog, 1000);
}

#[test]
fn cli_rejects_duplicate_names() {
    let r = cli::new(
        "b".to_string(),
        "c".to_string(),
        "p".to_string(),
        vec!["a=127.0.0.1:1@5".to_string(), "a=127.0.0.1:2@5".to_string()],
    );
    match r {
        Err(e) => assert!(matches!(e, CliError::DuplicateServiceName)),
        Ok(_) => panic!("accepted duplicate service names"),
    }
}

#[test]
fn cli_rejects_invalid_spec() {
    let r = cli::new(
        "b".to_string(),
        "c".to_string(),
        "p".to_string(),
        vec!["nonsense".to_string()],
    );
    match r {
        Err(e) => assert!(matches!(e, CliError::InvalidServiceSpec)),
        Ok(_) => panic!("accepted an invalid service spec"),
    }
}
