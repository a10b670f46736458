use remote_mux::errors::TransportError;
use remote_mux::events::Event;
use remote_mux::keys::creds_from;
use remote_mux::keys::HostProfile;
use remote_mux::model::AppConfig;
use remote_mux::model::RunStatus;
use remote_mux::model::ARCRun;
use remote_mux::registry::send_command;
use remote_mux::registry::start_control;
use remote_mux::registry::stop_control;
use remote_mux::registry::ControlManager;
use remote_mux::worker::ControlWorker;
use remote_mux::worker::WorkerInput;

fn agent_profile(host: &str, user: &str) -> HostProfile {
    HostProfile {
        host: host.into(),
        port: None,
        user: user.into(),
        auth: Some("agent".into()),
        password: None,
        key_path: None,
        key_pass: None,
        use_agent: None,
    }
}

#[test]
fn start_twice_yields_already_running() {
    let mut mgr = ControlManager::new();
    let profile = agent_profile("h", "u");
    assert_eq!(mgr.start(&profile, "work"), Ok(()));
    assert_eq!(
        mgr.start(&profile, "work"),
        Err(TransportError::AlreadyRunning)
    );
    assert!(mgr.contains(&profile, "work"));
    assert_eq!(mgr.stop(&profile, "work"), Ok(()));
    assert!(!mgr.contains(&profile, "work"));
}

#[test]
fn stop_and_send_without_worker_fail_cleanly() {
    let mut mgr = ControlManager::new();
    let profile = agent_profile("h", "u");
    assert_eq!(mgr.stop(&profile, "work"), Err(TransportError::NotRunning));
    assert_eq!(
        mgr.send(&profile, "work", "ls".into()),
        Err(TransportError::NotRunning)
    );
    assert!(!mgr.contains(&profile, "work"));
}

#[test]
fn second_stop_observes_not_running() {
    let mut mgr = ControlManager::new();
    let profile = agent_profile("h", "u");
    assert_eq!(mgr.start(&profile, "work"), Ok(()));
    assert_eq!(mgr.stop(&profile, "work"), Ok(()));
    assert_eq!(mgr.stop(&profile, "work"), Err(TransportError::NotRunning));
}

#[test]
fn queued_commands_drain_in_send_order() {
    let mut mgr = ControlManager::new();
    let profile = agent_profile("h", "u");
    assert_eq!(mgr.start(&profile, "work"), Ok(()));
    assert_eq!(mgr.send(&profile, "work", "list-windows".into()), Ok(()));
    assert_eq!(mgr.send(&profile, "work", "select-window -t 1".into()), Ok(()));
    let drained = mgr.drain(&profile, "work").unwrap();
    assert_eq!(drained, vec!["list-windows", "select-window -t 1"]);
    let empty = mgr.drain(&profile, "work").unwrap();
    assert_eq!(empty, Vec::<String>::new());
}

#[test]
fn free_functions_drive_a_shared_registry() {
    let mut mgr = ControlManager::new();
    let profile = agent_profile("h", "u");
    assert_eq!(start_control(&mut mgr, &profile, "work"), Ok(()));
    assert_eq!(send_command(&mut mgr, &profile, "work", "ls".into()), Ok(()));
    assert_eq!(stop_control(&mut mgr, &profile, "work"), Ok(()));
    assert_eq!(
        send_command(&mut mgr, &profile, "work", "ls".into()),
        Err(TransportError::NotRunning)
    );
}

#[test]
fn control_session_scenario_emits_keyed_events() {
    let profile = HostProfile {
        host: "h".into(),
        port: Some(22),
        user: "u".into(),
        auth: Some("agent".into()),
        password: None,
        key_path: None,
        key_pass: None,
        use_agent: None,
    };
    let key = ControlManager::key(&profile, "work");
    assert_eq!(key, "u@h:22#work");

    let mut mgr = ControlManager::new();
    assert_eq!(mgr.start(&profile, "work"), Ok(()));
    let (mut w, evs) = ControlWorker::started();
    assert_eq!(evs, vec![Event::Started]);

    assert_eq!(mgr.send(&profile, "work", "ls\n".into()), Ok(()));
    let cmds = mgr.drain(&profile, "work").unwrap();
    assert_eq!(cmds, vec!["ls\n"]);

    let out = w.step(WorkerInput::Data(b"ls\r\nfile.txt\r\n".to_vec()));
    assert_eq!(
        out,
        vec![
            Event::Line(b"ls\r".to_vec()),
            Event::Line(b"file.txt\r".to_vec()),
        ]
    );

    assert_eq!(w.step(WorkerInput::StopRequested), vec![Event::Stopped]);
    assert_eq!(mgr.stop(&profile, "work"), Ok(()));
    assert!(!mgr.contains(&profile, "work"));
}

#[test]
fn default_port_renders_in_key() {
    let profile = agent_profile("box", "me");
    assert_eq!(ControlManager::key(&profile, "s1"), "me@box:22#s1");
    let mut with_port = agent_profile("box", "me");
    with_port.port = Some(2222);
    assert_eq!(ControlManager::key(&with_port, "s1"), "me@box:2222#s1");
}

#[test]
fn credentials_follow_the_resolved_mode() {
    let mut profile = agent_profile("h", "u");
    profile.auth = Some("password".into());
    profile.password = Some("SECRET-REDACTED".into());
    profile.key_path = Some("/home/u/.ssh/id".into());
    let c = creds_from(&profile);
    assert_eq!(c.password.as_deref(), Some("SECRET-REDACTED"));
    assert_eq!(c.key_path, None);
    assert_eq!(c.key_pass, None);
    assert!(!c.use_agent);
    assert_eq!(c.port, 22);

    profile.auth = Some("key".into());
    profile.key_pass = Some("phrase".into());
    let c = creds_from(&profile);
    assert_eq!(c.password, None);
    assert_eq!(c.key_path.as_deref(), Some("/home/u/.ssh/id"));
    assert_eq!(c.key_pass.as_deref(), Some("phrase"));

    profile.auth = Some("key".into());
    profile.key_path = Some("   ".into());
    let c = creds_from(&profile);
    assert_eq!(c.key_path, None);

    profile.auth = None;
    profile.use_agent = None;
    let c = creds_from(&profile);
    assert!(c.use_agent);

    profile.use_agent = Some(false);
    profile.key_path = Some("/k".into());
    let c = creds_from(&profile);
    assert!(!c.use_agent);
    assert_eq!(c.key_path.as_deref(), Some("/k"));
}

#[test]
fn model_types_round_trip_their_fields() {
    let run = ARCRun {
        id: "uuid-1234".into(),
        name: "rmg_rxn_2025".into(),
        session: "tmux-session-1".into(),
        input_path: "/tmp/input.py".into(),
        work_dir: "/tmp/workdir".into(),
        started_at: Some("2024-10-01T12:00:00Z".into()),
        finished_at: None,
        status: RunStatus::Running,
        last_stdout: Some(String::new()),
        last_stderr: Some(String::new()),
    };
    assert_eq!(run, run.clone());
    assert_ne!(run.status, RunStatus::Failed);

    let config = AppConfig::default();
    assert_eq!(config.python_path, "python3");
    assert_eq!(config.concurrency_cap, 2);
}
