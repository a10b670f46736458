use remote_mux::errors::TransportError;
use remote_mux::events::Event;
use remote_mux::executor::exit_code_or_sentinel;
use remote_mux::executor::run_step;
use remote_mux::executor::AttemptOutcome;
use remote_mux::executor::ConnectionCache;
use remote_mux::executor::ExecOut;
use remote_mux::executor::RunProgress;
use remote_mux::keys::auth_plan;
use remote_mux::keys::AuthPlan;
use remote_mux::keys::ConnKey;
use remote_mux::keys::SshCreds;
use remote_mux::linebuf::LineAccumulator;
use remote_mux::worker::with_newline;
use remote_mux::worker::ControlWorker;
use remote_mux::worker::WorkerInput;

fn creds(host: &str, port: u16, user: &str) -> SshCreds {
    SshCreds {
        host: host.into(),
        port,
        user: user.into(),
        password: None,
        key_path: None,
        key_pass: None,
        use_agent: true,
    }
}

fn ok_out() -> ExecOut {
    ExecOut {
        code: 0,
        stdout: "done\n".into(),
        stderr: String::new(),
    }
}

#[test]
fn line_splitting_is_exact() {
    let mut acc = LineAccumulator::new();
    let lines = acc.feed(b"abc\ndef\ngh");
    assert_eq!(lines, vec![b"abc".to_vec(), b"def".to_vec()]);
    let more = acc.feed(b"i\n");
    assert_eq!(more, vec![b"ghi".to_vec()]);
    assert_eq!(acc.feed(b""), Vec::<Vec<u8>>::new());
}

#[test]
fn worker_emits_lines_in_receipt_order() {
    let (mut w, evs) = ControlWorker::started();
    assert_eq!(evs, vec![Event::Started]);
    assert_eq!(w.step(WorkerInput::NoData), vec![]);
    let out = w.step(WorkerInput::Data(b"one\ntw".to_vec()));
    assert_eq!(out, vec![Event::Line(b"one".to_vec())]);
    let out = w.step(WorkerInput::Data(b"o\n".to_vec()));
    assert_eq!(out, vec![Event::Line(b"two".to_vec())]);
    let out = w.step(WorkerInput::StopRequested);
    assert_eq!(out, vec![Event::Stopped]);
}

#[test]
fn worker_ends_with_closed_on_remote_eof() {
    let (mut w, _) = ControlWorker::started();
    let out = w.step(WorkerInput::EndOfStream);
    assert_eq!(out, vec![Event::Closed]);
}

#[test]
fn worker_reports_faults_as_error_then_stopped() {
    let (mut w, _) = ControlWorker::started();
    let out = w.step(WorkerInput::WriteFailed("write failed: pipe".into()));
    assert_eq!(
        out,
        vec![
            Event::Error("write failed: pipe".into()),
            Event::Stopped,
        ]
    );
    let (mut w2, _) = ControlWorker::started();
    let out = w2.step(WorkerInput::ReadFailed("read failed: reset".into()));
    assert_eq!(
        out,
        vec![
            Event::Error("read failed: reset".into()),
            Event::Stopped,
        ]
    );
}

#[test]
fn commands_gain_exactly_one_trailing_newline() {
    assert_eq!(with_newline("ls".into()), "ls\n");
    assert_eq!(with_newline("ls\n".into()), "ls\n");
    assert_eq!(with_newline("".into()), "\n");
}

#[test]
fn cache_reuses_matching_key_and_honours_invalidation() {
    let mut cache = ConnectionCache::new();
    let a = ConnKey::from(&creds("h", 22, "u"));
    let b = ConnKey::from(&creds("h", 2222, "u"));
    assert!(cache.needs_connect(&a));
    cache.note_connected(ConnKey::from(&creds("h", 22, "u")));
    assert!(!cache.needs_connect(&a));
    assert!(cache.needs_connect(&b));
    cache.invalidate();
    assert!(cache.needs_connect(&a));
    assert!(a.matches(&ConnKey::from(&creds("h", 22, "u"))));
    assert!(!a.matches(&b));
}

#[test]
fn run_recovers_from_one_channel_failure() {
    let mut cache = ConnectionCache::new();
    cache.note_connected(ConnKey::from(&creds("h", 22, "u")));
    let first = run_step(&mut cache, true, AttemptOutcome::ChannelFailed("channel: gone".into()));
    assert_eq!(first, RunProgress::RetryOnce);
    let second = run_step(&mut cache, false, AttemptOutcome::Completed(ok_out()));
    assert_eq!(second, RunProgress::Done(Ok(ok_out())));
}

#[test]
fn run_gives_up_after_exactly_two_attempts() {
    let mut cache = ConnectionCache::new();
    let mut attempts = 0;
    let mut first_attempt = true;
    let result = loop {
        attempts += 1;
        let outcome = AttemptOutcome::ChannelFailed("channel: gone".into());
        match run_step(&mut cache, first_attempt, outcome) {
            RunProgress::RetryOnce => {
                first_attempt = false;
            }
            RunProgress::Done(r) => break r,
        }
    };
    assert_eq!(attempts, 2);
    assert_eq!(result, Err(TransportError::Channel("channel: gone".into())));
}

#[test]
fn connect_failures_are_not_retried() {
    let mut cache = ConnectionCache::new();
    let p = run_step(&mut cache, true, AttemptOutcome::ConnectFailed("tcp: refused".into()));
    assert_eq!(
        p,
        RunProgress::Done(Err(TransportError::Connect("tcp: refused".into())))
    );
}

#[test]
fn missing_exit_status_defaults_to_sentinel() {
    assert_eq!(exit_code_or_sentinel(Some(0)), 0);
    assert_eq!(exit_code_or_sentinel(Some(3)), 3);
    assert_eq!(exit_code_or_sentinel(None), 1);
}

#[test]
fn auth_precedence_is_password_agent_key() {
    let mut c = creds("h", 22, "u");
    c.password = Some("SECRET-REDACTED".into());
    c.key_path = Some("/k".into());
    assert_eq!(auth_plan(&c), AuthPlan::Password("SECRET-REDACTED".into()));
    c.password = None;
    assert_eq!(auth_plan(&c), AuthPlan::Agent);
    c.use_agent = false;
    c.key_pass = Some("phrase".into());
    assert_eq!(
        auth_plan(&c),
        AuthPlan::KeyFile("/k".into(), Some("phrase".into()))
    );
    c.key_path = None;
    assert_eq!(auth_plan(&c), AuthPlan::NoMethod);
}
