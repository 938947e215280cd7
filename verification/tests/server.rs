use qyoobs_vnc::selector::ProtocolError;
use qyoobs_vnc::server::{backend_args, run, Action, ServerPlan};

#[test]
fn parse_probe_token() {
    assert_eq!(Action::parse("probe".to_string()), Ok(Action::Probe));
}

#[test]
fn parse_selectors() {
    assert_eq!(Action::parse("display".to_string()), Ok(Action::SendDisplay));
    assert_eq!(Action::parse("monitor2".to_string()), Ok(Action::SendMonitor(2)));
    assert_eq!(Action::parse("window77".to_string()), Ok(Action::SendWindow(77)));
}

#[test]
fn parse_rejects_garbage() {
    assert_eq!(
        Action::parse("probes".to_string()),
        Err(ProtocolError::UnknownToken)
    );
    assert_eq!(
        Action::parse("window0x1f".to_string()),
        Err(ProtocolError::BadNumber)
    );
}

#[test]
fn render_region_flags() {
    assert_eq!(Action::Probe.render(), Vec::<String>::new());
    assert_eq!(Action::SendDisplay.render(), Vec::<String>::new());
    assert_eq!(
        Action::SendMonitor(3).render(),
        vec!["-clip".to_string(), "xinerama3".to_string()]
    );
    assert_eq!(
        Action::SendWindow(1715004).render(),
        vec!["-sid".to_string(), "1715004".to_string()]
    );
}

#[test]
fn backend_command_line() {
    assert_eq!(
        backend_args(&Action::SendMonitor(1)),
        vec![
            "-viewonly".to_string(),
            "-inetd".to_string(),
            "-wait".to_string(),
            "200".to_string(),
            "-v".to_string(),
            "-clip".to_string(),
            "xinerama1".to_string(),
        ]
    );
}

#[test]
fn run_dispatches_probe() {
    assert!(matches!(run("probe".to_string()), Ok(ServerPlan::RunProbe)));
}

#[test]
fn run_plans_backend() {
    match run("window5".to_string()) {
        Ok(ServerPlan::LaunchBackend(args)) => {
            assert_eq!(
                args,
                vec![
                    "-viewonly".to_string(),
                    "-inetd".to_string(),
                    "-wait".to_string(),
                    "200".to_string(),
                    "-v".to_string(),
                    "-sid".to_string(),
                    "5".to_string(),
                ]
            );
        }
        other => panic!("expected a backend plan, got {:?}", other),
    }
}

#[test]
fn run_rejects_bad_argument() {
    assert!(matches!(
        run("garbage".to_string()),
        Err(ProtocolError::UnknownToken)
    ));
    assert!(matches!(
        run("window".to_string()),
        Err(ProtocolError::BadNumber)
    ));
}
