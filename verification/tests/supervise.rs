use qyoobs_vnc::supervise::{
    SignalAction, SignalKind, SupervisorPolicy, BACKEND_EXIT_STATUS,
};

fn client_policy() -> SupervisorPolicy {
    // The viewing side: the remote-call process is primary, the viewer
    // is its sibling; no forced kill, the session itself keeps running
    // until the viewer exits.
    SupervisorPolicy {
        primary: 100,
        siblings: vec![200],
        forceful: false,
        exit_on_primary_exit: None,
    }
}

fn server_policy() -> SupervisorPolicy {
    // The captured side: the backend is primary; teardown kills it
    // outright, and its own exit ends the session with the sentinel.
    SupervisorPolicy {
        primary: 300,
        siblings: vec![],
        forceful: true,
        exit_on_primary_exit: Some(BACKEND_EXIT_STATUS),
    }
}

#[test]
fn sentinel_value() {
    assert_eq!(BACKEND_EXIT_STATUS, 420);
}

#[test]
fn primary_exit_terminates_each_sibling_once() {
    let p = SupervisorPolicy {
        primary: 1,
        siblings: vec![10, 20, 30],
        forceful: false,
        exit_on_primary_exit: None,
    };
    let (actions, exit) = p.on_primary_exit();
    assert_eq!(exit, None);
    assert_eq!(actions.len(), 3);
    for (action, pid) in actions.iter().zip([10u32, 20, 30]) {
        assert_eq!(*action, SignalAction { pid, signal: SignalKind::Terminate });
    }
}

#[test]
fn client_primary_exit_signals_viewer() {
    let (actions, exit) = client_policy().on_primary_exit();
    assert_eq!(exit, None);
    assert_eq!(actions, vec![SignalAction { pid: 200, signal: SignalKind::Terminate }]);
}

#[test]
fn backend_exit_ends_session_with_sentinel() {
    // The backend died mid-session: the session exits with the fixed
    // sentinel, and every registered sibling has been signalled.
    let p = SupervisorPolicy {
        siblings: vec![42],
        ..server_policy()
    };
    let (actions, exit) = p.on_primary_exit();
    assert_eq!(exit, Some(420));
    assert_eq!(actions, vec![SignalAction { pid: 42, signal: SignalKind::Terminate }]);
}

#[test]
fn client_teardown_terminates_both() {
    let actions = client_policy().on_teardown();
    assert_eq!(
        actions,
        vec![
            SignalAction { pid: 100, signal: SignalKind::Terminate },
            SignalAction { pid: 200, signal: SignalKind::Terminate },
        ]
    );
}

#[test]
fn server_teardown_force_kills_backend() {
    let actions = server_policy().on_teardown();
    assert_eq!(
        actions,
        vec![
            SignalAction { pid: 300, signal: SignalKind::Terminate },
            SignalAction { pid: 300, signal: SignalKind::ForceKill },
        ]
    );
}
