use qyoobs_vnc::connect::{qrexec_args, viewer_args, viewer_socket_name};

#[test]
fn socket_name() {
    assert_eq!(viewer_socket_name(), "qyoobs-vnc.sock");
}

#[test]
fn viewer_command_quiet() {
    assert_eq!(
        viewer_args(false, "/tmp/qyoobs-vnc.sock"),
        vec![
            "-Shared".to_string(),
            "-RemoteResize=0".to_string(),
            "-SendPrimary=0".to_string(),
            "-SendClipboard=0".to_string(),
            "".to_string(),
            "/tmp/qyoobs-vnc.sock".to_string(),
        ]
    );
}

#[test]
fn viewer_command_verbose() {
    assert_eq!(
        viewer_args(true, "/tmp/qyoobs-vnc.sock"),
        vec![
            "-Shared".to_string(),
            "-RemoteResize=0".to_string(),
            "-SendPrimary=0".to_string(),
            "-SendClipboard=0".to_string(),
            "-Log=*:stderr:100".to_string(),
            "/tmp/qyoobs-vnc.sock".to_string(),
        ]
    );
}

#[test]
fn qrexec_command() {
    assert_eq!(
        qrexec_args("vmA", "qyoobs.VNC+display"),
        vec!["vmA".to_string(), "qyoobs.VNC+display".to_string()]
    );
}
