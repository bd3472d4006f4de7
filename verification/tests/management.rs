use openvpn_flutter_rust::error::OpenVpnError;
use openvpn_flutter_rust::management::{
    command_line, connection_failed_error, management_address, password_char,
    retry_after_failure, stage_after_eof, terminate_command,
};
use openvpn_flutter_rust::management::{
    generate_mgmt_password, map_mgmt_state, parse_management_line, ManagementEvent, MgmtAction,
    MgmtReader,
};

#[test]
fn state_line_is_parsed() {
    let ev = parse_management_line(">STATE:1620000000,CONNECTED,SUCCESS,10.8.0.2,1.2.3.4,1194,,");
    match ev {
        Some(ManagementEvent::State { name, description, local_ip }) => {
            assert_eq!(name, "CONNECTED");
            assert_eq!(description, "SUCCESS");
            assert_eq!(local_ip.as_deref(), Some("10.8.0.2"));
        }
        other => panic!("unexpected {:?}", other),
    }
}

#[test]
fn bytecount_line_is_parsed() {
    match parse_management_line(">BYTECOUNT:12345,67890") {
        Some(ManagementEvent::ByteCount { bytes_in, bytes_out }) => {
            assert_eq!(bytes_in, 12345);
            assert_eq!(bytes_out, 67890);
        }
        other => panic!("unexpected {:?}", other),
    }
}

#[test]
fn map_states() {
    assert_eq!(map_mgmt_state("CONNECTED"), "connected");
    assert_eq!(map_mgmt_state("connected"), "connected");
    assert_eq!(map_mgmt_state("wait"), "wait_connection");
    assert_eq!(map_mgmt_state("bogus"), "unknown");
}

#[test]
fn password_shape() {
    let p = generate_mgmt_password();
    assert_eq!(p.len(), 24);
    assert!(p.chars().all(|c| c.is_ascii_digit() || c.is_ascii_lowercase()));
}

#[test]
fn reader_authenticates() {
    let mut r = MgmtReader::new();
    match r.handle_line("ENTER PASSWORD:", "pw") {
        MgmtAction::Reply(t) => assert_eq!(t, "pw\n"),
        _ => panic!("expected reply"),
    }
    assert!(!r.authenticated);
    // a line mentioning "password" is always answered with the password
    match r.handle_line("SUCCESS: password is correct", "pw") {
        MgmtAction::Reply(t) => assert_eq!(t, "pw\n"),
        _ => panic!("expected reply"),
    }
    assert!(!r.authenticated);
    match r.handle_line(">INFO:OpenVPN Management Interface Version 5", "pw") {
        MgmtAction::Reply(t) => assert_eq!(t, "state on\nbytecount 2\n"),
        _ => panic!("expected reply"),
    }
    assert!(r.authenticated);
    match r.handle_line(">STATE:1,CONNECTED,SUCCESS", "pw") {
        MgmtAction::SetStage(s) => assert_eq!(s, "connected"),
        _ => panic!("expected stage"),
    }
}

#[test]
fn log_and_exit_lines() {
    match parse_management_line(">LOG:1620000000,I,Some message, with comma") {
        Some(ManagementEvent::Log { message }) => assert_eq!(message, "Some message, with comma"),
        other => panic!("unexpected {:?}", other),
    }
    match parse_management_line(">LOG:only") {
        Some(ManagementEvent::Log { message }) => assert_eq!(message, "only"),
        other => panic!("unexpected {:?}", other),
    }
    assert!(matches!(parse_management_line(">FATAL: END of process, exit"), Some(ManagementEvent::ProcessExited)));
    assert!(parse_management_line("random text").is_none());
}

#[test]
fn incomplete_notifications() {
    match parse_management_line(">STATE:1,CONNECTED") {
        Some(ManagementEvent::State { name, description, local_ip }) => {
            assert_eq!(name, "CONNECTED");
            assert_eq!(description, "");
            assert_eq!(local_ip, None);
        }
        other => panic!("unexpected {:?}", other),
    }
    match parse_management_line(">STATE:1,CONNECTED,SUCCESS,,") {
        Some(ManagementEvent::State { local_ip, .. }) => assert_eq!(local_ip, None),
        other => panic!("unexpected {:?}", other),
    }
    assert!(parse_management_line(">STATE:onlyone").is_none());
    assert!(parse_management_line(">BYTECOUNT:1,x").is_none());
    assert!(parse_management_line(">BYTECOUNT:5").is_none());
    assert!(parse_management_line(">BYTECOUNT:-1,2").is_none());
}

#[test]
fn every_state_name() {
    for (name, stage) in [
        ("CONNECTING", "connecting"),
        ("WAIT", "wait_connection"),
        ("AUTH", "authenticating"),
        ("GET_CONFIG", "get_config"),
        ("ASSIGN_IP", "assign_ip"),
        ("ADD_ROUTES", "connecting"),
        ("RECONNECTING", "connecting"),
        ("EXITING", "disconnecting"),
        ("RESOLVE", "resolve"),
        ("TCP_CONNECT", "tcp_connect"),
        ("UDP_CONNECT", "udp_connect"),
        ("add_routes", "connecting"),
        ("", "unknown"),
    ] {
        assert_eq!(map_mgmt_state(name), stage, "{}", name);
    }
}

#[test]
fn authenticated_reader_applies_notifications() {
    let mut r = MgmtReader { authenticated: true };
    match r.handle_line(">BYTECOUNT:1,2", "pw") {
        MgmtAction::SetBytes { bytes_in, bytes_out } => assert_eq!((bytes_in, bytes_out), (1, 2)),
        _ => panic!("expected bytes"),
    }
    assert!(matches!(r.handle_line(">INFO:END exit", "pw"), MgmtAction::Finish));
    assert!(matches!(r.handle_line(">LOG:1,I,hello", "pw"), MgmtAction::Nothing));
    assert!(matches!(r.handle_line("ENTER PASSWORD:", "pw"), MgmtAction::Nothing));
    assert!(r.authenticated);
    let mut fresh = MgmtReader::new();
    assert!(matches!(fresh.handle_line(">BYTECOUNT:1,2", "pw"), MgmtAction::Nothing));
    assert!(!fresh.authenticated);
}

#[test]
fn commands_and_addresses() {
    assert_eq!(command_line("status"), "status\n");
    assert_eq!(terminate_command(), "signal SIGTERM\n");
    assert_eq!(management_address(7505), "127.0.0.1:7505");
    assert!(retry_after_failure(1, 30));
    assert!(!retry_after_failure(30, 30));
    match connection_failed_error(30, 7505, "refused") {
        OpenVpnError::ConnectionFailed(m) => assert_eq!(
            m,
            "Management interface connection failed after 30 attempts on port 7505: refused"
        ),
        _ => panic!("expected ConnectionFailed"),
    }
    assert_eq!(password_char(0), '0');
    assert_eq!(password_char(9), '9');
    assert_eq!(password_char(10), 'a');
    assert_eq!(password_char(35), 'z');
    let mut stage = "connected".to_string();
    stage_after_eof(&mut stage);
    assert_eq!(stage, "disconnected");
}

#[test]
fn passwords_are_random() {
    let a = generate_mgmt_password();
    let b = generate_mgmt_password();
    assert_ne!(a, b);
}
