use openvpn_flutter_rust::openvpn::{
    classify_reason, connect_outcome_for_line, connect_poll_step, extract_number_after_keyword,
    is_dco_failure_line, observe_output_line, observe_status_file, parse_stage_from_output,
    parse_stats_from_output, parse_status_file, set_stage, stage_after_process_death,
    ConnectOutcome, VpnStats,
};
use std::time::{Duration, SystemTime, UNIX_EPOCH};

fn stage_of(line: &str) -> Option<String> {
    parse_stage_from_output(line)
}

#[test]
fn completed_initialization_means_connected() {
    assert_eq!(stage_of("2024-01-01 Initialization Sequence Completed").as_deref(), Some("connected"));
    assert_eq!(stage_of("INITIALIZATION SEQUENCE COMPLETED").as_deref(), Some("connected"));
}

#[test]
fn failure_phrases_mean_error() {
    for line in [
        "AUTH: Received control message: AUTH_FAILED",
        "TLS Error: TLS key negotiation failed",
        "RESOLVE: Cannot resolve host address: vpn.example.com",
        "Network is unreachable (code=10051)",
        "Connection reset, restarting",
        "Options error: unrecognized option",
        "Exiting due to fatal error",
        "VERIFY ERROR: depth=0",
        "Some generic error occurred",
        "operation failed",
    ] {
        assert_eq!(stage_of(line).as_deref(), Some("error"), "{}", line);
    }
}

#[test]
fn progress_phrases() {
    assert_eq!(stage_of("UDP link remote: Connecting to server").as_deref(), Some("connecting"));
    assert_eq!(stage_of("Waiting for server response").as_deref(), Some("connecting"));
    assert_eq!(stage_of("SIGTERM received, process exiting").as_deref(), Some("disconnecting"));
    assert_eq!(stage_of("Disconnecting now").as_deref(), Some("connecting"));
    assert_eq!(stage_of("Sending auth request").as_deref(), Some("authenticating"));
}

#[test]
fn driver_failures_mean_error() {
    assert_eq!(stage_of("ovpn-dco device not installed").as_deref(), Some("error"));
    assert_eq!(stage_of("TUN/TAP ERROR_GEN_FAILURE").as_deref(), Some("error"));
    assert_eq!(stage_of("Preserving previous TUN/TAP instance: tun0"), None);
}

#[test]
fn nonfatal_diagnostics_keep_the_stage() {
    assert_eq!(stage_of("Register_dns failed using service"), None);
    assert_eq!(stage_of("WARNING: --ping should normally be used"), None);
    assert_eq!(stage_of("NonFatal TLS failure"), None);
    assert_eq!(stage_of("NOTE: nonfatal issue detected"), None);
    assert_eq!(stage_of("nonfatal: connection refused").as_deref(), Some("error"));
    assert_eq!(stage_of("Fatal: exiting").as_deref(), Some("error"));
    assert_eq!(stage_of("OpenVPN 2.6.8 x86_64-w64-mingw32"), None);
}

#[test]
fn reasons_are_classified() {
    assert_eq!(classify_reason("AUTH: Received control message: AUTH_FAILED"), "AUTH_FAILED");
    assert_eq!(classify_reason("Authentication failed for user"), "AUTH_FAILED");
    assert_eq!(classify_reason("OVPN-DCO: failed to open device"), "OVPN_DCO_FAILED");
    assert_eq!(classify_reason("tap-windows adapter not found"), "TAP_ADAPTER_MISSING");
    assert_eq!(classify_reason("TLS handshake failed"), "TLS_FAILED");
    assert_eq!(classify_reason("RESOLVE: Cannot resolve host address: x"), "DNS_RESOLVE_FAILED");
    assert_eq!(classify_reason("Connection timed out"), "CONNECT_TIMEOUT");
    assert_eq!(classify_reason("Connection refused"), "CONNECTION_REFUSED");
    assert_eq!(classify_reason("VERIFY ERROR: depth=0"), "CERT_VERIFY_FAILED");
    assert_eq!(classify_reason("Network is unreachable"), "NETWORK_UNREACHABLE");
    assert_eq!(classify_reason("Exiting due to fatal error"), "FATAL");
    assert_eq!(classify_reason("Service IPC broken"), "SERVICE_IPC_FAILED");
    assert_eq!(classify_reason("named pipe closed"), "SERVICE_IPC_FAILED");
    assert_eq!(classify_reason("Initialization Sequence Completed"), "UNKNOWN");
}

#[test]
fn dco_failures_are_recognized() {
    assert!(is_dco_failure_line("Cannot allocate TUN/TAP dev dynamically"));
    assert!(is_dco_failure_line("tap-windows6 adapter is currently in use"));
    assert!(is_dco_failure_line("OVPN-DCO driver error"));
    assert!(is_dco_failure_line("DCO version: N/A, not installed"));
    assert!(is_dco_failure_line("Data Channel Offload cannot start"));
    assert!(!is_dco_failure_line("DCO version: N/A"));
    assert!(!is_dco_failure_line("Initialization Sequence Completed"));
}

#[test]
fn numbers_after_keywords() {
    assert_eq!(extract_number_after_keyword("tun/tap read bytes,1,234", "read bytes"), Some(1234));
    assert_eq!(extract_number_after_keyword("read bytes: 42 then 7", "read bytes"), Some(42));
    assert_eq!(extract_number_after_keyword("nothing here", "read bytes"), None);
    assert_eq!(extract_number_after_keyword("read bytes: none", "read bytes"), None);
    assert_eq!(
        extract_number_after_keyword("read bytes 99999999999999999999999", "read bytes"),
        None
    );
    assert_eq!(
        extract_number_after_keyword("read bytes 18446744073709551615", "read bytes"),
        Some(u64::MAX)
    );
}

#[test]
fn output_lines_update_counters() {
    let mut stats = VpnStats::default();
    parse_stats_from_output("TUN/TAP read bytes,5000", &mut stats);
    assert_eq!(stats.byte_in, 5000);
    assert_eq!(stats.byte_out, 0);
    parse_stats_from_output("TUN/TAP WRITE BYTES,7000", &mut stats);
    assert_eq!(stats.byte_out, 7000);
    parse_stats_from_output("bytes read 12", &mut stats);
    assert_eq!(stats.byte_in, 12);
    parse_stats_from_output("unrelated line", &mut stats);
    assert_eq!((stats.byte_in, stats.byte_out), (12, 7000));
}

const STATUS: &str = "OpenVPN STATISTICS\nUpdated,2024-01-01 00:00:00\nTUN/TAP read bytes,100\nTUN/TAP write bytes,200\nTCP/UDP read bytes,300\nTCP/UDP write bytes,400\nAuth read bytes,999\nEND\n";

#[test]
fn status_file_counters() {
    let mut stats = VpnStats::default();
    parse_status_file(STATUS, &mut stats);
    assert_eq!((stats.byte_in, stats.byte_out), (300, 400));
    let mut stats = VpnStats::default();
    parse_status_file("  TUN/TAP read bytes, 55 \r\nTUN/TAP write bytes,x\n", &mut stats);
    assert_eq!((stats.byte_in, stats.byte_out), (55, 0));
}

fn at(secs: u64) -> SystemTime {
    UNIX_EPOCH + Duration::from_secs(secs)
}

#[test]
fn stage_changes_record_connection_time() {
    let mut stage = "disconnected".to_string();
    let mut stats = VpnStats::default();
    let prev = observe_output_line(&mut stage, &mut stats, "Initialization Sequence Completed", at(10));
    assert_eq!(prev.as_deref(), Some("disconnected"));
    assert_eq!(stage, "connected");
    assert_eq!(stats.connected_on, Some(at(10)));
    // the same stage again changes nothing
    assert_eq!(observe_output_line(&mut stage, &mut stats, "Initialization Sequence Completed", at(20)), None);
    assert_eq!(stats.connected_on, Some(at(10)));
    // a line without a stage changes nothing
    assert_eq!(observe_output_line(&mut stage, &mut stats, "hello", at(20)), None);
    assert_eq!(stage, "connected");
}

#[test]
fn first_connection_time_is_kept() {
    let mut stage = "connecting".to_string();
    let mut stats = VpnStats::default();
    stats.connected_on = Some(at(5));
    assert_eq!(set_stage(&mut stage, &mut stats, "connected".to_string(), at(9)).as_deref(), Some("connecting"));
    assert_eq!(stats.connected_on, Some(at(5)));
    assert_eq!(set_stage(&mut stage, &mut stats, "connected".to_string(), at(9)), None);
}

#[test]
fn status_file_is_a_backup_for_connected() {
    let mut stage = "connecting".to_string();
    let mut stats = VpnStats::default();
    let prev = observe_status_file(&mut stage, &mut stats, STATUS, at(7));
    assert_eq!(prev.as_deref(), Some("connecting"));
    assert_eq!(stage, "connected");
    assert_eq!(stats.connected_on, Some(at(7)));
    assert_eq!((stats.byte_in, stats.byte_out), (300, 400));

    let mut stage = "disconnecting".to_string();
    let mut stats = VpnStats::default();
    assert_eq!(observe_status_file(&mut stage, &mut stats, STATUS, at(7)), None);
    assert_eq!(stage, "disconnecting");
    assert_eq!(stats.byte_in, 300);

    let mut stage = "connecting".to_string();
    let mut stats = VpnStats::default();
    assert_eq!(observe_status_file(&mut stage, &mut stats, "TUN/TAP read bytes,1\n", at(7)), None);
    assert_eq!(stage, "connecting");
}

#[test]
fn attempt_outcomes_from_log_lines() {
    assert_eq!(connect_outcome_for_line("Initialization Sequence Completed"), Some(ConnectOutcome::Connected));
    assert_eq!(connect_outcome_for_line("Cannot allocate TUN/TAP dev dynamically"), Some(ConnectOutcome::DriverFailed));
    assert_eq!(connect_outcome_for_line("AUTH_FAILED"), Some(ConnectOutcome::FatalError));
    assert_eq!(connect_outcome_for_line("Connecting to server"), None);
}

#[test]
fn poll_step_takes_first_decisive_line() {
    assert_eq!(connect_poll_step(false, &vec![]), Some(ConnectOutcome::FatalError));
    assert_eq!(connect_poll_step(true, &vec![]), None);
    let lines = vec![
        "Connecting".to_string(),
        "AUTH_FAILED".to_string(),
        "Initialization Sequence Completed".to_string(),
    ];
    assert_eq!(connect_poll_step(true, &lines), Some(ConnectOutcome::FatalError));
    assert_eq!(connect_poll_step(false, &lines), Some(ConnectOutcome::FatalError));
}

#[test]
fn process_death_marks_error_unless_settled() {
    let mut stage = "connecting".to_string();
    assert_eq!(stage_after_process_death(&mut stage).as_deref(), Some("connecting"));
    assert_eq!(stage, "error");
    for settled in ["connected", "disconnected", "disconnecting"] {
        let mut stage = settled.to_string();
        assert_eq!(stage_after_process_death(&mut stage), None);
        assert_eq!(stage, settled);
    }
}

#[test]
fn stage_stays_a_known_stage() {
    let known = ["disconnected", "connecting", "connected", "authenticating", "disconnecting", "error"];
    let mut stage = "disconnected".to_string();
    let mut stats = VpnStats::default();
    for line in [
        "Connecting to server",
        "auth request",
        "random",
        "WARNING: x",
        "Initialization Sequence Completed",
        "process exiting",
        "fatal",
    ] {
        observe_output_line(&mut stage, &mut stats, line, at(1));
        assert!(known.contains(&stage.as_str()), "{}", stage);
        let mut dead = stage.clone();
        stage_after_process_death(&mut dead);
        assert!(known.contains(&dead.as_str()), "{}", dead);
    }
}

#[test]
fn classification_ignores_ascii_case() {
    for line in [
        "Initialization Sequence Completed",
        "AUTH: Received control message: AUTH_FAILED",
        "OVPN-DCO: failed to open device",
        "Register_DNS failed using service",
        "Data Channel Offload cannot start",
        "Waiting for server",
    ] {
        let up = line.to_ascii_uppercase();
        let low = line.to_ascii_lowercase();
        assert_eq!(parse_stage_from_output(line), parse_stage_from_output(&up), "{}", line);
        assert_eq!(parse_stage_from_output(line), parse_stage_from_output(&low), "{}", line);
        assert_eq!(classify_reason(line), classify_reason(&up));
        assert_eq!(is_dco_failure_line(line), is_dco_failure_line(&low));
        assert_eq!(connect_outcome_for_line(line), connect_outcome_for_line(&up));
    }
}
