use openvpn_flutter_rust::error::OpenVpnError;
use openvpn_flutter_rust::manager::init_manager;
use openvpn_flutter_rust::openvpn::{
    auth_file_content, build_service_cli_options, direct_launch_args, direct_launch_config,
    final_connection, service_restart_needed, log_dump_record, connected_on_text, driver_name,
    driver_strategy_label, log_line_cuts_cleanly, preprocess_config_for_driver, record_connection,
    runtime_file_names, sanitize_for_log, stage_transition_record, AttemptDecision,
    ConnectOutcome, DriverStrategy, LaunchMode, OpenVpnManager, PidWatch, ServiceAttempt,
    ServicePlan, VpnStats, LOG_TRIGGER_MAX_BYTES, PID_ALIVE_GRACE_MS, PID_DEAD_CHECKS_REQUIRED,
};
use std::time::{Duration, SystemTime, UNIX_EPOCH};

const CONFIG: &str = "client\ndisable-dco\nremote vpn.example.com 1194\n  Windows-Driver wintun\ndev tun";

#[test]
fn dco_config_drops_driver_directives() {
    assert_eq!(
        preprocess_config_for_driver(CONFIG, DriverStrategy::OvpnDco),
        "client\nremote vpn.example.com 1194\ndev tun"
    );
}

#[test]
fn tap_config_disables_dco() {
    assert_eq!(
        preprocess_config_for_driver(CONFIG, DriverStrategy::TapWindows6),
        "client\nremote vpn.example.com 1194\ndev tun\ndisable-dco"
    );
}

#[test]
fn config_edge_cases() {
    assert_eq!(preprocess_config_for_driver("", DriverStrategy::OvpnDco), "");
    assert_eq!(preprocess_config_for_driver("", DriverStrategy::TapWindows6), "disable-dco");
    assert_eq!(preprocess_config_for_driver("a\r\nb\r\n", DriverStrategy::OvpnDco), "a\nb");
    let once = preprocess_config_for_driver(CONFIG, DriverStrategy::TapWindows6);
    assert_eq!(preprocess_config_for_driver(&once, DriverStrategy::TapWindows6), once);
}

#[test]
fn service_cli_options() {
    assert_eq!(
        build_service_cli_options(
            r"C:\cfg\c.ovpn",
            Some(r"C:\cfg\a.txt"),
            r"C:\st\s.txt",
            r"C:\log\l.txt",
            DriverStrategy::OvpnDco
        ),
        r#"--config "C:\cfg\c.ovpn" --auth-user-pass "C:\cfg\a.txt" --verb 4 --status "C:\st\s.txt" 2 --log "C:\log\l.txt" --windows-driver ovpn-dco"#
    );
    assert_eq!(
        build_service_cli_options("c", None, "s", "l", DriverStrategy::TapWindows6),
        r#"--config "c" --verb 4 --status "s" 2 --log "l" --windows-driver tap-windows6"#
    );
}

#[test]
fn driver_labels() {
    assert_eq!(driver_strategy_label(DriverStrategy::OvpnDco), "ovpn-dco_via_service");
    assert_eq!(driver_strategy_label(DriverStrategy::TapWindows6), "tap-windows6_fallback");
    assert_eq!(driver_name(DriverStrategy::OvpnDco), "ovpn-dco");
    assert_eq!(driver_name(DriverStrategy::TapWindows6), "tap-windows6");
}

#[test]
fn plan_falls_back_from_dco_to_tap() {
    let mut plan = ServicePlan::new();
    assert_eq!(plan.current(), Some(DriverStrategy::OvpnDco));
    assert_eq!(plan.record(ServiceAttempt::Launched(ConnectOutcome::DriverFailed)), AttemptDecision::StopAndTryNext);
    assert_eq!(plan.current(), Some(DriverStrategy::TapWindows6));
    assert_eq!(plan.record(ServiceAttempt::IpcFailed), AttemptDecision::ClearLogAndFallBack);
    assert_eq!(plan.current(), None);
}

#[test]
fn plan_follows_service_availability() {
    assert_eq!(ServicePlan::for_service(true).current(), Some(DriverStrategy::OvpnDco));
    assert_eq!(ServicePlan::for_service(false).current(), None);
}

#[test]
fn config_directives_are_matched_in_any_case() {
    assert_eq!(
        preprocess_config_for_driver(
            "client\nDisable-DCO\n  windows-driver ovpn-dco\nremote vpn.example.com 1194",
            DriverStrategy::TapWindows6
        ),
        "client\nremote vpn.example.com 1194\ndisable-dco"
    );
    assert_eq!(direct_launch_config("WINDOWS-DRIVER x\nclient"), "client\ndisable-dco");
}

#[test]
fn plan_keeps_a_working_process() {
    let mut plan = ServicePlan::new();
    assert_eq!(plan.record(ServiceAttempt::Launched(ConnectOutcome::Connected)), AttemptDecision::KeepService);
    assert_eq!(plan.current(), None);
    let mut plan = ServicePlan::new();
    assert_eq!(plan.record(ServiceAttempt::IpcFailed), AttemptDecision::TryNext);
    assert_eq!(plan.record(ServiceAttempt::Launched(ConnectOutcome::StillRunning)), AttemptDecision::KeepService);
    assert_eq!(plan.current(), None);
}

#[test]
fn plan_stops_on_fatal_errors() {
    let mut plan = ServicePlan::new();
    assert_eq!(plan.record(ServiceAttempt::Launched(ConnectOutcome::FatalError)), AttemptDecision::StopAndFallBack);
    assert_eq!(plan.current(), None);
    let mut plan = ServicePlan { pending: Some(DriverStrategy::TapWindows6) };
    assert_eq!(plan.record(ServiceAttempt::Launched(ConnectOutcome::DriverFailed)), AttemptDecision::StopAndFallBack);
    assert_eq!(plan.current(), None);
}

#[test]
fn pid_watch_needs_consecutive_misses_after_grace() {
    let mut w = PidWatch::new();
    assert!(!w.observe(PID_ALIVE_GRACE_MS - 1, false));
    assert_eq!(w.consecutive_dead, 0);
    for _ in 1..PID_DEAD_CHECKS_REQUIRED {
        assert!(!w.observe(PID_ALIVE_GRACE_MS, false));
    }
    assert_eq!(w.consecutive_dead, PID_DEAD_CHECKS_REQUIRED - 1);
    assert!(!w.observe(PID_ALIVE_GRACE_MS + 1, true));
    assert_eq!(w.consecutive_dead, 0);
    for _ in 1..PID_DEAD_CHECKS_REQUIRED {
        assert!(!w.observe(20_000, false));
    }
    assert!(w.observe(20_000, false));
}

#[test]
fn connection_is_recorded() {
    let mut stats = VpnStats::default();
    stats.byte_in = 3;
    record_connection(&mut stats, DriverStrategy::OvpnDco, true);
    assert_eq!(stats.windows_driver.as_deref(), Some("ovpn-dco"));
    assert_eq!(stats.windows_connect_mode.as_deref(), Some("service"));
    assert_eq!(stats.byte_in, 3);
    record_connection(&mut stats, DriverStrategy::TapWindows6, false);
    assert_eq!(stats.windows_driver.as_deref(), Some("tap-windows6"));
    assert_eq!(stats.windows_connect_mode.as_deref(), Some("direct"));
}

#[test]
fn log_triggers_are_collapsed_and_cut() {
    assert_eq!(sanitize_for_log("  a\r\nb  "), "a  b");
    let long = "x".repeat(300);
    assert_eq!(sanitize_for_log(&long), format!("{}...", "x".repeat(LOG_TRIGGER_MAX_BYTES)));
    let exact = "y".repeat(LOG_TRIGGER_MAX_BYTES);
    assert_eq!(sanitize_for_log(&exact), exact);
    let wide = "é".repeat(150);
    assert!(log_line_cuts_cleanly(&wide));
    assert_eq!(sanitize_for_log(&wide), format!("{}...", "é".repeat(120)));
    let odd = format!("a{}", "é".repeat(150));
    assert!(!log_line_cuts_cleanly(&odd));
    assert!(log_line_cuts_cleanly("short"));
}

#[test]
fn stage_transition_records() {
    assert_eq!(
        stage_transition_record("stdout", "disconnected", "connected", "Initialization Sequence Completed", 1234),
        "[RUST_STAGE] stream=stdout from=disconnected to=connected elapsedMs=1234 reasonCode=UNKNOWN trigger=\"Initialization Sequence Completed\""
    );
    assert_eq!(
        stage_transition_record("log_tailer", "connecting", "error", " AUTH_FAILED \n", 0),
        "[RUST_STAGE] stream=log_tailer from=connecting to=error elapsedMs=0 reasonCode=AUTH_FAILED trigger=\"AUTH_FAILED\""
    );
}

#[test]
fn runtime_files_are_named_by_timestamp() {
    let n = runtime_file_names(1_700_000_000);
    assert_eq!(n.config, "openvpn_config_1700000000.ovpn");
    assert_eq!(n.auth, "openvpn_auth_1700000000.txt");
    assert_eq!(n.status, "openvpn_status_1700000000.txt");
    assert_eq!(n.log, "openvpn_log_1700000000.txt");
    assert_eq!(runtime_file_names(0).config, "openvpn_config_0.ovpn");
}

#[test]
fn credentials_need_both_parts() {
    assert_eq!(auth_file_content(&Some("user".into()), &Some("secret".into())).as_deref(), Some("user\nsecret"));
    assert_eq!(auth_file_content(&Some("user".into()), &None), None);
    assert_eq!(auth_file_content(&None, &Some("secret".into())), None);
    assert_eq!(auth_file_content(&None, &None), None);
}

#[test]
fn connection_time_text() {
    assert_eq!(connected_on_text(None), "");
    assert_eq!(connected_on_text(Some((0, 0))), "1970-01-01T00:00:00+00:00");
    assert_eq!(connected_on_text(Some((1_700_000_000, 500_000_000))), "2023-11-14T22:13:20.500+00:00");
    assert_eq!(connected_on_text(Some((i64::MAX as u64, 0))), "");
}

#[test]
fn launch_mode_codes() {
    assert_eq!(LaunchMode::from_code(0), LaunchMode::Auto);
    assert_eq!(LaunchMode::from_code(1), LaunchMode::Service);
    assert_eq!(LaunchMode::from_code(2), LaunchMode::Direct);
    assert_eq!(LaunchMode::from_code(3), LaunchMode::Uac);
    assert_eq!(LaunchMode::from_code(7), LaunchMode::Auto);
    assert_eq!(LaunchMode::from_code(-1), LaunchMode::Auto);
}

#[test]
fn missing_binary_is_refused() {
    match OpenVpnManager::new(r"C:\x\openvpn.exe".to_string(), false) {
        Err(OpenVpnError::BinaryNotFound(m)) => {
            assert_eq!(m, r"OpenVPN binary not found at: C:\x\openvpn.exe")
        }
        _ => panic!("expected BinaryNotFound"),
    }
}

#[test]
fn init_manager_fills_the_slot() {
    let mut slot: Option<OpenVpnManager> = None;
    match init_manager(&mut slot, "missing".to_string(), false) {
        Err(OpenVpnError::BinaryNotFound(m)) => assert_eq!(m, "OpenVPN binary not found at: missing"),
        _ => panic!("expected BinaryNotFound"),
    }
    assert!(slot.is_none());
    assert!(init_manager(&mut slot, "openvpn.exe".to_string(), true).is_ok());
    let m = slot.as_ref().unwrap();
    assert_eq!(m.binary_path(), "openvpn.exe");
    assert_eq!(m.get_stage().unwrap(), "disconnected");
}

fn at(secs: u64) -> SystemTime {
    UNIX_EPOCH + Duration::from_secs(secs)
}

#[test]
fn manager_lifecycle() {
    let mut m = OpenVpnManager::new("openvpn.exe".to_string(), true).ok().unwrap();
    assert_eq!(m.get_stage().unwrap(), "disconnected");
    assert_eq!(m.launch_mode(), LaunchMode::Auto);
    m.set_launch_mode(LaunchMode::Direct);
    assert_eq!(m.launch_mode(), LaunchMode::Direct);

    m.begin_connect("c.ovpn".into(), Some("a.txt".into()), "s.txt".into(), at(100));
    assert_eq!(m.get_stats().unwrap().connected_on, Some(at(100)));
    assert_eq!(m.status_file().as_deref(), Some("s.txt"));
    assert!(!m.has_log_file());
    m.set_log_file(Some("l.txt".into()));
    assert!(m.has_log_file());

    assert_eq!(m.observe_output_line("Connecting to server", at(101)).as_deref(), Some("disconnected"));
    assert_eq!(m.observe_output_line("Initialization Sequence Completed", at(102)).as_deref(), Some("connecting"));
    assert_eq!(m.get_stage().unwrap(), "connected");
    // the time recorded at connect is kept
    assert_eq!(m.get_stats().unwrap().connected_on, Some(at(100)));
    m.observe_output_stats("TUN/TAP read bytes,77");
    assert_eq!(m.get_stats().unwrap().byte_in, 77);
    m.record_connection(DriverStrategy::OvpnDco, true);
    assert_eq!(m.get_stats().unwrap().windows_connect_mode.as_deref(), Some("service"));
    assert_eq!(m.observe_process_death(), None);

    let files = m.finish_disconnect();
    assert_eq!(files, vec!["c.ovpn", "a.txt", "s.txt", "l.txt"]);
    assert_eq!(m.get_stage().unwrap(), "disconnected");
    let stats = m.get_stats().unwrap();
    assert_eq!((stats.byte_in, stats.byte_out), (0, 0));
    assert!(stats.connected_on.is_none() && stats.windows_driver.is_none());
    assert!(!m.has_log_file());
    assert_eq!(m.status_file(), None);
    assert!(m.finish_disconnect().is_empty());
    assert_eq!(m.binary_path(), "openvpn.exe");
}

#[test]
fn reconnect_without_credentials_keeps_old_file() {
    let mut m = OpenVpnManager::new("openvpn.exe".to_string(), true).ok().unwrap();
    m.begin_connect("c1".into(), Some("a1".into()), "s1".into(), at(1));
    m.begin_connect("c2".into(), None, "s2".into(), at(2));
    assert_eq!(m.finish_disconnect(), vec!["c2", "a1", "s2"]);
}

#[test]
fn manager_process_death_and_status() {
    let mut m = OpenVpnManager::new("openvpn.exe".to_string(), true).ok().unwrap();
    m.observe_output_line("Waiting for server", at(1));
    assert_eq!(m.observe_process_death().as_deref(), Some("connecting"));
    assert_eq!(m.get_stage().unwrap(), "error");
    let prev = m.observe_status_file("TUN/TAP read bytes,10\nTUN/TAP write bytes,20\nEND\n", at(3));
    assert_eq!(prev.as_deref(), Some("error"));
    assert_eq!(m.get_stage().unwrap(), "connected");
    let s = m.get_stats().unwrap();
    assert_eq!((s.byte_in, s.byte_out), (10, 20));
    assert_eq!(s.connected_on, Some(at(3)));
}

#[test]
fn stats_snapshot_is_a_copy() {
    let mut s = VpnStats::default();
    s.byte_in = 1;
    s.packets_out = 4;
    s.windows_driver = Some("ovpn-dco".into());
    let c = s.snapshot();
    assert_eq!((c.byte_in, c.packets_out), (1, 4));
    assert_eq!(c.windows_driver.as_deref(), Some("ovpn-dco"));
}

#[test]
fn log_dump_keeps_the_last_fifty_lines() {
    assert_eq!(log_dump_record(7, "a\nb\r\nc\n"), "[RUST_LOG_DUMP] pid=7 died; openvpn log tail: a || b || c");
    assert_eq!(log_dump_record(7, ""), "[RUST_LOG_DUMP] pid=7 died; openvpn log tail: ");
    let content: String = (0..60).map(|i| format!("line{}\n", i)).collect();
    let expected: Vec<String> = (10..60).map(|i| format!("line{}", i)).collect();
    assert_eq!(
        log_dump_record(4242, &content),
        format!("[RUST_LOG_DUMP] pid=4242 died; openvpn log tail: {}", expected.join(" || "))
    );
}

#[test]
fn direct_launch_uses_tap() {
    assert_eq!(final_connection(Some(DriverStrategy::OvpnDco)), (DriverStrategy::OvpnDco, true));
    assert_eq!(final_connection(Some(DriverStrategy::TapWindows6)), (DriverStrategy::TapWindows6, true));
    assert_eq!(final_connection(None), (DriverStrategy::TapWindows6, false));
    assert!(service_restart_needed(false));
    assert!(!service_restart_needed(true));
    assert_eq!(direct_launch_config("client\nwindows-driver ovpn-dco"), "client\ndisable-dco");
    assert_eq!(
        direct_launch_args("c.ovpn", Some("a.txt"), "s.txt"),
        vec!["--config", "c.ovpn", "--auth-user-pass", "a.txt", "--verb", "4", "--windows-driver", "tap-windows6", "--status", "s.txt", "2"]
    );
    assert_eq!(
        direct_launch_args("c.ovpn", None, "s.txt"),
        vec!["--config", "c.ovpn", "--verb", "4", "--windows-driver", "tap-windows6", "--status", "s.txt", "2"]
    );
}
