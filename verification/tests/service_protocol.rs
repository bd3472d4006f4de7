use openvpn_flutter_rust::service_client::{self, wide_str, ServicePipeClient};
use openvpn_flutter_rust::service_ipc::{
    connect_and_launch, encode_utf16_nul, is_pid_alive, is_service_available, parse_launch_reply,
    parse_service_response, pid_alive_from_open, pipe_busy_error, pipe_exists, pipe_name,
    pipe_open_step, startup_buffer, to_wide_nul, LogFileTailer, PipeOpenStep, ServiceIpcError,
    ERROR_ACCESS_DENIED, ERROR_PIPE_BUSY, ERROR_SEM_TIMEOUT,
};
use openvpn_flutter_rust::error::OpenVpnError;

fn utf16le(s: &str) -> Vec<u8> {
    s.encode_utf16().flat_map(|w| w.to_le_bytes()).collect()
}

#[test]
fn pipe_name_is_the_service_pipe() {
    assert_eq!(pipe_name(), r"\\.\pipe\openvpn\service");
}

#[test]
fn busy_pipe_is_retried() {
    assert!(matches!(pipe_open_step(0, ERROR_PIPE_BUSY), PipeOpenStep::Retry));
    match pipe_open_step(1, 2) {
        PipeOpenStep::Fail(ServiceIpcError::ServiceUnavailable(m)) => {
            assert_eq!(m, "CreateFileW failed on attempt 1, error=2")
        }
        _ => panic!("expected failure"),
    }
    match pipe_busy_error() {
        ServiceIpcError::ServiceUnavailable(m) => assert_eq!(m, "Pipe still busy after 2 retries (1000ms each)"),
        _ => panic!("expected ServiceUnavailable"),
    }
}

#[test]
fn pipe_and_process_probes() {
    assert!(pipe_exists(true, 0));
    assert!(pipe_exists(false, ERROR_SEM_TIMEOUT));
    assert!(pipe_exists(false, ERROR_PIPE_BUSY));
    assert!(!pipe_exists(false, 2));
    assert!(pid_alive_from_open(true, 0));
    assert!(pid_alive_from_open(false, ERROR_ACCESS_DENIED));
    assert!(!pid_alive_from_open(false, 87));
}

#[test]
fn no_service_on_this_platform() {
    match connect_and_launch("C:\\cfg", "--config x", "") {
        Err(ServiceIpcError::ServiceUnavailable(m)) => assert_eq!(m, "Not supported on this platform"),
        _ => panic!("expected ServiceUnavailable"),
    }
    assert!(!is_service_available());
    assert!(!is_pid_alive(4));
    assert!(!ServicePipeClient::is_service_available());
    match ServicePipeClient::start_openvpn("C:\\cfg", "--config x", "pw") {
        Err(OpenVpnError::ServiceIpcFailed(m)) => assert_eq!(m, "Interactive Service only available on Windows"),
        _ => panic!("expected ServiceIpcFailed"),
    }
}

#[test]
fn wide_strings_are_nul_terminated() {
    assert_eq!(to_wide_nul("ab"), vec![0x61, 0x62, 0]);
    assert_eq!(wide_str(""), vec![0]);
    assert_eq!(encode_utf16_nul("A"), vec![0x41, 0, 0, 0]);
    assert_eq!(encode_utf16_nul("é"), vec![0xE9, 0, 0, 0]);
    assert_eq!(encode_utf16_nul("\u{1F600}"), vec![0x3D, 0xD8, 0x00, 0xDE, 0, 0]);
}

#[test]
fn startup_buffer_holds_three_strings() {
    let buf = startup_buffer("C:\\d", "--x", "");
    assert_eq!(buf, utf16le("C:\\d\0--x\0\0"));
    let data = ServicePipeClient::startup_data("C:\\cfg", "--c x", "pw");
    assert_eq!(data, utf16le("C:\\cfg\0--c x\0pw\n\0"));
}

#[test]
fn successful_reply() {
    match parse_service_response("0x00000000\n0x00001234\nProcess ID ") {
        Ok(p) => {
            assert_eq!(p.pid, 0x1234);
            assert_eq!(p.description, "Process ID");
        }
        Err(e) => panic!("unexpected {}", e.message()),
    }
    match parse_launch_reply(&utf16le("0x00000000\r\n0x00000010\r\nProcess ID")) {
        Ok(p) => assert_eq!((p.pid, p.description.as_str()), (16, "Process ID")),
        Err(e) => panic!("unexpected {}", e.message()),
    }
    let mut odd = utf16le("0x0\n0x2A\nok");
    odd.push(0x41);
    match parse_launch_reply(&odd) {
        Ok(p) => assert_eq!(p.pid, 42),
        Err(e) => panic!("unexpected {}", e.message()),
    }
}

#[test]
fn rejected_reply() {
    match parse_service_response("0x20000001\n0x0\n Something failed ") {
        Err(ServiceIpcError::StartupRejected { code, message }) => {
            assert_eq!(code, 0x2000_0001);
            assert_eq!(message, "Something failed");
        }
        _ => panic!("expected rejection"),
    }
    match parse_service_response("garbage\n0x1\nmsg") {
        Err(ServiceIpcError::StartupRejected { code, message }) => {
            assert_eq!((code, message.as_str()), (0xFFFF_FFFF, "msg"))
        }
        _ => panic!("expected rejection"),
    }
}

#[test]
fn malformed_replies() {
    match parse_service_response("0x00000000\n0x1") {
        Err(ServiceIpcError::InvalidResponse(m)) => assert_eq!(m, "Expected 3 lines, got 2: \"0x00000000\\n0x1\""),
        _ => panic!("expected InvalidResponse"),
    }
    match parse_service_response("0x0\n zz \ndesc") {
        Err(ServiceIpcError::InvalidResponse(m)) => assert_eq!(m, "Cannot parse PID from ' zz '"),
        _ => panic!("expected InvalidResponse"),
    }
    match parse_launch_reply(&[0x41]) {
        Err(ServiceIpcError::InvalidResponse(m)) => assert_eq!(m, "Empty response"),
        _ => panic!("expected InvalidResponse"),
    }
}

#[test]
fn ipc_error_texts() {
    assert_eq!(ServiceIpcError::ServiceUnavailable("x".into()).message(), "Service unavailable: x");
    assert_eq!(
        ServiceIpcError::StartupRejected { code: 0x2000_00AB, message: "m".into() }.message(),
        "Startup rejected (0x200000AB): m"
    );
    assert_eq!(ServiceIpcError::InvalidResponse("y".into()).message(), "Invalid response: y");
    let io = std::io::Error::new(std::io::ErrorKind::Other, "boom");
    assert_eq!(ServiceIpcError::IoError(io).message(), "IO error: boom");
}

#[test]
fn client_reply_parsing() {
    assert_eq!(service_client::parse_service_response("0x00000000\n0x00001234\nProcess ID").ok(), Some(0x1234));
    assert_eq!(service_client::parse_service_response("0X00000000\n0X10\nx").ok(), Some(16));
    let err = |r: Result<u32, OpenVpnError>| match r {
        Err(OpenVpnError::ServiceIpcFailed(m)) => m,
        _ => panic!("expected ServiceIpcFailed"),
    };
    assert_eq!(err(service_client::parse_service_response("0x2000000a\nline2\nline3")), "Interactive Service error 0x2000000a: line2\nline3");
    assert_eq!(err(service_client::parse_service_response("0x00000000\n0x0\nx")), "Service returned PID 0");
    assert_eq!(err(service_client::parse_service_response("0x00000000\nnope")), "Cannot parse PID from service response: nope");
    assert_eq!(err(service_client::parse_service_response("0x00000000")), "Cannot parse PID from service response: ");
    assert_eq!(err(service_client::parse_service_response("")), "Interactive Service error 0xffffffff: ");
    assert_eq!(err(ServicePipeClient::read_reply(&[])), "Empty response from Interactive Service");
    assert_eq!(ServicePipeClient::read_reply(&utf16le("0x00000000\n0x00000010\nProcess ID")).ok(), Some(16));
}

#[test]
fn tailer_returns_complete_lines_only() {
    let mut t = LogFileTailer::new("log.txt".to_string());
    assert_eq!(t.path(), "log.txt");
    assert_eq!(t.position(), 0);
    assert_eq!(t.bytes_to_read(0), None);
    assert_eq!(t.bytes_to_read(10), Some(10));
    assert_eq!(t.take_complete_lines(b"a\n\nb\npartial"), vec!["a", "b"]);
    assert_eq!(t.position(), 5);
    assert_eq!(t.bytes_to_read(5), None);
    assert_eq!(t.bytes_to_read(12), Some(7));
    assert!(t.take_complete_lines(b"partial").is_empty());
    assert_eq!(t.position(), 5);
    assert_eq!(t.take_complete_lines(b"partial more\r\n"), vec!["partial more"]);
    assert_eq!(t.position(), 19);
    assert_eq!(t.take_complete_lines(b"\xff\n"), vec!["\u{FFFD}"]);
    assert_eq!(t.position(), 21);
}

fn decode_fields(bytes: &[u8]) -> Vec<String> {
    let units: Vec<u16> = bytes.chunks(2).map(|c| u16::from_le_bytes([c[0], c[1]])).collect();
    String::from_utf16(&units).unwrap().splitn(4, '\0').map(|s| s.to_string()).collect()
}

#[test]
fn startup_buffers_read_back_as_their_fields() {
    assert_eq!(
        decode_fields(&startup_buffer(r"C:\ProgramData\cfg", "--config \"x\"", "")),
        vec![r"C:\ProgramData\cfg", "--config \"x\"", "", ""]
    );
    assert_eq!(
        decode_fields(&ServicePipeClient::startup_data("dir", "--opt é", "pw")),
        vec!["dir", "--opt é", "pw\n", ""]
    );
}

#[test]
fn tailer_chunks_give_the_same_lines() {
    let mut once = LogFileTailer::new("l".to_string());
    let all = once.take_complete_lines(b"a\r\n\nb\nc\n");
    let mut twice = LogFileTailer::new("l".to_string());
    let mut parts = twice.take_complete_lines(b"a\r\n\n");
    parts.extend(twice.take_complete_lines(b"b\nc\n"));
    assert_eq!(all, parts);
    assert_eq!(all, vec!["a", "b", "c"]);
    assert_eq!(once.position(), twice.position());
}
