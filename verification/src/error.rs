//! Errors of the OpenVPN module.

use vstd::prelude::*;
use crate::text::{push_str, push_hex_width, hex_width};

verus! {

/// `std::io::Error`, carried through unchanged.
#[verifier::external_type_specification]
#[verifier::external_body]
pub struct ExIoError(std::io::Error);

/// Calls `<std::io::Error as Display>::fmt` (through `format!`).  The text
/// comes from the operating system, so nothing is stated of it.
#[verifier::external_body]
pub(crate) fn io_error_text(e: &std::io::Error) -> String {
    format!("{}", e)
}

#[derive(Debug)]
pub enum OpenVpnError {
    BinaryNotFound(String),
    ProcessExecutionFailed(String),
    ConfigurationError(String),
    ConnectionFailed(String),
    IoError(std::io::Error),
    Utf8Error,
    ServiceIpcFailed(String),
    ServiceStartupRejected { code: u32, message: String },
}

/// The displayed text of an error, for every variant whose text is fixed by
/// its fields.
pub open spec fn error_text(e: OpenVpnError) -> Option<Seq<char>> {
    match e {
        OpenVpnError::BinaryNotFound(s) => Some("Binary not found: "@ + s@),
        OpenVpnError::ProcessExecutionFailed(s) => Some("Process execution failed: "@ + s@),
        OpenVpnError::ConfigurationError(s) => Some("Configuration error: "@ + s@),
        OpenVpnError::ConnectionFailed(s) => Some("Connection failed: "@ + s@),
        OpenVpnError::IoError(_) => None,
        OpenVpnError::Utf8Error => Some("UTF-8 conversion error"@),
        OpenVpnError::ServiceIpcFailed(s) => Some("Service IPC failed: "@ + s@),
        OpenVpnError::ServiceStartupRejected { code, message } => Some(
            "Service startup rejected (0x"@ + hex_width(code as nat, 8, true) + "): "@ + message@,
        ),
    }
}

impl OpenVpnError {
    /// The displayed text of the error.
    pub fn message(&self) -> (r: String)
        ensures
            error_text(*self) matches Some(t) ==> r@ == t,
            self is IoError ==> exists|t: Seq<char>| r@ == "IO error: "@ + t,
    {
        let mut r = String::new();
        match self {
            OpenVpnError::BinaryNotFound(s) => {
                push_str(&mut r, "Binary not found: ");
                push_str(&mut r, s.as_str());
            },
            OpenVpnError::ProcessExecutionFailed(s) => {
                push_str(&mut r, "Process execution failed: ");
                push_str(&mut r, s.as_str());
            },
            OpenVpnError::ConfigurationError(s) => {
                push_str(&mut r, "Configuration error: ");
                push_str(&mut r, s.as_str());
            },
            OpenVpnError::ConnectionFailed(s) => {
                push_str(&mut r, "Connection failed: ");
                push_str(&mut r, s.as_str());
            },
            OpenVpnError::IoError(e) => {
                push_str(&mut r, "IO error: ");
                let t = io_error_text(e);
                let ghost head = r@;
                push_str(&mut r, t.as_str());
                assert(r@ == "IO error: "@ + t@);
            },
            OpenVpnError::Utf8Error => {
                push_str(&mut r, "UTF-8 conversion error");
            },
            OpenVpnError::ServiceIpcFailed(s) => {
                push_str(&mut r, "Service IPC failed: ");
                push_str(&mut r, s.as_str());
            },
            OpenVpnError::ServiceStartupRejected { code, message } => {
                push_str(&mut r, "Service startup rejected (0x");
                push_hex_width(&mut r, *code as u64, 8, true);
                push_str(&mut r, "): ");
                push_str(&mut r, message.as_str());
            },
        }
        r
    }
}

} // verus!
