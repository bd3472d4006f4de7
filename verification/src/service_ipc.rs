//! The OpenVPN Interactive Service protocol.
//!
//! The service listens on `\\.\pipe\openvpn\service` and expects a startup
//! buffer of 3 concatenated UTF-16 null-terminated strings:
//!   1. working directory
//!   2. CLI options for openvpn.exe
//!   3. stdin data (can be empty)
//!
//! It responds with 3 UTF-16 lines separated by `\n`:
//!   1. hex error code (`0x00000000` on success)
//!   2. PID (hex) or second error code
//!   3. human-readable description

use vstd::prelude::*;
use crate::error::io_error_text;
use vstd::utf8::{decode_first_scalar, decode_utf8, pop_first_scalar, valid_utf8};
use crate::text::{
    chars_of, decimal, hex_width, is_white, lemma_hex_width_digits, lemma_lines_acc_concat,
    lemma_lines_acc_last, lemma_lines_acc_newline, lemma_lines_have_no_newline,
    lemma_parse_prefixed_hex, lemma_splitn_acc_last, lemma_splitn_acc_sep, lemma_trim_no_white,
    lines, lines_of, no_newline, owned, parse_unsigned, parse_unsigned_chars, pow16, push_decimal,
    push_hex_width, push_str, splitn, string_of, strip_cr, trim, trim_chars, trim_start_matches,
    trim_start_matches_str, views, views_of_strings,
};
use crate::utf16::{
    decode_utf16_lossy, decode_utf16_lossy_units, encode_utf16, encode_utf16_str, le_bytes,
    lemma_encode_utf16_append, lemma_encode_utf16_nul, lemma_le_bytes_append, lemma_le_roundtrip,
    lemma_utf16_roundtrip, push_le_bytes, units_from_le, units_from_le_bytes,
};

verus! {

// ───────────────────────────── errors ─────────────────────────────

pub enum ServiceIpcError {
    ServiceUnavailable(String),
    StartupRejected { code: u32, message: String },
    InvalidResponse(String),
    IoError(std::io::Error),
}

/// The displayed text of an error whose text is fixed by its fields.
pub open spec fn ipc_error_text(e: ServiceIpcError) -> Option<Seq<char>> {
    match e {
        ServiceIpcError::ServiceUnavailable(m) => Some("Service unavailable: "@ + m@),
        ServiceIpcError::StartupRejected { code, message } => Some(
            "Startup rejected (0x"@ + hex_width(code as nat, 8, true) + "): "@ + message@,
        ),
        ServiceIpcError::InvalidResponse(m) => Some("Invalid response: "@ + m@),
        ServiceIpcError::IoError(_) => None,
    }
}

impl ServiceIpcError {
    /// The displayed text of the error.
    pub fn message(&self) -> (r: String)
        ensures
            ipc_error_text(*self) matches Some(t) ==> r@ == t,
            self is IoError ==> exists|t: Seq<char>| r@ == "IO error: "@ + t,
    {
        let mut r = String::new();
        match self {
            ServiceIpcError::ServiceUnavailable(m) => {
                push_str(&mut r, "Service unavailable: ");
                push_str(&mut r, m.as_str());
            },
            ServiceIpcError::StartupRejected { code, message } => {
                push_str(&mut r, "Startup rejected (0x");
                push_hex_width(&mut r, *code as u64, 8, true);
                push_str(&mut r, "): ");
                push_str(&mut r, message.as_str());
            },
            ServiceIpcError::InvalidResponse(m) => {
                push_str(&mut r, "Invalid response: ");
                push_str(&mut r, m.as_str());
            },
            ServiceIpcError::IoError(e) => {
                push_str(&mut r, "IO error: ");
                let t = io_error_text(e);
                push_str(&mut r, t.as_str());
            },
        }
        r
    }
}

// ───────────────────────────── the pipe ─────────────────────────────

/// The name of the Interactive Service pipe, `\\.\pipe\openvpn\service`.
pub fn pipe_name() -> (r: &'static str)
    ensures
        r@ == "\\\\.\\pipe\\openvpn\\service"@,
{
    "\\\\.\\pipe\\openvpn\\service"
}

/// How long to wait for a busy pipe instance, in milliseconds.
pub const PIPE_CONNECT_TIMEOUT_MS: u32 = 1000;

/// Size of the buffer the reply is read into.
pub const PIPE_READ_BUFFER_SIZE: usize = 4096;

/// How many times opening the pipe is tried.
pub const PIPE_OPEN_ATTEMPTS: u32 = 2;

/// `ERROR_ACCESS_DENIED`.
pub const ERROR_ACCESS_DENIED: u32 = 5;

/// `ERROR_SEM_TIMEOUT`.
pub const ERROR_SEM_TIMEOUT: u32 = 121;

/// `ERROR_PIPE_BUSY`.
pub const ERROR_PIPE_BUSY: u32 = 231;

/// Client end of the service pipe.  Where no Interactive Service exists it
/// holds nothing.
pub struct ServicePipe;

pub struct ServiceResponse {
    pub pid: u32,
    pub description: String,
    /// Client end of the service pipe. The Interactive Service terminates the
    /// launched `openvpn.exe` as soon as this handle is closed, so it must be
    /// kept alive for the whole connection; dropping it *is* the disconnect.
    pub pipe: ServicePipe,
}

/// What to do after opening the pipe failed with `last_error` on attempt
/// `attempt` (counting from 0).
pub enum PipeOpenStep {
    /// The pipe is busy: wait for an instance, then try again.
    Retry,
    /// Give up with this error.
    Fail(ServiceIpcError),
}

/// Decides what follows a failed attempt to open the pipe.
pub fn pipe_open_step(attempt: u32, last_error: u32) -> (r: PipeOpenStep)
    ensures
        last_error == ERROR_PIPE_BUSY <==> r is Retry,
        r matches PipeOpenStep::Fail(ServiceIpcError::ServiceUnavailable(m)) ==> m@
            == "CreateFileW failed on attempt "@ + decimal(attempt as nat) + ", error="@ + decimal(
            last_error as nat,
        ),
        r is Fail ==> r->Fail_0 is ServiceUnavailable,
{
    if last_error == ERROR_PIPE_BUSY {
        return PipeOpenStep::Retry;
    }
    let mut m = owned("CreateFileW failed on attempt ");
    push_decimal(&mut m, attempt as u64);
    push_str(&mut m, ", error=");
    push_decimal(&mut m, last_error as u64);
    PipeOpenStep::Fail(ServiceIpcError::ServiceUnavailable(m))
}

/// The error when the pipe stayed busy through every attempt.
pub fn pipe_busy_error() -> (r: ServiceIpcError)
    ensures
        r matches ServiceIpcError::ServiceUnavailable(m) && m@ == "Pipe still busy after "@
            + decimal(PIPE_OPEN_ATTEMPTS as nat) + " retries ("@ + decimal(
            PIPE_CONNECT_TIMEOUT_MS as nat,
        ) + "ms each)"@,
{
    let mut m = owned("Pipe still busy after ");
    push_decimal(&mut m, PIPE_OPEN_ATTEMPTS as u64);
    push_str(&mut m, " retries (");
    push_decimal(&mut m, PIPE_CONNECT_TIMEOUT_MS as u64);
    push_str(&mut m, "ms each)");
    ServiceIpcError::ServiceUnavailable(m)
}

/// Whether the pipe exists, from the result of waiting on it: a wait that
/// succeeded, timed out or found it busy.
pub fn pipe_exists(wait_ok: bool, last_error: u32) -> (r: bool)
    ensures
        r == (wait_ok || last_error == ERROR_SEM_TIMEOUT || last_error == ERROR_PIPE_BUSY),
{
    wait_ok || last_error == ERROR_SEM_TIMEOUT || last_error == ERROR_PIPE_BUSY
}

/// Whether a process exists, from an attempt to open it: it opened, or
/// opening was refused (`ERROR_ACCESS_DENIED` still proves it exists).
pub fn pid_alive_from_open(opened: bool, last_error: u32) -> (r: bool)
    ensures
        r == (opened || last_error == ERROR_ACCESS_DENIED),
{
    opened || last_error == ERROR_ACCESS_DENIED
}

/// Launching through the Interactive Service where there is none.
pub fn connect_and_launch(
    working_dir: &str,
    cli_options: &str,
    stdin_data: &str,
) -> (r: Result<ServiceResponse, ServiceIpcError>)
    ensures
        r matches Err(ServiceIpcError::ServiceUnavailable(m)) && m@
            == "Not supported on this platform"@,
{
    Err(ServiceIpcError::ServiceUnavailable(owned("Not supported on this platform")))
}

/// Whether the Interactive Service pipe exists, where there is none.
pub fn is_service_available() -> (r: bool)
    ensures
        !r,
{
    false
}

/// Whether a process is alive, where processes cannot be queried.
pub fn is_pid_alive(pid: u32) -> (r: bool)
    ensures
        !r,
{
    false
}

// ───────────────────────────── startup buffer ─────────────────────────────

/// The UTF-16 code units of a text followed by a NUL.
pub open spec fn wide_nul(s: Seq<char>) -> Seq<u16> {
    encode_utf16(s) + seq![0u16]
}

/// The bytes of a NUL-terminated UTF-16LE string.
pub fn encode_utf16_nul(s: &str) -> (r: Vec<u8>)
    ensures
        r@ == le_bytes(wide_nul(s@)),
{
    let w = to_wide_nul(s);
    let mut out: Vec<u8> = Vec::new();
    push_le_bytes(&mut out, w.as_slice());
    assert(out@ =~= le_bytes(wide_nul(s@)));
    out
}

/// The code units of a NUL-terminated UTF-16 string.
pub fn to_wide_nul(s: &str) -> (r: Vec<u16>)
    ensures
        r@ == wide_nul(s@),
{
    let mut w = encode_utf16_str(s);
    w.push(0u16);
    w
}

/// The startup buffer: the three strings, each UTF-16LE and NUL-terminated.
pub open spec fn startup_buffer_rule(working_dir: Seq<char>, cli_options: Seq<char>, stdin_data: Seq<char>) -> Seq<u8> {
    le_bytes(wide_nul(working_dir)) + le_bytes(wide_nul(cli_options)) + le_bytes(wide_nul(stdin_data))
}

/// Builds the startup buffer sent to the Interactive Service.
pub fn startup_buffer(working_dir: &str, cli_options: &str, stdin_data: &str) -> (r: Vec<u8>)
    ensures
        r@ == startup_buffer_rule(working_dir@, cli_options@, stdin_data@),
{
    let mut buf: Vec<u8> = Vec::new();
    let a = encode_utf16_nul(working_dir);
    let b = encode_utf16_nul(cli_options);
    let c = encode_utf16_nul(stdin_data);
    let mut a2 = a;
    let mut b2 = b;
    let mut c2 = c;
    buf.append(&mut a2);
    buf.append(&mut b2);
    buf.append(&mut c2);
    buf
}

// ───────────────────────────── the reply ─────────────────────────────

/// The part of a successful reply the caller keeps.
pub struct ParsedResponse {
    pub pid: u32,
    pub description: String,
}

/// What `format!("{:?}", s)` gives for a text (Rust's escaped, quoted form).
pub uninterp spec fn debug_quoted(s: Seq<char>) -> Seq<char>;

/// Calls `<str as Debug>::fmt` (through `format!`); the result is the named
/// `debug_quoted` of the text.
#[verifier::external_body]
fn debug_text(s: &str) -> (r: String)
    ensures
        r@ == debug_quoted(s@),
{
    format!("{:?}", s)
}

/// A hexadecimal `u32` after leading `0x` prefixes are removed
/// (`u32::from_str_radix(s.trim_start_matches("0x"), 16)`).
pub open spec fn hex_field(s: Seq<char>) -> Option<u32> {
    match parse_unsigned(trim_start_matches(s, "0x"@), 16, u32::MAX as nat) {
        Some(n) => Some(n as u32),
        None => None,
    }
}

/// The result of parsing the service reply text.
pub enum ReplyModel {
    Launched { pid: u32, description: Seq<char> },
    TooShort { count: nat },
    Rejected { code: u32, message: Seq<char> },
    BadPid { line: Seq<char> },
}

/// How a reply text is read: three lines at least, the first a hex error
/// code (unreadable counts as `0xFFFFFFFF`), then the PID in hex and a
/// description.
pub open spec fn reply_rule(text: Seq<char>) -> ReplyModel {
    let ls = lines_of(text);
    if ls.len() < 3 {
        ReplyModel::TooShort { count: ls.len() }
    } else {
        let code = match hex_field(trim(ls[0])) {
            Some(c) => c,
            None => 0xFFFF_FFFFu32,
        };
        if code != 0 {
            ReplyModel::Rejected { code, message: trim(ls[2]) }
        } else {
            match hex_field(trim(ls[1])) {
                Some(pid) => ReplyModel::Launched { pid, description: trim(ls[2]) },
                None => ReplyModel::BadPid { line: ls[1] },
            }
        }
    }
}

/// The result of parsing, as a model.
pub open spec fn parsed_view(r: Result<ParsedResponse, ServiceIpcError>) -> Option<ReplyModel> {
    match r {
        Ok(p) => Some(ReplyModel::Launched { pid: p.pid, description: p.description@ }),
        Err(ServiceIpcError::StartupRejected { code, message }) => Some(
            ReplyModel::Rejected { code, message: message@ },
        ),
        _ => None,
    }
}

fn hex_field_of(v: &[char]) -> (r: Option<u32>)
    ensures
        r == hex_field(v@),
{
    let t = trim_start_matches_str(v, "0x");
    match parse_unsigned_chars(t.as_slice(), 16, 0xFFFF_FFFF) {
        Some(n) => Some(n as u32),
        None => None,
    }
}

/// Parses the reply text of the Interactive Service.
pub fn parse_service_response(text: &str) -> (r: Result<ParsedResponse, ServiceIpcError>)
    ensures
        match reply_rule(text@) {
            ReplyModel::TooShort { count } => r matches Err(ServiceIpcError::InvalidResponse(m))
                && m@ == "Expected 3 lines, got "@ + decimal(count) + ": "@ + debug_quoted(text@),
            ReplyModel::BadPid { line } => r matches Err(ServiceIpcError::InvalidResponse(m)) && m@
                == "Cannot parse PID from '"@ + line + "'"@,
            model => parsed_view(r) == Some(model),
        },
{
    let v = chars_of(text);
    let ls = lines(v.as_slice());
    let ghost lv = views(ls@);
    if ls.len() < 3 {
        let mut m = owned("Expected 3 lines, got ");
        push_decimal(&mut m, ls.len() as u64);
        push_str(&mut m, ": ");
        let d = debug_text(text);
        push_str(&mut m, d.as_str());
        return Err(ServiceIpcError::InvalidResponse(m));
    }
    assert(lv[0] == ls@[0]@ && lv[1] == ls@[1]@ && lv[2] == ls@[2]@);
    let first = trim_chars(ls[0].as_slice());
    let code = match hex_field_of(first.as_slice()) {
        Some(c) => c,
        None => 0xFFFF_FFFFu32,
    };
    let third = trim_chars(ls[2].as_slice());
    if code != 0 {
        return Err(ServiceIpcError::StartupRejected { code, message: string_of(third.as_slice()) });
    }
    let second = trim_chars(ls[1].as_slice());
    match hex_field_of(second.as_slice()) {
        Some(pid) => Ok(ParsedResponse { pid, description: string_of(third.as_slice()) }),
        None => {
            let mut m = owned("Cannot parse PID from '");
            let l1 = string_of(ls[1].as_slice());
            push_str(&mut m, l1.as_str());
            push_str(&mut m, "'");
            Err(ServiceIpcError::InvalidResponse(m))
        },
    }
}

/// The reply text held in the bytes read from the pipe (UTF-16LE, decoded
/// lossily; an odd last byte is ignored).
pub open spec fn reply_text(bytes: Seq<u8>) -> Seq<char> {
    decode_utf16_lossy(units_from_le(bytes))
}

/// Reads the reply bytes of the service: fewer than two bytes is an empty
/// reply, otherwise the text is parsed.
pub fn parse_launch_reply(bytes: &[u8]) -> (r: Result<ParsedResponse, ServiceIpcError>)
    ensures
        bytes.len() < 2 ==> (r matches Err(ServiceIpcError::InvalidResponse(m)) && m@
            == "Empty response"@),
        bytes.len() >= 2 ==> match reply_rule(reply_text(bytes@)) {
            ReplyModel::TooShort { count } => r matches Err(ServiceIpcError::InvalidResponse(m))
                && m@ == "Expected 3 lines, got "@ + decimal(count) + ": "@ + debug_quoted(
                reply_text(bytes@),
            ),
            ReplyModel::BadPid { line } => r matches Err(ServiceIpcError::InvalidResponse(m)) && m@
                == "Cannot parse PID from '"@ + line + "'"@,
            model => parsed_view(r) == Some(model),
        },
{
    if bytes.len() < 2 {
        return Err(ServiceIpcError::InvalidResponse(owned("Empty response")));
    }
    let units = units_from_le_bytes(bytes);
    let text = decode_utf16_lossy_units(units.as_slice());
    parse_service_response(text.as_str())
}

// ───────────────────────────── log file tailer ─────────────────────────────

/// What `String::from_utf8_lossy` gives for some bytes (invalid sequences
/// replaced by U+FFFD).
pub uninterp spec fn utf8_lossy(b: Seq<u8>) -> Seq<char>;

/// Calls `String::from_utf8_lossy`; the result is the named `utf8_lossy`,
/// which is the plain decoding when the bytes are valid UTF-8.
#[verifier::external_body]
fn utf8_lossy_text(b: &[u8]) -> (r: String)
    ensures
        r@ == utf8_lossy(b@),
        valid_utf8(b@) ==> r@ == decode_utf8(b@),
{
    String::from_utf8_lossy(b).into_owned()
}

/// The position of the last newline byte in `b`.
pub open spec fn last_newline(b: Seq<u8>) -> Option<int>
    decreases b.len(),
{
    if b.len() == 0 {
        None
    } else if b.last() == 10u8 {
        Some(b.len() - 1)
    } else {
        last_newline(b.drop_last())
    }
}

/// The non-empty texts of `ls`, in order.
pub open spec fn non_empty(ls: Seq<Seq<char>>) -> Seq<Seq<char>> {
    ls.filter(|l: Seq<char>| l.len() > 0)
}

/// Reads new complete lines appended to a log file since the last call.
pub struct LogFileTailer {
    path: String,
    last_pos: u64,
}

impl LogFileTailer {
    pub closed spec fn path_view(&self) -> Seq<char> {
        self.path@
    }

    /// How far the file has been consumed, in bytes.
    pub closed spec fn pos(&self) -> u64 {
        self.last_pos
    }

    pub fn new(path: String) -> (r: Self)
        ensures
            r.path_view() == path@,
            r.pos() == 0,
    {
        Self { path, last_pos: 0 }
    }

    pub fn path(&self) -> (r: &str)
        ensures
            r@ == self.path_view(),
    {
        self.path.as_str()
    }

    pub fn position(&self) -> (r: u64)
        ensures
            r == self.pos(),
    {
        self.last_pos
    }

    /// How many bytes to read from the consumed position, for a file of
    /// `file_len` bytes; `None` when nothing new was appended.
    pub fn bytes_to_read(&self, file_len: u64) -> (r: Option<u64>)
        ensures
            file_len <= self.pos() <==> r is None,
            r matches Some(n) ==> n == file_len - self.pos(),
    {
        if file_len <= self.last_pos {
            None
        } else {
            Some(file_len - self.last_pos)
        }
    }

    /// Takes the complete lines (terminated by `\n`) out of bytes read from
    /// the consumed position: the position moves past the last newline, and
    /// the non-empty lines before it are returned.  Without a newline
    /// nothing is consumed.
    pub fn take_complete_lines(&mut self, buf: &[u8]) -> (r: Vec<String>)
        requires
            old(self).pos() + buf.len() <= u64::MAX,
        ensures
            final(self).path_view() == old(self).path_view(),
            last_newline(buf@) is None ==> r@.len() == 0 && final(self).pos() == old(self).pos(),
            last_newline(buf@) matches Some(p) ==> {
                &&& final(self).pos() == old(self).pos() + p + 1
                &&& views_of_strings(r@) == non_empty(lines_of(utf8_lossy(buf@.take(p + 1))))
                &&& valid_utf8(buf@.take(p + 1)) ==> views_of_strings(r@) == non_empty(
                    lines_of(decode_utf8(buf@.take(p + 1))),
                )
            },
    {
        let mut end: usize = buf.len();
        assert(buf@.take(buf.len() as int) =~= buf@);
        while end > 0 && buf[end - 1] != 10u8
            invariant
                end <= buf.len(),
                last_newline(buf@) == last_newline(buf@.take(end as int)),
            decreases end,
        {
            assert(buf@.take(end as int).drop_last() =~= buf@.take(end - 1));
            end = end - 1;
        }
        assert(buf@.take(buf.len() as int) =~= buf@);
        if end == 0 {
            assert(buf@.take(0) =~= Seq::<u8>::empty());
            return Vec::new();
        }
        assert(buf@.take(end as int).last() == buf@[end - 1]);
        self.last_pos = self.last_pos + end as u64;
        let chunk = crate::text::slice_bytes(buf, end);
        let text = utf8_lossy_text(chunk.as_slice());
        let cv = chars_of(text.as_str());
        let ls = lines(cv.as_slice());
        let mut out: Vec<String> = Vec::new();
        let mut i: usize = 0;
        while i < ls.len()
            invariant
                i <= ls.len(),
                views(ls@) == lines_of(utf8_lossy(buf@.take(end as int))),
                views_of_strings(out@) == non_empty(views(ls@).take(i as int)),
            decreases ls.len() - i,
        {
            let ghost pre = views(ls@).take(i as int);
            let ghost next = views(ls@).take(i + 1);
            assert(next.drop_last() =~= pre);
            assert(next.last() == ls@[i as int]@);
            proof {
                reveal(Seq::filter);
            }
            if ls[i].len() > 0 {
                let ghost before = views_of_strings(out@);
                out.push(string_of(ls[i].as_slice()));
                assert(views_of_strings(out@) =~= before.push(ls@[i as int]@));
            }
            i = i + 1;
        }
        assert(views(ls@).take(ls.len() as int) =~= views(ls@));
        out
    }
}

// ───────────────────────────── laws of the protocol ─────────────────────────────

/// `c` does not occur in `s`.
pub open spec fn free_of(s: Seq<char>, c: char) -> bool {
    forall|i: int| 0 <= i < s.len() ==> #[trigger] s[i] != c
}

/// The service reads back exactly the three strings of a startup buffer:
/// the buffer decodes to the three texts, each followed by a NUL, and
/// splitting at NUL gives them back, when none of them holds a NUL.
pub proof fn lemma_startup_buffer_fields(working_dir: Seq<char>, cli_options: Seq<char>, stdin_data: Seq<char>)
    requires
        free_of(working_dir, '\0'),
        free_of(cli_options, '\0'),
        free_of(stdin_data, '\0'),
    ensures
        decode_utf16_lossy(units_from_le(startup_buffer_rule(working_dir, cli_options, stdin_data)))
            == working_dir.push('\0') + cli_options.push('\0') + stdin_data.push('\0'),
        splitn(
            decode_utf16_lossy(units_from_le(startup_buffer_rule(working_dir, cli_options, stdin_data))),
            '\0',
            4,
        ) == seq![working_dir, cli_options, stdin_data, Seq::<char>::empty()],
{
    let a = working_dir;
    let b = cli_options;
    let c = stdin_data;
    lemma_encode_utf16_nul(a);
    lemma_encode_utf16_nul(b);
    lemma_encode_utf16_nul(c);
    let text = a.push('\0') + b.push('\0') + c.push('\0');
    lemma_encode_utf16_append(a.push('\0'), b.push('\0'));
    lemma_encode_utf16_append(a.push('\0') + b.push('\0'), c.push('\0'));
    let units = encode_utf16(text);
    assert(units == wide_nul(a) + wide_nul(b) + wide_nul(c));
    lemma_le_bytes_append(wide_nul(a), wide_nul(b));
    lemma_le_bytes_append(wide_nul(a) + wide_nul(b), wide_nul(c));
    assert(startup_buffer_rule(a, b, c) == le_bytes(units));
    lemma_le_roundtrip(units);
    lemma_utf16_roundtrip(text);
    // the fields
    let rest_b = b + seq!['\0'] + (c + seq!['\0'] + Seq::<char>::empty());
    assert(text =~= a + seq!['\0'] + rest_b);
    lemma_splitn_acc_sep(a, '\0', rest_b, 4, seq![]);
    let rest_c = c + seq!['\0'] + Seq::<char>::empty();
    assert(rest_b =~= b + seq!['\0'] + rest_c);
    lemma_splitn_acc_sep(b, '\0', rest_c, 3, seq![]);
    lemma_splitn_acc_sep(c, '\0', Seq::<char>::empty(), 2, seq![]);
    lemma_splitn_acc_last(Seq::<char>::empty(), '\0', 1, seq![]);
    assert(Seq::<char>::empty() + a =~= a);
    assert(Seq::<char>::empty() + b =~= b);
    assert(Seq::<char>::empty() + c =~= c);
    assert(Seq::<char>::empty() + Seq::<char>::empty() =~= Seq::<char>::empty());
    assert(splitn(text, '\0', 4) =~= seq![a, b, c, Seq::<char>::empty()]);
}

proof fn lemma_non_empty_single(ls: Seq<Seq<char>>)
    requires
        forall|k: int| 0 <= k < ls.len() ==> no_newline(#[trigger] ls[k]),
    ensures
        forall|k: int|
            0 <= k < non_empty(ls).len() ==> (#[trigger] non_empty(ls)[k]).len() > 0 && no_newline(
                non_empty(ls)[k],
            ),
    decreases ls.len(),
{
    reveal(Seq::filter);
    if ls.len() > 0 {
        let init = ls.drop_last();
        assert forall|k: int| 0 <= k < init.len() implies no_newline(#[trigger] init[k]) by {
            assert(init[k] == ls[k]);
        }
        lemma_non_empty_single(init);
        let last = ls.last();
        assert(no_newline(ls[ls.len() - 1]));
        if last.len() > 0 {
            assert(non_empty(ls) == non_empty(init).push(last));
            assert forall|k: int| 0 <= k < non_empty(ls).len() implies (#[trigger] non_empty(
                ls,
            )[k]).len() > 0 && no_newline(non_empty(ls)[k]) by {
                if k < non_empty(init).len() {
                    assert(non_empty(ls)[k] == non_empty(init)[k]);
                }
            }
        } else {
            assert(non_empty(ls) == non_empty(init));
        }
    }
}

/// The log tailer hands out single lines: every line that it takes out of
/// the bytes read is non-empty and holds no newline.
pub proof fn lemma_tailer_lines_are_single(text: Seq<char>)
    ensures
        forall|k: int|
            0 <= k < non_empty(lines_of(text)).len() ==> (#[trigger] non_empty(lines_of(text))[k]).len()
                > 0 && free_of(non_empty(lines_of(text))[k], '\n'),
{
    lemma_lines_have_no_newline(text);
    lemma_non_empty_single(lines_of(text));
}

/// Reading the log in two pieces split right after a newline gives the
/// same lines as reading it at once.
pub proof fn lemma_tailer_chunks(first: Seq<char>, rest: Seq<char>)
    requires
        first.len() > 0,
        first.last() == '\n',
    ensures
        non_empty(lines_of(first + rest)) == non_empty(lines_of(first)) + non_empty(lines_of(rest)),
{
    lemma_lines_acc_concat(first, rest, seq![]);
    Seq::filter_distributes_over_add(lines_of(first), lines_of(rest), |l: Seq<char>| l.len() > 0);
}

/// Two valid UTF-8 byte runs decode, together, to the two texts in order.
proof fn lemma_decode_utf8_concat(a: Seq<u8>, b: Seq<u8>)
    requires
        valid_utf8(a),
        valid_utf8(b),
    ensures
        valid_utf8(a + b),
        decode_utf8(a + b) == decode_utf8(a) + decode_utf8(b),
    decreases a.len(),
{
    vstd::utf8::valid_utf8_concat(a, b);
    if a.len() == 0 {
        assert(a + b =~= b);
        assert(decode_utf8(a) =~= Seq::<char>::empty());
        assert(decode_utf8(a) + decode_utf8(b) =~= decode_utf8(b));
    } else {
        let rest = pop_first_scalar(a);
        assert(pop_first_scalar(a + b) =~= rest + b);
        assert(decode_first_scalar(a + b) == decode_first_scalar(a));
        lemma_pop_shorter(a);
        lemma_decode_utf8_concat(rest, b);
        assert(decode_utf8(a + b) =~= decode_utf8(a) + decode_utf8(b));
    }
}

proof fn lemma_pop_shorter(a: Seq<u8>)
    requires
        a.len() > 0,
        valid_utf8(a),
    ensures
        pop_first_scalar(a).len() < a.len(),
{
}

/// A newline byte on its own is valid UTF-8 and decodes to a newline.
proof fn lemma_newline_byte()
    ensures
        valid_utf8(seq![10u8]),
        decode_utf8(seq![10u8]) == seq!['\n'],
{
    let b = seq![10u8];
    assert(10u8 & 0x7Fu8 == 10u8) by (bit_vector);
    assert(pop_first_scalar(b) =~= Seq::<u8>::empty());
    reveal_with_fuel(valid_utf8, 2);
    assert(valid_utf8(b));
    assert(decode_utf8(Seq::<u8>::empty()) =~= Seq::<char>::empty());
    assert(decode_utf8(b) =~= seq!['\n']);
}

/// Successive reads of valid UTF-8 log bytes join up: the lines that the
/// tailer takes from a run ending in a newline and then from the bytes that
/// follow are the lines of all the bytes decoded at once.
pub proof fn lemma_tailer_byte_chunks(first: Seq<u8>, rest: Seq<u8>)
    requires
        valid_utf8(first),
        valid_utf8(rest),
    ensures
        valid_utf8(first.push(10u8) + rest),
        valid_utf8(first.push(10u8)),
        non_empty(lines_of(decode_utf8(first.push(10u8) + rest))) == non_empty(
            lines_of(decode_utf8(first.push(10u8))),
        ) + non_empty(lines_of(decode_utf8(rest))),
{
    lemma_newline_byte();
    assert(first.push(10u8) =~= first + seq![10u8]);
    lemma_decode_utf8_concat(first, seq![10u8]);
    lemma_decode_utf8_concat(first.push(10u8), rest);
    let t = decode_utf8(first.push(10u8));
    assert(t.last() == '\n');
    lemma_tailer_chunks(t, decode_utf8(rest));
}

/// A reply line `0x` followed by the eight upper-case hex digits of `n`.
pub open spec fn hex_line(n: u32) -> Seq<char> {
    "0x"@ + hex_width(n as nat, 8, true)
}

/// The reply of a successful launch: error code zero, the PID, and a
/// description, one per line.
pub open spec fn success_reply(pid: u32, description: Seq<char>) -> Seq<char> {
    hex_line(0) + "\n"@ + hex_line(pid) + "\n"@ + description
}

/// The reply of a rejected launch: a non-zero error code, a second line and
/// a message.
pub open spec fn rejected_reply(code: u32, second: Seq<char>, message: Seq<char>) -> Seq<char> {
    hex_line(code) + "\n"@ + second + "\n"@ + message
}

proof fn lemma_hex_line(n: u32)
    ensures
        free_of(hex_line(n), '\n'),
        strip_cr(hex_line(n)) == hex_line(n),
        trim(hex_line(n)) == hex_line(n),
        hex_field(trim(hex_line(n))) == Some(n),
{
    reveal_strlit("0x");
    assert(pow16(8) == 0x1_0000_0000) by {
        reveal_with_fuel(pow16, 9);
    }
    lemma_hex_width_digits(n as nat, 8, true);
    lemma_parse_prefixed_hex(n as nat, 8, true, u32::MAX as nat);
    let l = hex_line(n);
    let h = hex_width(n as nat, 8, true);
    assert forall|i: int| 0 <= i < l.len() implies !is_white(#[trigger] l[i]) && l[i] != '\n' by {
        if i >= 2 {
            assert(l[i] == h[i - 2]);
        }
    }
    assert(l.last() == h[7]);
    lemma_trim_no_white(l);
}

/// The lines of `x \n y \n z` for lines `x`, `y` and a non-empty last line
/// `z` without newlines.
proof fn lemma_three_lines(x: Seq<char>, y: Seq<char>, z: Seq<char>)
    requires
        free_of(x, '\n'),
        free_of(y, '\n'),
        free_of(z, '\n'),
        z.len() > 0,
    ensures
        lines_of(x + "\n"@ + y + "\n"@ + z) == seq![strip_cr(x), strip_cr(y), z],
{
    reveal_strlit("\n");
    let t = x + "\n"@ + y + "\n"@ + z;
    let r = y + seq!['\n'] + z;
    assert(t =~= x + seq!['\n'] + r);
    lemma_lines_acc_newline(x, r, seq![]);
    lemma_lines_acc_newline(y, z, seq![]);
    lemma_lines_acc_last(z, seq![]);
    assert(Seq::<char>::empty() + x =~= x);
    assert(Seq::<char>::empty() + y =~= y);
    assert(Seq::<char>::empty() + z =~= z);
    assert(lines_of(t) =~= seq![strip_cr(x), strip_cr(y), z]);
}

/// A successful reply gives the PID and the trimmed description.
pub proof fn lemma_success_reply_parses(pid: u32, description: Seq<char>)
    requires
        description.len() > 0,
        free_of(description, '\n'),
    ensures
        reply_rule(success_reply(pid, description)) == (ReplyModel::Launched {
            pid,
            description: trim(description),
        }),
{
    lemma_hex_line(0);
    lemma_hex_line(pid);
    lemma_three_lines(hex_line(0), hex_line(pid), description);
}

/// A reply with a non-zero error code is a rejection carrying the code and
/// the trimmed message.
pub proof fn lemma_rejected_reply_parses(code: u32, second: Seq<char>, message: Seq<char>)
    requires
        code != 0,
        free_of(second, '\n'),
        message.len() > 0,
        free_of(message, '\n'),
    ensures
        reply_rule(rejected_reply(code, second, message)) == (ReplyModel::Rejected {
            code,
            message: trim(message),
        }),
{
    lemma_hex_line(code);
    lemma_three_lines(hex_line(code), second, message);
}

} // verus!
