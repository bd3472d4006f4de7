//! The OpenVPN management interface: parsing of its real-time
//! notifications, the authentication exchange, and the commands sent to it.

use vstd::prelude::*;
use rand::Rng;
use crate::error::OpenVpnError;
use crate::service_ipc::free_of;
use crate::text::{
    chars_of, contains_str, decimal, has, is_digit, lemma_decimal_digits, lemma_parse_decimal,
    lemma_splitn_acc_last, lemma_splitn_acc_sep, owned, parse_unsigned, parse_unsigned_chars,
    push_char, push_decimal, push_str, seq_starts_with, splitn, splitn_chars, strip_prefix,
    strip_prefix_str, string_of, to_uppercase, uppercase, views, is_ascii_text, ascii_lower,
    ascii_upper, lemma_ascii_case_folds,
};

verus! {

// ───────────────────────────── events ─────────────────────────────

/// A real-time notification of the management interface.
#[derive(Debug, Clone)]
pub enum ManagementEvent {
    State { name: String, description: String, local_ip: Option<String> },
    ByteCount { bytes_in: u64, bytes_out: u64 },
    Log { message: String },
    ProcessExited,
}

/// The mathematical value of a notification.
pub enum EventModel {
    State { name: Seq<char>, description: Seq<char>, local_ip: Option<Seq<char>> },
    ByteCount { bytes_in: u64, bytes_out: u64 },
    Log { message: Seq<char> },
    ProcessExited,
}

impl View for ManagementEvent {
    type V = EventModel;

    open spec fn view(&self) -> EventModel {
        match self {
            ManagementEvent::State { name, description, local_ip } => EventModel::State {
                name: name@,
                description: description@,
                local_ip: match local_ip {
                    Some(ip) => Some(ip@),
                    None => None,
                },
            },
            ManagementEvent::ByteCount { bytes_in, bytes_out } => EventModel::ByteCount {
                bytes_in: *bytes_in,
                bytes_out: *bytes_out,
            },
            ManagementEvent::Log { message } => EventModel::Log { message: message@ },
            ManagementEvent::ProcessExited => EventModel::ProcessExited,
        }
    }
}

/// The view of an optional notification.
pub open spec fn event_view(e: Option<ManagementEvent>) -> Option<EventModel> {
    match e {
        Some(ev) => Some(ev@),
        None => None,
    }
}

/// A decimal `u64` text (`str::parse::<u64>`).
pub open spec fn parse_u64(s: Seq<char>) -> Option<u64> {
    match parse_unsigned(s, 10, u64::MAX as nat) {
        Some(n) => Some(n as u64),
        None => None,
    }
}

/// The `>STATE:` notification in a line, if it has at least two fields.
pub open spec fn state_event_rule(line: Seq<char>) -> Option<EventModel> {
    match strip_prefix(line, ">STATE:"@) {
        Some(rest) => {
            let parts = splitn(rest, ',', 8);
            if parts.len() >= 2 {
                Some(
                    EventModel::State {
                        name: parts[1],
                        description: if parts.len() > 2 {
                            parts[2]
                        } else {
                            seq![]
                        },
                        local_ip: if parts.len() > 3 && parts[3].len() > 0 {
                            Some(parts[3])
                        } else {
                            None
                        },
                    },
                )
            } else {
                None
            }
        },
        None => None,
    }
}

/// The `>BYTECOUNT:` notification in a line, if both counters parse.
pub open spec fn bytecount_event_rule(line: Seq<char>) -> Option<EventModel> {
    match strip_prefix(line, ">BYTECOUNT:"@) {
        Some(rest) => {
            let parts = splitn(rest, ',', 2);
            if parts.len() == 2 && parse_u64(parts[0]) is Some && parse_u64(parts[1]) is Some {
                Some(
                    EventModel::ByteCount {
                        bytes_in: parse_u64(parts[0])->0,
                        bytes_out: parse_u64(parts[1])->0,
                    },
                )
            } else {
                None
            }
        },
        None => None,
    }
}

/// The notification that a management line carries, if any.
pub open spec fn event_rule(line: Seq<char>) -> Option<EventModel> {
    if state_event_rule(line) is Some {
        state_event_rule(line)
    } else if bytecount_event_rule(line) is Some {
        bytecount_event_rule(line)
    } else if strip_prefix(line, ">LOG:"@) is Some {
        Some(EventModel::Log { message: splitn(strip_prefix(line, ">LOG:"@)->0, ',', 3).last() })
    } else if has(line, "END") && has(line, "exit") {
        Some(EventModel::ProcessExited)
    } else {
        None
    }
}

fn state_event(v: &[char]) -> (r: Option<ManagementEvent>)
    ensures
        event_view(r) == state_event_rule(v@),
{
    let rest = match strip_prefix_str(v, ">STATE:") {
        Some(rest) => rest,
        None => return None,
    };
    let parts = splitn_chars(rest.as_slice(), ',', 8);
    if parts.len() < 2 {
        return None;
    }
    let ghost ps = views(parts@);
    assert(ps[1] == parts@[1]@);
    let name = string_of(parts[1].as_slice());
    let description = if parts.len() > 2 {
        assert(ps[2] == parts@[2]@);
        string_of(parts[2].as_slice())
    } else {
        String::new()
    };
    let local_ip = if parts.len() > 3 && parts[3].len() > 0 {
        assert(ps[3] == parts@[3]@);
        Some(string_of(parts[3].as_slice()))
    } else {
        proof {
            if parts.len() > 3 {
                assert(ps[3] == parts@[3]@);
            }
        }
        None
    };
    Some(ManagementEvent::State { name, description, local_ip })
}

fn bytecount_event(v: &[char]) -> (r: Option<ManagementEvent>)
    ensures
        event_view(r) == bytecount_event_rule(v@),
{
    let rest = match strip_prefix_str(v, ">BYTECOUNT:") {
        Some(rest) => rest,
        None => return None,
    };
    let parts = splitn_chars(rest.as_slice(), ',', 2);
    if parts.len() != 2 {
        return None;
    }
    let ghost ps = views(parts@);
    assert(ps[0] == parts@[0]@);
    assert(ps[1] == parts@[1]@);
    let bi = parse_unsigned_chars(parts[0].as_slice(), 10, u64::MAX);
    let bo = parse_unsigned_chars(parts[1].as_slice(), 10, u64::MAX);
    match (bi, bo) {
        (Some(bytes_in), Some(bytes_out)) => Some(ManagementEvent::ByteCount { bytes_in, bytes_out }),
        _ => None,
    }
}

/// Parses a single line from the management interface.
pub fn parse_management_line(line: &str) -> (r: Option<ManagementEvent>)
    ensures
        event_view(r) == event_rule(line@),
{
    let v = chars_of(line);
    let st = state_event(v.as_slice());
    if st.is_some() {
        return st;
    }
    let bc = bytecount_event(v.as_slice());
    if bc.is_some() {
        return bc;
    }
    if let Some(rest) = strip_prefix_str(v.as_slice(), ">LOG:") {
        let parts = splitn_chars(rest.as_slice(), ',', 3);
        let ghost ps = views(parts@);
        proof {
            crate::text::lemma_splitn_nonempty(rest@, ',', 3);
        }
        let last = parts.len() - 1;
        assert(ps.last() == parts@[last as int]@);
        let message = string_of(parts[last].as_slice());
        return Some(ManagementEvent::Log { message });
    }
    if contains_str(v.as_slice(), "END") && contains_str(v.as_slice(), "exit") {
        return Some(ManagementEvent::ProcessExited);
    }
    None
}

// ───────────────────────────── states ─────────────────────────────

/// The stage for an upper-cased management state name.
pub open spec fn stage_for_state_rule(u: Seq<char>) -> Seq<char> {
    if u == "CONNECTED"@ {
        "connected"@
    } else if u == "CONNECTING"@ {
        "connecting"@
    } else if u == "WAIT"@ {
        "wait_connection"@
    } else if u == "AUTH"@ {
        "authenticating"@
    } else if u == "GET_CONFIG"@ {
        "get_config"@
    } else if u == "ASSIGN_IP"@ {
        "assign_ip"@
    } else if u == "ADD_ROUTES"@ {
        "connecting"@
    } else if u == "RECONNECTING"@ {
        "connecting"@
    } else if u == "EXITING"@ {
        "disconnecting"@
    } else if u == "RESOLVE"@ {
        "resolve"@
    } else if u == "TCP_CONNECT"@ {
        "tcp_connect"@
    } else if u == "UDP_CONNECT"@ {
        "udp_connect"@
    } else {
        "unknown"@
    }
}

fn equals_lit(u: &String, lit: &str) -> (r: bool)
    ensures
        r == (u@ == lit@),
{
    *u == owned(lit)
}

/// The stage for an already upper-cased management state name.
pub fn stage_for_upper_state(u: &str) -> (r: String)
    ensures
        r@ == stage_for_state_rule(u@),
{
    let u = owned(u);
    if equals_lit(&u, "CONNECTED") {
        owned("connected")
    } else if equals_lit(&u, "CONNECTING") {
        owned("connecting")
    } else if equals_lit(&u, "WAIT") {
        owned("wait_connection")
    } else if equals_lit(&u, "AUTH") {
        owned("authenticating")
    } else if equals_lit(&u, "GET_CONFIG") {
        owned("get_config")
    } else if equals_lit(&u, "ASSIGN_IP") {
        owned("assign_ip")
    } else if equals_lit(&u, "ADD_ROUTES") {
        owned("connecting")
    } else if equals_lit(&u, "RECONNECTING") {
        owned("connecting")
    } else if equals_lit(&u, "EXITING") {
        owned("disconnecting")
    } else if equals_lit(&u, "RESOLVE") {
        owned("resolve")
    } else if equals_lit(&u, "TCP_CONNECT") {
        owned("tcp_connect")
    } else if equals_lit(&u, "UDP_CONNECT") {
        owned("udp_connect")
    } else {
        owned("unknown")
    }
}

/// Maps a management state name to the stage shown to the application.
pub fn map_mgmt_state(state: &str) -> (r: String)
    ensures
        r@ == stage_for_state_rule(uppercase(state@)),
        is_ascii_text(state@) ==> r@ == stage_for_state_rule(ascii_upper(state@)),
{
    let u = to_uppercase(state);
    stage_for_upper_state(u.as_str())
}

// ───────────────────────────── the reader ─────────────────────────────

/// What the management reader does with one line.
pub enum MgmtAction {
    /// Write these bytes (as text) to the management socket.
    Reply(String),
    /// Set the connection stage.
    SetStage(String),
    /// Set the byte counters.
    SetBytes { bytes_in: u64, bytes_out: u64 },
    /// The process is exiting: set the stage to `disconnected` and stop
    /// reading.
    Finish,
    /// Nothing to do.
    Nothing,
}

/// The mathematical value of an action.
pub enum ActionModel {
    Reply(Seq<char>),
    SetStage(Seq<char>),
    SetBytes { bytes_in: u64, bytes_out: u64 },
    Finish,
    Nothing,
}

impl View for MgmtAction {
    type V = ActionModel;

    open spec fn view(&self) -> ActionModel {
        match self {
            MgmtAction::Reply(t) => ActionModel::Reply(t@),
            MgmtAction::SetStage(s) => ActionModel::SetStage(s@),
            MgmtAction::SetBytes { bytes_in, bytes_out } => ActionModel::SetBytes {
                bytes_in: *bytes_in,
                bytes_out: *bytes_out,
            },
            MgmtAction::Finish => ActionModel::Finish,
            MgmtAction::Nothing => ActionModel::Nothing,
        }
    }
}

/// The commands that switch on real-time notifications once authenticated.
pub open spec fn enable_notifications_text() -> Seq<char> {
    "state on\n"@ + "bytecount 2\n"@
}

/// What an authenticated reader does with a line.
pub open spec fn event_action_rule(line: Seq<char>) -> ActionModel {
    match event_rule(line) {
        Some(EventModel::State { name, .. }) => ActionModel::SetStage(
            stage_for_state_rule(uppercase(name)),
        ),
        Some(EventModel::ByteCount { bytes_in, bytes_out }) => ActionModel::SetBytes {
            bytes_in,
            bytes_out,
        },
        Some(EventModel::ProcessExited) => ActionModel::Finish,
        _ => ActionModel::Nothing,
    }
}

/// The step of the reader: `(authenticated after, action)`.
pub open spec fn reader_rule(authenticated: bool, line: Seq<char>, password: Seq<char>) -> (
    bool,
    ActionModel,
) {
    if !authenticated {
        if has(line, "PASSWORD") || has(line, "password") {
            (false, ActionModel::Reply(password + "\n"@))
        } else if has(line, "SUCCESS") || has(line, ">INFO") {
            (true, ActionModel::Reply(enable_notifications_text()))
        } else {
            (false, ActionModel::Nothing)
        }
    } else {
        (true, event_action_rule(line))
    }
}

/// The state of the task that reads the management socket: first the
/// password exchange, then the real-time notifications.
pub struct MgmtReader {
    pub authenticated: bool,
}

impl MgmtReader {
    pub fn new() -> (r: MgmtReader)
        ensures
            !r.authenticated,
    {
        MgmtReader { authenticated: false }
    }

    /// Handles one line read from the management interface.
    pub fn handle_line(&mut self, line: &str, password: &str) -> (a: MgmtAction)
        ensures
            (final(self).authenticated, a@) == reader_rule(old(self).authenticated, line@, password@),
    {
        let v = chars_of(line);
        if !self.authenticated {
            if contains_str(v.as_slice(), "PASSWORD") || contains_str(v.as_slice(), "password") {
                let mut reply = owned(password);
                push_str(&mut reply, "\n");
                return MgmtAction::Reply(reply);
            }
            if contains_str(v.as_slice(), "SUCCESS") || contains_str(v.as_slice(), ">INFO") {
                self.authenticated = true;
                let mut reply = owned("state on\n");
                push_str(&mut reply, "bytecount 2\n");
                return MgmtAction::Reply(reply);
            }
            return MgmtAction::Nothing;
        }
        match parse_management_line(line) {
            Some(ManagementEvent::State { name, .. }) => MgmtAction::SetStage(
                map_mgmt_state(name.as_str()),
            ),
            Some(ManagementEvent::ByteCount { bytes_in, bytes_out }) => MgmtAction::SetBytes {
                bytes_in,
                bytes_out,
            },
            Some(ManagementEvent::ProcessExited) => MgmtAction::Finish,
            _ => MgmtAction::Nothing,
        }
    }
}

/// The stage after the management socket closed: `disconnected`.
pub fn stage_after_eof(stage: &mut String)
    ensures
        final(stage)@ == "disconnected"@,
{
    let disconnected = owned("disconnected");
    if *stage != disconnected {
        *stage = disconnected;
    }
}

// ───────────────────────────── commands ─────────────────────────────

/// The text of a management command line.
pub fn command_line(cmd: &str) -> (r: String)
    ensures
        r@ == cmd@ + "\n"@,
{
    let mut r = owned(cmd);
    push_str(&mut r, "\n");
    r
}

/// The command that asks OpenVPN to disconnect gracefully.
pub fn terminate_command() -> (r: String)
    ensures
        r@ == "signal SIGTERM\n"@,
{
    owned("signal SIGTERM\n")
}

/// The address of the management interface on the loopback interface.
pub fn management_address(port: u16) -> (r: String)
    ensures
        r@ == "127.0.0.1:"@ + decimal(port as nat),
{
    let mut r = owned("127.0.0.1:");
    push_decimal(&mut r, port as u64);
    r
}

/// Whether a failed connection attempt number `attempt` (counting from 1) is
/// followed by another one.
pub fn retry_after_failure(attempt: u32, max_attempts: u32) -> (r: bool)
    ensures
        r == (attempt < max_attempts),
{
    attempt < max_attempts
}

/// The error after the last connection attempt failed with `cause`.
pub fn connection_failed_error(max_attempts: u32, port: u16, cause: &str) -> (r: OpenVpnError)
    ensures
        r matches OpenVpnError::ConnectionFailed(m) && m@
            == "Management interface connection failed after "@ + decimal(max_attempts as nat)
            + " attempts on port "@ + decimal(port as nat) + ": "@ + cause@,
{
    let mut m = owned("Management interface connection failed after ");
    push_decimal(&mut m, max_attempts as u64);
    push_str(&mut m, " attempts on port ");
    push_decimal(&mut m, port as u64);
    push_str(&mut m, ": ");
    push_str(&mut m, cause);
    OpenVpnError::ConnectionFailed(m)
}

// ───────────────────────────── password ─────────────────────────────

/// `rand::rngs::ThreadRng`, carried through unchanged.
#[verifier::external_type_specification]
#[verifier::external_body]
pub struct ExThreadRng(rand::rngs::ThreadRng);

/// Calls `rand::thread_rng`.
#[verifier::external_body]
fn thread_rng() -> rand::rngs::ThreadRng {
    rand::thread_rng()
}

/// Calls `Rng::gen_range(0..upper)`: a value below `upper`, drawn at random.
#[verifier::external_body]
fn gen_below(rng: &mut rand::rngs::ThreadRng, upper: u8) -> (r: u8)
    requires
        upper > 0,
    ensures
        r < upper,
{
    rng.gen_range(0..upper)
}

/// Length of a management password.
pub const MGMT_PASSWORD_LEN: usize = 24;

/// A character of a management password: a digit or a lower-case letter.
pub open spec fn is_password_char(c: char) -> bool {
    ('0' <= c && c <= '9') || ('a' <= c && c <= 'z')
}

/// The password character for a draw `idx < 36`.
pub fn password_char(idx: u8) -> (c: char)
    requires
        idx < 36,
    ensures
        is_password_char(c),
        idx < 10 ==> c as u32 == '0' as u32 + idx,
        idx >= 10 ==> c as u32 == 'a' as u32 + idx - 10,
{
    if idx < 10 {
        (48u8 + idx) as char
    } else {
        (97u8 + idx - 10) as char
    }
}

/// A random password of 24 digits and lower-case letters for the
/// management interface.
pub fn generate_mgmt_password() -> (r: String)
    ensures
        r@.len() == MGMT_PASSWORD_LEN,
        forall|i: int| 0 <= i < r@.len() ==> is_password_char(#[trigger] r@[i]),
{
    let mut rng = thread_rng();
    let mut r = String::new();
    let mut i: usize = 0;
    while i < MGMT_PASSWORD_LEN
        invariant
            i <= MGMT_PASSWORD_LEN,
            r@.len() == i,
            forall|k: int| 0 <= k < r@.len() ==> is_password_char(#[trigger] r@[k]),
        decreases MGMT_PASSWORD_LEN - i,
    {
        let idx = gen_below(&mut rng, 36);
        let c = password_char(idx);
        let ghost before = r@;
        push_char(&mut r, c);
        assert forall|k: int| 0 <= k < r@.len() implies is_password_char(#[trigger] r@[k]) by {
            if k < before.len() {
                assert(r@[k] == before[k]);
            }
        }
        i = i + 1;
    }
    r
}

// ───────────────────────────── laws ─────────────────────────────

/// A `>BYTECOUNT:` line with two decimal counters is read as exactly those
/// counters.
pub proof fn lemma_bytecount_line(bytes_in: u64, bytes_out: u64)
    ensures
        event_rule(">BYTECOUNT:"@ + decimal(bytes_in as nat) + ","@ + decimal(bytes_out as nat))
            == Some(EventModel::ByteCount { bytes_in, bytes_out }),
{
    reveal_strlit(">BYTECOUNT:");
    reveal_strlit(">STATE:");
    reveal_strlit(",");
    let a = decimal(bytes_in as nat);
    let b = decimal(bytes_out as nat);
    let p = ">BYTECOUNT:"@;
    let line = p + ","@.take(0) + a + ","@ + b;
    assert(line =~= p + a + ","@ + b);
    let l = p + a + ","@ + b;
    assert(!seq_starts_with(l, ">STATE:"@)) by {
        assert(l.take(7)[1] == 'B');
    }
    assert(seq_starts_with(l, p)) by {
        assert(l.take(11) =~= p);
    }
    let rest = a + seq![','] + b;
    assert(l.skip(11) =~= rest);
    lemma_decimal_digits(bytes_in as nat);
    lemma_decimal_digits(bytes_out as nat);
    assert forall|i: int| 0 <= i < a.len() implies #[trigger] a[i] != ',' by {
        assert(is_digit(a[i]));
    }
    assert forall|i: int| 0 <= i < b.len() implies #[trigger] b[i] != ',' by {
        assert(is_digit(b[i]));
    }
    lemma_splitn_acc_sep(a, ',', b, 2, seq![]);
    lemma_splitn_acc_last(b, ',', 1, seq![]);
    assert(Seq::<char>::empty() + a =~= a);
    assert(Seq::<char>::empty() + b =~= b);
    assert(splitn(rest, ',', 2) =~= seq![a, b]);
    lemma_parse_decimal(bytes_in as nat, u64::MAX as nat);
    lemma_parse_decimal(bytes_out as nat, u64::MAX as nat);
}

/// A `>STATE:` line whose time, state name, description and local address
/// hold no comma is read as exactly that name and description, with the
/// address when it is not empty, whatever fields follow.
pub proof fn lemma_state_line(
    time: Seq<char>,
    name: Seq<char>,
    description: Seq<char>,
    local_ip: Seq<char>,
    rest: Seq<char>,
)
    requires
        free_of(time, ','),
        free_of(name, ','),
        free_of(description, ','),
        free_of(local_ip, ','),
    ensures
        event_rule(
            ">STATE:"@ + time + ","@ + name + ","@ + description + ","@ + local_ip + ","@ + rest,
        ) == Some(
            EventModel::State {
                name,
                description,
                local_ip: if local_ip.len() > 0 {
                    Some(local_ip)
                } else {
                    None
                },
            },
        ),
{
    reveal_strlit(">STATE:");
    reveal_strlit(",");
    let p = ">STATE:"@;
    let e = Seq::<char>::empty();
    let r3 = local_ip + seq![','] + rest;
    let r2 = description + seq![','] + r3;
    let r1 = name + seq![','] + r2;
    let body = time + seq![','] + r1;
    let line = p + time + ","@ + name + ","@ + description + ","@ + local_ip + ","@ + rest;
    assert(line =~= p + body);
    assert(seq_starts_with(line, p)) by {
        assert(line.take(7) =~= p);
    }
    assert(line.skip(7) =~= body);
    lemma_splitn_acc_sep(time, ',', r1, 8, e);
    lemma_splitn_acc_sep(name, ',', r2, 7, e);
    lemma_splitn_acc_sep(description, ',', r3, 6, e);
    lemma_splitn_acc_sep(local_ip, ',', rest, 5, e);
    crate::text::lemma_splitn_nonempty(rest, ',', 4);
    assert(e + time =~= time);
    assert(e + name =~= name);
    assert(e + description =~= description);
    assert(e + local_ip =~= local_ip);
    let parts = splitn(body, ',', 8);
    assert(parts =~= seq![time, name, description, local_ip] + splitn(rest, ',', 4));
    assert(parts[1] == name);
    assert(parts[2] == description);
    assert(parts[3] == local_ip);
}

/// Mapping an ASCII state name does not depend on its case.
pub proof fn lemma_state_name_ignores_case(name: Seq<char>)
    requires
        is_ascii_text(name),
    ensures
        is_ascii_text(ascii_lower(name)),
        is_ascii_text(ascii_upper(name)),
        stage_for_state_rule(ascii_upper(ascii_lower(name))) == stage_for_state_rule(ascii_upper(name)),
        stage_for_state_rule(ascii_upper(ascii_upper(name))) == stage_for_state_rule(ascii_upper(name)),
{
    lemma_ascii_case_folds(name);
}

/// The management state names and the stages they map to; every other
/// name maps to `unknown`.
pub proof fn lemma_state_names(u: Seq<char>)
    ensures
        stage_for_state_rule("CONNECTED"@) == "connected"@,
        stage_for_state_rule("CONNECTING"@) == "connecting"@,
        stage_for_state_rule("WAIT"@) == "wait_connection"@,
        stage_for_state_rule("AUTH"@) == "authenticating"@,
        stage_for_state_rule("GET_CONFIG"@) == "get_config"@,
        stage_for_state_rule("ASSIGN_IP"@) == "assign_ip"@,
        stage_for_state_rule("ADD_ROUTES"@) == "connecting"@,
        stage_for_state_rule("RECONNECTING"@) == "connecting"@,
        stage_for_state_rule("EXITING"@) == "disconnecting"@,
        stage_for_state_rule("RESOLVE"@) == "resolve"@,
        stage_for_state_rule("TCP_CONNECT"@) == "tcp_connect"@,
        stage_for_state_rule("UDP_CONNECT"@) == "udp_connect"@,
        u != "CONNECTED"@ && u != "CONNECTING"@ && u != "WAIT"@ && u != "AUTH"@ && u
            != "GET_CONFIG"@ && u != "ASSIGN_IP"@ && u != "ADD_ROUTES"@ && u != "RECONNECTING"@
            && u != "EXITING"@ && u != "RESOLVE"@ && u != "TCP_CONNECT"@ && u != "UDP_CONNECT"@
            ==> stage_for_state_rule(u) == "unknown"@,
{
    reveal_strlit("CONNECTED");
    assert("CONNECTED"@.len() == 9 && "CONNECTED"@[0] == 'C' && "CONNECTED"@[1] == 'O' && "CONNECTED"@[2] == 'N');
    reveal_strlit("CONNECTING");
    assert("CONNECTING"@.len() == 10 && "CONNECTING"@[0] == 'C' && "CONNECTING"@[1] == 'O' && "CONNECTING"@[2] == 'N');
    reveal_strlit("WAIT");
    assert("WAIT"@.len() == 4 && "WAIT"@[0] == 'W' && "WAIT"@[1] == 'A' && "WAIT"@[2] == 'I');
    reveal_strlit("AUTH");
    assert("AUTH"@.len() == 4 && "AUTH"@[0] == 'A' && "AUTH"@[1] == 'U' && "AUTH"@[2] == 'T');
    reveal_strlit("GET_CONFIG");
    assert("GET_CONFIG"@.len() == 10 && "GET_CONFIG"@[0] == 'G' && "GET_CONFIG"@[1] == 'E' && "GET_CONFIG"@[2] == 'T');
    reveal_strlit("ASSIGN_IP");
    assert("ASSIGN_IP"@.len() == 9 && "ASSIGN_IP"@[0] == 'A' && "ASSIGN_IP"@[1] == 'S' && "ASSIGN_IP"@[2] == 'S');
    reveal_strlit("ADD_ROUTES");
    assert("ADD_ROUTES"@.len() == 10 && "ADD_ROUTES"@[0] == 'A' && "ADD_ROUTES"@[1] == 'D' && "ADD_ROUTES"@[2] == 'D');
    reveal_strlit("RECONNECTING");
    assert("RECONNECTING"@.len() == 12 && "RECONNECTING"@[0] == 'R' && "RECONNECTING"@[1] == 'E' && "RECONNECTING"@[2] == 'C');
    reveal_strlit("EXITING");
    assert("EXITING"@.len() == 7 && "EXITING"@[0] == 'E' && "EXITING"@[1] == 'X' && "EXITING"@[2] == 'I');
    reveal_strlit("RESOLVE");
    assert("RESOLVE"@.len() == 7 && "RESOLVE"@[0] == 'R' && "RESOLVE"@[1] == 'E' && "RESOLVE"@[2] == 'S');
    reveal_strlit("TCP_CONNECT");
    assert("TCP_CONNECT"@.len() == 11 && "TCP_CONNECT"@[0] == 'T' && "TCP_CONNECT"@[1] == 'C' && "TCP_CONNECT"@[2] == 'P');
    reveal_strlit("UDP_CONNECT");
    assert("UDP_CONNECT"@.len() == 11 && "UDP_CONNECT"@[0] == 'U' && "UDP_CONNECT"@[1] == 'D' && "UDP_CONNECT"@[2] == 'P');
}

/// Once authenticated, the reader stays authenticated and never sends the
/// password (or anything else) again.
pub proof fn lemma_reader_stays_authenticated(line: Seq<char>, password: Seq<char>)
    ensures
        reader_rule(true, line, password).0,
        !(reader_rule(true, line, password).1 is Reply),
{
}

/// Before authentication, the reader only ever answers with the password or
/// with the commands that switch on notifications, and it authenticates
/// exactly when it sends those commands.
pub proof fn lemma_reader_before_authentication(line: Seq<char>, password: Seq<char>)
    ensures
        ({
            let (auth, act) = reader_rule(false, line, password);
            &&& act is Reply ==> (act->Reply_0 == password + "\n"@ || act->Reply_0
                == enable_notifications_text())
            &&& auth <==> (act is Reply && act->Reply_0 == enable_notifications_text() && !(has(
                line,
                "PASSWORD",
            ) || has(line, "password")))
            &&& !(act is SetStage || act is SetBytes || act is Finish)
        }),
{
}

} // verus!
