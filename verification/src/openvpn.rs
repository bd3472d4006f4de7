//! OpenVPN process management: how output lines, log lines and status
//! files move the connection stage and statistics, and the decisions taken
//! while a connection is brought up.

use vstd::prelude::*;
use crate::error::OpenVpnError;
use crate::text::{
    chars_of, contains_str, decimal, find, find_seq, has, is_digit, is_white, join, join_chars,
    lemma_find_from_bounds, lines, lines_of, lowercase, opt_view, owned, parse_unsigned,
    parse_unsigned_chars, push_decimal, push_str, replace_char, replace_chars, seq_starts_with,
    slice_chars, somes, starts_with_str, string_of, strip_prefix, strip_prefix_str, take_into,
    to_lowercase, trim, trim_chars, trim_end, trim_start, views, views_of_strings, is_ascii_text,
    ascii_lower, ascii_upper, lemma_ascii_case_folds, lemma_lines_ascii, lemma_decimal_digits,
    lemma_parse_decimal, lemma_trim_no_white,
};

verus! {

// ───────────────────────────── stage from output ─────────────────────────────

/// A lower-cased line names an explicit failure: of authentication, TLS,
/// name resolution or the connection, an options or certificate error, or a
/// fatal error (`fatal`, but not as part of the `nonfatal` of a non-fatal
/// diagnostic, which must not tear a working tunnel down).
pub open spec fn failure_phrase(l: Seq<char>) -> bool {
    ||| has(l, "auth_failed")
    ||| has(l, "authentication failed")
    ||| has(l, "tls error")
    ||| has(l, "tls handshake failed")
    ||| has(l, "cannot resolve host address")
    ||| has(l, "resolve error")
    ||| has(l, "network is unreachable")
    ||| has(l, "connection timed out")
    ||| has(l, "connection reset")
    ||| has(l, "connection refused")
    ||| has(l, "options error")
    ||| (has(l, "fatal") && !(has(l, "nonfatal")))
    ||| has(l, "certificate verify failed")
    ||| has(l, "verify error")
}

/// A lower-cased line reports a missing or unusable driver.
pub open spec fn driver_failure_phrase(l: Seq<char>) -> bool {
    (has(l, "ovpn-dco") || has(l, "tun/tap")) && (has(l, "cannot allocate tun/tap") || has(
        l,
        "error_gen_failure",
    ) || has(l, "not installed"))
}

/// The stage that a lower-cased output line announces, if any.
#[verifier::opaque]
pub open spec fn stage_rule(l: Seq<char>) -> Option<Seq<char>> {
    if has(l, "initialization sequence completed") {
        Some("connected"@)
    } else if failure_phrase(l) {
        Some("error"@)
    } else if has(l, "connecting") || has(l, "waiting") {
        Some("connecting"@)
    } else if has(l, "disconnecting") || has(l, "exiting") {
        Some("disconnecting"@)
    } else if has(l, "authentication") || has(l, "auth") {
        Some("authenticating"@)
    } else if has(l, "preserving previous tun/tap instance") {
        None
    } else if driver_failure_phrase(l) {
        Some("error"@)
    } else if has(l, "register_dns") || has(l, "warning:") || has(l, "nonfatal") {
        None
    } else if has(l, "error") || has(l, "failed") {
        Some("error"@)
    } else {
        None
    }
}

/// The stage announced by an already lower-cased output line.
pub fn stage_from_lowercase(l: &str) -> (r: Option<String>)
    ensures
        opt_view(r) == stage_rule(l@),
{
    reveal(stage_rule);
    let v = chars_of(l);
    let l = v.as_slice();
    if contains_str(l, "initialization sequence completed") {
        Some(owned("connected"))
    } else if contains_str(l, "auth_failed") || contains_str(l, "authentication failed")
        || contains_str(l, "tls error") || contains_str(l, "tls handshake failed")
        || contains_str(l, "cannot resolve host address") || contains_str(l, "resolve error")
        || contains_str(l, "network is unreachable") || contains_str(l, "connection timed out")
        || contains_str(l, "connection reset") || contains_str(l, "connection refused")
        || contains_str(l, "options error") || (contains_str(l, "fatal") && !contains_str(
        l,
        "nonfatal",
    )) || contains_str(l, "certificate verify failed") || contains_str(l, "verify error") {
        Some(owned("error"))
    } else if contains_str(l, "connecting") || contains_str(l, "waiting") {
        Some(owned("connecting"))
    } else if contains_str(l, "disconnecting") || contains_str(l, "exiting") {
        Some(owned("disconnecting"))
    } else if contains_str(l, "authentication") || contains_str(l, "auth") {
        Some(owned("authenticating"))
    } else if contains_str(l, "preserving previous tun/tap instance") {
        None
    } else if (contains_str(l, "ovpn-dco") || contains_str(l, "tun/tap")) && (contains_str(
        l,
        "cannot allocate tun/tap",
    ) || contains_str(l, "error_gen_failure") || contains_str(l, "not installed")) {
        Some(owned("error"))
    } else if contains_str(l, "register_dns") || contains_str(l, "warning:") || contains_str(
        l,
        "nonfatal",
    ) {
        None
    } else if contains_str(l, "error") || contains_str(l, "failed") {
        Some(owned("error"))
    } else {
        None
    }
}

/// The stage that an OpenVPN output or log line announces, if any.
pub fn parse_stage_from_output(line: &str) -> (r: Option<String>)
    ensures
        opt_view(r) == stage_rule(lowercase(line@)),
        is_ascii_text(line@) ==> opt_view(r) == stage_rule(ascii_lower(line@)),
{
    let lower = to_lowercase(line);
    stage_from_lowercase(lower.as_str())
}

// ───────────────────────────── failure reasons ─────────────────────────────

/// The reason code that a lower-cased line points at.
#[verifier::opaque]
pub open spec fn reason_rule(l: Seq<char>) -> Seq<char> {
    if has(l, "auth_failed") || has(l, "authentication failed") {
        "AUTH_FAILED"@
    } else if has(l, "ovpn-dco") && (has(l, "failed") || has(l, "error") || has(l, "not installed")) {
        "OVPN_DCO_FAILED"@
    } else if has(l, "tap-windows") && (has(l, "failed") || has(l, "not found") || has(
        l,
        "cannot allocate",
    )) {
        "TAP_ADAPTER_MISSING"@
    } else if has(l, "tls handshake failed") || has(l, "tls error") {
        "TLS_FAILED"@
    } else if has(l, "cannot resolve host address") || has(l, "resolve error") {
        "DNS_RESOLVE_FAILED"@
    } else if has(l, "connection timed out") {
        "CONNECT_TIMEOUT"@
    } else if has(l, "connection refused") {
        "CONNECTION_REFUSED"@
    } else if has(l, "certificate verify failed") || has(l, "verify error") {
        "CERT_VERIFY_FAILED"@
    } else if has(l, "network is unreachable") {
        "NETWORK_UNREACHABLE"@
    } else if has(l, "fatal") {
        "FATAL"@
    } else if has(l, "service ipc") || has(l, "pipe") {
        "SERVICE_IPC_FAILED"@
    } else {
        "UNKNOWN"@
    }
}

/// The reason code of an already lower-cased line.
pub fn reason_from_lowercase(l: &str) -> (r: &'static str)
    ensures
        r@ == reason_rule(l@),
{
    reveal(reason_rule);
    let v = chars_of(l);
    let l = v.as_slice();
    if contains_str(l, "auth_failed") || contains_str(l, "authentication failed") {
        "AUTH_FAILED"
    } else if contains_str(l, "ovpn-dco") && (contains_str(l, "failed") || contains_str(l, "error")
        || contains_str(l, "not installed")) {
        "OVPN_DCO_FAILED"
    } else if contains_str(l, "tap-windows") && (contains_str(l, "failed") || contains_str(
        l,
        "not found",
    ) || contains_str(l, "cannot allocate")) {
        "TAP_ADAPTER_MISSING"
    } else if contains_str(l, "tls handshake failed") || contains_str(l, "tls error") {
        "TLS_FAILED"
    } else if contains_str(l, "cannot resolve host address") || contains_str(l, "resolve error") {
        "DNS_RESOLVE_FAILED"
    } else if contains_str(l, "connection timed out") {
        "CONNECT_TIMEOUT"
    } else if contains_str(l, "connection refused") {
        "CONNECTION_REFUSED"
    } else if contains_str(l, "certificate verify failed") || contains_str(l, "verify error") {
        "CERT_VERIFY_FAILED"
    } else if contains_str(l, "network is unreachable") {
        "NETWORK_UNREACHABLE"
    } else if contains_str(l, "fatal") {
        "FATAL"
    } else if contains_str(l, "service ipc") || contains_str(l, "pipe") {
        "SERVICE_IPC_FAILED"
    } else {
        "UNKNOWN"
    }
}

/// The reason code that a line points at, used in stage-transition records.
pub fn classify_reason(line: &str) -> (r: &'static str)
    ensures
        r@ == reason_rule(lowercase(line@)),
        is_ascii_text(line@) ==> r@ == reason_rule(ascii_lower(line@)),
{
    let lower = to_lowercase(line);
    reason_from_lowercase(lower.as_str())
}

/// A lower-cased log line reports that the DCO driver (or the adapter it
/// needs) could not be used.
#[verifier::opaque]
pub open spec fn dco_failure_rule(l: Seq<char>) -> bool {
    if has(l, "cannot allocate tun/tap") {
        true
    } else if has(l, "tap-windows6") && has(l, "currently in use") {
        true
    } else {
        (has(l, "ovpn-dco") || has(l, "dco version: n/a") || has(l, "data channel offload")) && (
        has(l, "failed") || has(l, "error") || has(l, "not found") || has(l, "not installed")
            || has(l, "cannot"))
    }
}

/// Whether an already lower-cased line reports a DCO driver failure.
pub fn dco_failure_from_lowercase(l: &str) -> (r: bool)
    ensures
        r == dco_failure_rule(l@),
{
    reveal(dco_failure_rule);
    let v = chars_of(l);
    let l = v.as_slice();
    if contains_str(l, "cannot allocate tun/tap") {
        return true;
    }
    if contains_str(l, "tap-windows6") && contains_str(l, "currently in use") {
        return true;
    }
    (contains_str(l, "ovpn-dco") || contains_str(l, "dco version: n/a") || contains_str(
        l,
        "data channel offload",
    )) && (contains_str(l, "failed") || contains_str(l, "error") || contains_str(l, "not found")
        || contains_str(l, "not installed") || contains_str(l, "cannot"))
}

/// Whether a log line reports a DCO driver failure.
pub fn is_dco_failure_line(line: &str) -> (r: bool)
    ensures
        r == dco_failure_rule(lowercase(line@)),
        is_ascii_text(line@) ==> r == dco_failure_rule(ascii_lower(line@)),
{
    let lower = to_lowercase(line);
    dco_failure_from_lowercase(lower.as_str())
}

// ───────────────────────────── drivers and configuration ─────────────────────────────

/// Which Windows driver a connection attempt asks OpenVPN to use.
#[derive(Clone, Copy, PartialEq, Eq, Debug, Structural)]
pub enum DriverStrategy {
    OvpnDco,
    TapWindows6,
}

/// How a service-launched connection attempt turned out.
#[derive(Clone, Copy, PartialEq, Eq, Debug, Structural)]
pub enum ConnectOutcome {
    Connected,
    DriverFailed,
    FatalError,
    StillRunning,
}

/// A lower-cased, trimmed configuration line that selects or disables a
/// driver.
pub open spec fn is_driver_directive(lt: Seq<char>) -> bool {
    seq_starts_with(lt, "disable-dco"@) || seq_starts_with(lt, "windows-driver"@)
}

/// A configuration line that survives preprocessing.
pub open spec fn keeps_line(line: Seq<char>) -> bool {
    !is_driver_directive(lowercase(trim(line)))
}

/// The lines kept by preprocessing, in order.
pub open spec fn kept_lines(ls: Seq<Seq<char>>) -> Seq<Seq<char>> {
    ls.filter(|line: Seq<char>| keeps_line(line))
}

/// Preprocessing drops exactly the driver directives: every kept line is a
/// line that survives, and every surviving line of the configuration is
/// kept.
pub proof fn lemma_kept_lines(config: Seq<char>)
    ensures
        forall|k: int|
            0 <= k < kept_lines(lines_of(config)).len() ==> keeps_line(
                #[trigger] kept_lines(lines_of(config))[k],
            ),
        forall|i: int|
            0 <= i < lines_of(config).len() && keeps_line(#[trigger] lines_of(config)[i])
                ==> kept_lines(lines_of(config)).contains(lines_of(config)[i]),
{
    lines_of(config).filter_lemma(|line: Seq<char>| keeps_line(line));
}

/// The configuration written for a driver: every driver directive removed,
/// `disable-dco` appended for tap-windows6, lines joined with `\n`.
pub open spec fn preprocess_rule(config: Seq<char>, strategy: DriverStrategy) -> Seq<char> {
    driver_config(kept_lines(lines_of(config)), strategy)
}

/// The kept lines, `disable-dco` appended for tap-windows6, joined with `\n`.
pub open spec fn driver_config(kept: Seq<Seq<char>>, strategy: DriverStrategy) -> Seq<char> {
    let all = if strategy == DriverStrategy::TapWindows6 {
        kept.push("disable-dco"@)
    } else {
        kept
    };
    join(all, "\n"@)
}

/// For an ASCII line, surviving preprocessing with the ASCII lower case.
pub open spec fn keeps_ascii_line(line: Seq<char>) -> bool {
    !is_driver_directive(ascii_lower(trim(line)))
}

/// The configuration written for a driver, for an ASCII configuration: the
/// same rewrite, with the directives recognised in ASCII lower case.
pub open spec fn preprocess_ascii_rule(config: Seq<char>, strategy: DriverStrategy) -> Seq<char> {
    driver_config(lines_of(config).filter(|line: Seq<char>| keeps_ascii_line(line)), strategy)
}

/// Whether an already lower-cased, trimmed line is a driver directive.
pub fn is_driver_directive_lowercase(lt: &str) -> (r: bool)
    ensures
        r == is_driver_directive(lt@),
{
    let v = chars_of(lt);
    starts_with_str(v.as_slice(), "disable-dco") || starts_with_str(v.as_slice(), "windows-driver")
}

/// Rewrites a configuration for the given driver strategy.
pub fn preprocess_config_for_driver(config: &str, strategy: DriverStrategy) -> (r: String)
    ensures
        r@ == preprocess_rule(config@, strategy),
        is_ascii_text(config@) ==> r@ == preprocess_ascii_rule(config@, strategy),
{
    let cv = chars_of(config);
    let ls = lines(cv.as_slice());
    let mut out: Vec<Vec<char>> = Vec::new();
    let mut i: usize = 0;
    while i < ls.len()
        invariant
            i <= ls.len(),
            views(ls@) == lines_of(config@),
            views(out@) == kept_lines(views(ls@).take(i as int)),
            is_ascii_text(config@) ==> views(out@) == views(ls@).take(i as int).filter(
                |line: Seq<char>| keeps_ascii_line(line),
            ),
        decreases ls.len() - i,
    {
        let line = &ls[i];
        proof {
            if is_ascii_text(config@) {
                lemma_lines_ascii(config@);
                assert(views(ls@)[i as int] == line@);
                lemma_ascii_trim(line@);
            }
        }
        let t = trim_chars(line.as_slice());
        let ts = string_of(t.as_slice());
        let lower = to_lowercase(ts.as_str());
        let ghost pre = views(ls@).take(i as int);
        let ghost next = views(ls@).take(i + 1);
        assert(next.drop_last() =~= pre);
        assert(next.last() == line@);
        proof {
            reveal(Seq::filter);
        }
        if !is_driver_directive_lowercase(lower.as_str()) {
            let copy = slice_chars(line.as_slice(), 0, line.len());
            assert(copy@ =~= line@);
            let ghost before = views(out@);
            out.push(copy);
            assert(views(out@) =~= before.push(line@));
        }
        i = i + 1;
    }
    assert(views(ls@).take(ls.len() as int) =~= views(ls@));
    if strategy == DriverStrategy::TapWindows6 {
        let ghost before = views(out@);
        let extra = chars_of("disable-dco");
        out.push(extra);
        assert(views(out@) =~= before.push("disable-dco"@));
    }
    join_chars(&out, "\n")
}

/// The view of an optional text.
pub open spec fn opt_str_view(o: Option<&str>) -> Option<Seq<char>> {
    match o {
        Some(s) => Some(s@),
        None => None,
    }
}

/// The command line that the Interactive Service passes to `openvpn.exe`.
pub open spec fn cli_options_rule(
    config_file: Seq<char>,
    auth_file: Option<Seq<char>>,
    status_file: Seq<char>,
    log_file: Seq<char>,
    strategy: DriverStrategy,
) -> Seq<char> {
    "--config \""@ + config_file + "\""@ + (match auth_file {
        Some(a) => " --auth-user-pass \""@ + a + "\""@,
        None => seq![],
    }) + " --verb 4"@ + " --status \""@ + status_file + "\" 2"@ + " --log \""@ + log_file
        + "\""@ + (match strategy {
        DriverStrategy::OvpnDco => " --windows-driver ovpn-dco"@,
        DriverStrategy::TapWindows6 => " --windows-driver tap-windows6"@,
    })
}

/// Builds the `openvpn.exe` options for a service launch (paths as shown
/// by `Path::display`).
pub fn build_service_cli_options(
    config_file: &str,
    auth_file: Option<&str>,
    status_file: &str,
    log_file: &str,
    strategy: DriverStrategy,
) -> (r: String)
    ensures
        r@ == cli_options_rule(config_file@, opt_str_view(auth_file), status_file@, log_file@, strategy),
{
    let mut opts = String::new();
    push_str(&mut opts, "--config \"");
    push_str(&mut opts, config_file);
    push_str(&mut opts, "\"");
    let ghost head = opts@;
    match auth_file {
        Some(a) => {
            push_str(&mut opts, " --auth-user-pass \"");
            push_str(&mut opts, a);
            push_str(&mut opts, "\"");
        },
        None => {},
    }
    push_str(&mut opts, " --verb 4");
    push_str(&mut opts, " --status \"");
    push_str(&mut opts, status_file);
    push_str(&mut opts, "\" 2");
    push_str(&mut opts, " --log \"");
    push_str(&mut opts, log_file);
    push_str(&mut opts, "\"");
    match strategy {
        DriverStrategy::OvpnDco => push_str(&mut opts, " --windows-driver ovpn-dco"),
        DriverStrategy::TapWindows6 => push_str(&mut opts, " --windows-driver tap-windows6"),
    }
    assert(opts@ =~= cli_options_rule(config_file@, opt_str_view(auth_file), status_file@, log_file@, strategy));
    opts
}

/// The label of a driver strategy in diagnostic records.
pub fn driver_strategy_label(strategy: DriverStrategy) -> (r: &'static str)
    ensures
        r@ == (match strategy {
            DriverStrategy::OvpnDco => "ovpn-dco_via_service"@,
            DriverStrategy::TapWindows6 => "tap-windows6_fallback"@,
        }),
{
    match strategy {
        DriverStrategy::OvpnDco => "ovpn-dco_via_service",
        DriverStrategy::TapWindows6 => "tap-windows6_fallback",
    }
}

/// The driver name recorded in the statistics.
pub fn driver_name(strategy: DriverStrategy) -> (r: &'static str)
    ensures
        r@ == (match strategy {
            DriverStrategy::OvpnDco => "ovpn-dco"@,
            DriverStrategy::TapWindows6 => "tap-windows6"@,
        }),
{
    match strategy {
        DriverStrategy::OvpnDco => "ovpn-dco",
        DriverStrategy::TapWindows6 => "tap-windows6",
    }
}

// ───────────────────────────── statistics ─────────────────────────────

/// `std::time::SystemTime`, carried through unchanged.
#[verifier::external_type_specification]
#[verifier::external_body]
pub struct ExSystemTime(std::time::SystemTime);

/// VPN connection statistics.
#[derive(Clone)]
pub struct VpnStats {
    pub byte_in: u64,
    pub byte_out: u64,
    pub packets_in: u64,
    pub packets_out: u64,
    pub connected_on: Option<std::time::SystemTime>,
    /// Active Windows driver: "ovpn-dco" or "tap-windows6".
    pub windows_driver: Option<String>,
    /// How openvpn.exe was launched: "service" or "direct".
    pub windows_connect_mode: Option<String>,
}

/// Statistics with every counter at zero and nothing recorded.
pub open spec fn is_fresh_stats(s: VpnStats) -> bool {
    &&& s.byte_in == 0
    &&& s.byte_out == 0
    &&& s.packets_in == 0
    &&& s.packets_out == 0
    &&& s.connected_on is None
    &&& s.windows_driver is None
    &&& s.windows_connect_mode is None
}

impl Default for VpnStats {
    fn default() -> (r: Self)
        ensures
            is_fresh_stats(r),
    {
        VpnStats {
            byte_in: 0,
            byte_out: 0,
            packets_in: 0,
            packets_out: 0,
            connected_on: None,
            windows_driver: None,
            windows_connect_mode: None,
        }
    }
}

/// `s` with the connection time set to `t`.
pub open spec fn with_connected_on(s: VpnStats, t: std::time::SystemTime) -> VpnStats {
    VpnStats { connected_on: Some(t), ..s }
}

/// `s` with the byte counters set.
pub open spec fn with_bytes(s: VpnStats, byte_in: u64, byte_out: u64) -> VpnStats {
    VpnStats { byte_in, byte_out, ..s }
}

/// What a stage change to `new_stage` does to the statistics: the first
/// move to `connected` records the time.
pub open spec fn stats_after_stage(s: VpnStats, new_stage: Seq<char>, now: std::time::SystemTime) -> VpnStats {
    if new_stage == "connected"@ && s.connected_on is None {
        with_connected_on(s, now)
    } else {
        s
    }
}

/// Moves the stage to `new_stage` when it differs from the current one;
/// returns the previous stage when it changed.
pub fn set_stage(
    stage: &mut String,
    stats: &mut VpnStats,
    new_stage: String,
    now: std::time::SystemTime,
) -> (r: Option<String>)
    ensures
        new_stage@ != old(stage)@ ==> {
            &&& final(stage)@ == new_stage@
            &&& opt_view(r) == Some(old(stage)@)
            &&& *final(stats) == stats_after_stage(*old(stats), new_stage@, now)
        },
        new_stage@ == old(stage)@ ==> {
            &&& final(stage)@ == old(stage)@
            &&& r is None
            &&& *final(stats) == *old(stats)
        },
{
    if *stage == new_stage {
        return None;
    }
    let connected = owned("connected");
    let becomes_connected = new_stage == connected;
    let previous = stage.clone();
    *stage = new_stage;
    if becomes_connected && stats.connected_on.is_none() {
        stats.connected_on = Some(now);
    }
    Some(previous)
}

/// The stage after an output line: the announced stage, if any.
pub open spec fn stage_after_line(stage: Seq<char>, line: Seq<char>) -> Seq<char> {
    match stage_rule(lowercase(line)) {
        Some(n) => n,
        None => stage,
    }
}

/// Applies an OpenVPN output or log line to the stage (and to the
/// connection time on the first move to `connected`).  Returns the previous
/// stage when the stage changed.
pub fn observe_output_line(
    stage: &mut String,
    stats: &mut VpnStats,
    line: &str,
    now: std::time::SystemTime,
) -> (r: Option<String>)
    ensures
        final(stage)@ == stage_after_line(old(stage)@, line@),
        *final(stats) == (if final(stage)@ != old(stage)@ {
            stats_after_stage(*old(stats), final(stage)@, now)
        } else {
            *old(stats)
        }),
        r is Some <==> final(stage)@ != old(stage)@,
        r is Some ==> opt_view(r) == Some(old(stage)@),
{
    match parse_stage_from_output(line) {
        Some(new_stage) => set_stage(stage, stats, new_stage, now),
        None => None,
    }
}

// ───────────────────────────── byte counters ─────────────────────────────

/// `s` without its leading non-digits.
pub open spec fn skip_non_digits(s: Seq<char>) -> Seq<char>
    decreases s.len(),
{
    if s.len() > 0 && !is_digit(s[0]) {
        skip_non_digits(s.drop_first())
    } else {
        s
    }
}

/// The digits of the leading run of digits and commas of `s`.
pub open spec fn digit_run(s: Seq<char>) -> Seq<char>
    decreases s.len(),
{
    if s.len() > 0 && (is_digit(s[0]) || s[0] == ',') {
        (if is_digit(s[0]) {
            seq![s[0]]
        } else {
            seq![]
        }) + digit_run(s.drop_first())
    } else {
        seq![]
    }
}

/// The number written after the first `keyword` in `line`: the first run of
/// digits (commas allowed inside) after the keyword, when it fits a `u64`.
pub open spec fn number_after_rule(line: Seq<char>, keyword: Seq<char>) -> Option<u64> {
    match find_seq(line, keyword) {
        None => None,
        Some(p) => {
            let ds = digit_run(skip_non_digits(line.skip(p + keyword.len())));
            if ds.len() == 0 {
                None
            } else {
                match parse_unsigned(ds, 10, u64::MAX as nat) {
                    Some(n) => Some(n as u64),
                    None => None,
                }
            }
        },
    }
}

/// The number written after `keyword` in `line`.
pub fn extract_number_after_keyword(line: &str, keyword: &str) -> (r: Option<u64>)
    ensures
        r == number_after_rule(line@, keyword@),
{
    let lv = chars_of(line);
    let kv = chars_of(keyword);
    let pos = match find(lv.as_slice(), kv.as_slice()) {
        Some(p) => p,
        None => return None,
    };
    proof {
        lemma_find_from_bounds(lv@, kv@, 0);
        assert(crate::text::matches_at(lv@, kv@, pos as int));
        assert(pos + kv@.len() <= lv@.len());
    }
    assert(pos + kv.len() <= lv.len());
    let mut j: usize = pos + kv.len();
    let ghost after = lv@.skip(j as int);
    assert(lv@.skip(j as int) =~= after);
    while j < lv.len() && !(lv[j] >= '0' && lv[j] <= '9')
        invariant
            pos + kv.len() <= j <= lv.len(),
            skip_non_digits(after) == skip_non_digits(lv@.skip(j as int)),
        decreases lv.len() - j,
    {
        assert(lv@.skip(j as int).drop_first() =~= lv@.skip(j + 1));
        j = j + 1;
    }
    assert(skip_non_digits(lv@.skip(j as int)) == lv@.skip(j as int));
    let ghost start = lv@.skip(j as int);
    let mut ds: Vec<char> = Vec::new();
    while j < lv.len() && ((lv[j] >= '0' && lv[j] <= '9') || lv[j] == ',')
        invariant
            j <= lv.len(),
            digit_run(start) == ds@ + digit_run(lv@.skip(j as int)),
        decreases lv.len() - j,
    {
        let ghost rest = lv@.skip(j as int);
        assert(rest.drop_first() =~= lv@.skip(j + 1));
        assert(rest[0] == lv@[j as int]);
        let ghost before = ds@;
        if lv[j] >= '0' && lv[j] <= '9' {
            ds.push(lv[j]);
            assert(ds@ =~= before + seq![lv@[j as int]]);
            assert(digit_run(rest) == seq![lv@[j as int]] + digit_run(lv@.skip(j + 1)));
            assert(ds@ + digit_run(lv@.skip(j + 1)) =~= before + digit_run(rest));
        } else {
            assert(digit_run(rest) == seq![] + digit_run(lv@.skip(j + 1)));
            assert(seq![] + digit_run(lv@.skip(j + 1)) =~= digit_run(lv@.skip(j + 1)));
        }
        j = j + 1;
    }
    assert(digit_run(lv@.skip(j as int)) == Seq::<char>::empty());
    assert(ds@ + Seq::<char>::empty() =~= ds@);
    if ds.len() == 0 {
        return None;
    }
    parse_unsigned_chars(ds.as_slice(), 10, u64::MAX)
}

/// The inbound byte count that a lower-cased output line reports.
pub open spec fn bytes_in_rule(l: Seq<char>) -> Option<u64> {
    if has(l, "read bytes") || has(l, "bytes read") {
        match number_after_rule(l, "read bytes"@) {
            Some(b) => Some(b),
            None => number_after_rule(l, "bytes read"@),
        }
    } else {
        None
    }
}

/// The outbound byte count that a lower-cased output line reports.
pub open spec fn bytes_out_rule(l: Seq<char>) -> Option<u64> {
    if has(l, "write bytes") || has(l, "bytes write") {
        match number_after_rule(l, "write bytes"@) {
            Some(b) => Some(b),
            None => number_after_rule(l, "bytes write"@),
        }
    } else {
        None
    }
}

/// Updates the byte counters from an already lower-cased output line.
pub fn stats_from_lowercase(l: &str, stats: &mut VpnStats)
    ensures
        final(stats).byte_in == (match bytes_in_rule(l@) {
            Some(b) => b,
            None => old(stats).byte_in,
        }),
        final(stats).byte_out == (match bytes_out_rule(l@) {
            Some(b) => b,
            None => old(stats).byte_out,
        }),
        *final(stats) == with_bytes(*old(stats), final(stats).byte_in, final(stats).byte_out),
{
    let v = chars_of(l);
    if contains_str(v.as_slice(), "read bytes") || contains_str(v.as_slice(), "bytes read") {
        if let Some(b) = extract_number_after_keyword(l, "read bytes") {
            stats.byte_in = b;
        } else if let Some(b) = extract_number_after_keyword(l, "bytes read") {
            stats.byte_in = b;
        }
    }
    if contains_str(v.as_slice(), "write bytes") || contains_str(v.as_slice(), "bytes write") {
        if let Some(b) = extract_number_after_keyword(l, "write bytes") {
            stats.byte_out = b;
        } else if let Some(b) = extract_number_after_keyword(l, "bytes write") {
            stats.byte_out = b;
        }
    }
}

/// Updates the byte counters from an OpenVPN output line.
pub fn parse_stats_from_output(line: &str, stats: &mut VpnStats)
    ensures
        final(stats).byte_in == (match bytes_in_rule(lowercase(line@)) {
            Some(b) => b,
            None => old(stats).byte_in,
        }),
        final(stats).byte_out == (match bytes_out_rule(lowercase(line@)) {
            Some(b) => b,
            None => old(stats).byte_out,
        }),
        *final(stats) == with_bytes(*old(stats), final(stats).byte_in, final(stats).byte_out),
{
    let lower = to_lowercase(line);
    stats_from_lowercase(lower.as_str(), stats);
}

/// The value of a counter field in the status file.
pub open spec fn counter_value(v: Seq<char>) -> Option<u64> {
    match parse_unsigned(trim(v), 10, u64::MAX as nat) {
        Some(n) => Some(n as u64),
        None => None,
    }
}

/// The counters `(in, out)` after one status-file line.
pub open spec fn status_line_rule(line: Seq<char>, counters: (u64, u64)) -> (u64, u64) {
    let t = trim(line);
    if t.len() == 0 || seq_starts_with(t, "OpenVPN STATISTICS"@) || seq_starts_with(t, "Updated,"@) {
        counters
    } else if strip_prefix(t, "TUN/TAP read bytes,"@) is Some {
        match counter_value(strip_prefix(t, "TUN/TAP read bytes,"@)->0) {
            Some(b) => (b, counters.1),
            None => counters,
        }
    } else if strip_prefix(t, "TUN/TAP write bytes,"@) is Some {
        match counter_value(strip_prefix(t, "TUN/TAP write bytes,"@)->0) {
            Some(b) => (counters.0, b),
            None => counters,
        }
    } else if strip_prefix(t, "TCP/UDP read bytes,"@) is Some {
        match counter_value(strip_prefix(t, "TCP/UDP read bytes,"@)->0) {
            Some(b) => (b, counters.1),
            None => counters,
        }
    } else if strip_prefix(t, "TCP/UDP write bytes,"@) is Some {
        match counter_value(strip_prefix(t, "TCP/UDP write bytes,"@)->0) {
            Some(b) => (counters.0, b),
            None => counters,
        }
    } else {
        counters
    }
}

/// The counters after all the lines, in order.
pub open spec fn status_fold(ls: Seq<Seq<char>>, counters: (u64, u64)) -> (u64, u64)
    decreases ls.len(),
{
    if ls.len() == 0 {
        counters
    } else {
        status_line_rule(ls.last(), status_fold(ls.drop_last(), counters))
    }
}

proof fn lemma_decimal_counter(n: u64)
    ensures
        counter_value(decimal(n as nat)) == Some(n),
        decimal(n as nat).len() > 0,
        !is_white(decimal(n as nat).last()),
{
    lemma_decimal_digits(n as nat);
    let d = decimal(n as nat);
    assert forall|i: int| 0 <= i < d.len() implies !is_white(#[trigger] d[i]) by {
        assert(is_digit(d[i]));
    }
    lemma_trim_no_white(d);
    lemma_parse_decimal(n as nat, u64::MAX as nat);
}

proof fn lemma_not_prefix(l: Seq<char>, q: Seq<char>, i: int)
    requires
        0 <= i < q.len(),
        i < l.len(),
        l[i] != q[i],
    ensures
        !seq_starts_with(l, q),
        strip_prefix(l, q) is None,
{
    if q.len() <= l.len() {
        assert(l.take(q.len() as int)[i] == l[i]);
    }
}

proof fn lemma_counter_line(p: Seq<char>, n: u64)
    requires
        p.len() > 0,
        !is_white(p[0]),
    ensures
        trim(p + decimal(n as nat)) == p + decimal(n as nat),
        strip_prefix(p + decimal(n as nat), p) == Some(decimal(n as nat)),
        counter_value(decimal(n as nat)) == Some(n),
{
    lemma_decimal_counter(n);
    let d = decimal(n as nat);
    let l = p + d;
    assert(l[0] == p[0]);
    assert(l.last() == d.last());
    assert(trim_start(l) == l);
    assert(trim_end(l) == l);
    assert(l.take(p.len() as int) =~= p);
    assert(l.skip(p.len() as int) =~= d);
}

/// A status-file counter line carries any `u64` value: the read lines set
/// the incoming counter and the write lines the outgoing one, to exactly the
/// number written, the other counter unchanged.
pub proof fn lemma_status_counter_lines(n: u64, c: (u64, u64))
    ensures
        status_line_rule("TUN/TAP read bytes,"@ + decimal(n as nat), c) == (n, c.1),
        status_line_rule("TUN/TAP write bytes,"@ + decimal(n as nat), c) == (c.0, n),
        status_line_rule("TCP/UDP read bytes,"@ + decimal(n as nat), c) == (n, c.1),
        status_line_rule("TCP/UDP write bytes,"@ + decimal(n as nat), c) == (c.0, n),
{
    reveal_strlit("TUN/TAP read bytes,");
    reveal_strlit("TUN/TAP write bytes,");
    reveal_strlit("TCP/UDP read bytes,");
    reveal_strlit("TCP/UDP write bytes,");
    reveal_strlit("OpenVPN STATISTICS");
    reveal_strlit("Updated,");
    let d = decimal(n as nat);
    let tr = "TUN/TAP read bytes,"@;
    let tw = "TUN/TAP write bytes,"@;
    let ur = "TCP/UDP read bytes,"@;
    let uw = "TCP/UDP write bytes,"@;
    let os = "OpenVPN STATISTICS"@;
    let up = "Updated,"@;
    lemma_counter_line(tr, n);
    lemma_counter_line(tw, n);
    lemma_counter_line(ur, n);
    lemma_counter_line(uw, n);
    let a = tr + d;
    let b = tw + d;
    let e = ur + d;
    let f = uw + d;
    assert(a[0] == 'T' && b[0] == 'T' && e[0] == 'T' && f[0] == 'T');
    lemma_not_prefix(a, os, 0);
    lemma_not_prefix(a, up, 0);
    lemma_not_prefix(b, os, 0);
    lemma_not_prefix(b, up, 0);
    lemma_not_prefix(e, os, 0);
    lemma_not_prefix(e, up, 0);
    lemma_not_prefix(f, os, 0);
    lemma_not_prefix(f, up, 0);
    assert(b[8] == 'w');
    lemma_not_prefix(b, tr, 8);
    assert(e[1] == 'C' && f[1] == 'C');
    lemma_not_prefix(e, tr, 1);
    lemma_not_prefix(e, tw, 1);
    lemma_not_prefix(f, tr, 1);
    lemma_not_prefix(f, tw, 1);
    assert(f[8] == 'w');
    lemma_not_prefix(f, ur, 8);
}

/// The value of a counter field, trimmed.
fn counter_of(v: &[char]) -> (r: Option<u64>)
    ensures
        r == counter_value(v@),
{
    let t = trim_chars(v);
    parse_unsigned_chars(t.as_slice(), 10, u64::MAX)
}

/// Applies one status-file line to the counters.
fn apply_status_line(line: &[char], stats: &mut VpnStats)
    ensures
        (final(stats).byte_in, final(stats).byte_out) == status_line_rule(
            line@,
            (old(stats).byte_in, old(stats).byte_out),
        ),
        *final(stats) == with_bytes(*old(stats), final(stats).byte_in, final(stats).byte_out),
{
    let t = trim_chars(line);
    let ts = t.as_slice();
    if t.len() == 0 || starts_with_str(ts, "OpenVPN STATISTICS") || starts_with_str(ts, "Updated,") {
        return;
    }
    if let Some(v) = strip_prefix_str(ts, "TUN/TAP read bytes,") {
        if let Some(b) = counter_of(v.as_slice()) {
            stats.byte_in = b;
        }
    } else if let Some(v) = strip_prefix_str(ts, "TUN/TAP write bytes,") {
        if let Some(b) = counter_of(v.as_slice()) {
            stats.byte_out = b;
        }
    } else if let Some(v) = strip_prefix_str(ts, "TCP/UDP read bytes,") {
        if let Some(b) = counter_of(v.as_slice()) {
            stats.byte_in = b;
        }
    } else if let Some(v) = strip_prefix_str(ts, "TCP/UDP write bytes,") {
        if let Some(b) = counter_of(v.as_slice()) {
            stats.byte_out = b;
        }
    }
}

/// Updates the byte counters from the content of OpenVPN's status file.
pub fn parse_status_file(content: &str, stats: &mut VpnStats)
    ensures
        (final(stats).byte_in, final(stats).byte_out) == status_fold(
            lines_of(content@),
            (old(stats).byte_in, old(stats).byte_out),
        ),
        *final(stats) == with_bytes(*old(stats), final(stats).byte_in, final(stats).byte_out),
{
    let cv = chars_of(content);
    let ls = lines(cv.as_slice());
    let mut i: usize = 0;
    while i < ls.len()
        invariant
            i <= ls.len(),
            views(ls@) == lines_of(content@),
            (stats.byte_in, stats.byte_out) == status_fold(
                views(ls@).take(i as int),
                (old(stats).byte_in, old(stats).byte_out),
            ),
            *stats == with_bytes(*old(stats), stats.byte_in, stats.byte_out),
        decreases ls.len() - i,
    {
        let ghost pre = views(ls@).take(i as int);
        let ghost next = views(ls@).take(i + 1);
        assert(next.drop_last() =~= pre);
        assert(next.last() == ls@[i as int]@);
        apply_status_line(ls[i].as_slice(), stats);
        i = i + 1;
    }
    assert(views(ls@).take(ls.len() as int) =~= views(ls@));
}

/// The status file shows an active tunnel.
pub open spec fn status_shows_tunnel(content: Seq<char>) -> bool {
    has(content, "TUN/TAP read bytes,") && has(content, "END")
}

/// Applies a freshly read status file: the byte counters, and, as a backup
/// for a missed "Initialization Sequence Completed", a move to `connected`
/// when the file shows an active tunnel and the stage is neither
/// `connected` nor `disconnecting`.  Returns the previous stage when the
/// stage changed.
pub fn observe_status_file(
    stage: &mut String,
    stats: &mut VpnStats,
    content: &str,
    now: std::time::SystemTime,
) -> (r: Option<String>)
    ensures
        ({
            let counters = status_fold(lines_of(content@), (old(stats).byte_in, old(stats).byte_out));
            let counted = with_bytes(*old(stats), counters.0, counters.1);
            if status_shows_tunnel(content@) && old(stage)@ != "connected"@ && old(stage)@
                != "disconnecting"@ {
                &&& final(stage)@ == "connected"@
                &&& opt_view(r) == Some(old(stage)@)
                &&& *final(stats) == stats_after_stage(counted, "connected"@, now)
            } else {
                &&& final(stage)@ == old(stage)@
                &&& r is None
                &&& *final(stats) == counted
            }
        }),
{
    parse_status_file(content, stats);
    let cv = chars_of(content);
    if contains_str(cv.as_slice(), "TUN/TAP read bytes,") && contains_str(cv.as_slice(), "END") {
        let connected = owned("connected");
        let disconnecting = owned("disconnecting");
        if *stage != connected && *stage != disconnecting {
            return set_stage(stage, stats, connected, now);
        }
    }
    None
}

// ───────────────────────────── connection attempts ─────────────────────────────

/// What a lower-cased log line says about a service-launched attempt.
#[verifier::opaque]
pub open spec fn outcome_rule(l: Seq<char>) -> Option<ConnectOutcome> {
    if has(l, "initialization sequence completed") {
        Some(ConnectOutcome::Connected)
    } else if dco_failure_rule(l) {
        Some(ConnectOutcome::DriverFailed)
    } else if stage_rule(l) == Some("error"@) {
        Some(ConnectOutcome::FatalError)
    } else {
        None
    }
}

/// What a log line says about a service-launched attempt, if anything.
pub fn connect_outcome_for_line(line: &str) -> (r: Option<ConnectOutcome>)
    ensures
        r == outcome_rule(lowercase(line@)),
        is_ascii_text(line@) ==> r == outcome_rule(ascii_lower(line@)),
{
    reveal(outcome_rule);
    let lower = to_lowercase(line);
    let lv = chars_of(lower.as_str());
    if contains_str(lv.as_slice(), "initialization sequence completed") {
        return Some(ConnectOutcome::Connected);
    }
    if dco_failure_from_lowercase(lower.as_str()) {
        return Some(ConnectOutcome::DriverFailed);
    }
    match stage_from_lowercase(lower.as_str()) {
        Some(st) => {
            let error = owned("error");
            if st == error {
                Some(ConnectOutcome::FatalError)
            } else {
                None
            }
        },
        None => None,
    }
}

/// The outcome decided by the first decisive line of `ls`, if any.
pub open spec fn first_outcome(ls: Seq<Seq<char>>) -> Option<ConnectOutcome>
    decreases ls.len(),
{
    if ls.len() == 0 {
        None
    } else {
        match outcome_rule(lowercase(ls[0])) {
            Some(o) => Some(o),
            None => first_outcome(ls.drop_first()),
        }
    }
}

/// One poll while waiting for a service-launched attempt to settle: a dead
/// process is fatal, otherwise the first decisive new log line decides;
/// `None` means keep waiting.
pub fn connect_poll_step(pid_alive: bool, new_lines: &Vec<String>) -> (r: Option<ConnectOutcome>)
    ensures
        r == (if !pid_alive {
            Some(ConnectOutcome::FatalError)
        } else {
            first_outcome(views_of_strings(new_lines@))
        }),
{
    if !pid_alive {
        return Some(ConnectOutcome::FatalError);
    }
    let mut i: usize = 0;
    assert(views_of_strings(new_lines@).skip(0) =~= views_of_strings(new_lines@));
    while i < new_lines.len()
        invariant
            pid_alive,
            i <= new_lines.len(),
            first_outcome(views_of_strings(new_lines@)) == first_outcome(
                views_of_strings(new_lines@).skip(i as int),
            ),
        decreases new_lines.len() - i,
    {
        let ghost rest = views_of_strings(new_lines@).skip(i as int);
        assert(rest.drop_first() =~= views_of_strings(new_lines@).skip(i + 1));
        assert(rest[0] == new_lines@[i as int]@);
        let o = connect_outcome_for_line(new_lines[i].as_str());
        assert(first_outcome(rest) == match outcome_rule(lowercase(rest[0])) {
            Some(x) => Some(x),
            None => first_outcome(rest.drop_first()),
        });
        if o.is_some() {
            return o;
        }
        i = i + 1;
    }
    assert(views_of_strings(new_lines@).skip(i as int) =~= Seq::<Seq<char>>::empty());
    None
}

impl VpnStats {
    /// A copy of the statistics, field by field.
    pub fn snapshot(&self) -> (r: VpnStats)
        ensures
            r == *self,
    {
        VpnStats {
            byte_in: self.byte_in,
            byte_out: self.byte_out,
            packets_in: self.packets_in,
            packets_out: self.packets_out,
            connected_on: match &self.connected_on {
                Some(t) => Some(*t),
                None => None,
            },
            windows_driver: match &self.windows_driver {
                Some(d) => Some(d.clone()),
                None => None,
            },
            windows_connect_mode: match &self.windows_connect_mode {
                Some(m) => Some(m.clone()),
                None => None,
            },
        }
    }
}

/// What happened to one service launch attempt.
#[derive(Clone, Copy, PartialEq, Eq, Debug, Structural)]
pub enum ServiceAttempt {
    /// The service launched `openvpn.exe`; the wait ended with this outcome.
    Launched(ConnectOutcome),
    /// The service could not be asked to launch `openvpn.exe`.
    IpcFailed,
}

/// What the connect procedure does after a service launch attempt.
#[derive(Clone, Copy, PartialEq, Eq, Debug, Structural)]
pub enum AttemptDecision {
    /// Keep the service-launched process: the connection is up or coming up.
    KeepService,
    /// Stop the launched process, then try the next driver through the
    /// service.
    StopAndTryNext,
    /// Stop the launched process and launch `openvpn.exe` directly.
    StopAndFallBack,
    /// Try the next driver through the service.
    TryNext,
    /// Forget the service log file and launch `openvpn.exe` directly.
    ClearLogAndFallBack,
}

/// The decision after an attempt with `strategy`.
pub open spec fn decision_rule(strategy: DriverStrategy, attempt: ServiceAttempt) -> AttemptDecision {
    match attempt {
        ServiceAttempt::Launched(ConnectOutcome::Connected)
        | ServiceAttempt::Launched(ConnectOutcome::StillRunning) => AttemptDecision::KeepService,
        ServiceAttempt::Launched(ConnectOutcome::DriverFailed) => if strategy
            == DriverStrategy::OvpnDco {
            AttemptDecision::StopAndTryNext
        } else {
            AttemptDecision::StopAndFallBack
        },
        ServiceAttempt::Launched(ConnectOutcome::FatalError) => AttemptDecision::StopAndFallBack,
        ServiceAttempt::IpcFailed => if strategy == DriverStrategy::OvpnDco {
            AttemptDecision::TryNext
        } else {
            AttemptDecision::ClearLogAndFallBack
        },
    }
}

/// The order in which drivers are tried through the service: DCO first,
/// then tap-windows6.
pub open spec fn next_strategy_rule(s: DriverStrategy) -> Option<DriverStrategy> {
    match s {
        DriverStrategy::OvpnDco => Some(DriverStrategy::TapWindows6),
        DriverStrategy::TapWindows6 => None,
    }
}

/// The service launch attempts still to be made for one connect call.
pub struct ServicePlan {
    pub pending: Option<DriverStrategy>,
}

/// How many service attempts a plan may still make.
pub open spec fn attempts_left(pending: Option<DriverStrategy>) -> nat {
    match pending {
        None => 0,
        Some(DriverStrategy::TapWindows6) => 1,
        Some(DriverStrategy::OvpnDco) => 2,
    }
}

impl ServicePlan {
    /// A plan that starts with the DCO driver.
    pub fn new() -> (r: ServicePlan)
        ensures
            r.pending == Some(DriverStrategy::OvpnDco),
    {
        ServicePlan { pending: Some(DriverStrategy::OvpnDco) }
    }

    /// The plan of a connect call: service attempts, starting with DCO, only
    /// when the service pipe is available; none otherwise.
    pub fn for_service(available: bool) -> (r: ServicePlan)
        ensures
            r.pending == (if available {
                Some(DriverStrategy::OvpnDco)
            } else {
                None
            }),
    {
        if available {
            ServicePlan::new()
        } else {
            ServicePlan { pending: None }
        }
    }

    /// The driver of the next service attempt, if one is still to be made.
    pub fn current(&self) -> (r: Option<DriverStrategy>)
        ensures
            r == self.pending,
    {
        self.pending
    }

    /// Records how the attempt with the current driver went and decides what
    /// to do next.
    pub fn record(&mut self, attempt: ServiceAttempt) -> (d: AttemptDecision)
        requires
            old(self).pending is Some,
        ensures
            d == decision_rule(old(self).pending->0, attempt),
            final(self).pending == (if d == AttemptDecision::StopAndTryNext || d
                == AttemptDecision::TryNext {
                next_strategy_rule(old(self).pending->0)
            } else {
                None
            }),
            attempts_left(final(self).pending) < attempts_left(old(self).pending),
    {
        let strategy = match self.pending {
            Some(s) => s,
            None => DriverStrategy::OvpnDco,
        };
        let is_dco = strategy == DriverStrategy::OvpnDco;
        let d = match attempt {
            ServiceAttempt::Launched(ConnectOutcome::Connected)
            | ServiceAttempt::Launched(ConnectOutcome::StillRunning) => AttemptDecision::KeepService,
            ServiceAttempt::Launched(ConnectOutcome::DriverFailed) => if is_dco {
                AttemptDecision::StopAndTryNext
            } else {
                AttemptDecision::StopAndFallBack
            },
            ServiceAttempt::Launched(ConnectOutcome::FatalError) => AttemptDecision::StopAndFallBack,
            ServiceAttempt::IpcFailed => if is_dco {
                AttemptDecision::TryNext
            } else {
                AttemptDecision::ClearLogAndFallBack
            },
        };
        let go_on = match d {
            AttemptDecision::StopAndTryNext | AttemptDecision::TryNext => true,
            _ => false,
        };
        self.pending = if go_on && is_dco {
            Some(DriverStrategy::TapWindows6)
        } else {
            None
        };
        d
    }
}

/// Records the driver and launch mode of an established connection.
pub fn record_connection(stats: &mut VpnStats, driver: DriverStrategy, used_service: bool)
    ensures
        opt_view(final(stats).windows_driver) == Some(
            match driver {
                DriverStrategy::OvpnDco => "ovpn-dco"@,
                DriverStrategy::TapWindows6 => "tap-windows6"@,
            },
        ),
        opt_view(final(stats).windows_connect_mode) == Some(
            if used_service {
                "service"@
            } else {
                "direct"@
            },
        ),
        final(stats).byte_in == old(stats).byte_in,
        final(stats).byte_out == old(stats).byte_out,
        final(stats).packets_in == old(stats).packets_in,
        final(stats).packets_out == old(stats).packets_out,
        final(stats).connected_on == old(stats).connected_on,
{
    stats.windows_driver = Some(owned(driver_name(driver)));
    stats.windows_connect_mode = Some(
        if used_service {
            owned("service")
        } else {
            owned("direct")
        },
    );
}

/// Whether the Interactive Service is restarted before connecting: only
/// when its pipe was not available.
pub fn service_restart_needed(available_before: bool) -> (r: bool)
    ensures
        r == !available_before,
{
    !available_before
}

/// The driver and launch mode of a finished connect call, from the driver
/// of the service-launched process that was kept, if any.  Without one,
/// `openvpn.exe` was launched directly, which always uses tap-windows6.
pub fn final_connection(kept_service: Option<DriverStrategy>) -> (r: (DriverStrategy, bool))
    ensures
        r.1 <==> kept_service is Some,
        kept_service matches Some(s) ==> r.0 == s,
        !r.1 ==> r.0 == DriverStrategy::TapWindows6,
{
    match kept_service {
        Some(s) => (s, true),
        None => (DriverStrategy::TapWindows6, false),
    }
}

/// The configuration written for a direct launch: the tap-windows6 rewrite
/// (a direct launch cannot use DCO).
pub fn direct_launch_config(config: &str) -> (r: String)
    ensures
        r@ == preprocess_rule(config@, DriverStrategy::TapWindows6),
        is_ascii_text(config@) ==> r@ == preprocess_ascii_rule(config@, DriverStrategy::TapWindows6),
{
    preprocess_config_for_driver(config, DriverStrategy::TapWindows6)
}

/// The arguments of a direct launch of `openvpn.exe`.
pub open spec fn direct_args_rule(
    config_file: Seq<char>,
    auth_file: Option<Seq<char>>,
    status_file: Seq<char>,
) -> Seq<Seq<char>> {
    seq!["--config"@, config_file] + (match auth_file {
        Some(a) => seq!["--auth-user-pass"@, a],
        None => seq![],
    }) + seq![
        "--verb"@,
        "4"@,
        "--windows-driver"@,
        "tap-windows6"@,
        "--status"@,
        status_file,
        "2"@,
    ]
}

/// Builds the arguments of a direct launch: configuration, credentials when
/// there are any, verbosity 4, the tap-windows6 driver and the status file
/// rewritten every 2 seconds.
pub fn direct_launch_args(config_file: &str, auth_file: Option<&str>, status_file: &str) -> (r: Vec<String>)
    ensures
        views_of_strings(r@) == direct_args_rule(config_file@, opt_str_view(auth_file), status_file@),
{
    let mut r: Vec<String> = Vec::new();
    r.push(owned("--config"));
    r.push(owned(config_file));
    match auth_file {
        Some(a) => {
            r.push(owned("--auth-user-pass"));
            r.push(owned(a));
        },
        None => {},
    }
    r.push(owned("--verb"));
    r.push(owned("4"));
    r.push(owned("--windows-driver"));
    r.push(owned("tap-windows6"));
    r.push(owned("--status"));
    r.push(owned(status_file));
    r.push(owned("2"));
    assert(views_of_strings(r@) =~= direct_args_rule(
        config_file@,
        opt_str_view(auth_file),
        status_file@,
    ));
    r
}

// ───────────────────────────── process watch ─────────────────────────────

/// Time after a service launch during which a missing process is not
/// counted as dead.
pub const PID_ALIVE_GRACE_MS: u64 = 15000;

/// Consecutive failed liveness checks after which the process counts as
/// dead.
pub const PID_DEAD_CHECKS_REQUIRED: u32 = 5;

/// Counts consecutive failed liveness checks of a service-launched process.
pub struct PidWatch {
    pub consecutive_dead: u32,
}

impl PidWatch {
    pub fn new() -> (r: PidWatch)
        ensures
            r.consecutive_dead == 0,
    {
        PidWatch { consecutive_dead: 0 }
    }

    /// Records one liveness check made `elapsed_ms` after the launch; returns
    /// whether the process now counts as dead.
    pub fn observe(&mut self, elapsed_ms: u64, alive: bool) -> (died: bool)
        requires
            old(self).consecutive_dead < u32::MAX,
        ensures
            elapsed_ms < PID_ALIVE_GRACE_MS ==> final(self).consecutive_dead
                == old(self).consecutive_dead && !died,
            elapsed_ms >= PID_ALIVE_GRACE_MS && alive ==> final(self).consecutive_dead == 0
                && !died,
            elapsed_ms >= PID_ALIVE_GRACE_MS && !alive ==> final(self).consecutive_dead
                == old(self).consecutive_dead + 1 && died == (final(self).consecutive_dead
                >= PID_DEAD_CHECKS_REQUIRED),
    {
        if elapsed_ms < PID_ALIVE_GRACE_MS {
            return false;
        }
        if alive {
            self.consecutive_dead = 0;
            false
        } else {
            self.consecutive_dead = self.consecutive_dead + 1;
            self.consecutive_dead >= PID_DEAD_CHECKS_REQUIRED
        }
    }
}

/// The stage after the process died: `error`, unless the connection was
/// already up or being torn down.
pub open spec fn stage_after_death_rule(stage: Seq<char>) -> Seq<char> {
    if stage != "connected"@ && stage != "disconnected"@ && stage != "disconnecting"@ {
        "error"@
    } else {
        stage
    }
}

/// Applies the death of the service-launched process to the stage; returns
/// the previous stage when it changed.
pub fn stage_after_process_death(stage: &mut String) -> (r: Option<String>)
    ensures
        final(stage)@ == stage_after_death_rule(old(stage)@),
        r is Some <==> (old(stage)@ != "connected"@ && old(stage)@ != "disconnected"@ && old(
            stage,
        )@ != "disconnecting"@),
        r is Some ==> opt_view(r) == Some(old(stage)@),
{
    let connected = owned("connected");
    let disconnected = owned("disconnected");
    let disconnecting = owned("disconnecting");
    if *stage != connected && *stage != disconnected && *stage != disconnecting {
        let previous = stage.clone();
        *stage = owned("error");
        Some(previous)
    } else {
        None
    }
}

// ───────────────────────────── diagnostic records ─────────────────────────────

/// Longest diagnostic trigger text, in bytes.
pub const LOG_TRIGGER_MAX_BYTES: usize = 240;

/// A line with line breaks turned into spaces and surrounding white space
/// removed.
pub open spec fn collapsed(line: Seq<char>) -> Seq<char> {
    trim(replace_char(replace_char(line, '\r', ' '), '\n', ' '))
}

/// The number of bytes of the UTF-8 encoding of a character.
pub open spec fn utf8_width(c: char) -> nat {
    if (c as u32) < 0x80 {
        1
    } else if (c as u32) < 0x800 {
        2
    } else if (c as u32) < 0x10000 {
        3
    } else {
        4
    }
}

/// The number of bytes of the UTF-8 encoding of a text (`str::len`).
pub open spec fn byte_len(s: Seq<char>) -> nat
    decreases s.len(),
{
    if s.len() == 0 {
        0
    } else {
        byte_len(s.drop_last()) + utf8_width(s.last())
    }
}

proof fn lemma_byte_len_prefix(s: Seq<char>, j: int, k: int)
    requires
        0 <= j <= k <= s.len(),
    ensures
        byte_len(s.take(j)) + (k - j) <= byte_len(s.take(k)),
    decreases k - j,
{
    if j < k {
        lemma_byte_len_prefix(s, j, k - 1);
        assert(s.take(k).drop_last() =~= s.take(k - 1));
    }
}

/// The collapsed line can be cut at the byte limit: it is short enough, or
/// some prefix takes exactly the limit (the limit is a character boundary).
pub open spec fn cuts_cleanly(line: Seq<char>) -> bool {
    let t = collapsed(line);
    byte_len(t) > LOG_TRIGGER_MAX_BYTES ==> exists|k: int|
        0 <= k <= t.len() && #[trigger] byte_len(t.take(k)) == LOG_TRIGGER_MAX_BYTES
}

proof fn lemma_ascii_byte_len(s: Seq<char>)
    requires
        is_ascii_text(s),
    ensures
        byte_len(s) == s.len(),
    decreases s.len(),
{
    if s.len() > 0 {
        let init = s.drop_last();
        assert forall|i: int| 0 <= i < init.len() implies (#[trigger] init[i] as u32) < 0x80 by {
            assert(init[i] == s[i]);
        }
        lemma_ascii_byte_len(init);
        assert((s[s.len() - 1] as u32) < 0x80);
    }
}

proof fn lemma_ascii_trim(s: Seq<char>)
    requires
        is_ascii_text(s),
    ensures
        is_ascii_text(trim_start(s)),
        is_ascii_text(trim(s)),
    decreases s.len(),
{
    if s.len() > 0 && is_white(s[0]) {
        let rest = s.drop_first();
        assert forall|i: int| 0 <= i < rest.len() implies (#[trigger] rest[i] as u32) < 0x80 by {
            assert(rest[i] == s[i + 1]);
        }
        lemma_ascii_trim(rest);
    }
    lemma_ascii_trim_end(trim_start(s));
}

proof fn lemma_ascii_trim_end(s: Seq<char>)
    requires
        is_ascii_text(s),
    ensures
        is_ascii_text(trim_end(s)),
    decreases s.len(),
{
    if s.len() > 0 && is_white(s.last()) {
        let init = s.drop_last();
        assert forall|i: int| 0 <= i < init.len() implies (#[trigger] init[i] as u32) < 0x80 by {
            assert(init[i] == s[i]);
        }
        lemma_ascii_trim_end(init);
    }
}

/// An ASCII line can always be cut at the byte limit, so its trigger text
/// can always be recorded.
pub proof fn lemma_ascii_lines_cut_cleanly(line: Seq<char>)
    requires
        is_ascii_text(line),
    ensures
        cuts_cleanly(line),
{
    let a = replace_char(line, '\r', ' ');
    let b = replace_char(a, '\n', ' ');
    assert(is_ascii_text(b)) by {
        assert forall|i: int| 0 <= i < b.len() implies (#[trigger] b[i] as u32) < 0x80 by {
            assert(a[i] == (if line[i] == '\r' { ' ' } else { line[i] }));
        }
    }
    lemma_ascii_trim(b);
    let t = collapsed(line);
    if byte_len(t) > LOG_TRIGGER_MAX_BYTES {
        lemma_ascii_byte_len(t);
        let k = LOG_TRIGGER_MAX_BYTES as int;
        let head = t.take(k);
        assert(is_ascii_text(head)) by {
            assert forall|i: int| 0 <= i < head.len() implies (#[trigger] head[i] as u32) < 0x80 by {
                assert(head[i] == t[i]);
            }
        }
        lemma_ascii_byte_len(head);
        assert(byte_len(t.take(k)) == LOG_TRIGGER_MAX_BYTES);
    }
}

/// The trigger text recorded for a line: collapsed, and cut to the byte
/// limit with `...` appended when longer.
pub open spec fn sanitize_rule(line: Seq<char>) -> Seq<char> {
    let t = collapsed(line);
    if byte_len(t) > LOG_TRIGGER_MAX_BYTES {
        t.take(
            choose|k: int| 0 <= k <= t.len() && #[trigger] byte_len(t.take(k)) == LOG_TRIGGER_MAX_BYTES,
        ) + "..."@
    } else {
        t
    }
}

fn collapse_line(line: &str) -> (r: Vec<char>)
    ensures
        r@ == collapsed(line@),
{
    let v = chars_of(line);
    let a = replace_chars(v.as_slice(), '\r', ' ');
    let b = replace_chars(a.as_slice(), '\n', ' ');
    trim_chars(b.as_slice())
}

fn char_width(c: char) -> (w: usize)
    ensures
        w == utf8_width(c),
{
    let v = c as u32;
    if v < 0x80 {
        1
    } else if v < 0x800 {
        2
    } else if v < 0x10000 {
        3
    } else {
        4
    }
}

/// The longest prefix of `t` that fits the byte limit: its length in
/// characters and in bytes.
fn fitting_prefix(t: &[char]) -> (r: (usize, usize))
    ensures
        r.0 <= t.len(),
        r.1 == byte_len(t@.take(r.0 as int)),
        r.1 <= LOG_TRIGGER_MAX_BYTES,
        r.0 == t.len() <==> byte_len(t@) <= LOG_TRIGGER_MAX_BYTES,
        (exists|k: int| 0 <= k <= t.len() && #[trigger] byte_len(t@.take(k)) == LOG_TRIGGER_MAX_BYTES)
            <==> (r.1 == LOG_TRIGGER_MAX_BYTES || r.0 == t.len() && byte_len(t@) == LOG_TRIGGER_MAX_BYTES),
        r.1 == LOG_TRIGGER_MAX_BYTES ==> forall|k: int|
            0 <= k <= t.len() && #[trigger] byte_len(t@.take(k)) == LOG_TRIGGER_MAX_BYTES ==> k == r.0,
{
    let mut i: usize = 0;
    let mut acc: usize = 0;
    assert(t@.take(0) =~= Seq::<char>::empty());
    while i < t.len() && acc + char_width(t[i]) <= LOG_TRIGGER_MAX_BYTES
        invariant
            i <= t.len(),
            acc == byte_len(t@.take(i as int)),
            acc <= LOG_TRIGGER_MAX_BYTES,
        decreases t.len() - i,
    {
        assert(t@.take(i + 1).drop_last() =~= t@.take(i as int));
        acc = acc + char_width(t[i]);
        i = i + 1;
    }
    proof {
        if i < t.len() {
            assert(t@.take(i + 1).drop_last() =~= t@.take(i as int));
            assert(byte_len(t@.take(i + 1)) > LOG_TRIGGER_MAX_BYTES);
            lemma_byte_len_prefix(t@, i + 1, t.len() as int);
            assert(t@.take(t.len() as int) =~= t@);
            assert forall|k: int| 0 <= k <= t.len() && #[trigger] byte_len(t@.take(k))
                == LOG_TRIGGER_MAX_BYTES implies k == i && acc == LOG_TRIGGER_MAX_BYTES by {
                if k < i {
                    lemma_byte_len_prefix(t@, k, i as int);
                } else if k > i {
                    lemma_byte_len_prefix(t@, i + 1, k);
                }
            }
        } else {
            assert(t@.take(i as int) =~= t@);
            assert forall|k: int| 0 <= k <= t.len() && #[trigger] byte_len(t@.take(k))
                == LOG_TRIGGER_MAX_BYTES implies k == i by {
                if k < i {
                    lemma_byte_len_prefix(t@, k, i as int);
                }
            }
        }
        if acc == LOG_TRIGGER_MAX_BYTES {
            assert(byte_len(t@.take(i as int)) == LOG_TRIGGER_MAX_BYTES);
        }
    }
    (i, acc)
}

/// Whether `sanitize_for_log` can cut the line without splitting a
/// character.
pub fn log_line_cuts_cleanly(line: &str) -> (r: bool)
    ensures
        r == cuts_cleanly(line@),
{
    let t = collapse_line(line);
    let (n, bytes) = fitting_prefix(t.as_slice());
    n == t.len() || bytes == LOG_TRIGGER_MAX_BYTES
}

/// The trigger text of a diagnostic record.
pub fn sanitize_for_log(line: &str) -> (r: String)
    requires
        cuts_cleanly(line@),
    ensures
        r@ == sanitize_rule(line@),
{
    let t = collapse_line(line);
    let (n, _bytes) = fitting_prefix(t.as_slice());
    if n == t.len() {
        string_of(t.as_slice())
    } else {
        let head = slice_chars(t.as_slice(), 0, n);
        assert(head@ =~= t@.take(n as int));
        let mut r = string_of(head.as_slice());
        push_str(&mut r, "...");
        r
    }
}

/// The diagnostic record of a stage transition.
pub fn stage_transition_record(
    stream: &str,
    from: &str,
    to: &str,
    line: &str,
    elapsed_ms: u64,
) -> (r: String)
    requires
        cuts_cleanly(line@),
    ensures
        r@ == "[RUST_STAGE] stream="@ + stream@ + " from="@ + from@ + " to="@ + to@
            + " elapsedMs="@ + decimal(elapsed_ms as nat) + " reasonCode="@ + reason_rule(
            lowercase(line@),
        ) + " trigger=\""@ + sanitize_rule(line@) + "\""@,
{
    let reason = classify_reason(line);
    let trigger = sanitize_for_log(line);
    let mut r = owned("[RUST_STAGE] stream=");
    push_str(&mut r, stream);
    push_str(&mut r, " from=");
    push_str(&mut r, from);
    push_str(&mut r, " to=");
    push_str(&mut r, to);
    push_str(&mut r, " elapsedMs=");
    push_decimal(&mut r, elapsed_ms);
    push_str(&mut r, " reasonCode=");
    push_str(&mut r, reason);
    push_str(&mut r, " trigger=\"");
    push_str(&mut r, trigger.as_str());
    push_str(&mut r, "\"");
    r
}

/// How many lines of the service log are recorded when its process died.
pub const LOG_DUMP_LINES: usize = 50;

/// The last `n` texts of `ls` (all of them when there are fewer).
pub open spec fn last_n(ls: Seq<Seq<char>>, n: nat) -> Seq<Seq<char>> {
    if ls.len() <= n {
        ls
    } else {
        ls.skip(ls.len() - n)
    }
}

/// The diagnostic record written when the service-launched process died:
/// the last lines of its log, in order, joined with ` || `.
pub fn log_dump_record(pid: u32, content: &str) -> (r: String)
    ensures
        r@ == "[RUST_LOG_DUMP] pid="@ + decimal(pid as nat) + " died; openvpn log tail: "@ + join(
            last_n(lines_of(content@), LOG_DUMP_LINES as nat),
            " || "@,
        ),
{
    let cv = chars_of(content);
    let ls = lines(cv.as_slice());
    let start: usize = if ls.len() > LOG_DUMP_LINES {
        ls.len() - LOG_DUMP_LINES
    } else {
        0
    };
    let mut tail: Vec<Vec<char>> = Vec::new();
    let mut i: usize = start;
    while i < ls.len()
        invariant
            start <= i <= ls.len(),
            views(tail@) == views(ls@).subrange(start as int, i as int),
        decreases ls.len() - i,
    {
        let ghost before = views(tail@);
        let piece = slice_chars(ls[i].as_slice(), 0, ls[i].len());
        assert(piece@ =~= ls@[i as int]@);
        tail.push(piece);
        assert(views(tail@) =~= before.push(views(ls@)[i as int]));
        assert(views(ls@).subrange(start as int, i + 1) =~= views(ls@).subrange(start as int, i as int).push(
            views(ls@)[i as int],
        ));
        i = i + 1;
    }
    assert(views(tail@) =~= last_n(lines_of(content@), LOG_DUMP_LINES as nat));
    let mut r = owned("[RUST_LOG_DUMP] pid=");
    push_decimal(&mut r, pid as u64);
    push_str(&mut r, " died; openvpn log tail: ");
    let joined = join_chars(&tail, " || ");
    push_str(&mut r, joined.as_str());
    r
}

// ───────────────────────────── runtime files ─────────────────────────────

/// The file names of one connect call, made from the seconds since the
/// Unix epoch at its start.
pub struct RuntimeFileNames {
    pub config: String,
    pub auth: String,
    pub status: String,
    pub log: String,
}

/// The file names for the connect call started at `ts`.
pub fn runtime_file_names(ts: u64) -> (r: RuntimeFileNames)
    ensures
        r.config@ == "openvpn_config_"@ + decimal(ts as nat) + ".ovpn"@,
        r.auth@ == "openvpn_auth_"@ + decimal(ts as nat) + ".txt"@,
        r.status@ == "openvpn_status_"@ + decimal(ts as nat) + ".txt"@,
        r.log@ == "openvpn_log_"@ + decimal(ts as nat) + ".txt"@,
{
    let mut config = owned("openvpn_config_");
    push_decimal(&mut config, ts);
    push_str(&mut config, ".ovpn");
    let mut auth = owned("openvpn_auth_");
    push_decimal(&mut auth, ts);
    push_str(&mut auth, ".txt");
    let mut status = owned("openvpn_status_");
    push_decimal(&mut status, ts);
    push_str(&mut status, ".txt");
    let mut log = owned("openvpn_log_");
    push_decimal(&mut log, ts);
    push_str(&mut log, ".txt");
    RuntimeFileNames { config, auth, status, log }
}

/// The content of the credentials file: user name and password on two
/// lines, written only when both are given.
pub fn auth_file_content(username: &Option<String>, password: &Option<String>) -> (r: Option<String>)
    ensures
        (username is Some && password is Some) <==> r is Some,
        r matches Some(c) ==> c@ == username->0@ + "\n"@ + password->0@,
{
    match (username, password) {
        (Some(u), Some(p)) => {
            let mut c = u.clone();
            push_str(&mut c, "\n");
            push_str(&mut c, p.as_str());
            Some(c)
        },
        _ => None,
    }
}

// ───────────────────────────── connection time ─────────────────────────────

/// What `DateTime::<Utc>::from_timestamp(secs, nanos)` followed by
/// `to_rfc3339` gives, `None` when the timestamp is out of range.
pub uninterp spec fn utc_rfc3339(secs: i64, nanos: u32) -> Option<Seq<char>>;

/// Calls `chrono::DateTime::<Utc>::from_timestamp` and, on the time it
/// gives, `DateTime::to_rfc3339`; the result is the named `utc_rfc3339` of
/// the arguments (the time itself never leaves this function).
#[verifier::external_body]
fn timestamp_rfc3339(secs: i64, nanos: u32) -> (r: Option<String>)
    ensures
        opt_view(r) == utc_rfc3339(secs, nanos),
{
    match chrono::DateTime::<chrono::Utc>::from_timestamp(secs, nanos) {
        Some(dt) => Some(dt.to_rfc3339()),
        None => None,
    }
}

/// The connection time shown to the application: the RFC 3339 text of the
/// time since the Unix epoch (seconds and nanoseconds), empty when there is
/// none or it is out of range.
pub fn connected_on_text(since_epoch: Option<(u64, u32)>) -> (r: String)
    ensures
        r@ == (match since_epoch {
            None => Seq::<char>::empty(),
            Some((secs, nanos)) => match utc_rfc3339(secs as i64, nanos) {
                Some(t) => t,
                None => Seq::<char>::empty(),
            },
        }),
{
    match since_epoch {
        None => String::new(),
        Some((secs, nanos)) => match timestamp_rfc3339(secs as i64, nanos) {
            Some(t) => t,
            None => String::new(),
        },
    }
}

// ───────────────────────────── manager state ─────────────────────────────

/// How `openvpn.exe` should be launched: `0 = Auto, 1 = Service,
/// 2 = Direct, 3 = UAC`.
#[derive(Clone, Copy, PartialEq, Eq, Debug, Structural)]
pub enum LaunchMode {
    Auto,
    Service,
    Direct,
    Uac,
}

impl LaunchMode {
    /// The mode of a numeric code; codes outside `0..=3` select `Auto`.
    pub fn from_code(code: i32) -> (r: LaunchMode)
        ensures
            r == (if code == 1 {
                LaunchMode::Service
            } else if code == 2 {
                LaunchMode::Direct
            } else if code == 3 {
                LaunchMode::Uac
            } else {
                LaunchMode::Auto
            }),
    {
        if code == 1 {
            LaunchMode::Service
        } else if code == 2 {
            LaunchMode::Direct
        } else if code == 3 {
            LaunchMode::Uac
        } else {
            LaunchMode::Auto
        }
    }
}

/// The state that the OpenVPN manager keeps between calls: the binary, the
/// current stage, the runtime files of the current connection and the
/// statistics.  The running process itself is held by the caller.
pub struct OpenVpnManager {
    binary_path: String,
    current_stage: String,
    config_file: Option<String>,
    auth_file: Option<String>,
    status_file: Option<String>,
    log_file: Option<String>,
    stats: VpnStats,
    launch_mode: LaunchMode,
}

impl OpenVpnManager {
    pub closed spec fn binary_view(&self) -> Seq<char> {
        self.binary_path@
    }

    pub closed spec fn stage_view(&self) -> Seq<char> {
        self.current_stage@
    }

    pub closed spec fn stats_view(&self) -> VpnStats {
        self.stats
    }

    pub closed spec fn config_file_view(&self) -> Option<Seq<char>> {
        opt_view(self.config_file)
    }

    pub closed spec fn auth_file_view(&self) -> Option<Seq<char>> {
        opt_view(self.auth_file)
    }

    pub closed spec fn status_file_view(&self) -> Option<Seq<char>> {
        opt_view(self.status_file)
    }

    pub closed spec fn log_file_view(&self) -> Option<Seq<char>> {
        opt_view(self.log_file)
    }

    pub closed spec fn launch_mode_view(&self) -> LaunchMode {
        self.launch_mode
    }

    /// No connection: stage `disconnected`, fresh statistics and no runtime
    /// files.
    pub open spec fn is_idle(&self) -> bool {
        &&& self.stage_view() == "disconnected"@
        &&& is_fresh_stats(self.stats_view())
        &&& self.config_file_view() is None
        &&& self.auth_file_view() is None
        &&& self.status_file_view() is None
        &&& self.log_file_view() is None
    }

    /// The same binary and runtime files as `other`.
    pub open spec fn same_files(&self, other: &OpenVpnManager) -> bool {
        &&& self.binary_view() == other.binary_view()
        &&& self.config_file_view() == other.config_file_view()
        &&& self.auth_file_view() == other.auth_file_view()
        &&& self.status_file_view() == other.status_file_view()
        &&& self.log_file_view() == other.log_file_view()
    }

    /// A manager for the OpenVPN binary at `binary_path`; `binary_exists`
    /// tells whether that path exists.
    pub fn new(binary_path: String, binary_exists: bool) -> (r: Result<OpenVpnManager, OpenVpnError>)
        ensures
            !binary_exists <==> r is Err,
            r matches Err(OpenVpnError::BinaryNotFound(m)) ==> m@ == "OpenVPN binary not found at: "@
                + binary_path@,
            r is Err ==> r->Err_0 is BinaryNotFound,
            r matches Ok(m) ==> {
                &&& m.binary_view() == binary_path@
                &&& m.is_idle()
                &&& m.launch_mode_view() == LaunchMode::Auto
            },
    {
        if !binary_exists {
            let mut m = owned("OpenVPN binary not found at: ");
            push_str(&mut m, binary_path.as_str());
            return Err(OpenVpnError::BinaryNotFound(m));
        }
        Ok(OpenVpnManager {
            binary_path,
            current_stage: owned("disconnected"),
            config_file: None,
            auth_file: None,
            status_file: None,
            log_file: None,
            stats: VpnStats::default(),
            launch_mode: LaunchMode::Auto,
        })
    }

    pub fn binary_path(&self) -> (r: &str)
        ensures
            r@ == self.binary_view(),
    {
        self.binary_path.as_str()
    }

    /// The current stage (never fails).
    pub fn get_stage(&self) -> (r: Result<String, OpenVpnError>)
        ensures
            r matches Ok(s) && s@ == self.stage_view(),
    {
        Ok(self.current_stage.clone())
    }

    /// The current statistics (never fails).
    pub fn get_stats(&self) -> (r: Result<VpnStats, OpenVpnError>)
        ensures
            r matches Ok(s) && s == self.stats_view(),
    {
        Ok(self.stats.snapshot())
    }

    pub fn set_launch_mode(&mut self, mode: LaunchMode)
        ensures
            final(self).launch_mode_view() == mode,
            final(self).stage_view() == old(self).stage_view(),
            final(self).stats_view() == old(self).stats_view(),
            final(self).same_files(&*old(self)),
    {
        self.launch_mode = mode;
    }

    pub fn launch_mode(&self) -> (r: LaunchMode)
        ensures
            r == self.launch_mode_view(),
    {
        self.launch_mode
    }

    /// Records the runtime files of a new connect call and its start time.
    /// A missing credentials file leaves the recorded one as it was.
    pub fn begin_connect(
        &mut self,
        config_file: String,
        auth_file: Option<String>,
        status_file: String,
        now: std::time::SystemTime,
    )
        ensures
            final(self).config_file_view() == Some(config_file@),
            final(self).auth_file_view() == (if auth_file is Some {
                opt_view(auth_file)
            } else {
                old(self).auth_file_view()
            }),
            final(self).status_file_view() == Some(status_file@),
            final(self).log_file_view() == old(self).log_file_view(),
            final(self).stats_view() == with_connected_on(old(self).stats_view(), now),
            final(self).stage_view() == old(self).stage_view(),
            final(self).binary_view() == old(self).binary_view(),
            final(self).launch_mode_view() == old(self).launch_mode_view(),
    {
        self.config_file = Some(config_file);
        if auth_file.is_some() {
            self.auth_file = auth_file;
        }
        self.status_file = Some(status_file);
        self.stats.connected_on = Some(now);
    }

    pub fn set_log_file(&mut self, log_file: Option<String>)
        ensures
            final(self).log_file_view() == opt_view(log_file),
            final(self).stage_view() == old(self).stage_view(),
            final(self).stats_view() == old(self).stats_view(),
            final(self).binary_view() == old(self).binary_view(),
            final(self).config_file_view() == old(self).config_file_view(),
            final(self).auth_file_view() == old(self).auth_file_view(),
            final(self).status_file_view() == old(self).status_file_view(),
            final(self).launch_mode_view() == old(self).launch_mode_view(),
    {
        self.log_file = log_file;
    }

    /// Whether a service log file is being followed (the log tailer stops
    /// when it is gone).
    pub fn has_log_file(&self) -> (r: bool)
        ensures
            r == self.log_file_view() is Some,
    {
        self.log_file.is_some()
    }

    /// The status file being followed (the status reader stops when it is
    /// gone).
    pub fn status_file(&self) -> (r: Option<String>)
        ensures
            opt_view(r) == self.status_file_view(),
    {
        match &self.status_file {
            Some(p) => Some(p.clone()),
            None => None,
        }
    }

    /// Applies an OpenVPN output or log line.
    pub fn observe_output_line(&mut self, line: &str, now: std::time::SystemTime) -> (r: Option<String>)
        ensures
            final(self).stage_view() == stage_after_line(old(self).stage_view(), line@),
            final(self).stats_view() == (if final(self).stage_view() != old(self).stage_view() {
                stats_after_stage(old(self).stats_view(), final(self).stage_view(), now)
            } else {
                old(self).stats_view()
            }),
            r is Some <==> final(self).stage_view() != old(self).stage_view(),
            r is Some ==> opt_view(r) == Some(old(self).stage_view()),
            final(self).same_files(&*old(self)),
            final(self).launch_mode_view() == old(self).launch_mode_view(),
    {
        observe_output_line(&mut self.current_stage, &mut self.stats, line, now)
    }

    /// Applies an OpenVPN output line to the byte counters.
    pub fn observe_output_stats(&mut self, line: &str)
        ensures
            final(self).stats_view().byte_in == (match bytes_in_rule(lowercase(line@)) {
                Some(b) => b,
                None => old(self).stats_view().byte_in,
            }),
            final(self).stats_view().byte_out == (match bytes_out_rule(lowercase(line@)) {
                Some(b) => b,
                None => old(self).stats_view().byte_out,
            }),
            final(self).stats_view() == with_bytes(
                old(self).stats_view(),
                final(self).stats_view().byte_in,
                final(self).stats_view().byte_out,
            ),
            final(self).stage_view() == old(self).stage_view(),
            final(self).same_files(&*old(self)),
            final(self).launch_mode_view() == old(self).launch_mode_view(),
    {
        parse_stats_from_output(line, &mut self.stats);
    }

    /// Applies a freshly read status file.
    pub fn observe_status_file(&mut self, content: &str, now: std::time::SystemTime) -> (r: Option<String>)
        ensures
            ({
                let counters = status_fold(
                    lines_of(content@),
                    (old(self).stats_view().byte_in, old(self).stats_view().byte_out),
                );
                let counted = with_bytes(old(self).stats_view(), counters.0, counters.1);
                if status_shows_tunnel(content@) && old(self).stage_view() != "connected"@ && old(
                    self,
                ).stage_view() != "disconnecting"@ {
                    &&& final(self).stage_view() == "connected"@
                    &&& opt_view(r) == Some(old(self).stage_view())
                    &&& final(self).stats_view() == stats_after_stage(counted, "connected"@, now)
                } else {
                    &&& final(self).stage_view() == old(self).stage_view()
                    &&& r is None
                    &&& final(self).stats_view() == counted
                }
            }),
            final(self).same_files(&*old(self)),
            final(self).launch_mode_view() == old(self).launch_mode_view(),
    {
        observe_status_file(&mut self.current_stage, &mut self.stats, content, now)
    }

    /// Applies the death of the service-launched process.
    pub fn observe_process_death(&mut self) -> (r: Option<String>)
        ensures
            final(self).stage_view() == stage_after_death_rule(old(self).stage_view()),
            r is Some <==> (old(self).stage_view() != "connected"@ && old(self).stage_view()
                != "disconnected"@ && old(self).stage_view() != "disconnecting"@),
            r is Some ==> opt_view(r) == Some(old(self).stage_view()),
            final(self).stats_view() == old(self).stats_view(),
            final(self).same_files(&*old(self)),
            final(self).launch_mode_view() == old(self).launch_mode_view(),
    {
        stage_after_process_death(&mut self.current_stage)
    }

    /// Records the driver and launch mode of an established connection.
    pub fn record_connection(&mut self, driver: DriverStrategy, used_service: bool)
        ensures
            opt_view(final(self).stats_view().windows_driver) == Some(
                match driver {
                    DriverStrategy::OvpnDco => "ovpn-dco"@,
                    DriverStrategy::TapWindows6 => "tap-windows6"@,
                },
            ),
            opt_view(final(self).stats_view().windows_connect_mode) == Some(
                if used_service {
                    "service"@
                } else {
                    "direct"@
                },
            ),
            final(self).stats_view().byte_in == old(self).stats_view().byte_in,
            final(self).stats_view().byte_out == old(self).stats_view().byte_out,
            final(self).stats_view().packets_in == old(self).stats_view().packets_in,
            final(self).stats_view().packets_out == old(self).stats_view().packets_out,
            final(self).stats_view().connected_on == old(self).stats_view().connected_on,
            final(self).stage_view() == old(self).stage_view(),
            final(self).same_files(&*old(self)),
            final(self).launch_mode_view() == old(self).launch_mode_view(),
    {
        record_connection(&mut self.stats, driver, used_service);
    }

    /// Ends a connection: forgets every runtime file, returning the paths to
    /// delete, and resets the stage to `disconnected` and the statistics.
    pub fn finish_disconnect(&mut self) -> (r: Vec<String>)
        ensures
            final(self).is_idle(),
            final(self).binary_view() == old(self).binary_view(),
            final(self).launch_mode_view() == old(self).launch_mode_view(),
            views_of_strings(r@) == somes(
                seq![
                    old(self).config_file_view(),
                    old(self).auth_file_view(),
                    old(self).status_file_view(),
                    old(self).log_file_view(),
                ],
            ),
    {
        let mut r: Vec<String> = Vec::new();
        let ghost files = seq![
            opt_view(self.config_file),
            opt_view(self.auth_file),
            opt_view(self.status_file),
            opt_view(self.log_file),
        ];
        let ghost s0 = somes(files.take(0));
        assert(files.take(0) =~= Seq::<Option<Seq<char>>>::empty());
        assert(views_of_strings(r@) =~= Seq::<Seq<char>>::empty());
        take_into(&mut self.config_file, &mut r, Ghost(files), 0);
        take_into(&mut self.auth_file, &mut r, Ghost(files), 1);
        take_into(&mut self.status_file, &mut r, Ghost(files), 2);
        take_into(&mut self.log_file, &mut r, Ghost(files), 3);
        assert(files.take(4) =~= files);
        self.current_stage = owned("disconnected");
        self.stats = VpnStats::default();
        r
    }
}

// ───────────────────────────── laws ─────────────────────────────

/// The stages that the manager reports.
pub open spec fn is_manager_stage(s: Seq<char>) -> bool {
    ||| s == "disconnected"@
    ||| s == "connecting"@
    ||| s == "connected"@
    ||| s == "authenticating"@
    ||| s == "disconnecting"@
    ||| s == "error"@
}

/// The manager's stage is always one of the known stages: an output or log
/// line, the death of the process, a status file showing the tunnel and the
/// end of a connection each leave a known stage known.
pub proof fn lemma_stage_stays_known(stage: Seq<char>, line: Seq<char>)
    requires
        is_manager_stage(stage),
    ensures
        is_manager_stage(stage_after_line(stage, line)),
        is_manager_stage(stage_after_death_rule(stage)),
        is_manager_stage("connected"@),
        is_manager_stage("disconnected"@),
{
    reveal(stage_rule);
}

/// Classifying an ASCII line does not depend on its case: the line, its
/// ASCII upper-case form and its ASCII lower-case form (all ASCII again)
/// announce the same stage, reason, driver failure and attempt outcome.
pub proof fn lemma_classification_ignores_case(line: Seq<char>)
    requires
        is_ascii_text(line),
    ensures
        is_ascii_text(ascii_upper(line)),
        is_ascii_text(ascii_lower(line)),
        stage_rule(ascii_lower(ascii_upper(line))) == stage_rule(ascii_lower(line)),
        stage_rule(ascii_lower(ascii_lower(line))) == stage_rule(ascii_lower(line)),
        reason_rule(ascii_lower(ascii_upper(line))) == reason_rule(ascii_lower(line)),
        reason_rule(ascii_lower(ascii_lower(line))) == reason_rule(ascii_lower(line)),
        dco_failure_rule(ascii_lower(ascii_upper(line))) == dco_failure_rule(ascii_lower(line)),
        dco_failure_rule(ascii_lower(ascii_lower(line))) == dco_failure_rule(ascii_lower(line)),
        outcome_rule(ascii_lower(ascii_upper(line))) == outcome_rule(ascii_lower(line)),
        outcome_rule(ascii_lower(ascii_lower(line))) == outcome_rule(ascii_lower(line)),
{
    lemma_ascii_case_folds(line);
}

/// tap-windows6 is the last driver tried through the service: no decision
/// after a tap-windows6 attempt asks for another service attempt.
pub proof fn lemma_tap_is_last_attempt(attempt: ServiceAttempt)
    ensures
        decision_rule(DriverStrategy::TapWindows6, attempt) != AttemptDecision::StopAndTryNext,
        decision_rule(DriverStrategy::TapWindows6, attempt) != AttemptDecision::TryNext,
{
}

/// A service-launched process is kept exactly when the connection came up
/// or is still coming up; every other launched process is stopped.
pub proof fn lemma_service_process_kept_only_when_up(strategy: DriverStrategy, outcome: ConnectOutcome)
    ensures
        (decision_rule(strategy, ServiceAttempt::Launched(outcome)) == AttemptDecision::KeepService)
            <==> (outcome == ConnectOutcome::Connected || outcome == ConnectOutcome::StillRunning),
        decision_rule(strategy, ServiceAttempt::Launched(outcome)) != AttemptDecision::TryNext,
        decision_rule(strategy, ServiceAttempt::Launched(outcome))
            != AttemptDecision::ClearLogAndFallBack,
{
}

/// Diagnostics (`Register_dns failed`, warnings, `nonfatal`) do not tear a
/// tunnel down: such a line yields `error` only through an explicit failure
/// phrase or a driver failure, never through the generic `error`/`failed`
/// words.
pub proof fn lemma_diagnostics_fail_only_by_phrase(l: Seq<char>)
    requires
        has(l, "register_dns") || has(l, "warning:") || has(l, "nonfatal"),
    ensures
        stage_rule(l) == Some("error"@) ==> failure_phrase(l) || driver_failure_phrase(l),
{
    reveal(stage_rule);
    reveal_strlit("error");
    reveal_strlit("connected");
    reveal_strlit("connecting");
    reveal_strlit("disconnecting");
    reveal_strlit("authenticating");
    assert("error"@.len() == 5);
    assert("connected"@.len() == 9);
    assert("connecting"@.len() == 10);
    assert("disconnecting"@.len() == 13);
    assert("authenticating"@.len() == 14);
    assert("error"@ != "connected"@);
    assert("error"@ != "connecting"@);
    assert("error"@ != "disconnecting"@);
    assert("error"@ != "authenticating"@);
}

/// The phrases of failure, stated one by one: a line that names any of them
/// (and does not report a completed initialization) announces `error`;
/// `fatal` counts unless the line says `nonfatal`.
pub proof fn lemma_failure_phrases_mean_error(l: Seq<char>)
    requires
        !(has(l, "initialization sequence completed")),
    ensures
        has(l, "auth_failed") ==> stage_rule(l) == Some("error"@),
        has(l, "authentication failed") ==> stage_rule(l) == Some("error"@),
        has(l, "tls error") ==> stage_rule(l) == Some("error"@),
        has(l, "tls handshake failed") ==> stage_rule(l) == Some("error"@),
        has(l, "cannot resolve host address") ==> stage_rule(l) == Some("error"@),
        has(l, "resolve error") ==> stage_rule(l) == Some("error"@),
        has(l, "network is unreachable") ==> stage_rule(l) == Some("error"@),
        has(l, "connection timed out") ==> stage_rule(l) == Some("error"@),
        has(l, "connection reset") ==> stage_rule(l) == Some("error"@),
        has(l, "connection refused") ==> stage_rule(l) == Some("error"@),
        has(l, "options error") ==> stage_rule(l) == Some("error"@),
        has(l, "fatal") && !(has(l, "nonfatal")) ==> stage_rule(l) == Some("error"@),
        has(l, "certificate verify failed") ==> stage_rule(l) == Some("error"@),
        has(l, "verify error") ==> stage_rule(l) == Some("error"@),
{
    reveal(stage_rule);
}

/// What each stage needs in the line: `connected` a completed
/// initialization, `connecting` the word `connecting` or `waiting`,
/// `disconnecting` `disconnecting` or `exiting`, `authenticating` `auth`, and
/// `error` one of the failure words; and a completed initialization always
/// means `connected`.
pub proof fn lemma_stage_needs_its_words(l: Seq<char>)
    ensures
        has(l, "initialization sequence completed") ==> stage_rule(l) == Some("connected"@),
        stage_rule(l) == Some("connected"@) ==> has(l, "initialization sequence completed"),
        stage_rule(l) == Some("connecting"@) ==> has(l, "connecting") || has(l, "waiting"),
        stage_rule(l) == Some("disconnecting"@) ==> has(l, "disconnecting") || has(l, "exiting"),
        stage_rule(l) == Some("authenticating"@) ==> has(l, "authentication") || has(l, "auth"),
        stage_rule(l) == Some("error"@) ==> has(l, "auth_failed") || has(l, "authentication failed")
            || has(l, "tls error") || has(l, "tls handshake failed") || has(
            l,
            "cannot resolve host address",
        ) || has(l, "resolve error") || has(l, "network is unreachable") || has(
            l,
            "connection timed out",
        ) || has(l, "connection reset") || has(l, "connection refused") || has(l, "options error")
            || has(l, "fatal") || has(l, "certificate verify failed") || has(l, "verify error")
            || has(l, "cannot allocate tun/tap") || has(l, "error_gen_failure") || has(
            l,
            "not installed",
        ) || has(l, "error") || has(l, "failed"),
        stage_rule(l) is Some ==> is_manager_stage(stage_rule(l)->0),
{
    reveal(stage_rule);
    reveal_strlit("error");
    reveal_strlit("connected");
    reveal_strlit("connecting");
    reveal_strlit("disconnecting");
    reveal_strlit("authenticating");
    assert("error"@.len() == 5);
    assert("connected"@.len() == 9);
    assert("connecting"@.len() == 10);
    assert("disconnecting"@.len() == 13);
    assert("authenticating"@.len() == 14);
    assert("connected"@[7] != "connecting"@[7]);
}

/// A line that announces a stage moves the stage there, whatever the stage
/// was; a line that announces none leaves it.
pub proof fn lemma_announced_stage_is_taken(stage: Seq<char>, line: Seq<char>)
    ensures
        stage_rule(lowercase(line)) matches Some(n) ==> stage_after_line(stage, line) == n,
        stage_rule(lowercase(line)) is None ==> stage_after_line(stage, line) == stage,
        forall|other: Seq<char>|
            stage_rule(lowercase(line)) is Some ==> #[trigger] stage_after_line(other, line)
                == stage_after_line(stage, line),
{
}

/// The DCO failure phrases, stated one by one: an allocation failure of the
/// TUN/TAP device, tap-windows6 in use, or a mention of DCO (`ovpn-dco`,
/// `dco version: n/a`, `data channel offload`) with a failure word; and
/// nothing else counts.
pub proof fn lemma_dco_failure_phrases(l: Seq<char>)
    ensures
        has(l, "cannot allocate tun/tap") ==> dco_failure_rule(l),
        has(l, "tap-windows6") && has(l, "currently in use") ==> dco_failure_rule(l),
        forall|dco: &str|
            #![trigger has(l, dco)]
            (dco == "ovpn-dco" || dco == "dco version: n/a" || dco == "data channel offload") && has(
                l,
                dco,
            ) ==> {
                &&& has(l, "failed") ==> dco_failure_rule(l)
                &&& has(l, "error") ==> dco_failure_rule(l)
                &&& has(l, "not found") ==> dco_failure_rule(l)
                &&& has(l, "not installed") ==> dco_failure_rule(l)
                &&& has(l, "cannot") ==> dco_failure_rule(l)
            },
        dco_failure_rule(l) ==> has(l, "cannot allocate tun/tap") || has(l, "tap-windows6") || has(
            l,
            "ovpn-dco",
        ) || has(l, "dco version: n/a") || has(l, "data channel offload"),
        !(has(l, "failed")) && !(has(l, "error")) && !(has(l, "not found")) && !(has(
            l,
            "not installed",
        )) && !(has(l, "cannot")) && !(has(l, "currently in use")) && !(has(
            l,
            "cannot allocate tun/tap",
        )) ==> !dco_failure_rule(l),
{
    reveal(dco_failure_rule);
}

/// How a log line decides a service-launched attempt: a completed
/// initialization means connected; otherwise a DCO failure means the driver
/// failed (so tap-windows6 is tried next), and a line announcing `error`
/// without one is fatal.
pub proof fn lemma_attempt_outcomes(l: Seq<char>)
    ensures
        has(l, "initialization sequence completed") ==> outcome_rule(l) == Some(
            ConnectOutcome::Connected,
        ),
        !(has(l, "initialization sequence completed")) && dco_failure_rule(l) ==> outcome_rule(l)
            == Some(ConnectOutcome::DriverFailed),
        !(has(l, "initialization sequence completed")) && !dco_failure_rule(l) && stage_rule(l)
            == Some("error"@) ==> outcome_rule(l) == Some(ConnectOutcome::FatalError),
        outcome_rule(l) is None ==> !(has(l, "initialization sequence completed"))
            && !dco_failure_rule(l) && stage_rule(l) != Some("error"@),
        outcome_rule(l) != Some(ConnectOutcome::StillRunning),
{
    reveal(outcome_rule);
}

/// The decisions after a service attempt, case by case: a connection that
/// is up or coming up is kept; a DCO driver failure stops the process and
/// tries tap-windows6 through the service; a tap-windows6 driver failure or
/// a fatal error stops it and launches directly; a failed request moves on
/// to tap-windows6, or after tap-windows6 forgets the log and launches
/// directly.
pub proof fn lemma_attempt_decisions(strategy: DriverStrategy)
    ensures
        decision_rule(strategy, ServiceAttempt::Launched(ConnectOutcome::Connected))
            == AttemptDecision::KeepService,
        decision_rule(strategy, ServiceAttempt::Launched(ConnectOutcome::StillRunning))
            == AttemptDecision::KeepService,
        decision_rule(DriverStrategy::OvpnDco, ServiceAttempt::Launched(ConnectOutcome::DriverFailed))
            == AttemptDecision::StopAndTryNext,
        decision_rule(
            DriverStrategy::TapWindows6,
            ServiceAttempt::Launched(ConnectOutcome::DriverFailed),
        ) == AttemptDecision::StopAndFallBack,
        decision_rule(strategy, ServiceAttempt::Launched(ConnectOutcome::FatalError))
            == AttemptDecision::StopAndFallBack,
        decision_rule(DriverStrategy::OvpnDco, ServiceAttempt::IpcFailed) == AttemptDecision::TryNext,
        decision_rule(DriverStrategy::TapWindows6, ServiceAttempt::IpcFailed)
            == AttemptDecision::ClearLogAndFallBack,
        next_strategy_rule(DriverStrategy::OvpnDco) == Some(DriverStrategy::TapWindows6),
        next_strategy_rule(DriverStrategy::TapWindows6) is None,
{
}

/// The service options, written out for both drivers: the credentials file
/// is passed exactly when one is given, whatever the driver, and the two
/// drivers' options differ only in the final `--windows-driver` value.
pub proof fn lemma_service_options(
    config_file: Seq<char>,
    auth_file: Seq<char>,
    status_file: Seq<char>,
    log_file: Seq<char>,
)
    ensures
        cli_options_rule(config_file, Some(auth_file), status_file, log_file, DriverStrategy::OvpnDco)
            == "--config \""@ + config_file + "\" --auth-user-pass \""@ + auth_file
            + "\" --verb 4 --status \""@ + status_file + "\" 2 --log \""@ + log_file
            + "\" --windows-driver ovpn-dco"@,
        cli_options_rule(
            config_file,
            Some(auth_file),
            status_file,
            log_file,
            DriverStrategy::TapWindows6,
        ) == "--config \""@ + config_file + "\" --auth-user-pass \""@ + auth_file
            + "\" --verb 4 --status \""@ + status_file + "\" 2 --log \""@ + log_file
            + "\" --windows-driver tap-windows6"@,
        cli_options_rule(config_file, None, status_file, log_file, DriverStrategy::OvpnDco)
            == "--config \""@ + config_file + "\" --verb 4 --status \""@ + status_file
            + "\" 2 --log \""@ + log_file + "\" --windows-driver ovpn-dco"@,
        cli_options_rule(config_file, None, status_file, log_file, DriverStrategy::TapWindows6)
            == "--config \""@ + config_file + "\" --verb 4 --status \""@ + status_file
            + "\" 2 --log \""@ + log_file + "\" --windows-driver tap-windows6"@,
{
    reveal_strlit("--config \"");
    reveal_strlit("\"");
    reveal_strlit(" --auth-user-pass \"");
    reveal_strlit("\" --auth-user-pass \"");
    reveal_strlit(" --verb 4");
    reveal_strlit(" --status \"");
    reveal_strlit("\" --verb 4 --status \"");
    reveal_strlit("\" 2");
    reveal_strlit(" --log \"");
    reveal_strlit("\" 2 --log \"");
    reveal_strlit(" --windows-driver ovpn-dco");
    reveal_strlit(" --windows-driver tap-windows6");
    reveal_strlit("\" --windows-driver ovpn-dco");
    reveal_strlit("\" --windows-driver tap-windows6");
    let c = config_file;
    let a = auth_file;
    let st = status_file;
    let lg = log_file;
    assert(cli_options_rule(c, Some(a), st, lg, DriverStrategy::OvpnDco) =~= "--config \""@ + c
        + "\" --auth-user-pass \""@ + a + "\" --verb 4 --status \""@ + st + "\" 2 --log \""@ + lg
        + "\" --windows-driver ovpn-dco"@);
    assert(cli_options_rule(c, Some(a), st, lg, DriverStrategy::TapWindows6) =~= "--config \""@ + c
        + "\" --auth-user-pass \""@ + a + "\" --verb 4 --status \""@ + st + "\" 2 --log \""@ + lg
        + "\" --windows-driver tap-windows6"@);
    assert(cli_options_rule(c, None, st, lg, DriverStrategy::OvpnDco) =~= "--config \""@ + c
        + "\" --verb 4 --status \""@ + st + "\" 2 --log \""@ + lg + "\" --windows-driver ovpn-dco"@);
    assert(cli_options_rule(c, None, st, lg, DriverStrategy::TapWindows6) =~= "--config \""@ + c
        + "\" --verb 4 --status \""@ + st + "\" 2 --log \""@ + lg
        + "\" --windows-driver tap-windows6"@);
}

/// What each reason code needs in the line, and that a named
/// authentication failure is always reported as such.
pub proof fn lemma_reason_needs_its_words(l: Seq<char>)
    ensures
        has(l, "auth_failed") || has(l, "authentication failed") ==> reason_rule(l)
            == "AUTH_FAILED"@,
        reason_rule(l) == "AUTH_FAILED"@ ==> has(l, "auth_failed") || has(l, "authentication failed"),
        reason_rule(l) == "OVPN_DCO_FAILED"@ ==> has(l, "ovpn-dco"),
        reason_rule(l) == "TAP_ADAPTER_MISSING"@ ==> has(l, "tap-windows"),
        reason_rule(l) == "TLS_FAILED"@ ==> has(l, "tls handshake failed") || has(l, "tls error"),
        reason_rule(l) == "DNS_RESOLVE_FAILED"@ ==> has(l, "cannot resolve host address") || has(
            l,
            "resolve error",
        ),
        reason_rule(l) == "CONNECT_TIMEOUT"@ ==> has(l, "connection timed out"),
        reason_rule(l) == "CONNECTION_REFUSED"@ ==> has(l, "connection refused"),
        reason_rule(l) == "CERT_VERIFY_FAILED"@ ==> has(l, "certificate verify failed") || has(
            l,
            "verify error",
        ),
        reason_rule(l) == "NETWORK_UNREACHABLE"@ ==> has(l, "network is unreachable"),
        reason_rule(l) == "FATAL"@ ==> has(l, "fatal"),
        reason_rule(l) == "SERVICE_IPC_FAILED"@ ==> has(l, "service ipc") || has(l, "pipe"),
{
    reveal(reason_rule);
    reveal_strlit("AUTH_FAILED");
    reveal_strlit("OVPN_DCO_FAILED");
    reveal_strlit("TAP_ADAPTER_MISSING");
    reveal_strlit("TLS_FAILED");
    reveal_strlit("DNS_RESOLVE_FAILED");
    reveal_strlit("CONNECT_TIMEOUT");
    reveal_strlit("CONNECTION_REFUSED");
    reveal_strlit("CERT_VERIFY_FAILED");
    reveal_strlit("NETWORK_UNREACHABLE");
    reveal_strlit("FATAL");
    reveal_strlit("SERVICE_IPC_FAILED");
    reveal_strlit("UNKNOWN");
    assert("AUTH_FAILED"@.len() == 11 && "AUTH_FAILED"@[0] == 'A' && "AUTH_FAILED"@[1] == 'U');
    assert("OVPN_DCO_FAILED"@.len() == 15 && "OVPN_DCO_FAILED"@[0] == 'O' && "OVPN_DCO_FAILED"@[1] == 'V');
    assert("TAP_ADAPTER_MISSING"@.len() == 19 && "TAP_ADAPTER_MISSING"@[0] == 'T' && "TAP_ADAPTER_MISSING"@[1] == 'A');
    assert("TLS_FAILED"@.len() == 10 && "TLS_FAILED"@[0] == 'T' && "TLS_FAILED"@[1] == 'L');
    assert("DNS_RESOLVE_FAILED"@.len() == 18 && "DNS_RESOLVE_FAILED"@[0] == 'D' && "DNS_RESOLVE_FAILED"@[1] == 'N');
    assert("CONNECT_TIMEOUT"@.len() == 15 && "CONNECT_TIMEOUT"@[0] == 'C' && "CONNECT_TIMEOUT"@[1] == 'O');
    assert("CONNECTION_REFUSED"@.len() == 18 && "CONNECTION_REFUSED"@[0] == 'C' && "CONNECTION_REFUSED"@[1] == 'O');
    assert("CERT_VERIFY_FAILED"@.len() == 18 && "CERT_VERIFY_FAILED"@[0] == 'C' && "CERT_VERIFY_FAILED"@[1] == 'E');
    assert("NETWORK_UNREACHABLE"@.len() == 19 && "NETWORK_UNREACHABLE"@[0] == 'N' && "NETWORK_UNREACHABLE"@[1] == 'E');
    assert("FATAL"@.len() == 5 && "FATAL"@[0] == 'F' && "FATAL"@[1] == 'A');
    assert("SERVICE_IPC_FAILED"@.len() == 18 && "SERVICE_IPC_FAILED"@[0] == 'S' && "SERVICE_IPC_FAILED"@[1] == 'E');
    assert("UNKNOWN"@.len() == 7 && "UNKNOWN"@[0] == 'U' && "UNKNOWN"@[1] == 'N');
}

/// Which configuration lines preprocessing drops: exactly those that, trimmed
/// and lower-cased, begin with `disable-dco` or `windows-driver`.
pub proof fn lemma_driver_directives(line: Seq<char>)
    ensures
        keeps_line(line) <==> !(seq_starts_with(lowercase(trim(line)), "disable-dco"@))
            && !(seq_starts_with(lowercase(trim(line)), "windows-driver"@)),
        keeps_ascii_line(line) <==> !(seq_starts_with(ascii_lower(trim(line)), "disable-dco"@))
            && !(seq_starts_with(ascii_lower(trim(line)), "windows-driver"@)),
{
}

/// A `nonfatal` diagnostic keeps the stage: without an explicit failure
/// phrase, a driver failure, a completed initialization or a word of
/// progress (`connecting`, `waiting`, `disconnecting`, `exiting`, `auth`),
/// it announces no stage at all.
pub proof fn lemma_nonfatal_keeps_stage(l: Seq<char>)
    requires
        has(l, "nonfatal"),
        !failure_phrase(l),
        !driver_failure_phrase(l),
    ensures
        stage_rule(l) != Some("error"@),
        !(has(l, "initialization sequence completed")) && !(has(l, "connecting")) && !(has(
            l,
            "waiting",
        )) && !(has(l, "disconnecting")) && !(has(l, "exiting")) && !(has(l, "authentication"))
            && !(has(l, "auth")) ==> stage_rule(l) is None,
{
    lemma_diagnostics_fail_only_by_phrase(l);
    reveal(stage_rule);
}

} // verus!
