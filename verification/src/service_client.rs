//! Client for the OpenVPN Interactive Service named pipe.
//!
//! Protocol (from interactive.c / openvpn-gui openvpn.c):
//!
//! 1. Open `\\.\pipe\openvpn\service` (GENERIC_READ | GENERIC_WRITE).
//! 2. Write startup data as a WCHAR buffer:
//!    `config_directory\0options\0management_password\n\0`
//!    (three null-separated wide-string fields, trailing null).
//! 3. Read response:
//!    - Success: `0x00000000\n0x<PID_hex>\nProcess ID`
//!    - Error:   `0x<error_code>\n<description>`

use vstd::prelude::*;
use crate::error::OpenVpnError;
use crate::service_ipc::{to_wide_nul, wide_nul, reply_text};
use crate::service_ipc::{free_of, hex_line, lemma_startup_buffer_fields, startup_buffer_rule};
use crate::text::{
    chars_of, hex_width, join, join_chars, lemma_hex_width_digits, lemma_lines_acc_last,
    lemma_lines_acc_newline, lemma_parse_prefixed_hex, lines, lines_of, owned, parse_unsigned,
    parse_unsigned_chars, pow16, push_hex_width, push_str, seq_starts_with, slice_chars, splitn,
    string_of, strip_cr, trim_start_matches, trim_start_matches_str, views,
};
use crate::utf16::{
    decode_utf16_lossy_units, le_bytes, push_le_bytes, units_from_le_bytes,
    decode_utf16_lossy, units_from_le, lemma_le_bytes_append,
};

verus! {

/// The code units of a NUL-terminated UTF-16 string.
pub fn wide_str(s: &str) -> (r: Vec<u16>)
    ensures
        r@ == wide_nul(s@),
{
    to_wide_nul(s)
}

/// The startup data: configuration directory, options and management
/// password followed by a newline, each NUL-terminated, as UTF-16LE.
pub open spec fn startup_data_rule(config_dir: Seq<char>, options: Seq<char>, mgmt_password: Seq<char>) -> Seq<u8> {
    le_bytes(wide_nul(config_dir) + wide_nul(options) + wide_nul(mgmt_password + "\n"@))
}

/// A hexadecimal `u32` after leading `0x` and then `0X` prefixes are
/// removed.
pub open spec fn hex_code(s: Seq<char>) -> Option<u32> {
    match parse_unsigned(trim_start_matches(trim_start_matches(s, "0x"@), "0X"@), 16, u32::MAX as nat) {
        Some(n) => Some(n as u32),
        None => None,
    }
}

/// The line at index `i`, or the empty text when there is none.
pub open spec fn line_or_empty(ls: Seq<Seq<char>>, i: int) -> Seq<char> {
    if i < ls.len() {
        ls[i]
    } else {
        seq![]
    }
}

/// The lines after the first one.
pub open spec fn lines_after_first(ls: Seq<Seq<char>>) -> Seq<Seq<char>> {
    if ls.len() > 0 {
        ls.subrange(1, ls.len() as int)
    } else {
        seq![]
    }
}

/// How the reply text is read: `Ok(pid)` or the error message.
pub open spec fn client_reply_rule(text: Seq<char>) -> Result<u32, Seq<char>> {
    let ls = lines_of(text);
    let code = match hex_code(line_or_empty(ls, 0)) {
        Some(c) => c,
        None => 0xFFFF_FFFFu32,
    };
    if code != 0 {
        Err(
            "Interactive Service error 0x"@ + hex_width(code as nat, 8, false) + ": "@ + join(
                lines_after_first(ls),
                "\n"@,
            ),
        )
    } else {
        match hex_code(line_or_empty(ls, 1)) {
            None => Err("Cannot parse PID from service response: "@ + line_or_empty(ls, 1)),
            Some(pid) => if pid == 0 {
                Err("Service returned PID 0"@)
            } else {
                Ok(pid)
            },
        }
    }
}

/// The result of reading a reply, as a model.
pub open spec fn client_result_view(r: Result<u32, OpenVpnError>) -> Option<Result<u32, Seq<char>>> {
    match r {
        Ok(pid) => Some(Ok(pid)),
        Err(OpenVpnError::ServiceIpcFailed(m)) => Some(Err(m@)),
        _ => None,
    }
}

pub struct ServicePipeClient;

impl ServicePipeClient {
    /// Whether the Interactive Service pipe can be opened, where there is
    /// no Interactive Service.
    pub fn is_service_available() -> (r: bool)
        ensures
            !r,
    {
        false
    }

    /// Starting OpenVPN through the Interactive Service, where there is none.
    pub fn start_openvpn(config_dir: &str, options: &str, mgmt_password: &str) -> (r: Result<u32, OpenVpnError>)
        ensures
            client_result_view(r) == Some(
                Err::<u32, Seq<char>>("Interactive Service only available on Windows"@),
            ),
    {
        Err(OpenVpnError::ServiceIpcFailed(owned("Interactive Service only available on Windows")))
    }

    /// The startup data written to the service pipe.
    pub fn startup_data(config_dir: &str, options: &str, mgmt_password: &str) -> (r: Vec<u8>)
        ensures
            r@ == startup_data_rule(config_dir@, options@, mgmt_password@),
    {
        let mut pw = owned(mgmt_password);
        push_str(&mut pw, "\n");
        let mut data: Vec<u16> = to_wide_nul(config_dir);
        let mut b = to_wide_nul(options);
        let mut c = to_wide_nul(pw.as_str());
        data.append(&mut b);
        data.append(&mut c);
        let mut out: Vec<u8> = Vec::new();
        push_le_bytes(&mut out, data.as_slice());
        assert(out@ =~= startup_data_rule(config_dir@, options@, mgmt_password@));
        out
    }

    /// Reads the service reply from the bytes read off the pipe.
    pub fn read_reply(bytes: &[u8]) -> (r: Result<u32, OpenVpnError>)
        ensures
            bytes.len() == 0 ==> client_result_view(r) == Some(
                Err::<u32, Seq<char>>("Empty response from Interactive Service"@),
            ),
            bytes.len() > 0 ==> client_result_view(r) == Some(client_reply_rule(reply_text(bytes@))),
    {
        if bytes.len() == 0 {
            return Err(OpenVpnError::ServiceIpcFailed(owned("Empty response from Interactive Service")));
        }
        let units = units_from_le_bytes(bytes);
        let text = decode_utf16_lossy_units(units.as_slice());
        parse_service_response(text.as_str())
    }
}

fn hex_code_of(v: &[char]) -> (r: Option<u32>)
    ensures
        r == hex_code(v@),
{
    let a = trim_start_matches_str(v, "0x");
    let b = trim_start_matches_str(a.as_slice(), "0X");
    match parse_unsigned_chars(b.as_slice(), 16, 0xFFFF_FFFF) {
        Some(n) => Some(n as u32),
        None => None,
    }
}

/// Parses the reply text of the Interactive Service into the PID of the
/// launched `openvpn.exe`.
pub fn parse_service_response(response: &str) -> (r: Result<u32, OpenVpnError>)
    ensures
        client_result_view(r) == Some(client_reply_rule(response@)),
{
    let v = chars_of(response);
    let ls = lines(v.as_slice());
    let ghost lv = views(ls@);
    let first: Vec<char> = if ls.len() > 0 {
        assert(lv[0] == ls@[0]@);
        slice_chars(ls[0].as_slice(), 0, ls[0].len())
    } else {
        Vec::new()
    };
    assert(first@ =~= line_or_empty(lv, 0));
    let code = match hex_code_of(first.as_slice()) {
        Some(c) => c,
        None => 0xFFFF_FFFFu32,
    };
    if code != 0 {
        let mut rest: Vec<Vec<char>> = Vec::new();
        if ls.len() > 0 {
            let mut i: usize = 1;
            assert(views(rest@) =~= lv.subrange(1, 1));
            while i < ls.len()
                invariant
                    1 <= i <= ls.len(),
                    lv == views(ls@),
                    views(rest@) == lv.subrange(1, i as int),
                decreases ls.len() - i,
            {
                let ghost before = views(rest@);
                let piece = slice_chars(ls[i].as_slice(), 0, ls[i].len());
                assert(piece@ =~= lv[i as int]);
                rest.push(piece);
                assert(views(rest@) =~= before.push(lv[i as int]));
                assert(lv.subrange(1, i + 1) =~= lv.subrange(1, i as int).push(lv[i as int]));
                i = i + 1;
            }
        } else {
            assert(views(rest@) =~= lines_after_first(lv));
        }
        let mut m = owned("Interactive Service error 0x");
        push_hex_width(&mut m, code as u64, 8, false);
        push_str(&mut m, ": ");
        let joined = join_chars(&rest, "\n");
        push_str(&mut m, joined.as_str());
        return Err(OpenVpnError::ServiceIpcFailed(m));
    }
    let second: Vec<char> = if ls.len() > 1 {
        assert(lv[1] == ls@[1]@);
        slice_chars(ls[1].as_slice(), 0, ls[1].len())
    } else {
        Vec::new()
    };
    assert(second@ =~= line_or_empty(lv, 1));
    match hex_code_of(second.as_slice()) {
        None => {
            let mut m = owned("Cannot parse PID from service response: ");
            let l = string_of(second.as_slice());
            push_str(&mut m, l.as_str());
            Err(OpenVpnError::ServiceIpcFailed(m))
        },
        Some(pid) => {
            if pid == 0 {
                Err(OpenVpnError::ServiceIpcFailed(owned("Service returned PID 0")))
            } else {
                Ok(pid)
            }
        },
    }
}

/// A reply that starts with `0x00000000` and then `0x` and the eight hex
/// digits of a non-zero PID gives that PID, whatever follows.
pub proof fn lemma_client_success_reply(pid: u32, rest: Seq<char>)
    requires
        pid != 0,
    ensures
        client_reply_rule(hex_line(0) + "\n"@ + hex_line(pid) + "\n"@ + rest) == Ok::<u32, Seq<char>>(pid),
{
    reveal_strlit("0x");
    reveal_strlit("0X");
    reveal_strlit("\n");
    assert(pow16(8) == 0x1_0000_0000) by {
        reveal_with_fuel(pow16, 9);
    }
    let t = hex_line(0) + "\n"@ + hex_line(pid) + "\n"@ + rest;
    let y = hex_line(pid) + seq!['\n'] + rest;
    assert(t =~= hex_line(0) + seq!['\n'] + y);
    lemma_client_hex_line(0);
    lemma_client_hex_line(pid);
    lemma_lines_acc_newline(hex_line(0), y, seq![]);
    lemma_lines_acc_newline(hex_line(pid), rest, seq![]);
    assert(Seq::<char>::empty() + hex_line(0) =~= hex_line(0));
    assert(Seq::<char>::empty() + hex_line(pid) =~= hex_line(pid));
    let ls = lines_of(t);
    assert(ls[0] == hex_line(0));
    assert(ls[1] == hex_line(pid));
}

/// A reply with a non-zero error code and a one-line description is
/// refused with that code, in lower-case hex, and the description.
pub proof fn lemma_client_error_reply(code: u32, description: Seq<char>)
    requires
        code != 0,
        description.len() > 0,
        free_of(description, '\n'),
    ensures
        client_reply_rule(hex_line(code) + "\n"@ + description) == Err::<u32, Seq<char>>(
            "Interactive Service error 0x"@ + hex_width(code as nat, 8, false) + ": "@ + description,
        ),
{
    reveal_strlit("\n");
    let t = hex_line(code) + "\n"@ + description;
    assert(t =~= hex_line(code) + seq!['\n'] + description);
    lemma_client_hex_line(code);
    lemma_lines_acc_newline(hex_line(code), description, seq![]);
    lemma_lines_acc_last(description, seq![]);
    assert(Seq::<char>::empty() + hex_line(code) =~= hex_line(code));
    assert(Seq::<char>::empty() + description =~= description);
    let ls = lines_of(t);
    assert(ls =~= seq![hex_line(code), description]);
    assert(lines_after_first(ls) =~= seq![description]);
}

/// The service reads back the configuration directory, the options and the
/// management password with its newline from the startup data, each ended
/// by a NUL, when none of them holds a NUL.
pub proof fn lemma_startup_data_fields(config_dir: Seq<char>, options: Seq<char>, mgmt_password: Seq<char>)
    requires
        free_of(config_dir, '\0'),
        free_of(options, '\0'),
        free_of(mgmt_password, '\0'),
    ensures
        splitn(
            decode_utf16_lossy(units_from_le(startup_data_rule(config_dir, options, mgmt_password))),
            '\0',
            4,
        ) == seq![config_dir, options, mgmt_password + "\n"@, Seq::<char>::empty()],
{
    reveal_strlit("\n");
    let pw = mgmt_password + "\n"@;
    assert(free_of(pw, '\0')) by {
        assert forall|i: int| 0 <= i < pw.len() implies #[trigger] pw[i] != '\0' by {
            if i < mgmt_password.len() {
                assert(pw[i] == mgmt_password[i]);
            }
        }
    }
    lemma_le_bytes_append(wide_nul(config_dir), wide_nul(options));
    lemma_le_bytes_append(wide_nul(config_dir) + wide_nul(options), wide_nul(pw));
    assert(startup_data_rule(config_dir, options, mgmt_password) == startup_buffer_rule(
        config_dir,
        options,
        pw,
    ));
    lemma_startup_buffer_fields(config_dir, options, pw);
}

proof fn lemma_client_hex_line(n: u32)
    ensures
        free_of(hex_line(n), '\n'),
        strip_cr(hex_line(n)) == hex_line(n),
        hex_code(hex_line(n)) == Some(n),
{
    reveal_strlit("0x");
    reveal_strlit("0X");
    assert(pow16(8) == 0x1_0000_0000) by {
        reveal_with_fuel(pow16, 9);
    }
    lemma_hex_width_digits(n as nat, 8, true);
    lemma_parse_prefixed_hex(n as nat, 8, true, u32::MAX as nat);
    let h = hex_width(n as nat, 8, true);
    let l = hex_line(n);
    assert forall|i: int| 0 <= i < l.len() implies #[trigger] l[i] != '\n' by {
        if i >= 2 {
            assert(l[i] == h[i - 2]);
            assert(crate::text::is_white('\n'));
        }
    }
    assert(l.last() == h[7]);
    assert(crate::text::is_white('\r'));
    assert(!seq_starts_with(h, "0X"@)) by {
        assert(h[1] != 'X');
        assert(h.take(2)[1] == h[1]);
    }
    assert(trim_start_matches(h, "0X"@) == h);
}

} // verus!
