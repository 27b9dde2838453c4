//! Checks on the CONNECT packet a client sends, and how the outcome of a
//! test run becomes the result of its report.

use vstd::prelude::*;

use super::packet::{parse_client_packet, v3_packet, PacketView, ParsedPacket};
use super::report::ReportResult;

verus! {

/// The CONNECT flags byte of `bytes`, when they start as a CONNECT packet:
/// the length of the protocol name is read at `len_at`, and the flags stand
/// six bytes plus that length in.
pub open spec fn connect_flags_at(bytes: Seq<u8>, len_at: int) -> Option<u8> {
    if bytes.len() == 0 || bytes[0] != 0x10 || bytes.len() <= len_at {
        None
    } else {
        let pos = 6 + bytes[len_at];
        if pos < bytes.len() {
            Some(bytes[pos])
        } else {
            None
        }
    }
}

/// The CONNECT flags of a packet read from the client (the length of the
/// protocol name read at byte 4).
pub fn find_connect_flags(bytes: &[u8]) -> (res: Option<u8>)
    ensures
        res == connect_flags_at(bytes@, 4),
{
    if bytes.len() == 0 || bytes[0] != 0b0001_0000 {
        return None;
    }
    if bytes.len() <= 4 {
        return None;
    }
    let str_len = bytes[4];
    let connect_flag_position = 4usize + (str_len as usize) + 2;
    if connect_flag_position < bytes.len() {
        Some(bytes[connect_flag_position])
    } else {
        None
    }
}

/// Whether the user-name flag is set.
pub open spec fn username_flag(flags: u8) -> bool {
    flags & 0b1000_0000 != 0
}

/// Whether the password flag is set.
pub open spec fn password_flag(flags: u8) -> bool {
    flags & 0b0100_0000 != 0
}

/// What a parse gave, seen as plain values.
pub open spec fn parsed_view(parsed: Option<ParsedPacket>) -> Option<PacketView> {
    match parsed {
        Some(p) => Some(p@),
        None => None,
    }
}

/// The packet parsed is a CONNECT that carries a user name.
pub open spec fn has_username(parsed: Option<PacketView>) -> bool {
    match parsed {
        Some(PacketView::Connect(_, _, _, username, _, _)) => username is Some,
        _ => false,
    }
}

/// The packet parsed is a CONNECT that carries a password.
pub open spec fn has_password(parsed: Option<PacketView>) -> bool {
    match parsed {
        Some(PacketView::Connect(_, _, _, _, password, _)) => password is Some,
        _ => false,
    }
}

/// Whether a parse gave a CONNECT with a user name.
pub fn username_present(parsed: &Option<ParsedPacket>) -> (res: bool)
    ensures
        res == has_username(parsed_view(*parsed)),
{
    match parsed {
        Some(ParsedPacket::Connect(_, _, _, username, _, _)) => username.is_some(),
        _ => false,
    }
}

/// Whether a parse gave a CONNECT with a password.
pub fn password_present(parsed: &Option<ParsedPacket>) -> (res: bool)
    ensures
        res == has_password(parsed_view(*parsed)),
{
    match parsed {
        Some(ParsedPacket::Connect(_, _, _, _, password, _)) => password.is_some(),
        _ => false,
    }
}

/// [MQTT-3.1.2-3]: the first byte of a CONNECT is `0001_0000`, its
/// reserved flags zero.
pub fn connect_reserved_flag_zero(bytes: &[u8]) -> (res: bool)
    requires
        bytes@.len() >= 1,
    ensures
        res == (bytes@[0] == 0b0001_0000),
{
    bytes[0] == 0b0001_0000
}

/// [MQTT-3.1.2-18, MQTT-3.1.2-19]: a CONNECT with the user-name flag set
/// carries a user name. Bytes that are not a CONNECT fail the check.
pub fn username_flag_means_username(bytes: &[u8]) -> (res: bool)
    ensures
        res == match connect_flags_at(bytes@, 4) {
            None => false,
            Some(flags) => !username_flag(flags) || has_username(v3_packet(bytes@)),
        },
{
    let connect_flags = match find_connect_flags(bytes) {
        Some(flags) => flags,
        None => return false,
    };
    if 0 != (connect_flags & 0b1000_0000) {
        let packet = parse_client_packet(bytes);
        username_present(&packet)
    } else {
        true
    }
}

/// [MQTT-3.1.2-20, MQTT-3.1.2-21]: a CONNECT with the password flag set
/// carries a password. Bytes that are not a CONNECT fail the check.
pub fn password_flag_means_password(bytes: &[u8]) -> (res: bool)
    ensures
        res == match connect_flags_at(bytes@, 4) {
            None => false,
            Some(flags) => !password_flag(flags) || has_password(v3_packet(bytes@)),
        },
{
    let connect_flags = match find_connect_flags(bytes) {
        Some(flags) => flags,
        None => return false,
    };
    if 0 != (connect_flags & 0b0100_0000) {
        let packet = parse_client_packet(bytes);
        password_present(&packet)
    } else {
        true
    }
}

/// A CONNECT with the user-name flag set does not also set the password
/// flag. Bytes that are not a CONNECT fail the check.
pub fn username_flag_excludes_password_flag(bytes: &[u8]) -> (res: bool)
    ensures
        res == match connect_flags_at(bytes@, 4) {
            None => false,
            Some(flags) => username_flag(flags) ==> !password_flag(flags),
        },
{
    let connect_flags = match find_connect_flags(bytes) {
        Some(flags) => flags,
        None => return false,
    };
    let username_flag_set = 0 != (connect_flags & 0b1000_0000);
    let password_flag_set = 0 != (connect_flags & 0b0100_0000);
    if username_flag_set {
        !password_flag_set
    } else {
        true
    }
}

/// The result of a check on the client's CONNECT: when the client ran to
/// its end (`client_exit` is whether it exited successfully), a successful
/// exit gives the check's verdict and a failed one is inconclusive; when
/// waiting for the client failed, the test failed. The second part tells
/// whether the client's error output is reported.
pub fn check_result(check_passed: bool, client_exit: Option<bool>) -> (res: (ReportResult, bool))
    ensures
        res == match client_exit {
            Some(true) => (
                if check_passed {
                    ReportResult::Success
                } else {
                    ReportResult::Failure
                },
                true,
            ),
            Some(false) => (ReportResult::Inconclusive, true),
            None => (ReportResult::Failure, false),
        },
{
    match client_exit {
        Some(true) => (
            if check_passed {
                ReportResult::Success
            } else {
                ReportResult::Failure
            },
            true,
        ),
        Some(false) => (ReportResult::Inconclusive, true),
        None => (ReportResult::Failure, false),
    }
}

/// The result of a behaviour test: `flow_outcome` is what the scripted
/// server side concluded, `client_verdict` what the client's exit status
/// means for this test; `None` stands for an error in either. When the
/// client's exit counts as success the flow's conclusion is the result,
/// otherwise the exit's meaning is. The second part tells whether the
/// client's error output is reported.
pub fn flow_result(flow_outcome: Option<ReportResult>, client_verdict: Option<ReportResult>) -> (res: (
    ReportResult,
    bool,
))
    ensures
        res == match (flow_outcome, client_verdict) {
            (Some(flow), Some(ReportResult::Success)) => (flow, true),
            (Some(_), Some(verdict)) => (verdict, true),
            _ => (ReportResult::Failure, false),
        },
{
    match (flow_outcome, client_verdict) {
        (Some(flow), Some(verdict)) => {
            if verdict == ReportResult::Success {
                (flow, true)
            } else {
                (verdict, true)
            }
        },
        _ => (ReportResult::Failure, false),
    }
}

} // verus!
