//! The behaviour tests: a scripted server side talks to the client, and the
//! client's exit status says whether it behaved. Each test names itself and
//! says what the client's exit status means for it.

use vstd::prelude::*;

use super::client_report::{connect_flags_at, password_flag, username_flag};
use super::report::ReportResult;

verus! {

/// The server sends a CONNACK whose reserved flag bits are not zero; the
/// client must refuse it and fail.
pub struct ConnackFlagsAreSetAsReserved;

/// The server's first packet is a CONNECT instead of a CONNACK; the client
/// must close the connection and fail.
pub struct InvalidFirstPacketIsRejected;

/// The server publishes a topic name that is not valid UTF-8; the client
/// must close the connection and fail.
pub struct InvalidUtf8IsRejected;

/// The server sends a SUBSCRIBE, which only clients send; the client must
/// close the connection and fail.
pub struct ReceivingServerPacket;

/// The client connects, and its CONNECT is checked.
pub struct WaitForConnect;

/// A client that exits with failure passed a test whose server side
/// misbehaved; one that exits successfully failed it.
pub open spec fn failure_expected(success: bool) -> ReportResult {
    if success {
        ReportResult::Failure
    } else {
        ReportResult::Success
    }
}

/// A client that exits successfully passed a test in which it was treated
/// correctly.
pub open spec fn success_expected(success: bool) -> ReportResult {
    if success {
        ReportResult::Success
    } else {
        ReportResult::Failure
    }
}

impl ConnackFlagsAreSetAsReserved {
    pub fn report_name(&self) -> (res: &'static str)
        ensures
            res@ == "Flag-Bit is set to 1 where it should be 0"@,
    {
        "Flag-Bit is set to 1 where it should be 0"
    }

    pub fn report_desc(&self) -> (res: &'static str)
        ensures
            res@ == "CONNACK flag bits are marked as Reserved and must be set accordingly to spec"@,
    {
        "CONNACK flag bits are marked as Reserved and must be set accordingly to spec"
    }

    pub fn report_normative(&self) -> (res: &'static str)
        ensures
            res@ == "[MQTT-2.2.2-1]"@,
    {
        "[MQTT-2.2.2-1]"
    }

    pub fn translate_client_exit_code(&self, success: bool) -> (res: ReportResult)
        ensures
            res == failure_expected(success),
    {
        if success {
            ReportResult::Failure
        } else {
            ReportResult::Success
        }
    }
}

impl InvalidFirstPacketIsRejected {
    pub fn report_name(&self) -> (res: &'static str)
        ensures
            res@ == "Check if invalid first packet is rejected"@,
    {
        "Check if invalid first packet is rejected"
    }

    pub fn report_desc(&self) -> (res: &'static str)
        ensures
            res@
                == "The first packet from the server must be a ConnAck. Any other packet is invalid and the client should close the connection"@,
    {
        "The first packet from the server must be a ConnAck. Any other packet is invalid and the client should close the connection"
    }

    pub fn report_normative(&self) -> (res: &'static str)
        ensures
            res@ == "[MQTT-3.2.0-1]"@,
    {
        "[MQTT-3.2.0-1]"
    }

    pub fn translate_client_exit_code(&self, success: bool) -> (res: ReportResult)
        ensures
            res == failure_expected(success),
    {
        if success {
            ReportResult::Failure
        } else {
            ReportResult::Success
        }
    }
}

impl InvalidUtf8IsRejected {
    pub fn report_name(&self) -> (res: &'static str)
        ensures
            res@ == "Check if invalid UTF-8 is rejected"@,
    {
        "Check if invalid UTF-8 is rejected"
    }

    pub fn report_desc(&self) -> (res: &'static str)
        ensures
            res@
                == "Invalid UTF-8 is not allowed per the MQTT spec. Any receiver should immediately close the connection upon receiving such a packet."@,
    {
        "Invalid UTF-8 is not allowed per the MQTT spec. Any receiver should immediately close the connection upon receiving such a packet."
    }

    pub fn report_normative(&self) -> (res: &'static str)
        ensures
            res@ == "[MQTT-1.5.3-1, MQTT-1.5.3-2]"@,
    {
        "[MQTT-1.5.3-1, MQTT-1.5.3-2]"
    }

    pub fn translate_client_exit_code(&self, success: bool) -> (res: ReportResult)
        ensures
            res == failure_expected(success),
    {
        if success {
            ReportResult::Failure
        } else {
            ReportResult::Success
        }
    }
}

impl ReceivingServerPacket {
    pub fn report_name(&self) -> (res: &'static str)
        ensures
            res@ == "Check if invalid packets are rejected"@,
    {
        "Check if invalid packets are rejected"
    }

    pub fn report_desc(&self) -> (res: &'static str)
        ensures
            res@ == "Unexpected packets are a protocol error and the client MUST close the connection."@,
    {
        "Unexpected packets are a protocol error and the client MUST close the connection."
    }

    pub fn report_normative(&self) -> (res: &'static str)
        ensures
            res@ == "[MQTT-4.8.0-1]"@,
    {
        "[MQTT-4.8.0-1]"
    }

    pub fn translate_client_exit_code(&self, success: bool) -> (res: ReportResult)
        ensures
            res == failure_expected(success),
    {
        if success {
            ReportResult::Failure
        } else {
            ReportResult::Success
        }
    }
}

impl WaitForConnect {
    pub fn report_name(&self) -> (res: &'static str)
        ensures
            res@ == "Wait for client to connect"@,
    {
        "Wait for client to connect"
    }

    pub fn report_desc(&self) -> (res: &'static str)
        ensures
            res@ == "A client should send a CONNECT packet to connect to the server"@,
    {
        "A client should send a CONNECT packet to connect to the server"
    }

    pub fn report_normative(&self) -> (res: &'static str)
        ensures
            res@ == "none"@,
    {
        "none"
    }

    pub fn translate_client_exit_code(&self, success: bool) -> (res: ReportResult)
        ensures
            res == success_expected(success),
    {
        if success {
            ReportResult::Success
        } else {
            ReportResult::Failure
        }
    }

    /// The check on the client's CONNECT: with the user-name flag set, the
    /// password flag is not. Bytes that are not a CONNECT fail the check.
    pub fn check_connect(&self, bytes: &[u8]) -> (res: bool)
        ensures
            res == match connect_flags_at(bytes@, 3) {
                None => false,
                Some(flags) => username_flag(flags) ==> !password_flag(flags),
            },
    {
        let connect_flags = match find_connect_flags(bytes) {
            Some(flags) => flags,
            None => return false,
        };
        let username_flag_set = 0 != (connect_flags & 0b1000_0000);
        let password_flag_set = 0 != (connect_flags & 0b0100_0000);
        if username_flag_set {
            !password_flag_set
        } else {
            true
        }
    }
}

/// The CONNECT flags of a packet read from the client, the length of the
/// protocol name read at byte 3.
pub fn find_connect_flags(bytes: &[u8]) -> (res: Option<u8>)
    ensures
        res == connect_flags_at(bytes@, 3),
{
    if bytes.len() == 0 || bytes[0] != 0b0001_0000 {
        return None;
    }
    if bytes.len() <= 3 {
        return None;
    }
    let str_len = bytes[3];
    let connect_flag_position = 4usize + (str_len as usize) + 2;
    if connect_flag_position < bytes.len() {
        Some(bytes[connect_flag_position])
    } else {
        None
    }
}

} // verus!
