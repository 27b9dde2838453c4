//! Properties every packet the client sends must have, checked on each one.

use vstd::prelude::*;

use super::packet::{PacketView, ParsedPacket};
use super::report::{Report, ReportResult};

verus! {

/// A CONNECT without a user name carries no password.
pub struct NoUsernameMeansNoPassword;

impl NoUsernameMeansNoPassword {
    /// Checks a packet: for a CONNECT, a report that fails when a password
    /// comes without a user name and succeeds otherwise; no report for any
    /// other packet.
    pub fn test_invariant(&self, packet: &ParsedPacket) -> (res: Option<Report>)
        ensures
            match packet@ {
                PacketView::Connect(_, _, _, username, password, _) => res matches Some(report) && {
                    &&& report.result == if username is None && password is Some {
                        ReportResult::Failure
                    } else {
                        ReportResult::Success
                    }
                    &&& report.name@
                        == "If the CONNECT packet flag for username is set, a username must be present"@
                    &&& report.description@
                        == "If the User Name Flag is set to 1, a user name MUST be present in the payload."@
                    &&& report.normative_statement_number@ == "[MQTT-3.1.2-18, MQTT-3.1.2-19]"@
                    &&& report.output is None
                },
                _ => res is None,
            },
    {
        let result = match packet {
            ParsedPacket::Connect(_, _, _, username, password, _) => {
                if username.is_none() {
                    if password.is_some() {
                        ReportResult::Failure
                    } else {
                        ReportResult::Success
                    }
                } else {
                    ReportResult::Success
                }
            },
            _ => {
                return None;
            },
        };
        Some(
            Report::new(
                "If the CONNECT packet flag for username is set, a username must be present",
                "If the User Name Flag is set to 1, a user name MUST be present in the payload.",
                "[MQTT-3.1.2-18, MQTT-3.1.2-19]",
                result,
                None,
            ),
        )
    }
}

} // verus!
