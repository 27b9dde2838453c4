use cloudmqtt::tester::behaviour::{
    find_connect_flags as find_flags_at_byte_3, ConnackFlagsAreSetAsReserved,
    InvalidFirstPacketIsRejected, InvalidUtf8IsRejected, ReceivingServerPacket, WaitForConnect,
};
use cloudmqtt::tester::client_report::{
    check_result, connect_reserved_flag_zero, find_connect_flags, flow_result,
    password_flag_means_password, username_flag_excludes_password_flag,
    username_flag_means_username,
};
use cloudmqtt::tester::no_username_means_no_password::NoUsernameMeansNoPassword;
use cloudmqtt::tester::packet::{parse_client_packet, ParsedPacket};
use cloudmqtt::tester::report::{all_succeeded, summarize, Report, ReportResult, ReportSummary};

/// A CONNECT with client id "c", optionally user name "u", and a password of
/// 70 bytes 0xff (long enough to reach byte 83).
fn connect_packet(with_username: bool) -> Vec<u8> {
    let flags: u8 = if with_username { 0xC2 } else { 0x42 };
    let mut body = vec![0x00, 0x04, b'M', b'Q', b'T', b'T', 0x04, flags, 0x00, 0x3c];
    body.extend([0x00, 0x01, b'c']);
    if with_username {
        body.extend([0x00, 0x01, b'u']);
    }
    body.extend([0x00, 70]);
    body.extend(std::iter::repeat(0xff).take(70));
    let mut packet = vec![0x10, body.len() as u8];
    packet.extend(body);
    packet
}

fn connect_fields<'a>(username: Option<&'a str>, password: Option<&'a [u8]>) -> ParsedPacket<'a> {
    ParsedPacket::Connect("c", true, 0, username, password, None)
}

#[test]
fn a_connect_with_a_will_is_read_whole() {
    // clean session, will of level 1, no user name or password
    let body = vec![
        0x00, 0x04, b'M', b'Q', b'T', b'T', 0x04, 0x0e, 0x00, 0x0a, 0x00, 0x02, b'i', b'd', 0x00,
        0x01, b't', 0x00, 0x02, b'h', b'i',
    ];
    let mut packet = vec![0x10, body.len() as u8];
    packet.extend(body);
    match parse_client_packet(&packet) {
        Some(ParsedPacket::Connect(client_id, clean_session, keep_alive, username, password, will)) => {
            assert_eq!(client_id, "id");
            assert!(clean_session);
            assert_eq!(keep_alive, 10);
            assert_eq!(username, None);
            assert_eq!(password, None);
            assert_eq!(will, Some(("t", &b"hi"[..], 1, false)));
        }
        _ => panic!("not a CONNECT"),
    }
}

#[test]
fn connect_flags_are_found_where_the_tester_looks() {
    assert_eq!(find_connect_flags(&[0x10, 0, 0, 0, 0, 0, 0xab]), Some(0xab));
    assert_eq!(find_connect_flags(&[0x10, 0, 0, 0, 1, 0, 0xab]), None);
    assert_eq!(find_connect_flags(&[0x20, 0, 0, 0, 0, 0, 0xab]), None);
    assert_eq!(find_connect_flags(&[0x10, 0, 0]), None);
    assert_eq!(find_flags_at_byte_3(&[0x10, 0, 0, 1, 0, 0, 0, 0xcd]), Some(0xcd));
    assert_eq!(find_flags_at_byte_3(&[]), None);
}

#[test]
fn reserved_flags_of_connect() {
    assert!(connect_reserved_flag_zero(&[0x10, 0x00]));
    assert!(!connect_reserved_flag_zero(&[0x11, 0x00]));
}

#[test]
fn client_packets_are_parsed_with_the_v3_parser() {
    match parse_client_packet(&connect_packet(true)) {
        Some(ParsedPacket::Connect(client_id, clean_session, keep_alive, username, password, will)) => {
            assert_eq!(client_id, "c");
            assert!(clean_session);
            assert_eq!(keep_alive, 60);
            assert_eq!(username, Some("u"));
            assert_eq!(password, Some(&[0xffu8; 70][..]));
            assert_eq!(will, None);
        }
        _ => panic!("not a CONNECT"),
    }
    match parse_client_packet(&[0xc0, 0x00]) {
        Some(ParsedPacket::Other) => {}
        _ => panic!("not a PINGREQ"),
    }
    assert!(parse_client_packet(&[0x10, 0x05, 0x00]).is_none());
    // one byte too many is not exactly one packet
    assert!(parse_client_packet(&[0xc0, 0x00, 0x00]).is_none());
}

#[test]
fn username_and_password_checks() {
    assert!(username_flag_means_username(&connect_packet(true)));
    assert!(!username_flag_means_username(&connect_packet(false)));
    assert!(password_flag_means_password(&connect_packet(true)));
    assert!(!username_flag_means_username(&[0xc0, 0x00]));
    // flags read as 0x00: nothing is claimed
    assert!(username_flag_means_username(&[0x10, 0, 0, 0, 0, 0, 0x00]));
    assert!(username_flag_excludes_password_flag(&[0x10, 0, 0, 0, 0, 0, 0x80]));
    assert!(!username_flag_excludes_password_flag(&[0x10, 0, 0, 0, 0, 0, 0xc0]));
    assert!(username_flag_excludes_password_flag(&[0x10, 0, 0, 0, 0, 0, 0x40]));
    assert!(!username_flag_excludes_password_flag(&[0x30]));
    assert!(WaitForConnect.check_connect(&[0x10, 0, 0, 0, 0, 0, 0x80]));
    assert!(!WaitForConnect.check_connect(&[0x10, 0, 0, 0, 0, 0, 0xc0]));
}

#[test]
fn password_without_username_fails_the_invariant() {
    let report = NoUsernameMeansNoPassword
        .test_invariant(&connect_fields(None, Some(&[1])))
        .unwrap();
    assert_eq!(report.result, ReportResult::Failure);
    assert_eq!(report.normative_statement_number, "[MQTT-3.1.2-18, MQTT-3.1.2-19]");
    let report = NoUsernameMeansNoPassword
        .test_invariant(&connect_fields(Some("u"), Some(&[1])))
        .unwrap();
    assert_eq!(report.result, ReportResult::Success);
    assert!(NoUsernameMeansNoPassword
        .test_invariant(&ParsedPacket::Other)
        .is_none());
}

#[test]
fn exit_codes_are_translated() {
    assert_eq!(ConnackFlagsAreSetAsReserved.translate_client_exit_code(true), ReportResult::Failure);
    assert_eq!(ConnackFlagsAreSetAsReserved.translate_client_exit_code(false), ReportResult::Success);
    assert_eq!(InvalidFirstPacketIsRejected.translate_client_exit_code(false), ReportResult::Success);
    assert_eq!(InvalidUtf8IsRejected.translate_client_exit_code(true), ReportResult::Failure);
    assert_eq!(ReceivingServerPacket.translate_client_exit_code(false), ReportResult::Success);
    assert_eq!(WaitForConnect.translate_client_exit_code(true), ReportResult::Success);
    assert_eq!(WaitForConnect.translate_client_exit_code(false), ReportResult::Failure);
    assert_eq!(WaitForConnect.report_name(), "Wait for client to connect");
    assert_eq!(ConnackFlagsAreSetAsReserved.report_normative(), "[MQTT-2.2.2-1]");
}

#[test]
fn results_of_checks_and_flows() {
    assert_eq!(check_result(true, Some(true)), (ReportResult::Success, true));
    assert_eq!(check_result(false, Some(true)), (ReportResult::Failure, true));
    assert_eq!(check_result(true, Some(false)), (ReportResult::Inconclusive, true));
    assert_eq!(check_result(true, None), (ReportResult::Failure, false));
    assert_eq!(
        flow_result(Some(ReportResult::Inconclusive), Some(ReportResult::Success)),
        (ReportResult::Inconclusive, true)
    );
    assert_eq!(
        flow_result(Some(ReportResult::Success), Some(ReportResult::Failure)),
        (ReportResult::Failure, true)
    );
    assert_eq!(flow_result(None, Some(ReportResult::Success)), (ReportResult::Failure, false));
    assert_eq!(flow_result(Some(ReportResult::Success), None), (ReportResult::Failure, false));
}

#[test]
fn reports_are_tallied() {
    let results = [
        ReportResult::Success,
        ReportResult::Failure,
        ReportResult::Success,
        ReportResult::Inconclusive,
    ];
    assert_eq!(
        summarize(&results),
        ReportSummary {
            successes: 2,
            failures: 1,
            inconclusive: 1
        }
    );
    assert!(!all_succeeded(&results));
    assert!(all_succeeded(&[ReportResult::Success]));
    assert!(all_succeeded(&[]));
    let report = Report::new("n", "d", "[x]", ReportResult::Success, Some(vec![1]));
    assert_eq!(report.name, "n");
    assert_eq!(report.output, Some(vec![1]));
}
