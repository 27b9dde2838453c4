use cloudmqtt::codecs::{
    decide_frame, parse_variable_u32, variable_u32_binary_size, write_variable_u32, FrameDecision,
    VariableIntegerParse, VARIABLE_INTEGER_MAX,
};
use cloudmqtt::tester::command::{needs_another_length_byte, remaining_length};

#[test]
fn variable_integers_round_trip() {
    for value in [0u32, 1, 127, 128, 321, 16_383, 16_384, 2_097_151, 2_097_152, VARIABLE_INTEGER_MAX] {
        let bytes = write_variable_u32(value);
        assert_eq!(bytes.len() as u32, variable_u32_binary_size(value));
        assert_eq!(
            parse_variable_u32(&bytes),
            VariableIntegerParse::Value {
                value,
                len: bytes.len()
            }
        );
    }
}

#[test]
fn variable_integer_encodings() {
    assert_eq!(write_variable_u32(0), vec![0]);
    assert_eq!(write_variable_u32(127), vec![0x7f]);
    assert_eq!(write_variable_u32(128), vec![0x80, 0x01]);
    assert_eq!(write_variable_u32(321), vec![0xc1, 0x02]);
    assert_eq!(write_variable_u32(VARIABLE_INTEGER_MAX), vec![0xff, 0xff, 0xff, 0x7f]);
}

#[test]
fn variable_integer_parse_errors() {
    assert_eq!(parse_variable_u32(&[]), VariableIntegerParse::Incomplete);
    assert_eq!(parse_variable_u32(&[0x80, 0x80]), VariableIntegerParse::Incomplete);
    assert_eq!(
        parse_variable_u32(&[0x80, 0x80, 0x80, 0x80, 0x01]),
        VariableIntegerParse::Invalid
    );
    assert_eq!(
        parse_variable_u32(&[0x05, 0xff]),
        VariableIntegerParse::Value { value: 5, len: 1 }
    );
}

#[test]
fn frames_are_cut_at_their_length() {
    assert_eq!(decide_frame(&[]), FrameDecision::NeedMore(2));
    assert_eq!(decide_frame(&[0xc0]), FrameDecision::NeedMore(1));
    // PINGREQ: header and a zero length
    assert_eq!(decide_frame(&[0xc0, 0x00, 0x01]), FrameDecision::Frame(2));
    // three bytes announced, two there
    assert_eq!(decide_frame(&[0x30, 0x03, 0x01, 0x02]), FrameDecision::NeedMore(1));
    assert_eq!(decide_frame(&[0x30, 0x03, 0x01, 0x02, 0x03]), FrameDecision::Frame(5));
    // the length itself is not complete yet
    assert_eq!(decide_frame(&[0x30, 0x80]), FrameDecision::NeedMore(1));
    assert_eq!(
        decide_frame(&[0x30, 0x80, 0x80, 0x80, 0x80]),
        FrameDecision::ProtocolError
    );
    // 128 bytes announced with a two-byte length
    let mut long = vec![0x30, 0x80, 0x01];
    long.extend(std::iter::repeat(0).take(128));
    assert_eq!(decide_frame(&long), FrameDecision::Frame(131));
}

#[test]
fn tester_reads_the_remaining_length() {
    assert_eq!(remaining_length(&[0x10, 0x0c, 0x00]), 12);
    assert_eq!(remaining_length(&[0x10, 0xc1, 0x02]), 321);
    assert!(!needs_another_length_byte(&[0x10, 0x0c, 0x00]));
    assert!(needs_another_length_byte(&[0x10, 0xc1, 0x02]));
    assert!(!needs_another_length_byte(&[0x10, 0xc1, 0x02, 0x00]));
}
