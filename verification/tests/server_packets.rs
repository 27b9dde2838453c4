use cloudmqtt::qos::QualityOfService;
use cloudmqtt::server::connection::{read_client_packet, read_connect, ClientPacket};

#[test]
fn a_publish_of_level_one_is_read_whole() {
    let frame = [0x32, 7, 0, 1, b'a', 0, 5, b'h', b'i'];
    match read_client_packet(&frame) {
        Some(ClientPacket::Publish { qos, retain, topic, id, payload }) => {
            assert_eq!(qos, QualityOfService::AtLeastOnce);
            assert!(!retain);
            assert_eq!(topic, "a");
            assert_eq!(id, Some(5));
            assert_eq!(payload, b"hi".to_vec());
        }
        other => panic!("not a PUBLISH: {other:?}"),
    }
}

#[test]
fn acknowledgements_pings_and_goodbyes_are_read() {
    assert!(matches!(read_client_packet(&[0x40, 2, 0, 7]), Some(ClientPacket::Puback(7))));
    assert!(matches!(read_client_packet(&[0x50, 2, 1, 0]), Some(ClientPacket::Pubrec(256))));
    assert!(matches!(read_client_packet(&[0x62, 2, 0, 3]), Some(ClientPacket::Pubrel(3))));
    assert!(matches!(read_client_packet(&[0x70, 2, 0, 4]), Some(ClientPacket::Pubcomp(4))));
    assert!(matches!(read_client_packet(&[0xc0, 0]), Some(ClientPacket::Pingreq)));
    assert!(matches!(read_client_packet(&[0xe0, 0]), Some(ClientPacket::Disconnect)));
    // a CONNACK is nothing a server handles
    assert!(matches!(read_client_packet(&[0x20, 2, 0, 0]), Some(ClientPacket::Other)));
    // not one whole packet
    assert!(read_client_packet(&[0x40, 2, 0]).is_none());
    assert!(read_client_packet(&[0xc0, 0, 0]).is_none());
}

#[test]
fn subscriptions_are_granted_by_the_policy() {
    let mut frame = vec![0x82, 0, 0, 9, 0, 1, b'x', 0x01, 0, 9];
    frame.extend_from_slice(b"forbidden");
    frame.push(0x02);
    frame[1] = (frame.len() - 2) as u8;
    match read_client_packet(&frame) {
        Some(ClientPacket::Subscribe(requests)) => {
            assert_eq!(requests.len(), 2);
            assert_eq!(requests[0].topic, "x");
            assert_eq!(requests[0].granted, Some(QualityOfService::AtLeastOnce));
            assert_eq!(requests[1].topic, "forbidden");
            assert_eq!(requests[1].granted, None);
        }
        other => panic!("not a SUBSCRIBE: {other:?}"),
    }
}

#[test]
fn only_a_connect_opens_a_connection() {
    assert!(read_connect(&[0xc0, 0]).is_none());
    assert!(read_connect(&[0x10, 3, 0]).is_none());
    let body = [
        0x00, 0x04, b'M', b'Q', b'T', b'T', 0x04, 0x0e, 0x00, 0x0a, 0x00, 0x02, b'i', b'd', 0x00,
        0x01, b't', 0x00, 0x02, b'h', b'i',
    ];
    let mut frame = vec![0x10, body.len() as u8];
    frame.extend(body);
    let connect = read_connect(&frame).unwrap();
    assert_eq!(connect.client_id, "id");
    assert!(connect.clean_session);
    assert_eq!(connect.keep_alive, 10);
    assert_eq!(connect.username, None);
    assert_eq!(connect.password, None);
    let will = connect.will.unwrap();
    assert_eq!(will.topic, "t");
    assert_eq!(will.payload, b"hi".to_vec());
    assert_eq!(will.qos, QualityOfService::AtLeastOnce);
    assert!(!will.retain);
}
