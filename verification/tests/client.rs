use cloudmqtt::bytes::{MqttBytes, MqttBytesError};
use cloudmqtt::client::builder::{ClientHandlers, MqttClientBuilder};
use cloudmqtt::client::connect::{
    heartbeat_period, heartbeat_step, HeartbeatAction, HeartbeatEvent, process_connack, CleanStart, ConnackInfo, MqttClientConnectError, MqttClientConnector,
    ServerResponse,
};
use cloudmqtt::client::receive::{
    handle_pingresp, handle_puback, handle_received, ReceivedPacket, handle_pubcomp, handle_pubrec, received_action, AckReason,
    Callbacks, PacketKind, PubackReason, Qos1Callbacks, Qos2CompleteCallback,
    Qos2ReceiveCallback, ReceivedAction,
};
use cloudmqtt::client::send::{
    fits_maximum_packet_size, get_next_packet_ident, prepare_publish, record_publish,
    PacketIdentifierExhausted, publish_packet, Publish, register_ping, PublishQos1, PublishQos2, PublishRefusal, PublishWaiting,
};
use cloudmqtt::client::InnerClient;
use cloudmqtt::client::state::{ConnectState, OutstandingPackets, SessionState};
use cloudmqtt::client_identifier::{ClientIdentifierError, ProposedClientIdentifier};
use cloudmqtt::keep_alive::KeepAlive;
use cloudmqtt::packet_identifier::PacketIdentifier;
use cloudmqtt::packets::MqttPacket;
use cloudmqtt::payload::{MqttPayload, MqttPayloadError};
use cloudmqtt::qos::QualityOfService;
use cloudmqtt::string::{MqttString, MqttStringError};
use cloudmqtt::topic::{MqttTopic, MqttTopicError};

fn id(v: u16) -> PacketIdentifier {
    PacketIdentifier::new(v).unwrap()
}

fn packet(bytes: &[u8]) -> MqttPacket {
    MqttPacket::from_frame(bytes.to_vec())
}

fn connack(session_present: bool, assigned: Option<&str>) -> ConnackInfo {
    ConnackInfo {
        session_present,
        success: true,
        receive_maximum: Some(10),
        maximum_qos: None,
        retain_available: Some(false),
        maximum_packet_size: Some(1000),
        topic_alias_maximum: None,
        server_keep_alive: None,
        assigned_client_identifier: assigned.map(|s| s.to_string()),
    }
}

fn connector(identifier: ProposedClientIdentifier, clean_start: CleanStart) -> MqttClientConnector {
    MqttClientConnector::new(identifier, clean_start, KeepAlive::from_u16(30))
}

fn reason(res: Result<(ConnectState, SessionState), MqttClientConnectError>) -> &'static str {
    match res {
        Err(MqttClientConnectError::ServerProtocolError { reason }) => reason,
        _ => "accepted",
    }
}

#[test]
fn strings_are_limited_to_65535_bytes() {
    let ok = "x".repeat(65535);
    assert_eq!(MqttString::try_from_str(&ok).unwrap().as_ref().len(), 65535);
    let too_long = "x".repeat(65536);
    assert_eq!(
        MqttString::try_from_str(&too_long).err(),
        Some(MqttStringError::TooLong(65536))
    );
    // the limit counts bytes, not characters
    let wide = "é".repeat(32768);
    assert_eq!(
        MqttString::try_from_string(wide).err(),
        Some(MqttStringError::TooLong(65536))
    );
}

#[test]
fn topics_are_checked_in_order() {
    assert_eq!(MqttTopic::from_str("").err(), Some(MqttTopicError::Empty));
    assert_eq!(MqttTopic::from_str("a\0#").err(), Some(MqttTopicError::Null));
    assert_eq!(MqttTopic::from_str("a/#").err(), Some(MqttTopicError::Wildcard));
    assert_eq!(MqttTopic::from_str("a/+/b").err(), Some(MqttTopicError::Wildcard));
    assert_eq!(
        MqttTopic::from_str(&"t".repeat(70000)).err(),
        Some(MqttTopicError::String(MqttStringError::TooLong(70000)))
    );
    assert_eq!(MqttTopic::from_str("a/b").unwrap().as_ref(), "a/b");
}

#[test]
fn payload_and_bytes_limits() {
    assert!(MqttPayload::try_from_vec(vec![1, 2]).is_ok());
    assert_eq!(MqttPayload::try_from_vec(vec![1, 2]).unwrap().as_ref(), &[1, 2]);
    assert!(MqttBytes::try_from_slice(&[3]).is_ok());
    assert_eq!(MqttBytes::try_from_vec(vec![4]).unwrap().as_ref(), &[4]);
    let too_long = vec![0u8; 65536];
    assert!(matches!(
        MqttBytes::try_from_slice(&too_long),
        Err(MqttBytesError::TooLong(65536))
    ));
    let _ = MqttPayloadError::Length { given: 0 };
}

#[test]
fn client_identifiers() {
    let minimal = ProposedClientIdentifier::new_minimal_required("abc123XYZ".to_string()).unwrap();
    assert_eq!(minimal.as_str(), "abc123XYZ");
    assert_eq!(
        ProposedClientIdentifier::new_minimal_required("a-b c".to_string()),
        Err(ClientIdentifierError::MinimalNotAllowedChar(vec!['-', ' ']))
    );
    assert_eq!(
        ProposedClientIdentifier::new_minimal_required("a".repeat(24)),
        Err(ClientIdentifierError::MinimalTooLong(24))
    );
    assert!(ProposedClientIdentifier::new_minimal_required("a".repeat(23)).is_ok());
    assert_eq!(
        ProposedClientIdentifier::new_potetially_accepted(String::new()),
        Err(ClientIdentifierError::Zero)
    );
    let accepted = ProposedClientIdentifier::new_potetially_accepted("any thing".to_string()).unwrap();
    assert_eq!(accepted.as_str(), "any thing");
    assert_eq!(ProposedClientIdentifier::new_potentially_server_provided().as_str(), "");
    match accepted {
        ProposedClientIdentifier::PotentiallyAccepted(p) => {
            assert_eq!(p.into_inner().as_ref(), "any thing")
        }
        _ => panic!("not accepted"),
    }
    match minimal {
        ProposedClientIdentifier::MinimalRequired(m) => assert_eq!(m.into_inner().as_ref(), "abc123XYZ"),
        _ => panic!("not minimal"),
    }
}

#[test]
fn keep_alive_and_clean_start() {
    assert_eq!(KeepAlive::from_u16(0), KeepAlive::Disabled);
    assert_eq!(KeepAlive::from_u16(0).as_u16(), 0);
    assert_eq!(KeepAlive::from_u16(17).as_u16(), 17);
    assert!(CleanStart::Yes.as_bool());
    assert!(!CleanStart::No.as_bool());
}

#[test]
fn connack_is_taken_or_refused() {
    let minimal = || ProposedClientIdentifier::new_minimal_required("me".to_string()).unwrap();

    let ok = process_connack(
        ServerResponse::Connack(connack(false, None)),
        connector(minimal(), CleanStart::Yes),
    );
    let (conn, sess) = match ok {
        Ok(x) => x,
        Err(_) => panic!("refused"),
    };
    assert_eq!(sess.client_identifier.as_ref(), "me");
    assert_eq!(conn.keep_alive.as_u16(), 30);
    assert_eq!(conn.maximum_packet_size, Some(1000));
    assert_eq!(conn.next_packet_identifier.get(), 1);

    let mut info = connack(false, None);
    info.server_keep_alive = Some(0);
    let (conn, _) = match process_connack(ServerResponse::Connack(info), connector(minimal(), CleanStart::No)) {
        Ok(x) => x,
        Err(_) => panic!("refused"),
    };
    assert_eq!(conn.keep_alive, KeepAlive::Disabled);

    assert_eq!(
        reason(process_connack(
            ServerResponse::Connack(connack(true, None)),
            connector(minimal(), CleanStart::Yes)
        )),
        "MQTT-3.2.2-2"
    );
    assert_eq!(
        reason(process_connack(ServerResponse::Auth, connector(minimal(), CleanStart::No))),
        "MQTT-4.12.0-6"
    );
    assert_eq!(
        reason(process_connack(ServerResponse::Other, connector(minimal(), CleanStart::No))),
        "MQTT-3.1.4-5"
    );
    assert_eq!(
        reason(process_connack(
            ServerResponse::Connack(connack(false, Some("given"))),
            connector(minimal(), CleanStart::No)
        )),
        "MQTT-3.2.2.3.7"
    );
    assert_eq!(
        reason(process_connack(
            ServerResponse::Connack(connack(false, None)),
            connector(ProposedClientIdentifier::PotentiallyServerProvided, CleanStart::No)
        )),
        "MQTT-3.2.2.3.7"
    );
    match process_connack(
        ServerResponse::Connack(connack(true, Some("given"))),
        connector(ProposedClientIdentifier::PotentiallyServerProvided, CleanStart::No),
    ) {
        Ok((conn, sess)) => {
            assert!(conn.session_present);
            assert_eq!(sess.client_identifier.as_ref(), "given");
        }
        Err(_) => panic!("refused"),
    }
}

fn connected(retain_available: Option<bool>) -> ConnectState {
    ConnectState {
        session_present: false,
        receive_maximum: None,
        maximum_qos: None,
        retain_available,
        topic_alias_maximum: None,
        maximum_packet_size: None,
        keep_alive: KeepAlive::Disabled,
        next_packet_identifier: PacketIdentifier::min(),
    }
}

fn session() -> SessionState {
    SessionState {
        client_identifier: MqttString::try_from_str("me").unwrap(),
        outstanding_packets: OutstandingPackets::empty(),
    }
}

#[test]
fn publish_is_prepared_as_the_client_decides() {
    let mut none: Option<ConnectState> = None;
    assert_eq!(
        prepare_publish(&mut none, &Some(session()), QualityOfService::AtLeastOnce, false),
        Err(PublishRefusal::NoConnection)
    );
    let mut conn = Some(connected(Some(false)));
    assert_eq!(
        prepare_publish(&mut conn, &None, QualityOfService::AtLeastOnce, false),
        Err(PublishRefusal::NoSession)
    );
    // retain is refused unless the server said it is not available
    let mut conn = Some(connected(None));
    assert_eq!(
        prepare_publish(&mut conn, &Some(session()), QualityOfService::AtMostOnce, true),
        Err(PublishRefusal::Retain)
    );
    let mut conn = Some(connected(Some(false)));
    assert_eq!(
        prepare_publish(&mut conn, &Some(session()), QualityOfService::AtMostOnce, true),
        Ok(None)
    );

    let mut sess = session();
    sess.outstanding_packets.insert(id(1), packet(&[1]));
    let sess = Some(sess);
    let mut conn = Some(connected(Some(false)));
    let picked = prepare_publish(&mut conn, &sess, QualityOfService::ExactlyOnce, false);
    assert_eq!(picked.map(|p| p.map(|i| i.get())), Ok(Some(2)));
    assert_eq!(conn.unwrap().next_packet_identifier.get(), 2);

    assert!(fits_maximum_packet_size(Some(10), 10));
    assert!(!fits_maximum_packet_size(Some(10), 11));
    assert!(fits_maximum_packet_size(None, 268_435_455));
    assert!(!fits_maximum_packet_size(None, 268_435_456));
}

#[test]
fn identifiers_wrap_and_run_out() {
    let mut outstanding = OutstandingPackets::empty();
    let mut next = id(65535);
    assert_eq!(get_next_packet_ident(&mut next, &outstanding).map(|i| i.get()), Ok(65535));
    outstanding.insert(id(65535), packet(&[0]));
    assert_eq!(get_next_packet_ident(&mut next, &outstanding).map(|i| i.get()), Ok(1));

    let mut all = OutstandingPackets::empty();
    for v in 1..=65535u16 {
        all.insert(id(v), packet(&[]));
    }
    let mut next = id(7);
    assert_eq!(get_next_packet_ident(&mut next, &all).map(|i| i.get()), Err(PacketIdentifierExhausted));
    assert_eq!(next.get(), 7);
}

fn outstanding_ids(inner: &InnerClient) -> Vec<(u16, Vec<u8>)> {
    inner
        .session_state
        .as_ref()
        .unwrap()
        .outstanding_packets
        .iter_in_send_order()
        .into_iter()
        .map(|(i, p)| (i.get(), p.frame().to_vec()))
        .collect()
}

#[test]
fn acknowledgements_clear_outstanding_packets() {
    let mut inner = InnerClient::new();
    inner.connection_state = Some(connected(Some(false)));
    inner.session_state = Some(session());

    let (ack1, mut ack1_recv) = futures::channel::oneshot::channel();
    record_publish(&mut inner, id(1), packet(&[1]), PublishWaiting::Once(Qos1Callbacks { on_acknowledge: ack1 }));
    let (rec3, mut rec3_recv) = futures::channel::oneshot::channel();
    let (comp3, mut comp3_recv) = futures::channel::oneshot::channel();
    record_publish(
        &mut inner,
        id(3),
        packet(&[3]),
        PublishWaiting::Twice(Qos2ReceiveCallback { on_receive: rec3 }, Qos2CompleteCallback { on_complete: comp3 }),
    );
    let (ack2, _ack2_recv) = futures::channel::oneshot::channel();
    record_publish(&mut inner, id(2), packet(&[2]), PublishWaiting::Once(Qos1Callbacks { on_acknowledge: ack2 }));
    assert_eq!(outstanding_ids(&inner), vec![(1, vec![1]), (3, vec![3]), (2, vec![2])]);

    let acknowledged = std::cell::RefCell::new(Vec::new());
    let on_ack = |p: MqttPacket| acknowledged.borrow_mut().push(p.frame().to_vec());
    handle_puback(&mut inner, &on_ack, PubackReason::Success, id(1), packet(&[0x40, 2, 0, 1]));
    assert_eq!(acknowledged.borrow().clone(), vec![vec![0x40, 2, 0, 1]]);
    assert_eq!(ack1_recv.try_recv().unwrap().unwrap().frame(), &[0x40, 2, 0, 1]);
    assert_eq!(outstanding_ids(&inner), vec![(3, vec![3]), (2, vec![2])]);

    let pubrel = handle_pubrec(&mut inner, AckReason::Success, id(3), packet(&[0x50, 2, 0, 3])).unwrap();
    assert_eq!(pubrel.frame(), &[0x62, 2, 0, 3]);
    assert_eq!(rec3_recv.try_recv().unwrap().unwrap().frame(), &[0x50, 2, 0, 3]);
    assert!(handle_pubrec(&mut inner, AckReason::Success, id(9), packet(&[])).is_none());
    assert_eq!(outstanding_ids(&inner), vec![(3, vec![0x62, 2, 0, 3]), (2, vec![2])]);

    handle_pubcomp(&mut inner, AckReason::Success, id(3), packet(&[0x70, 2, 0, 3]));
    assert_eq!(comp3_recv.try_recv().unwrap().unwrap().frame(), &[0x70, 2, 0, 3]);
    handle_pubcomp(&mut inner, AckReason::Success, id(3), packet(&[0x70, 2, 0, 3]));
    assert_eq!(outstanding_ids(&inner), vec![(2, vec![2])]);

    let (ping, mut ping_recv) = futures::channel::oneshot::channel();
    inner.outstanding_callbacks.add_ping_req(ping);
    assert!(handle_pingresp(&mut inner));
    assert_eq!(ping_recv.try_recv().unwrap(), Some(()));
    assert!(!handle_pingresp(&mut inner));
}

#[test]
fn pubrel_carries_the_identifier_high_byte_first() {
    let mut inner = InnerClient::new();
    inner.connection_state = Some(connected(None));
    inner.session_state = Some(session());
    let (rec, _rec_recv) = futures::channel::oneshot::channel();
    let (comp, _comp_recv) = futures::channel::oneshot::channel();
    record_publish(
        &mut inner,
        id(0x1234),
        packet(&[3]),
        PublishWaiting::Twice(Qos2ReceiveCallback { on_receive: rec }, Qos2CompleteCallback { on_complete: comp }),
    );
    let pubrel = handle_pubrec(&mut inner, AckReason::Success, id(0x1234), packet(&[0x50, 2, 0x12, 0x34])).unwrap();
    assert_eq!(pubrel.frame(), &[0x62, 2, 0x12, 0x34]);
    assert_eq!(outstanding_ids(&inner), vec![(0x1234, vec![0x62, 2, 0x12, 0x34])]);
}

#[test]
fn received_packets_are_dispatched() {
    assert_eq!(received_action(PacketKind::Pingresp), Some(ReceivedAction::CompletePing));
    assert_eq!(received_action(PacketKind::Pingreq), Some(ReceivedAction::Ignore));
    assert_eq!(received_action(PacketKind::Puback), Some(ReceivedAction::Puback));
    assert_eq!(received_action(PacketKind::Publish), None);
}

#[test]
fn callbacks_come_back_once() {
    let mut callbacks = Callbacks::new();
    let (sender, mut receiver) = futures::channel::oneshot::channel();
    callbacks.add_qos1(id(5), Qos1Callbacks { on_acknowledge: sender });
    assert!(callbacks.take_qos1(id(6)).is_none());
    let cb = callbacks.take_qos1(id(5)).unwrap();
    assert!(callbacks.take_qos1(id(5)).is_none());
    cb.on_acknowledge.send(packet(&[0x40])).unwrap();
    assert_eq!(receiver.try_recv().unwrap().unwrap().frame(), &[0x40]);

    let (first, _r1) = futures::channel::oneshot::channel();
    let (second, _r2) = futures::channel::oneshot::channel();
    callbacks.add_ping_req(first);
    callbacks.add_ping_req(second);
    assert!(callbacks.take_ping_req().is_some());
    assert!(callbacks.take_ping_req().is_some());
    assert!(callbacks.take_ping_req().is_none());
}

#[test]
fn builder_replaces_one_handler_at_a_time() {
    let builder = MqttClientBuilder::new(ClientHandlers {
        on_packet_recv: 1u8,
        on_publish_recv: 2u8,
        on_qos1_acknowledge: 3u8,
    });
    let handlers = builder
        .with_on_publish_recv("publish")
        .with_handle_qos1_acknowledge(7u32)
        .into_handlers();
    assert_eq!(handlers.on_packet_recv, 1);
    assert_eq!(handlers.on_publish_recv, "publish");
    assert_eq!(handlers.on_qos1_acknowledge, 7);
}

#[test]
fn publish_qos_shortcuts() {
    let q1 = PublishQos1 {
        topic: MqttTopic::from_str("t").unwrap(),
        retain: false,
        payload: MqttPayload::try_from_vec(vec![1]).unwrap(),
        on_packet_recv: None::<u8>,
    }
    .with_on_packet_recv(4u8);
    assert_eq!(q1.on_packet_recv, Some(4));
    let publish = q1.into_publish();
    assert_eq!(publish.qos, QualityOfService::AtMostOnce);

    let q2 = PublishQos2 {
        topic: MqttTopic::from_str("t").unwrap(),
        retain: true,
        payload: MqttPayload::try_from_vec(vec![]).unwrap(),
        on_packet_recv: None::<u8>,
    };
    let publish = q2.into_publish();
    assert_eq!(publish.qos, QualityOfService::ExactlyOnce);
    assert!(publish.retain);
}

#[test]
fn pings_need_a_connection_and_come_back_in_order() {
    let mut inner = InnerClient::new();
    let (refused, _r0) = futures::channel::oneshot::channel();
    assert_eq!(register_ping(&mut inner, refused), Err(()));
    assert!(!handle_pingresp(&mut inner));

    inner.connection_state = Some(connected(None));
    let (first, mut first_recv) = futures::channel::oneshot::channel();
    let (second, mut second_recv) = futures::channel::oneshot::channel();
    assert_eq!(register_ping(&mut inner, first), Ok(()));
    assert_eq!(register_ping(&mut inner, second), Ok(()));
    assert!(handle_pingresp(&mut inner));
    assert_eq!(first_recv.try_recv().unwrap(), Some(()));
    assert_eq!(second_recv.try_recv().unwrap(), None);
    assert!(handle_pingresp(&mut inner));
    assert_eq!(second_recv.try_recv().unwrap(), Some(()));
    assert!(!handle_pingresp(&mut inner));
}

#[test]
fn heartbeat_follows_keep_alive() {
    assert_eq!(heartbeat_period(KeepAlive::Disabled), None);
    assert_eq!(heartbeat_period(KeepAlive::from_u16(0)), None);
    assert_eq!(heartbeat_period(KeepAlive::from_u16(30)), Some(30));
    assert_eq!(heartbeat_step(HeartbeatEvent::PacketSent), HeartbeatAction::RestartTimer);
    assert_eq!(heartbeat_step(HeartbeatEvent::SendersGone), HeartbeatAction::Stop);
    assert_eq!(heartbeat_step(HeartbeatEvent::PeriodElapsed), HeartbeatAction::SendPingreq);
}

#[test]
fn send_order_follows_insert_order() {
    let mut outstanding = OutstandingPackets::empty();
    outstanding.insert(id(7), packet(&[7]));
    outstanding.insert(id(2), packet(&[2]));
    outstanding.insert(id(5), packet(&[5]));
    outstanding.update_by_id(id(7), packet(&[0x62, 2, 0, 7]));
    outstanding.remove_by_id(id(2));
    outstanding.insert(id(2), packet(&[22]));
    let order: Vec<(u16, Vec<u8>)> = outstanding
        .iter_in_send_order()
        .into_iter()
        .map(|(i, p)| (i.get(), p.frame().to_vec()))
        .collect();
    assert_eq!(order, vec![(7, vec![0x62, 2, 0, 7]), (5, vec![5]), (2, vec![22])]);
}

#[test]
fn the_receiving_loop_sees_every_packet_and_answers_a_pubrec() {
    let mut inner = InnerClient::new();
    inner.connection_state = Some(connected(None));
    inner.session_state = Some(session());
    let (rec, mut rec_recv) = futures::channel::oneshot::channel();
    let (comp, _comp_recv) = futures::channel::oneshot::channel();
    record_publish(
        &mut inner,
        id(4),
        packet(&[4]),
        PublishWaiting::Twice(Qos2ReceiveCallback { on_receive: rec }, Qos2CompleteCallback { on_complete: comp }),
    );
    let seen = std::cell::RefCell::new(Vec::new());
    let on_packet = |p: MqttPacket| seen.borrow_mut().push(p.frame().to_vec());
    let on_ack = |_p: MqttPacket| {};
    assert!(handle_received(&mut inner, &on_packet, &on_ack, ReceivedPacket::Pingreq, packet(&[0xc0, 0])).is_none());
    let reply = handle_received(
        &mut inner,
        &on_packet,
        &on_ack,
        ReceivedPacket::Pubrec(AckReason::Success, id(4)),
        packet(&[0x50, 2, 0, 4]),
    );
    assert_eq!(reply.unwrap().frame(), &[0x62, 2, 0, 4]);
    assert_eq!(rec_recv.try_recv().unwrap().unwrap().frame(), &[0x50, 2, 0, 4]);
    assert_eq!(seen.borrow().clone(), vec![vec![0xc0, 0], vec![0x50, 2, 0, 4]]);
    assert_eq!(outstanding_ids(&inner), vec![(4, vec![0x62, 2, 0, 4])]);
}

#[test]
fn the_publish_sent_carries_the_message_and_the_chosen_identifier() {
    let message = |qos: QualityOfService| Publish::<fn(MqttPacket)> {
        topic: MqttTopic::from_str("a/b").unwrap(),
        qos,
        retain: false,
        payload: MqttPayload::try_from_vec(b"hi".to_vec()).unwrap(),
        on_packet_recv: None,
    };
    let mut conn = Some(connected(Some(false)));
    let sess = Some(session());
    let (packet, handler) = match publish_packet(&mut conn, &sess, message(QualityOfService::ExactlyOnce)) {
        Ok(sent) => sent,
        Err(_) => panic!("refused"),
    };
    assert!(!packet.duplicate);
    assert_eq!(packet.qos, QualityOfService::ExactlyOnce);
    assert!(!packet.retain);
    assert_eq!(packet.topic.as_ref(), "a/b");
    assert_eq!(packet.payload.as_ref(), b"hi");
    assert_eq!(packet.packet_identifier.map(|i| i.get()), Some(1));
    assert!(handler.is_none());

    let (packet, _) = match publish_packet(&mut conn, &sess, message(QualityOfService::AtMostOnce)) {
        Ok(sent) => sent,
        Err(_) => panic!("refused"),
    };
    assert!(packet.packet_identifier.is_none());
    assert!(matches!(
        publish_packet(&mut None, &sess, message(QualityOfService::AtMostOnce)),
        Err(PublishRefusal::NoConnection)
    ));
}
