use std::sync::Arc;

use cloudmqtt::qos::QualityOfService;
use cloudmqtt::server::connection::{
    decide_connect, handle_packet, keep_alive_timeout_secs, should_forward, ClientPacket,
    ConnectOutcome, ServerReply,
};
use cloudmqtt::server::message::{LastWill, MqttMessage};
use cloudmqtt::server::state::ClientState;
use cloudmqtt::server::subscriptions::SubscriptionRequest;
use cloudmqtt::server::ClientId;

fn message(qos: QualityOfService) -> MqttMessage {
    MqttMessage::new(
        Arc::new(ClientId::new("author".to_string())),
        b"payload".to_vec(),
        "some/topic".to_string(),
        false,
        qos,
    )
}

#[test]
fn identifiers_skip_zero_and_count_up() {
    let mut state = ClientState::new();
    assert_eq!(state.get_next_packet_entry(), Some(1));
    assert_eq!(state.get_next_packet_entry(), Some(2));
}

#[test]
fn level_zero_messages_are_not_stored() {
    let mut state = ClientState::new();
    let out = state.send_message(message(QualityOfService::AtMostOnce));
    assert_eq!(out.id, None);
    assert_eq!(out.message.topic(), "some/topic");
    assert!(state.messages_to_resend().is_empty());
    // the identifier was used up all the same
    assert_eq!(state.get_next_packet_entry(), Some(2));
}

#[test]
fn puback_completes_a_level_one_message() {
    let mut state = ClientState::new();
    let out = state.send_message(message(QualityOfService::AtLeastOnce));
    assert_eq!(out.id, Some(1));
    let resend = state.messages_to_resend();
    assert_eq!(resend.len(), 1);
    assert_eq!(resend[0].0, 1);
    assert_eq!(resend[0].1.payload(), b"payload");

    assert_eq!(state.receive_pubrec(1), Err(()));
    assert_eq!(state.receive_pubcomp(1), Err(()));
    assert_eq!(state.receive_puback(1), Ok(()));
    assert!(state.messages_to_resend().is_empty());
    assert_eq!(state.receive_puback(1), Err(()));
}

#[test]
fn pubrec_then_pubcomp_complete_a_level_two_message() {
    let mut state = ClientState::new();
    let out = state.send_message(message(QualityOfService::ExactlyOnce));
    let id = out.id.unwrap();
    assert_eq!(state.receive_puback(id), Err(()));
    assert_eq!(state.receive_pubcomp(id), Err(()));
    assert_eq!(state.receive_pubrec(id), Ok(()));
    // acknowledged messages are not sent again
    assert!(state.messages_to_resend().is_empty());
    assert_eq!(state.receive_pubrec(id), Err(()));
    assert_eq!(state.receive_pubcomp(id), Ok(()));
    assert_eq!(state.receive_pubcomp(id), Err(()));
}

#[test]
fn stored_identifiers_are_skipped() {
    let mut state = ClientState::new();
    assert_eq!(state.send_message(message(QualityOfService::AtLeastOnce)).id, Some(1));
    assert_eq!(state.send_message(message(QualityOfService::AtLeastOnce)).id, Some(2));
    assert_eq!(state.receive_puback(1), Ok(()));
    assert_eq!(state.send_message(message(QualityOfService::ExactlyOnce)).id, Some(3));
    let ids: Vec<u16> = state.messages_to_resend().iter().map(|e| e.0).collect();
    assert_eq!(ids, vec![2, 3]);
}

#[test]
fn released_identifiers_can_be_saved_again() {
    let mut state = ClientState::new();
    assert_eq!(state.receive_pubrel(5), Err(()));
    assert_eq!(state.save_qos_exactly_once(5), Ok(()));
    assert_eq!(state.save_qos_exactly_once(5), Err(()));
    assert_eq!(state.receive_pubrel(5), Ok(()));
    assert_eq!(state.receive_pubrel(5), Err(()));
    assert_eq!(state.save_qos_exactly_once(5), Ok(()));
}

#[test]
fn connect_is_rejected_only_for_an_empty_identifier_without_clean_session() {
    assert_eq!(decide_connect("", false, false), ConnectOutcome::Rejected);
    assert_eq!(
        decide_connect("", true, true),
        ConnectOutcome::Accepted {
            session_present: false,
            discard_session: true
        }
    );
    assert_eq!(
        decide_connect("client", false, true),
        ConnectOutcome::Accepted {
            session_present: true,
            discard_session: false
        }
    );
    assert_eq!(
        decide_connect("client", false, false),
        ConnectOutcome::Accepted {
            session_present: false,
            discard_session: false
        }
    );
}

#[test]
fn keep_alive_timeout_is_one_and_a_half_times() {
    assert_eq!(keep_alive_timeout_secs(0), 0);
    assert_eq!(keep_alive_timeout_secs(5), 7);
    assert_eq!(keep_alive_timeout_secs(10), 15);
    assert_eq!(keep_alive_timeout_secs(65535), 98302);
}

#[test]
fn own_messages_are_not_forwarded() {
    let msg = message(QualityOfService::AtMostOnce);
    assert!(!should_forward(&msg, &ClientId::new("author".to_string())));
    assert!(should_forward(&msg, &ClientId::new("other".to_string())));
}

#[test]
fn packets_lead_to_their_replies() {
    let mut state = ClientState::new();
    let author = Arc::new(ClientId::new("me".to_string()));

    let step = handle_packet(
        &mut state,
        &author,
        ClientPacket::Publish {
            qos: QualityOfService::AtLeastOnce,
            retain: true,
            topic: "t".to_string(),
            id: Some(9),
            payload: vec![7],
        },
    );
    let routed = step.route.unwrap();
    assert_eq!(routed.author_id().as_str(), "me");
    assert!(routed.retain());
    assert_eq!(step.reply, Some(ServerReply::Puback(9)));
    assert!(!step.stop);

    let step = handle_packet(
        &mut state,
        &author,
        ClientPacket::Publish {
            qos: QualityOfService::ExactlyOnce,
            retain: false,
            topic: "t".to_string(),
            id: Some(4),
            payload: vec![],
        },
    );
    assert_eq!(step.reply, Some(ServerReply::Pubrec(4)));
    let step = handle_packet(&mut state, &author, ClientPacket::Pubrel(4));
    assert_eq!(step.reply, Some(ServerReply::Pubcomp(4)));
    let step = handle_packet(&mut state, &author, ClientPacket::Pubrel(4));
    assert!(step.stop);

    let step = handle_packet(&mut state, &author, ClientPacket::Pingreq);
    assert_eq!(step.reply, Some(ServerReply::Pingresp));

    let step = handle_packet(&mut state, &author, ClientPacket::Puback(3));
    assert!(step.stop);

    let step = handle_packet(
        &mut state,
        &author,
        ClientPacket::Subscribe(vec![SubscriptionRequest {
            topic: "x".to_string(),
            granted: Some(QualityOfService::AtMostOnce),
        }]),
    );
    assert_eq!(step.subscribe.unwrap().len(), 1);

    let step = handle_packet(&mut state, &author, ClientPacket::Disconnect);
    assert!(step.stop);
    assert!(step.forget_will);
}

#[test]
fn last_will_becomes_a_message_of_its_author() {
    let will = LastWill {
        topic: "hello/world".to_string(),
        payload: b"I died!".to_vec(),
        qos: QualityOfService::AtMostOnce,
        retain: false,
    };
    let msg = MqttMessage::from_last_will(&will, Arc::new(ClientId::new("c".to_string())));
    assert_eq!(msg.topic(), "hello/world");
    assert_eq!(msg.payload(), b"I died!");
    assert_eq!(msg.author_id().as_str(), "c");
    let mut copy = msg.duplicate();
    copy.set_qos(QualityOfService::ExactlyOnce);
    assert_eq!(copy.qos(), QualityOfService::ExactlyOnce);
    assert_eq!(msg.qos(), QualityOfService::AtMostOnce);
}

#[test]
fn resend_goes_in_identifier_order_from_the_counter() {
    let mut state = ClientState::new();
    for _ in 0..4 {
        state.send_message(message(QualityOfService::AtLeastOnce));
    }
    assert_eq!(state.receive_puback(2), Ok(()));
    // the counter stands at 5: identifiers 5..=65535 come first, then 1..=4
    let ids: Vec<u16> = state.messages_to_resend().iter().map(|e| e.0).collect();
    assert_eq!(ids, vec![1, 3, 4]);
    assert_eq!(state.get_next_packet_entry(), Some(5));
    assert_eq!(state.send_message(message(QualityOfService::AtLeastOnce)).id, Some(6));
    let ids: Vec<u16> = state.messages_to_resend().iter().map(|e| e.0).collect();
    assert_eq!(ids, vec![1, 3, 4, 6]);
}
