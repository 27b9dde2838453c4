use cloudmqtt::packet_storage::PacketStorage;
use cloudmqtt::packet_stream::{needs_acknowledgement, Acknowledge, NoOPAck};
use cloudmqtt::packets::MqttPacket;
use cloudmqtt::properties::{apply_user_property, UserProperty};
use cloudmqtt::qos::QualityOfService;
use cloudmqtt::string::MqttString;

#[test]
fn storage_hands_out_keys_from_zero() {
    let mut storage = PacketStorage::new();
    assert_eq!(storage.push_to_storage(MqttPacket::from_frame(vec![1])), 0);
    assert_eq!(storage.push_to_storage(MqttPacket::from_frame(vec![2])), 1);
    assert_eq!(storage.get_from_storage(1).unwrap().frame(), &[2]);
    assert!(storage.get_from_storage(2).is_none());
}

#[test]
fn only_acknowledged_levels_are_kept() {
    assert!(!needs_acknowledgement(QualityOfService::AtMostOnce));
    assert!(needs_acknowledgement(QualityOfService::AtLeastOnce));
    assert_eq!(NoOPAck.handle(&MqttPacket::from_frame(vec![])), Acknowledge);
}

#[test]
fn user_properties_are_appended() {
    let mut inner: Option<Vec<u8>> = None;
    apply_user_property(
        &mut inner,
        UserProperty {
            key: MqttString::try_from_str("foo").unwrap(),
            value: MqttString::try_from_str("bar").unwrap(),
        },
    );
    assert_eq!(
        inner,
        Some(vec![0, 3, b'f', b'o', b'o', 0, 3, b'b', b'a', b'r'])
    );
    apply_user_property(
        &mut inner,
        UserProperty {
            key: MqttString::try_from_str("k").unwrap(),
            value: MqttString::try_from_str("").unwrap(),
        },
    );
    assert_eq!(
        inner,
        Some(vec![0, 3, b'f', b'o', b'o', 0, 3, b'b', b'a', b'r', 0x26, 0, 1, b'k', 0, 0])
    );
}
