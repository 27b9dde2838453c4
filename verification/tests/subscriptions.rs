use std::collections::VecDeque;
use std::sync::Arc;

use cloudmqtt::qos::QualityOfService;
use cloudmqtt::server::message::MqttMessage;
use cloudmqtt::server::subscriptions::{
    ClientSubscription, SubscriptionAck, SubscriptionManager, SubscriptionRequest,
    SubscriptionTopic, TopicFilter, TopicName,
};
use cloudmqtt::server::ClientId;

fn client_subscription(qos: QualityOfService) -> ClientSubscription {
    ClientSubscription {
        client: ClientId::new(String::from("test-sub")),
        qos,
    }
}

fn node(
    subscriptions: Vec<ClientSubscription>,
    children: Vec<(TopicFilter, SubscriptionTopic)>,
) -> SubscriptionTopic {
    SubscriptionTopic {
        subscriptions,
        children,
    }
}

#[test]
fn subscriptions_check_macro_builder() {
    let real = SubscriptionTopic {
        subscriptions: vec![],
        children: vec![(
            TopicFilter::SingleWildcard,
            SubscriptionTopic {
                subscriptions: vec![client_subscription(QualityOfService::AtLeastOnce)],
                children: vec![],
            },
        )],
    };

    let built = node(
        vec![],
        vec![(
            TopicFilter::SingleWildcard,
            node(vec![client_subscription(QualityOfService::AtLeastOnce)], vec![]),
        )],
    );

    assert_eq!(built, real);
}

#[test]
fn subscriptions_check_simple_apply_change() {
    let check = SubscriptionTopic {
        subscriptions: vec![],
        children: vec![(
            TopicFilter::Named(String::from("foo")),
            SubscriptionTopic {
                subscriptions: vec![client_subscription(QualityOfService::AtLeastOnce)],
                children: vec![],
            },
        )],
    };

    let new = {
        let mut new = SubscriptionTopic::new();
        new.add_subscription(
            VecDeque::from(vec![TopicFilter::Named(String::from("foo"))]),
            client_subscription(QualityOfService::AtLeastOnce),
        );
        new
    };

    assert_eq!(check, new);
}

#[test]
fn subscriptions_check_full_merging() {
    let check = node(
        vec![],
        vec![(
            TopicFilter::Named(String::from("foo")),
            node(
                vec![
                    client_subscription(QualityOfService::AtLeastOnce),
                    client_subscription(QualityOfService::AtLeastOnce),
                ],
                vec![(
                    TopicFilter::SingleWildcard,
                    node(vec![client_subscription(QualityOfService::AtMostOnce)], vec![]),
                )],
            ),
        )],
    );

    let new = {
        let mut new = node(
            vec![],
            vec![(
                TopicFilter::Named(String::from("foo")),
                node(vec![client_subscription(QualityOfService::AtLeastOnce)], vec![]),
            )],
        );
        new.add_subscription(
            VecDeque::from(vec![TopicFilter::Named("foo".to_owned())]),
            client_subscription(QualityOfService::AtLeastOnce),
        );
        new.add_subscription(
            TopicFilter::parse_from("foo/+".to_string()),
            client_subscription(QualityOfService::AtMostOnce),
        );
        new
    };

    assert_eq!(check, new);
}

#[test]
fn topics_check_macro_builder() {
    let real = SubscriptionTopic {
        subscriptions: vec![],
        children: vec![(
            TopicFilter::SingleWildcard,
            SubscriptionTopic {
                subscriptions: vec![client_subscription(QualityOfService::AtLeastOnce)],
                children: vec![],
            },
        )],
    };

    let built = node(
        vec![],
        vec![(
            TopicFilter::SingleWildcard,
            node(vec![client_subscription(QualityOfService::AtLeastOnce)], vec![]),
        )],
    );

    assert_eq!(built, real);
}

#[test]
fn topics_check_simple_apply_change() {
    let check = SubscriptionTopic {
        subscriptions: vec![],
        children: vec![(
            TopicFilter::Named(String::from("foo")),
            SubscriptionTopic {
                subscriptions: vec![client_subscription(QualityOfService::AtLeastOnce)],
                children: vec![],
            },
        )],
    };

    let new = {
        let mut new = SubscriptionTopic::new();
        new.add_subscription(
            VecDeque::from(vec![TopicFilter::Named(String::from("foo"))]),
            client_subscription(QualityOfService::AtLeastOnce),
        );
        new
    };

    assert_eq!(check, new);
}

#[test]
fn topics_check_full_merging() {
    let check = node(
        vec![],
        vec![(
            TopicFilter::Named(String::from("foo")),
            node(
                vec![
                    client_subscription(QualityOfService::AtLeastOnce),
                    client_subscription(QualityOfService::AtLeastOnce),
                ],
                vec![(
                    TopicFilter::SingleWildcard,
                    node(vec![client_subscription(QualityOfService::AtMostOnce)], vec![]),
                )],
            ),
        )],
    );

    let new = {
        let mut new = node(
            vec![],
            vec![(
                TopicFilter::Named(String::from("foo")),
                node(vec![client_subscription(QualityOfService::AtLeastOnce)], vec![]),
            )],
        );
        new.add_subscription(
            VecDeque::from(vec![TopicFilter::Named("foo".to_owned())]),
            client_subscription(QualityOfService::AtLeastOnce),
        );
        new.add_subscription(
            TopicFilter::parse_from("foo/+".to_string()),
            client_subscription(QualityOfService::AtMostOnce),
        );
        new
    };

    assert_eq!(check, new);
}

#[test]
fn filters_and_topics_split_at_slashes() {
    let filter = TopicFilter::parse_from("a/+/#".to_string());
    assert_eq!(
        Vec::from(filter),
        vec![
            TopicFilter::Named("a".to_string()),
            TopicFilter::SingleWildcard,
            TopicFilter::MultiWildcard
        ]
    );
    let filter = TopicFilter::parse_from("/x".to_string());
    assert_eq!(
        Vec::from(filter),
        vec![TopicFilter::Named(String::new()), TopicFilter::Named("x".to_string())]
    );
    let mut name = TopicName::parse_from("a/b");
    assert_eq!(name.pop_front(), Some("a".to_string()));
    assert!(!name.is_empty());
    assert_eq!(name.pop_front(), Some("b".to_string()));
    assert!(name.is_empty());
    assert_eq!(name.pop_front(), None);
}

#[test]
fn try_into_named_gives_back_wildcards() {
    assert_eq!(
        TopicFilter::Named("x".to_string()).try_into_named(),
        Ok("x".to_string())
    );
    assert_eq!(
        TopicFilter::SingleWildcard.try_into_named(),
        Err(TopicFilter::SingleWildcard)
    );
}

fn sub(client: &str, qos: QualityOfService) -> ClientSubscription {
    ClientSubscription {
        client: ClientId::new(client.to_string()),
        qos,
    }
}

fn clients(matches: &[ClientSubscription]) -> Vec<String> {
    matches.iter().map(|s| s.client.as_str().to_string()).collect()
}

#[test]
fn routing_follows_wildcards_in_order() {
    let mut table = SubscriptionTopic::new();
    table.add_subscription(TopicFilter::parse_from("a/b".to_string()), sub("exact", QualityOfService::AtMostOnce));
    table.add_subscription(TopicFilter::parse_from("a/+".to_string()), sub("single", QualityOfService::AtMostOnce));
    table.add_subscription(TopicFilter::parse_from("a/#".to_string()), sub("multi", QualityOfService::AtMostOnce));
    table.add_subscription(TopicFilter::parse_from("b/#".to_string()), sub("other", QualityOfService::AtMostOnce));
    table.add_subscription(TopicFilter::parse_from("a/b/c".to_string()), sub("deeper", QualityOfService::AtMostOnce));

    let topic = TopicName::parse_from("a/b");
    let matches = topic.get_matches(0, &table);
    assert_eq!(clients(&matches), vec!["multi", "single", "exact"]);

    let topic = TopicName::parse_from("c");
    assert!(topic.get_matches(0, &table).is_empty());
}

#[test]
fn empty_table_routes_nowhere() {
    let table = SubscriptionTopic::new();
    let topic = TopicName::parse_from("a/b/c");
    assert!(topic.get_matches(0, &table).is_empty());
}

#[test]
fn manager_answers_each_request_and_files_the_granted_ones() {
    let mut manager = SubscriptionManager::new();
    let client = ClientId::new("c1".to_string());
    let acks = manager.subscribe(
        &client,
        vec![
            SubscriptionRequest {
                topic: "a/b".to_string(),
                granted: Some(QualityOfService::ExactlyOnce),
            },
            SubscriptionRequest {
                topic: "forbidden".to_string(),
                granted: None,
            },
            SubscriptionRequest {
                topic: "a/+".to_string(),
                granted: Some(QualityOfService::AtMostOnce),
            },
        ],
    );
    assert_eq!(
        acks,
        vec![
            SubscriptionAck::MaximumQualityExactlyOnce,
            SubscriptionAck::Failure,
            SubscriptionAck::MaximumQualityAtMostOnce
        ]
    );

    let author = Arc::new(ClientId::new("author".to_string()));
    let message = MqttMessage::new(
        author,
        vec![1, 2, 3],
        "a/b".to_string(),
        false,
        QualityOfService::AtLeastOnce,
    );
    let deliveries = manager.route_message(&message);
    assert_eq!(deliveries.len(), 2);
    assert_eq!(deliveries[0].0.as_str(), "c1");
    assert_eq!(deliveries[0].1.qos(), QualityOfService::AtMostOnce);
    assert_eq!(deliveries[1].1.qos(), QualityOfService::AtLeastOnce);
    assert_eq!(deliveries[1].1.payload(), &[1, 2, 3]);
    assert_eq!(deliveries[1].1.topic(), "a/b");

    let elsewhere = MqttMessage::new(
        Arc::new(ClientId::new("author".to_string())),
        vec![],
        "forbidden".to_string(),
        false,
        QualityOfService::AtMostOnce,
    );
    assert!(manager.route_message(&elsewhere).is_empty());
}
