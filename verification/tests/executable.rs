use cloudmqtt::tester::executable::command_line;
use cloudmqtt::tester::executable::{
    command_words, decimal_string, ClientExecutableCommand, ExpectOnTopic, QuitCommand,
    SendToTopic, Subscribe,
};

#[test]
fn test_quit_command_as_string() {
    assert_eq!("quit", QuitCommand.as_str());
    assert!(QuitCommand.args().is_empty());
}

#[test]
fn test_subscribe_command() {
    let command = Subscribe {
        topic: "foo".to_string(),
    };
    assert_eq!("subscribe", command.as_str());
    assert_eq!(vec!["--topic=foo".to_string()], command.args());
}

#[test]
fn test_send_to_topic_command() {
    let command = SendToTopic {
        topic: "foo".to_string(),
        qos: 0,
        message: "Message".to_string(),
    };
    assert_eq!("send-to-topic", command.as_str());
    assert!(command.args().contains(&"--topic=foo".to_string()));
    assert!(command.args().contains(&"--qos=0".to_string()));
    assert!(command.args().contains(&"--message=Message".to_string()));
}

#[test]
fn test_expect_on_topic() {
    let command = ExpectOnTopic {
        topic: "foo".to_string(),
        qos: 0,
    };
    assert_eq!("expect-on-topic", command.as_str());
    assert!(command.args().contains(&"--topic=foo".to_string()));
    assert!(command.args().contains(&"--qos=0".to_string()));
}

#[test]
fn decimal_string_writes_every_width() {
    assert_eq!(decimal_string(0), "0");
    assert_eq!(decimal_string(7), "7");
    assert_eq!(decimal_string(10), "10");
    assert_eq!(decimal_string(42), "42");
    assert_eq!(decimal_string(100), "100");
    assert_eq!(decimal_string(205), "205");
    assert_eq!(decimal_string(255), "255");
}

#[test]
fn expect_on_topic_writes_its_level_in_decimal() {
    let command = ExpectOnTopic {
        topic: "a/b".to_string(),
        qos: 2,
    };
    assert_eq!(
        command.args(),
        vec!["--topic=a/b".to_string(), "--qos=2".to_string()]
    );
}

#[test]
fn command_words_put_the_name_first() {
    let command = SendToTopic {
        topic: "t".to_string(),
        qos: 1,
        message: "hi".to_string(),
    };
    assert_eq!(
        command_words(&command),
        vec![
            "send-to-topic".to_string(),
            "--topic=t".to_string(),
            "--qos=1".to_string(),
            "--message=hi".to_string(),
        ]
    );
    assert_eq!(command_words(&QuitCommand), vec!["quit".to_string()]);
}

#[test]
fn the_command_line_joins_the_commands_in_order() {
    let line = command_line(vec![
        vec!["subscribe".to_string(), "--topic=a".to_string()],
        vec![],
        vec!["quit".to_string()],
    ]);
    assert_eq!(line, vec!["subscribe", "--topic=a", "quit"]);
    assert!(command_line(Vec::new()).is_empty());
}
