use rdkafka::error::KafkaError;
use kafka_bridge::kafka::{
    check_topic_name, client_config, initialized, published, Error, Message, PublishClient,
    Record, SubscribeClient,
};

fn brokers() -> Vec<String> {
    vec!["10.0.0.1:9092".to_string(), "10.0.0.2:9092".to_string()]
}

fn pair(key: &str, value: &str) -> (String, String) {
    (key.to_string(), value.to_string())
}

#[test]
fn a_new_message_has_its_payload_normalised() {
    let message = Message::new("t".to_string(), None, "plain".to_string());
    assert_eq!(message.topic, "t");
    assert_eq!(message.group, None);
    assert_eq!(message.data, "\"plain\"");
}

#[test]
fn a_message_clone_is_equal_to_the_message() {
    let message = Message::new("t".to_string(), Some("g".to_string()), "[1]".to_string());
    assert_eq!(message.clone(), message);
}

#[test]
fn consumer_construction_succeeds() {
    let result = SubscribeClient::new(brokers(), "topic", "group", 3);
    assert!(result.is_ok());
    let client = result.unwrap();
    assert_eq!(client.topic(), "topic");
    assert_eq!(client.partition(), 3);
}

#[test]
fn consumer_settings_name_group_and_brokers() {
    let client = SubscribeClient::new(brokers(), "topic", "group", 0).unwrap();
    assert_eq!(
        client.settings(),
        vec![pair("group.id", "group"), pair("metadata.broker.list", "10.0.0.1:9092,10.0.0.2:9092")]
    );
}

#[test]
fn consumer_settings_with_one_broker_and_no_group() {
    let client = SubscribeClient::new(vec!["0.0.0.0:9094".to_string()], "topic", "", 0).unwrap();
    assert_eq!(
        client.settings(),
        vec![pair("group.id", ""), pair("metadata.broker.list", "0.0.0.0:9094")]
    );
}

#[test]
fn consumed_text_is_stamped_and_normalised() {
    let client = SubscribeClient::new(brokers(), "t1", "g1", 0).unwrap();
    let message = client.consume(Some("hello"));
    assert_eq!(
        message,
        Message {
            topic: "t1".to_string(),
            group: Some("g1".to_string()),
            data: "\"hello\"".to_string()
        }
    );
}

#[test]
fn consumed_json_is_kept() {
    let client = SubscribeClient::new(brokers(), "t1", "g1", 0).unwrap();
    let message = client.consume(Some("{\"k\":[1,2]}"));
    assert_eq!(message.data, "{\"k\":[1,2]}");
}

#[test]
fn an_absent_payload_counts_as_empty() {
    let client = SubscribeClient::new(brokers(), "t1", "g1", 0).unwrap();
    let message = client.consume(None);
    assert_eq!(message.data, "\"\"");
    assert_eq!(message.topic, "t1");
}

#[test]
fn producer_construction_succeeds() {
    assert!(PublishClient::new(brokers(), "topic").is_ok());
}

#[test]
fn producer_settings_ask_for_one_ack_within_a_second() {
    let client = PublishClient::new(brokers(), "topic").unwrap();
    assert_eq!(
        client.settings(),
        vec![
            pair("metadata.broker.list", "10.0.0.1:9092,10.0.0.2:9092"),
            pair("request.required.acks", "1"),
            pair("request.timeout.ms", "1000"),
        ]
    );
}

#[test]
fn a_record_goes_to_the_clients_topic() {
    let client = PublishClient::new(brokers(), "out").unwrap();
    assert_eq!(
        client.produce("{\"a\":1}"),
        Record { topic: "out".to_string(), payload: "{\"a\":1}".to_string() }
    );
}

#[test]
fn errors_compare_by_variant() {
    assert_eq!(Error::KafkaInitialize, Error::KafkaInitialize);
    assert_ne!(Error::PublishWrite, Error::PublishResponse);
    assert_ne!(Error::SubscribeWrite, Error::SubscribeRead);
    assert_eq!(format!("{:?}", Error::MissingTopic), "MissingTopic");
}

#[test]
fn a_configuration_holds_its_settings() {
    let config = client_config(&vec![pair("a", "1"), pair("b", "2")]);
    assert_eq!(config.get("a"), Some("1"));
    assert_eq!(config.get("b"), Some("2"));
    assert_eq!(config.get("c"), None);
    assert_eq!(config.config_map().len(), 2);
}

#[test]
fn a_configuration_without_settings_is_empty() {
    let config = client_config(&vec![]);
    assert_eq!(config.config_map().len(), 0);
}

#[test]
fn a_later_setting_replaces_an_earlier_one() {
    let config = client_config(&vec![pair("a", "1"), pair("b", "2"), pair("a", "3")]);
    assert_eq!(config.get("a"), Some("3"));
    assert_eq!(config.get("b"), Some("2"));
    assert_eq!(config.config_map().len(), 2);
}

#[test]
fn the_consumer_is_configured_with_its_settings() {
    let client = SubscribeClient::new(brokers(), "topic", "group", 0).unwrap();
    let config = client.config();
    assert_eq!(config.get("group.id"), Some("group"));
    assert_eq!(config.get("metadata.broker.list"), Some("10.0.0.1:9092,10.0.0.2:9092"));
    assert_eq!(config.config_map().len(), 2);
}

#[test]
fn the_producer_is_configured_with_its_settings() {
    let client = PublishClient::new(brokers(), "topic").unwrap();
    let config = client.config();
    assert_eq!(config.get("metadata.broker.list"), Some("10.0.0.1:9092,10.0.0.2:9092"));
    assert_eq!(config.get("request.required.acks"), Some("1"));
    assert_eq!(config.get("request.timeout.ms"), Some("1000"));
    assert_eq!(config.config_map().len(), 3);
}

#[test]
fn the_consumer_is_assigned_its_partition_from_the_beginning() {
    let client = SubscribeClient::new(brokers(), "topic", "group", 3).unwrap();
    let list = client.assignment();
    assert_eq!(list.count(), 1);
    let elements = list.elements();
    assert_eq!(elements[0].topic(), "topic");
    assert_eq!(elements[0].partition(), 3);
    assert_eq!(elements[0].offset(), rdkafka::Offset::Beginning);
}

#[test]
fn a_topic_name_holds_no_nul() {
    assert!(check_topic_name("topic"));
    assert!(check_topic_name(""));
    assert!(check_topic_name("tøpic.with-many_chars 1"));
    assert!(!check_topic_name("to\0pic"));
    assert!(!check_topic_name("\0"));
    assert!(!check_topic_name("topic\0"));
}

#[test]
fn negative_partition_numbers_are_listed_as_they_are() {
    let client = SubscribeClient::new(brokers(), "", "", -1).unwrap();
    let elements = client.assignment().elements();
    assert_eq!(elements.len(), 1);
    assert_eq!(elements[0].topic(), "");
    assert_eq!(elements[0].partition(), -1);
    assert_eq!(elements[0].offset(), rdkafka::Offset::Beginning);
}

#[test]
fn a_client_that_the_library_refuses_is_not_initialised() {
    let refused: Result<u8, KafkaError> = Err(KafkaError::ClientCreation("no".to_string()));
    assert_eq!(initialized(refused), Err(Error::KafkaInitialize));
    let refused: Result<(), KafkaError> = Err(KafkaError::Canceled);
    assert_eq!(initialized(refused), Err(Error::KafkaInitialize));
    let made: Result<u8, KafkaError> = Ok(7);
    assert_eq!(initialized(made), Ok(7));
}

#[test]
fn a_record_that_the_library_refuses_is_not_published() {
    let refused: Result<(), KafkaError> = Err(KafkaError::Canceled);
    assert_eq!(published(refused), Err(Error::Publish));
    let sent: Result<(), KafkaError> = Ok(());
    assert_eq!(published(sent), Ok(()));
}
