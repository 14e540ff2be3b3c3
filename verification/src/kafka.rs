//! The broker side of the bridge.
//!
//! The broker client itself is the caller's. This module decides what the
//! client is configured with, what is made of each payload that arrives from
//! the broker, and what is handed to the broker for each payload that leaves.

use vstd::prelude::*;
use vstd::string::*;
use vstd::utf8::encode_utf8;
use rdkafka::error::KafkaError;
use rdkafka::{ClientConfig, TopicPartitionList};
use crate::payload::{json_parse_ok, json_parsed, normalize, normalized, within_parser_limits};
use crate::text::{join, joined, views};

verus! {

/// One message on its way through the bridge.
#[derive(Debug, PartialEq, Eq)]
pub struct Message {
    /// The topic or channel that the message came from.
    pub topic: String,
    /// The consumer group it was read under, kept for traceability only.
    pub group: Option<String>,
    /// The payload.
    pub data: String,
}

impl Message {
    /// A message is well formed when its payload parses as JSON.
    pub open spec fn wf(&self) -> bool {
        json_parse_ok(self.data@)
    }

    /// Builds a message, normalising the payload on the way: a payload that
    /// is JSON is kept as it is, and any other is quoted so that it parses
    /// back to itself.
    pub fn new(topic: String, group: Option<String>, data: String) -> (message: Message)
        requires
            within_parser_limits(encode_utf8(data@)),
        ensures
            message.topic == topic,
            message.group == group,
            message.data@ == normalized(data@),
            !json_parse_ok(data@) ==> json_parsed(message.data@) == Some(Some(data@)),
            message.wf(),
    {
        Message { topic, group, data: normalize(data) }
    }
}

impl Clone for Message {
    fn clone(&self) -> (copy: Self)
        ensures
            copy == *self,
    {
        let group = match &self.group {
            Some(group) => Some(group.clone()),
            None => None,
        };
        Message { topic: self.topic.clone(), group, data: self.data.clone() }
    }
}

/// What can go wrong on either side of the bridge.
#[derive(Debug, Clone, Copy, PartialEq, Eq, Structural)]
pub enum Error {
    KafkaInitialize,
    Publish,
    PublishWrite,
    PublishResponse,
    Subscribe,
    SubscribeWrite,
    SubscribeRead,
    MissingTopic,
    HTTPResponse,
}

/// The texts of a list of settings, key and value.
pub open spec fn setting_views(settings: Seq<(String, String)>) -> Seq<(Seq<char>, Seq<char>)> {
    Seq::new(settings.len(), |i: int| (settings[i].0@, settings[i].1@))
}

/// The configuration of a broker client, as `rdkafka` holds it.
#[verifier::external_type_specification]
#[verifier::external_body]
pub struct ExClientConfig(ClientConfig);

/// A list of partitions with the place to start reading each, as `rdkafka`
/// holds it.
#[verifier::external_type_specification]
#[verifier::external_body]
pub struct ExTopicPartitionList(TopicPartitionList);

/// What `rdkafka` reports when it cannot do what it was asked.
#[verifier::external_type_specification]
#[verifier::external_body]
pub struct ExKafkaError(KafkaError);

/// Where in a partition reading starts: the places that the broker knows by
/// name.
#[derive(Debug, Clone, Copy, PartialEq, Eq, Structural)]
pub enum Offset {
    Beginning,
    End,
    Stored,
    Invalid,
}

/// The parameters that are set in a configuration, each key with its value.
pub uninterp spec fn config_entries(config: ClientConfig) -> Map<Seq<char>, Seq<char>>;

/// The partitions that a list holds, in the order in which they were added:
/// topic, partition number, and where reading starts.
pub uninterp spec fn listed_partitions(list: TopicPartitionList) -> Seq<(Seq<char>, int, Offset)>;

/// Whether `topic` can name a topic: the broker client takes any text without
/// a NUL character in it.
pub open spec fn is_topic_name(topic: Seq<char>) -> bool {
    !topic.contains('\0')
}

/// Whether `list` holds the partition `partition` of `topic`.
pub open spec fn lists_partition(
    list: Seq<(Seq<char>, int, Offset)>,
    topic: Seq<char>,
    partition: int,
) -> bool {
    exists|i: int| 0 <= i < list.len() && (#[trigger] list[i]).0 == topic && list[i].1 == partition
}

/// The parameters that `settings` set when they are applied in order: a later
/// setting of a key replaces an earlier one.
pub open spec fn entries_of(settings: Seq<(Seq<char>, Seq<char>)>) -> Map<Seq<char>, Seq<char>>
    decreases settings.len(),
{
    if settings.len() == 0 {
        Map::empty()
    } else {
        entries_of(settings.drop_last()).insert(settings.last().0, settings.last().1)
    }
}

/// Calls `ClientConfig::new`.
///
/// Trusted: a new configuration has no parameter set.
#[verifier::external_body]
fn new_config() -> (fresh: ClientConfig)
    ensures
        config_entries(fresh) == entries_of(Seq::empty()),
{
    ClientConfig::new()
}

/// Calls `ClientConfig::set`.
///
/// Trusted: the parameter `key` is set to `value`, in place of any value it
/// had, and no other parameter changes.
#[verifier::external_body]
fn set_parameter(config: &mut ClientConfig, key: &str, value: &str)
    ensures
        config_entries(*final(config)) == config_entries(*old(config)).insert(key@, value@),
{
    config.set(key, value);
}

/// Calls `TopicPartitionList::new`.
///
/// Trusted: a new list holds no partition.
#[verifier::external_body]
fn new_partition_list() -> (list: TopicPartitionList)
    ensures
        listed_partitions(list).len() == 0,
{
    TopicPartitionList::new()
}

/// Calls `TopicPartitionList::add_partition_offset`.
///
/// Trusted: the call succeeds, the partition stands at the end of the list
/// with the given place to start, and the rest of the list is as it was. The
/// call appends the partition and then looks it up by topic and number to set
/// its start; each of the four named places has a number that the broker
/// library takes, so the only failure is a partition that is not found, and
/// this one was just appended. The call takes the topic as a C string, so a
/// NUL character in it is left out; and the lookup finds the first match, so
/// a partition that is listed already is left out too.
#[verifier::external_body]
fn add_partition(list: &mut TopicPartitionList, topic: &str, partition: i32, offset: Offset) -> (outcome:
    Result<(), KafkaError>)
    requires
        is_topic_name(topic@),
        !lists_partition(listed_partitions(*old(list)), topic@, partition as int),
    ensures
        outcome is Ok,
        listed_partitions(*final(list)) == listed_partitions(*old(list)).push(
            (topic@, partition as int, offset),
        ),
{
    let offset = match offset {
        Offset::Beginning => rdkafka::Offset::Beginning,
        Offset::End => rdkafka::Offset::End,
        Offset::Stored => rdkafka::Offset::Stored,
        Offset::Invalid => rdkafka::Offset::Invalid,
    };
    list.add_partition_offset(topic, partition, offset)
}

/// Makes the configuration that holds `settings`, applied in order.
pub fn client_config(settings: &Vec<(String, String)>) -> (config: ClientConfig)
    ensures
        config_entries(config) == entries_of(setting_views(settings@)),
{
    let mut config = new_config();
    let mut at: usize = 0;
    while at < settings.len()
        invariant
            at <= settings.len(),
            config_entries(config) == entries_of(setting_views(settings@).take(at as int)),
        decreases settings.len() - at,
    {
        set_parameter(&mut config, settings[at].0.as_str(), settings[at].1.as_str());
        proof {
            let upto = setting_views(settings@).take(at + 1);
            assert(upto.drop_last() =~= setting_views(settings@).take(at as int));
            assert(upto.last() == (settings@[at as int].0@, settings@[at as int].1@));
        }
        at = at + 1;
    }
    proof {
        assert(setting_views(settings@).take(settings.len() as int) =~= setting_views(settings@));
    }
    config
}

/// What the making of a broker client amounts to: whatever the broker library
/// refuses on the way, the client could not be initialised.
pub fn initialized<T>(outcome: Result<T, KafkaError>) -> (made: Result<T, Error>)
    ensures
        outcome matches Ok(value) ==> made === Ok(value),
        outcome is Err ==> made === Err(Error::KafkaInitialize),
{
    match outcome {
        Ok(value) => Ok(value),
        Err(_) => Err(Error::KafkaInitialize),
    }
}

/// What the sending of a record amounts to: whatever the broker library
/// reports, the record was not published.
pub fn published<T>(outcome: Result<T, KafkaError>) -> (sent: Result<T, Error>)
    ensures
        outcome matches Ok(value) ==> sent === Ok(value),
        outcome is Err ==> sent === Err(Error::Publish),
{
    match outcome {
        Ok(value) => Ok(value),
        Err(_) => Err(Error::Publish),
    }
}

/// Tells whether `topic` can name a topic.
pub fn check_topic_name(topic: &str) -> (ok: bool)
    ensures
        ok == is_topic_name(topic@),
{
    let len = topic.unicode_len();
    let mut at: usize = 0;
    while at < len
        invariant
            at <= len,
            len == topic@.len(),
            forall|i: int| 0 <= i < at ==> topic@[i] != '\0',
        decreases len - at,
    {
        if topic.get_char(at) == '\0' {
            assert(topic@.contains(topic@[at as int]));
            return false;
        }
        at = at + 1;
    }
    true
}

/// What a [`SubscribeClient`] holds.
pub struct SubscribeClientView {
    pub brokers: Seq<Seq<char>>,
    pub topic: Seq<char>,
    pub group: Seq<char>,
    pub partition: int,
}

/// The consuming side of the broker: one topic, one partition, one group.
pub struct SubscribeClient {
    brokers: Vec<String>,
    topic: String,
    group: String,
    partition: i32,
    config: ClientConfig,
    assignment: TopicPartitionList,
}

impl View for SubscribeClient {
    type V = SubscribeClientView;

    closed spec fn view(&self) -> SubscribeClientView {
        SubscribeClientView {
            brokers: views(self.brokers@),
            topic: self.topic@,
            group: self.group@,
            partition: self.partition as int,
        }
    }
}

/// The settings a consumer is created with: its group, then its brokers as
/// one comma-separated list.
pub open spec fn consumer_settings(client: SubscribeClientView) -> Seq<(Seq<char>, Seq<char>)> {
    seq![("group.id"@, client.group), ("metadata.broker.list"@, joined(client.brokers, ","@))]
}

/// The partitions a consumer is assigned: its one partition, to be read from
/// the beginning.
pub open spec fn consumer_assignment(client: SubscribeClientView) -> Seq<
    (Seq<char>, int, Offset),
> {
    seq![(client.topic, client.partition, Offset::Beginning)]
}

/// The text of a payload as it arrives from the broker: an absent payload
/// counts as empty.
pub open spec fn received_text(payload: Option<&str>) -> Seq<char> {
    match payload {
        Some(text) => text@,
        None => Seq::empty(),
    }
}

fn consumer_pairs(brokers: &Vec<String>, group: &str) -> (settings: Vec<(String, String)>)
    ensures
        setting_views(settings@) == seq![
            ("group.id"@, group@),
            ("metadata.broker.list"@, joined(views(brokers@), ","@)),
        ],
{
    let mut settings: Vec<(String, String)> = Vec::new();
    settings.push((String::from_str("group.id"), String::from_str(group)));
    settings.push((String::from_str("metadata.broker.list"), join(brokers, ",")));
    assert(setting_views(settings@) =~= seq![
        ("group.id"@, group@),
        ("metadata.broker.list"@, joined(views(brokers@), ","@)),
    ]);
    settings
}

impl SubscribeClient {
    #[verifier::type_invariant]
    spec fn prepared(self) -> bool {
        &&& config_entries(self.config) == entries_of(consumer_settings(self@))
        &&& listed_partitions(self.assignment) == consumer_assignment(self@)
    }

    /// A client for one partition of `topic`, read under `group`.
    ///
    /// The configuration and the assignment for the consumer are made here,
    /// which cannot fail; the consumer itself is the caller's to create from
    /// them, and [`initialized`] says what a failure there amounts to.
    pub fn new(brokers: Vec<String>, topic: &str, group: &str, partition: i32) -> (outcome: Result<
        Self,
        Error,
    >)
        requires
            is_topic_name(topic@),
        ensures
            outcome matches Ok(client) && client@ == (SubscribeClientView {
                brokers: views(brokers@),
                topic: topic@,
                group: group@,
                partition: partition as int,
            }),
    {
        let config = client_config(&consumer_pairs(&brokers, group));
        let mut assignment = new_partition_list();
        assert(listed_partitions(assignment) =~= Seq::empty());
        match initialized(add_partition(&mut assignment, topic, partition, Offset::Beginning)) {
            Ok(_) => {
                assert(listed_partitions(assignment) =~= seq![
                    (topic@, partition as int, Offset::Beginning),
                ]);
                Ok(
                    SubscribeClient {
                        brokers,
                        topic: String::from_str(topic),
                        group: String::from_str(group),
                        partition,
                        config,
                        assignment,
                    },
                )
            },
            Err(error) => Err(error),
        }
    }

    /// The settings that the consumer is configured with.
    pub fn settings(&self) -> (settings: Vec<(String, String)>)
        ensures
            setting_views(settings@) == consumer_settings(self@),
    {
        consumer_pairs(&self.brokers, self.group.as_str())
    }

    /// The configuration to create the consumer with.
    pub fn config(&self) -> (config: &ClientConfig)
        ensures
            config_entries(*config) == entries_of(consumer_settings(self@)),
    {
        proof {
            use_type_invariant(self);
        }
        &self.config
    }

    /// The partitions to assign to the consumer.
    pub fn assignment(&self) -> (list: &TopicPartitionList)
        ensures
            listed_partitions(*list) == consumer_assignment(self@),
    {
        proof {
            use_type_invariant(self);
        }
        &self.assignment
    }

    /// The topic to read.
    pub fn topic(&self) -> (topic: &String)
        ensures
            topic@ == self@.topic,
    {
        &self.topic
    }

    /// The partition to read.
    pub fn partition(&self) -> (partition: i32)
        ensures
            partition == self@.partition,
    {
        self.partition
    }

    /// Turns one payload read from the broker into the message that is queued
    /// for the pub/sub side: stamped with this client's topic and group, its
    /// payload normalised.
    pub fn consume(&self, payload: Option<&str>) -> (message: Message)
        requires
            within_parser_limits(encode_utf8(received_text(payload))),
        ensures
            message.topic@ == self@.topic,
            message.group matches Some(group) && group@ == self@.group,
            message.data@ == normalized(received_text(payload)),
            !json_parse_ok(received_text(payload)) ==> json_parsed(message.data@) == Some(
                Some(received_text(payload)),
            ),
            message.wf(),
    {
        let data = match payload {
            Some(text) => String::from_str(text),
            None => String::new(),
        };
        Message::new(self.topic.clone(), Some(self.group.clone()), data)
    }
}

/// What a [`PublishClient`] holds.
pub struct PublishClientView {
    pub brokers: Seq<Seq<char>>,
    pub topic: Seq<char>,
}

/// The producing side of the broker: every payload goes to one topic.
pub struct PublishClient {
    brokers: Vec<String>,
    topic: String,
    config: ClientConfig,
}

impl View for PublishClient {
    type V = PublishClientView;

    closed spec fn view(&self) -> PublishClientView {
        PublishClientView { brokers: views(self.brokers@), topic: self.topic@ }
    }
}

/// The settings a producer is created with: its brokers as one
/// comma-separated list, one acknowledgement per request, and a one-second
/// request timeout.
pub open spec fn producer_settings(client: PublishClientView) -> Seq<(Seq<char>, Seq<char>)> {
    seq![
        ("metadata.broker.list"@, joined(client.brokers, ","@)),
        ("request.required.acks"@, "1"@),
        ("request.timeout.ms"@, "1000"@),
    ]
}

/// One record for the broker: where it goes and what it carries.
#[derive(Debug, PartialEq, Eq)]
pub struct Record {
    pub topic: String,
    pub payload: String,
}

fn producer_pairs(brokers: &Vec<String>) -> (settings: Vec<(String, String)>)
    ensures
        setting_views(settings@) == seq![
            ("metadata.broker.list"@, joined(views(brokers@), ","@)),
            ("request.required.acks"@, "1"@),
            ("request.timeout.ms"@, "1000"@),
        ],
{
    let mut settings: Vec<(String, String)> = Vec::new();
    settings.push((String::from_str("metadata.broker.list"), join(brokers, ",")));
    settings.push((String::from_str("request.required.acks"), String::from_str("1")));
    settings.push((String::from_str("request.timeout.ms"), String::from_str("1000")));
    assert(setting_views(settings@) =~= seq![
        ("metadata.broker.list"@, joined(views(brokers@), ","@)),
        ("request.required.acks"@, "1"@),
        ("request.timeout.ms"@, "1000"@),
    ]);
    settings
}

impl PublishClient {
    #[verifier::type_invariant]
    spec fn prepared(self) -> bool {
        config_entries(self.config) == entries_of(producer_settings(self@))
    }

    /// A client that produces to `topic`.
    ///
    /// The configuration for the producer is made here; the producer itself
    /// is the caller's to create from it. Making the configuration cannot
    /// fail.
    pub fn new(brokers: Vec<String>, topic: &str) -> (outcome: Result<Self, Error>)
        ensures
            outcome matches Ok(client) && client@ == (PublishClientView {
                brokers: views(brokers@),
                topic: topic@,
            }),
    {
        let config = client_config(&producer_pairs(&brokers));
        Ok(PublishClient { brokers, topic: String::from_str(topic), config })
    }

    /// The settings that the producer is configured with.
    pub fn settings(&self) -> (settings: Vec<(String, String)>)
        ensures
            setting_views(settings@) == producer_settings(self@),
    {
        producer_pairs(&self.brokers)
    }

    /// The configuration to create the producer with.
    pub fn config(&self) -> (config: &ClientConfig)
        ensures
            config_entries(*config) == entries_of(producer_settings(self@)),
    {
        proof {
            use_type_invariant(self);
        }
        &self.config
    }

    /// The record to send for `message`: this client's topic, no key, and the
    /// payload as it is.
    pub fn produce(&self, message: &str) -> (record: Record)
        ensures
            record.topic@ == self@.topic,
            record.payload@ == message@,
    {
        Record { topic: self.topic.clone(), payload: String::from_str(message) }
    }
}

} // verus!
