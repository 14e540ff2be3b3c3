//! The bridge's configuration: one value, built once from the startup
//! parameters and checked as a whole.

use vstd::prelude::*;
use vstd::string::*;
use crate::text::{joined, split, views};

verus! {

/// Whether `ch` is an ASCII digit.
pub open spec fn is_digit_char(ch: char) -> bool {
    '0' <= ch <= '9'
}

/// Whether `text` is made of ASCII digits only.
pub open spec fn all_digits(text: Seq<char>) -> bool {
    forall|i: int| 0 <= i < text.len() ==> is_digit_char(#[trigger] text[i])
}

/// The number that `digits` writes in base ten.
pub open spec fn decimal(digits: Seq<char>) -> int
    decreases digits.len(),
{
    if digits.len() == 0 {
        0
    } else {
        decimal(digits.drop_last()) * 10 + (digits.last() as int - '0' as int)
    }
}

/// The digits of a number: the text without its sign, if it has one.
pub open spec fn unsigned_part(text: Seq<char>) -> Seq<char> {
    if text.len() > 0 && (text[0] == '-' || text[0] == '+') {
        text.drop_first()
    } else {
        text
    }
}

/// The number that `text` writes, as far as it reads it: an optional sign and
/// its digits in base ten.
pub open spec fn signed_decimal(text: Seq<char>) -> int {
    if text.len() > 0 && text[0] == '-' {
        -decimal(unsigned_part(text))
    } else {
        decimal(unsigned_part(text))
    }
}

/// Whether `text` writes a partition number: an optional `+` or `-`, then one
/// or more ASCII digits and nothing else, for a number that fits in 32 bits.
pub open spec fn is_partition(text: Seq<char>) -> bool {
    &&& unsigned_part(text).len() > 0
    &&& all_digits(unsigned_part(text))
    &&& i32::MIN <= signed_decimal(text) <= i32::MAX
}

proof fn lemma_decimal_grows(digits: Seq<char>, upto: int)
    requires
        all_digits(digits),
        0 <= upto <= digits.len(),
    ensures
        0 <= decimal(digits.take(upto)) <= decimal(digits),
    decreases digits.len() - upto,
{
    if upto == digits.len() {
        assert(digits.take(upto) =~= digits);
        lemma_decimal_nonnegative(digits);
    } else {
        lemma_decimal_grows(digits, upto + 1);
        let longer = digits.take(upto + 1);
        assert(longer.drop_last() =~= digits.take(upto));
        assert(is_digit_char(digits[upto]));
        assert(longer.last() == digits[upto]);
        lemma_decimal_nonnegative(digits.take(upto));
    }
}

proof fn lemma_decimal_nonnegative(digits: Seq<char>)
    requires
        all_digits(digits),
    ensures
        0 <= decimal(digits),
    decreases digits.len(),
{
    if digits.len() > 0 {
        assert(is_digit_char(digits[digits.len() - 1]));
        lemma_decimal_nonnegative(digits.drop_last());
    }
}

/// Reads a partition number.
pub fn parse_partition(text: &str) -> (partition: Option<i32>)
    ensures
        partition is Some <==> is_partition(text@),
        partition matches Some(number) ==> number == signed_decimal(text@),
{
    let len = text.unicode_len();
    if len == 0 {
        return None;
    }
    let first = text.get_char(0);
    let negative = first == '-';
    let start: usize = if first == '-' || first == '+' {
        1
    } else {
        0
    };
    if start == len {
        return None;
    }
    let ghost digits = unsigned_part(text@);
    assert(digits =~= text@.skip(start as int));
    let mut magnitude: i64 = 0;
    let mut at: usize = start;
    while at < len
        invariant
            start <= at <= len,
            len == text@.len(),
            digits == text@.skip(start as int),
            digits == unsigned_part(text@),
            all_digits(digits.take(at - start)),
            magnitude == decimal(digits.take(at - start)),
            0 <= magnitude <= 0x8000_0000,
        decreases len - at,
    {
        let ch = text.get_char(at);
        if !('0' <= ch && ch <= '9') {
            assert(!is_digit_char(digits[at - start]));
            return None;
        }
        let digit: i64 = (ch as u32 - '0' as u32) as i64;
        let next: i64 = magnitude * 10 + digit;
        proof {
            let longer = digits.take(at + 1 - start);
            assert(longer.drop_last() =~= digits.take(at - start));
            assert(longer.last() == ch);
            assert(next == decimal(longer));
            assert forall|i: int| 0 <= i < longer.len() implies is_digit_char(
                #[trigger] longer[i],
            ) by {
                if i < at - start {
                    assert(digits.take(at - start)[i] == longer[i]);
                }
            }
        }
        if next > 0x8000_0000 {
            proof {
                if all_digits(digits) {
                    lemma_decimal_grows(digits, at + 1 - start);
                }
            }
            return None;
        }
        magnitude = next;
        at = at + 1;
    }
    assert(digits.take(len - start) =~= digits);
    if negative {
        Some((-magnitude) as i32)
    } else if magnitude == 0x8000_0000 {
        None
    } else {
        Some(magnitude as i32)
    }
}

/// The startup parameters, in the order in which they are looked at.
#[derive(Debug, Clone, Copy, PartialEq, Eq, Structural)]
pub enum Variable {
    KafkaBrokers,
    KafkaTopic,
    KafkaGroup,
    KafkaPartition,
    PubnubChannel,
    PubnubChannelRoot,
    PubnubPublishKey,
    PubnubSubscribeKey,
    PubnubSecretKey,
}

/// The name under which a parameter is looked up.
pub open spec fn variable_name(variable: Variable) -> Seq<char> {
    match variable {
        Variable::KafkaBrokers => "KAFKA_BROKERS"@,
        Variable::KafkaTopic => "KAFKA_TOPIC"@,
        Variable::KafkaGroup => "KAFKA_GROUP"@,
        Variable::KafkaPartition => "KAFKA_PARTITION"@,
        Variable::PubnubChannel => "PUBNUB_CHANNEL"@,
        Variable::PubnubChannelRoot => "PUBNUB_CHANNEL_ROOT"@,
        Variable::PubnubPublishKey => "PUBNUB_PUBLISH_KEY"@,
        Variable::PubnubSubscribeKey => "PUBNUB_SUBSCRIBE_KEY"@,
        Variable::PubnubSecretKey => "PUBNUB_SECRET_KEY"@,
    }
}

impl Variable {
    /// The name under which the parameter is looked up.
    pub fn name(&self) -> (name: String)
        ensures
            name@ == variable_name(*self),
    {
        match self {
            Variable::KafkaBrokers => String::from_str("KAFKA_BROKERS"),
            Variable::KafkaTopic => String::from_str("KAFKA_TOPIC"),
            Variable::KafkaGroup => String::from_str("KAFKA_GROUP"),
            Variable::KafkaPartition => String::from_str("KAFKA_PARTITION"),
            Variable::PubnubChannel => String::from_str("PUBNUB_CHANNEL"),
            Variable::PubnubChannelRoot => String::from_str("PUBNUB_CHANNEL_ROOT"),
            Variable::PubnubPublishKey => String::from_str("PUBNUB_PUBLISH_KEY"),
            Variable::PubnubSubscribeKey => String::from_str("PUBNUB_SUBSCRIBE_KEY"),
            Variable::PubnubSecretKey => String::from_str("PUBNUB_SECRET_KEY"),
        }
    }
}

/// Why there is no configuration. Either way the bridge does not start.
#[derive(Debug, Clone, Copy, PartialEq, Eq, Structural)]
pub enum ConfigError {
    /// The parameter is not set.
    Missing(Variable),
    /// The parameter is set to something that it cannot be.
    Invalid(Variable),
}

/// The startup parameters as they were found: nothing where one is not set.
pub struct Environment {
    pub kafka_brokers: Option<String>,
    pub kafka_topic: Option<String>,
    pub kafka_group: Option<String>,
    pub kafka_partition: Option<String>,
    pub pubnub_channel: Option<String>,
    pub pubnub_channel_root: Option<String>,
    pub publish_key: Option<String>,
    pub subscribe_key: Option<String>,
    pub secret_key: Option<String>,
}

/// Everything the bridge is started with.
#[derive(Debug, PartialEq, Eq)]
pub struct Configuration {
    pub kafka_brokers: Vec<String>,
    pub kafka_topic: String,
    pub kafka_group: String,
    pub kafka_partition: i32,
    pub pubnub_host: String,
    pub pubnub_channel: String,
    pub pubnub_channel_root: String,
    pub publish_key: String,
    pub subscribe_key: String,
    pub secret_key: String,
}

/// The first thing that is wrong with the parameters, going through them in
/// their order: one that is not set, or a partition that is no number.
pub open spec fn first_fault(env: Environment) -> Option<ConfigError> {
    if env.kafka_brokers is None {
        Some(ConfigError::Missing(Variable::KafkaBrokers))
    } else if env.kafka_topic is None {
        Some(ConfigError::Missing(Variable::KafkaTopic))
    } else if env.kafka_group is None {
        Some(ConfigError::Missing(Variable::KafkaGroup))
    } else if env.kafka_partition is None {
        Some(ConfigError::Missing(Variable::KafkaPartition))
    } else if !is_partition(env.kafka_partition->0@) {
        Some(ConfigError::Invalid(Variable::KafkaPartition))
    } else if env.pubnub_channel is None {
        Some(ConfigError::Missing(Variable::PubnubChannel))
    } else if env.pubnub_channel_root is None {
        Some(ConfigError::Missing(Variable::PubnubChannelRoot))
    } else if env.publish_key is None {
        Some(ConfigError::Missing(Variable::PubnubPublishKey))
    } else if env.subscribe_key is None {
        Some(ConfigError::Missing(Variable::PubnubSubscribeKey))
    } else if env.secret_key is None {
        Some(ConfigError::Missing(Variable::PubnubSecretKey))
    } else {
        None
    }
}

/// Whether `config` is what the parameters of `env` say: every text as it was
/// set, the brokers as the pieces of their comma-separated list (one piece
/// more than the list has commas, so at least one), the partition as the
/// number it writes, and the pub/sub host as built in.
pub open spec fn configured_by(config: Configuration, env: Environment) -> bool {
    &&& config.kafka_brokers@.len() >= 1
    &&& joined(views(config.kafka_brokers@), seq![','])
        == env.kafka_brokers->0@
    &&& forall|i: int|
        0 <= i < config.kafka_brokers@.len() ==> !(#[trigger] views(
            config.kafka_brokers@,
        )[i]).contains(',')
    &&& config.kafka_topic == env.kafka_topic->0
    &&& config.kafka_group == env.kafka_group->0
    &&& config.kafka_partition == signed_decimal(env.kafka_partition->0@)
    &&& config.pubnub_host@ == "psdsn.pubnub.com:80"@
    &&& config.pubnub_channel == env.pubnub_channel->0
    &&& config.pubnub_channel_root == env.pubnub_channel_root->0
    &&& config.publish_key == env.publish_key->0
    &&& config.subscribe_key == env.subscribe_key->0
    &&& config.secret_key == env.secret_key->0
}

/// The channel as the pub/sub service knows it: under its root where there is
/// one.
pub open spec fn full_channel(root: Seq<char>, channel: Seq<char>) -> Seq<char> {
    if root.len() == 0 {
        channel
    } else {
        root + "."@ + channel
    }
}

/// The address of the console page that shows the bridged channel.
pub open spec fn dashboard_url(config: Configuration) -> Seq<char> {
    "https://www.pubnub.com//docs/console?channel="@ + full_channel(
        config.pubnub_channel_root@,
        config.pubnub_channel@,
    ) + "&sub="@ + config.subscribe_key@ + "&pub="@ + config.publish_key@
}

/// Builds the configuration from the startup parameters, or names the first
/// thing that is wrong with them.
pub fn environment_variables(env: Environment) -> (outcome: Result<Configuration, ConfigError>)
    ensures
        outcome matches Err(fault) ==> first_fault(env) == Some(fault),
        outcome matches Ok(config) ==> first_fault(env) is None && configured_by(config, env),
{
    let Environment {
        kafka_brokers,
        kafka_topic,
        kafka_group,
        kafka_partition,
        pubnub_channel,
        pubnub_channel_root,
        publish_key,
        subscribe_key,
        secret_key,
    } = env;
    let kafka_brokers = match kafka_brokers {
        Some(list) => split(list.as_str(), ','),
        None => return Err(ConfigError::Missing(Variable::KafkaBrokers)),
    };
    let kafka_topic = match kafka_topic {
        Some(value) => value,
        None => return Err(ConfigError::Missing(Variable::KafkaTopic)),
    };
    let kafka_group = match kafka_group {
        Some(value) => value,
        None => return Err(ConfigError::Missing(Variable::KafkaGroup)),
    };
    let kafka_partition = match kafka_partition {
        Some(value) => match parse_partition(value.as_str()) {
            Some(number) => number,
            None => return Err(ConfigError::Invalid(Variable::KafkaPartition)),
        },
        None => return Err(ConfigError::Missing(Variable::KafkaPartition)),
    };
    let pubnub_channel = match pubnub_channel {
        Some(value) => value,
        None => return Err(ConfigError::Missing(Variable::PubnubChannel)),
    };
    let pubnub_channel_root = match pubnub_channel_root {
        Some(value) => value,
        None => return Err(ConfigError::Missing(Variable::PubnubChannelRoot)),
    };
    let publish_key = match publish_key {
        Some(value) => value,
        None => return Err(ConfigError::Missing(Variable::PubnubPublishKey)),
    };
    let subscribe_key = match subscribe_key {
        Some(value) => value,
        None => return Err(ConfigError::Missing(Variable::PubnubSubscribeKey)),
    };
    let secret_key = match secret_key {
        Some(value) => value,
        None => return Err(ConfigError::Missing(Variable::PubnubSecretKey)),
    };
    Ok(
        Configuration {
            kafka_brokers,
            kafka_topic,
            kafka_group,
            kafka_partition,
            pubnub_host: String::from_str("psdsn.pubnub.com:80"),
            pubnub_channel,
            pubnub_channel_root,
            publish_key,
            subscribe_key,
            secret_key,
        },
    )
}

impl Configuration {
    /// The channel as the pub/sub service knows it.
    pub fn channel(&self) -> (channel: String)
        ensures
            channel@ == full_channel(self.pubnub_channel_root@, self.pubnub_channel@),
    {
        if self.pubnub_channel_root.as_str().is_empty() {
            self.pubnub_channel.clone()
        } else {
            let mut channel = self.pubnub_channel_root.clone();
            channel.append(".");
            channel.append(self.pubnub_channel.as_str());
            channel
        }
    }

    /// The address of the console page that shows the bridged channel.
    pub fn dashboard(&self) -> (url: String)
        ensures
            url@ == dashboard_url(*self),
    {
        let mut url = String::from_str("https://www.pubnub.com//docs/console?channel=");
        url.append(self.channel().as_str());
        url.append("&sub=");
        url.append(self.subscribe_key.as_str());
        url.append("&pub=");
        url.append(self.publish_key.as_str());
        url
    }
}

} // verus!
