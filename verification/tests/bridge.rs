use kafka_bridge::bridge::{Action, Duty, DutyLoop, Event, Queue, State, Step};
use kafka_bridge::kafka::{self, Error, Message, Record};
use kafka_bridge::pubnub::{self, calls_for_reconnect, PubNub};
use kafka_bridge::socket::{Link, Socket};
use kafka_bridge::socket::Step as Dial;

fn lines(parts: &[&str]) -> Vec<String> {
    parts.iter().map(|part| part.to_string()).collect()
}

fn message(data: &str) -> Message {
    Message { topic: "t".to_string(), group: None, data: data.to_string() }
}

fn now(action: Action) -> Step {
    Step { wait_secs: 0, action }
}

fn later(action: Action) -> Step {
    Step { wait_secs: 1, action }
}

fn started(duty: Duty) -> DutyLoop {
    let mut duty_loop = DutyLoop::new(duty);
    assert_eq!(duty_loop.step(Event::Constructed), now(Action::Obtain));
    duty_loop
}

const ALL: [Duty; 4] =
    [Duty::BrokerConsume, Duty::PubSubPublish, Duty::PubSubSubscribe, Duty::BrokerProduce];

#[test]
fn scenario_broker_message_is_published() {
    let broker = kafka::SubscribeClient::new(vec!["b:9092".to_string()], "t1", "g", 0).unwrap();
    let mut queue = Queue::new();

    let mut consume = started(Duty::BrokerConsume);
    let step = consume.step(Event::Obtained(broker.consume(Some("hello"))));
    match step.action {
        Action::Forward(message) => queue.send(message),
        other => panic!("{:?}", other),
    }
    assert_eq!(consume.step(Event::Forwarded), now(Action::Obtain));

    let pubnub = PubNub::new("host:80".to_string(), "pk".to_string(), "sk".to_string(), Link::Connected).unwrap();
    let mut publish = started(Duty::PubSubPublish);
    let step = publish.step(Event::Obtained(queue.recv().unwrap()));
    let request = match step.action {
        Action::Forward(message) => pubnub.publish(message.topic, message.data),
        other => panic!("{:?}", other),
    };
    assert!(request.contains("t1"));
    assert!(request.contains("hello"));
    assert_eq!(
        request,
        "GET /publish/pk/sk/0/t1/0/%22hello%22 HTTP/1.1\r\nHost: host:80\r\n\r\n"
    );

    let response = lines(&["HTTP/1.1 200 OK\r\n", "Connection: keep-alive\r\n", "\r\n"]);
    assert_eq!(pubnub.confirm(Ok(request.len()), &response), Ok(3));
    assert_eq!(publish.step(Event::Forwarded), now(Action::Obtain));
    assert_eq!(publish.state, State::Obtaining);
    assert!(queue.is_empty());
}

#[test]
fn scenario_two_bodies_are_produced_in_order() {
    let mut subscriber = pubnub::SubscribeClient::new("host:80", "chan", "sk", Link::Connected).unwrap();
    let producer = kafka::PublishClient::new(vec!["b:9092".to_string()], "out").unwrap();
    let mut queue = Queue::new();
    let mut subscribe = started(Duty::PubSubSubscribe);
    let mut produce = started(Duty::BrokerProduce);

    let responses = [
        lines(&["HTTP/1.1 200 OK\r\n", "\r\n", "{\"a\":1}\r\n", "\r\n"]),
        lines(&["HTTP/1.1 200 OK\r\n", "\r\n", "raw-text\r\n", "\r\n"]),
    ];
    for response in responses.iter() {
        let (message, _) = subscriber.next_message(Ok(10), response).unwrap();
        match subscribe.step(Event::Obtained(message)).action {
            Action::Forward(message) => queue.send(message),
            other => panic!("{:?}", other),
        }
        assert_eq!(subscribe.step(Event::Forwarded), now(Action::Obtain));
    }

    let mut records = Vec::new();
    while let Some(message) = queue.recv() {
        match produce.step(Event::Obtained(message)).action {
            Action::Forward(message) => records.push(producer.produce(&message.data)),
            other => panic!("{:?}", other),
        }
        assert_eq!(produce.step(Event::Forwarded), now(Action::Obtain));
    }
    assert_eq!(
        records,
        vec![
            Record { topic: "out".to_string(), payload: "{\"a\":1}".to_string() },
            Record { topic: "out".to_string(), payload: "\"raw-text\"".to_string() },
        ]
    );
}

#[test]
fn scenario_disconnect_during_long_poll() {
    let mut subscriber = pubnub::SubscribeClient::new("host:80", "chan", "sk", Link::Connected).unwrap();
    let mut socket = Socket::new("host:80");
    socket.dialed(None);
    let mut subscribe = started(Duty::PubSubSubscribe);

    let cut = lines(&["HTTP/1.1 200 OK\r\n", "\r\n", "{\"a\":"]);
    let error = subscriber.next_message(Ok(10), &cut).unwrap_err();
    assert_eq!(error, Error::SubscribeRead);
    assert!(calls_for_reconnect(error));
    socket.reconnect();
    assert_eq!(socket.next(), Dial::Sleep(1));
    socket.slept();
    assert_eq!(socket.next(), Dial::Dial);
    socket.dialed(None);
    assert_eq!(socket.link(), Link::Connected);

    assert_eq!(subscribe.step(Event::ObtainFailed), now(Action::Obtain));
    assert_eq!(subscribe.state, State::Obtaining);

    let whole = lines(&["HTTP/1.1 200 OK\r\n", "\r\n", "{\"b\":2}\r\n", "\r\n"]);
    let (message, _) = subscriber.next_message(Ok(10), &whole).unwrap();
    assert_eq!(message.data, "{\"b\":2}");
    assert_eq!(
        subscribe.step(Event::Obtained(message.clone())),
        now(Action::Forward(message))
    );
}

#[test]
fn scenario_failed_produce_is_dropped() {
    let mut produce = started(Duty::BrokerProduce);
    assert_eq!(produce.step(Event::Obtained(message("1"))), now(Action::Forward(message("1"))));
    assert_eq!(produce.step(Event::ForwardFailed), later(Action::Obtain));
    assert_eq!(produce.state, State::Obtaining);
    assert_eq!(produce.step(Event::Obtained(message("2"))), now(Action::Forward(message("2"))));
    assert_eq!(produce.step(Event::Forwarded), now(Action::Obtain));
}

#[test]
fn a_failed_publish_is_retried_for_as_long_as_it_takes() {
    let mut publish = started(Duty::PubSubPublish);
    assert_eq!(publish.step(Event::Obtained(message("1"))), now(Action::Forward(message("1"))));
    for _ in 0..1000 {
        assert_eq!(publish.step(Event::ForwardFailed), later(Action::Forward(message("1"))));
        assert_eq!(publish.state, State::Forwarding(message("1")));
    }
    assert_eq!(publish.step(Event::Forwarded), now(Action::Obtain));
}

#[test]
fn a_new_loop_makes_its_client() {
    for duty in ALL {
        let duty_loop = DutyLoop::new(duty);
        assert_eq!(duty_loop.duty, duty);
        assert_eq!(duty_loop.state, State::Constructing);
        assert_eq!(duty_loop.pending(), now(Action::Construct));
    }
}

#[test]
fn a_client_that_cannot_be_made_is_made_again_after_the_backoff() {
    for duty in ALL {
        let mut duty_loop = DutyLoop::new(duty);
        for _ in 0..50 {
            assert_eq!(duty_loop.step(Event::ConstructFailed), later(Action::Construct));
            assert_eq!(duty_loop.state, State::Constructing);
        }
        assert_eq!(duty_loop.step(Event::Constructed), now(Action::Obtain));
    }
}

#[test]
fn a_failed_long_poll_is_asked_again_at_once() {
    let mut subscribe = started(Duty::PubSubSubscribe);
    for _ in 0..50 {
        assert_eq!(subscribe.step(Event::ObtainFailed), now(Action::Obtain));
    }
    assert_eq!(subscribe.state, State::Obtaining);
}

#[test]
fn a_failed_broker_stream_ends_the_loop() {
    let mut consume = started(Duty::BrokerConsume);
    assert_eq!(consume.step(Event::ObtainFailed), now(Action::Halt));
    assert_eq!(consume.state, State::Halted);
    assert_eq!(consume.step(Event::Constructed), now(Action::Halt));
    assert_eq!(consume.step(Event::Obtained(message("1"))), now(Action::Halt));
    assert_eq!(consume.state, State::Halted);
}

#[test]
fn a_queue_that_is_gone_ends_the_loop() {
    for duty in [Duty::PubSubPublish, Duty::BrokerProduce] {
        let mut duty_loop = started(duty);
        assert_eq!(duty_loop.step(Event::ObtainFailed), now(Action::Halt));
    }
    for duty in [Duty::BrokerConsume, Duty::PubSubSubscribe] {
        let mut duty_loop = started(duty);
        duty_loop.step(Event::Obtained(message("1")));
        assert_eq!(duty_loop.step(Event::ForwardFailed), now(Action::Halt));
        assert_eq!(duty_loop.state, State::Halted);
    }
}

#[test]
fn events_out_of_turn_repeat_the_pending_step() {
    for duty in ALL {
        let mut duty_loop = DutyLoop::new(duty);
        assert_eq!(duty_loop.step(Event::Forwarded), now(Action::Construct));
        assert_eq!(duty_loop.step(Event::ForwardFailed), now(Action::Construct));
        assert_eq!(duty_loop.step(Event::ObtainFailed), now(Action::Construct));
        assert_eq!(duty_loop.step(Event::Obtained(message("x"))), now(Action::Construct));
        assert_eq!(duty_loop.step(Event::Constructed), now(Action::Obtain));
        assert_eq!(duty_loop.step(Event::Constructed), now(Action::Obtain));
        assert_eq!(duty_loop.step(Event::ConstructFailed), now(Action::Obtain));
        assert_eq!(duty_loop.step(Event::Forwarded), now(Action::Obtain));
        assert_eq!(duty_loop.step(Event::Obtained(message("1"))), now(Action::Forward(message("1"))));
        assert_eq!(duty_loop.step(Event::Obtained(message("2"))), now(Action::Forward(message("1"))));
        assert_eq!(duty_loop.step(Event::Constructed), now(Action::Forward(message("1"))));
        assert_eq!(duty_loop.pending(), now(Action::Forward(message("1"))));
    }
}

#[test]
fn a_queue_hands_messages_out_in_the_order_they_came() {
    let mut queue = Queue::new();
    assert!(queue.is_empty());
    assert_eq!(queue.recv(), None);
    for number in 0..100 {
        queue.send(message(&number.to_string()));
    }
    assert!(!queue.is_empty());
    for number in 0..100 {
        assert_eq!(queue.recv(), Some(message(&number.to_string())));
    }
    assert!(queue.is_empty());
    assert_eq!(queue.recv(), None);
}

#[test]
fn sending_and_receiving_may_alternate() {
    let mut queue = Queue::new();
    queue.send(message("1"));
    queue.send(message("2"));
    assert_eq!(queue.recv(), Some(message("1")));
    queue.send(message("3"));
    assert_eq!(queue.recv(), Some(message("2")));
    assert_eq!(queue.recv(), Some(message("3")));
    assert_eq!(queue.recv(), None);
}

#[test]
fn messages_pile_up_while_the_sink_is_down() {
    let mut queue = Queue::new();
    let mut publish = started(Duty::PubSubPublish);
    for number in 0..10 {
        queue.send(message(&number.to_string()));
    }
    publish.step(Event::Obtained(queue.recv().unwrap()));
    for number in 10..20 {
        queue.send(message(&number.to_string()));
        assert_eq!(publish.step(Event::ForwardFailed), later(Action::Forward(message("0"))));
    }
    assert_eq!(publish.step(Event::Forwarded), now(Action::Obtain));
    for number in 1..20 {
        assert_eq!(queue.recv(), Some(message(&number.to_string())));
    }
}

fn in_flight(duty_loop: &DutyLoop) -> Vec<Message> {
    match &duty_loop.state {
        State::Forwarding(message) => vec![message.clone()],
        _ => vec![],
    }
}

fn every_message_is_accounted_for(intake_duty: Duty, delivery_duty: Duty, seed: u64) {
    let mut intake = started(intake_duty);
    let mut delivery = started(delivery_duty);
    let mut queue = Queue::new();
    let mut taken = Vec::new();
    let mut settled = Vec::new();
    let mut delivered = Vec::new();
    let mut random = seed;
    for number in 0..2000 {
        random = random.wrapping_mul(6364136223846793005).wrapping_add(1442695040888963407);
        match (random >> 33) % 6 {
            0 | 1 => match intake.pending().action {
                Action::Obtain => {
                    if intake_duty == Duty::PubSubSubscribe && (random >> 40) % 3 == 0 {
                        intake.step(Event::ObtainFailed);
                    } else {
                        let message = message(&number.to_string());
                        taken.push(message.clone());
                        intake.step(Event::Obtained(message));
                    }
                }
                Action::Forward(message) => {
                    queue.send(message);
                    intake.step(Event::Forwarded);
                }
                other => panic!("{:?}", other),
            },
            2 | 3 => match delivery.pending().action {
                Action::Obtain => {
                    if let Some(message) = queue.recv() {
                        delivery.step(Event::Obtained(message));
                    }
                }
                Action::Forward(message) => {
                    delivered.push(message.clone());
                    settled.push(message);
                    delivery.step(Event::Forwarded);
                }
                other => panic!("{:?}", other),
            },
            _ => {
                if let Action::Forward(message) = delivery.pending().action {
                    let step = delivery.step(Event::ForwardFailed);
                    assert_eq!(step.wait_secs, 1);
                    match step.action {
                        Action::Forward(again) => assert_eq!(again, message),
                        Action::Obtain => settled.push(message),
                        other => panic!("{:?}", other),
                    }
                }
            }
        }
    }
    if delivery_duty == Duty::PubSubPublish {
        assert_eq!(delivered, settled);
    }
    let mut accounted = settled;
    accounted.extend(in_flight(&delivery));
    while let Some(message) = queue.recv() {
        accounted.push(message);
    }
    accounted.extend(in_flight(&intake));
    assert!(taken.len() > 100);
    assert_eq!(accounted, taken);
    let mut last = None;
    for message in delivered.iter() {
        let number: u32 = message.data.parse().unwrap();
        assert!(last < Some(number));
        last = Some(number);
    }
}

#[test]
fn nothing_is_lost_or_overtaken_towards_the_pubsub_service() {
    for seed in 1..20 {
        every_message_is_accounted_for(Duty::BrokerConsume, Duty::PubSubPublish, seed);
    }
}

#[test]
fn nothing_is_overtaken_towards_the_broker() {
    for seed in 1..20 {
        every_message_is_accounted_for(Duty::PubSubSubscribe, Duty::BrokerProduce, seed);
    }
}
