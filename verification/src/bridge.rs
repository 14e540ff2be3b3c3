//! The bridge's duty loops and the queues between them.
//!
//! A duty loop makes its client, then for ever obtains one message from its
//! source and forwards it to its sink. What it does when one of these fails
//! depends on which loop it is. The loop itself is run by the caller: it
//! performs each step and reports what came of it.

use vstd::prelude::*;
use std::collections::VecDeque;
use crate::kafka::Message;
use crate::socket::BACKOFF_SECS;

verus! {

/// An unbounded first-in, first-out queue of messages between two duty loops:
/// one loop sends, the other receives. Nothing else takes messages out.
pub struct Queue {
    items: VecDeque<Message>,
}

impl View for Queue {
    type V = Seq<Message>;

    closed spec fn view(&self) -> Seq<Message> {
        self.items@
    }
}

impl Queue {
    /// An empty queue.
    pub fn new() -> (queue: Self)
        ensures
            queue@ == Seq::<Message>::empty(),
    {
        Queue { items: VecDeque::new() }
    }

    /// Whether nothing is waiting.
    pub fn is_empty(&self) -> (empty: bool)
        ensures
            empty == (self@.len() == 0),
    {
        self.items.len() == 0
    }

    /// Puts `message` behind everything that is waiting.
    pub fn send(&mut self, message: Message)
        ensures
            final(self)@ == old(self)@.push(message),
    {
        self.items.push_back(message);
    }

    /// Takes the message that has waited longest, if there is one.
    pub fn recv(&mut self) -> (message: Option<Message>)
        ensures
            old(self)@.len() == 0 ==> message is None && final(self)@ == old(self)@,
            old(self)@.len() > 0 ==> message == Some(old(self)@[0]) && final(self)@ == old(
                self,
            )@.drop_first(),
    {
        self.items.pop_front()
    }
}

/// One use of a queue.
pub enum Use {
    Send(Message),
    Recv,
}

/// The messages that `uses` send, in order.
pub open spec fn sent(uses: Seq<Use>) -> Seq<Message>
    decreases uses.len(),
{
    if uses.len() == 0 {
        Seq::empty()
    } else {
        match uses[0] {
            Use::Send(message) => seq![message] + sent(uses.drop_first()),
            Use::Recv => sent(uses.drop_first()),
        }
    }
}

/// The messages that `uses` receive from a queue that holds `queue`, in
/// order. Receiving from an empty queue brings nothing.
pub open spec fn received(queue: Seq<Message>, uses: Seq<Use>) -> Seq<Message>
    decreases uses.len(),
{
    if uses.len() == 0 {
        Seq::empty()
    } else {
        match uses[0] {
            Use::Send(message) => received(queue.push(message), uses.drop_first()),
            Use::Recv => if queue.len() == 0 {
                received(queue, uses.drop_first())
            } else {
                seq![queue[0]] + received(queue.drop_first(), uses.drop_first())
            },
        }
    }
}

/// What a queue that held `queue` holds after `uses`.
pub open spec fn remaining(queue: Seq<Message>, uses: Seq<Use>) -> Seq<Message>
    decreases uses.len(),
{
    if uses.len() == 0 {
        queue
    } else {
        match uses[0] {
            Use::Send(message) => remaining(queue.push(message), uses.drop_first()),
            Use::Recv => if queue.len() == 0 {
                remaining(queue, uses.drop_first())
            } else {
                remaining(queue.drop_first(), uses.drop_first())
            },
        }
    }
}

/// A queue neither loses nor reorders: however sending and receiving
/// alternate, what was received, followed by what is still waiting, is what
/// the queue held followed by what was sent.
pub proof fn lemma_queue_is_first_in_first_out(queue: Seq<Message>, uses: Seq<Use>)
    ensures
        received(queue, uses) + remaining(queue, uses) == queue + sent(uses),
    decreases uses.len(),
{
    if uses.len() == 0 {
        assert(received(queue, uses) + remaining(queue, uses) =~= queue + sent(uses));
    } else {
        let rest = uses.drop_first();
        match uses[0] {
            Use::Send(message) => {
                lemma_queue_is_first_in_first_out(queue.push(message), rest);
                assert(queue.push(message) + sent(rest) =~= queue + (seq![message] + sent(rest)));
            },
            Use::Recv => {
                if queue.len() == 0 {
                    lemma_queue_is_first_in_first_out(queue, rest);
                } else {
                    lemma_queue_is_first_in_first_out(queue.drop_first(), rest);
                    assert((seq![queue[0]] + received(queue.drop_first(), rest)) + remaining(
                        queue.drop_first(),
                        rest,
                    ) =~= seq![queue[0]] + (queue.drop_first() + sent(rest)));
                    assert(seq![queue[0]] + (queue.drop_first() + sent(rest)) =~= queue + sent(
                        rest,
                    ));
                }
            },
        }
    }
}

/// The four duty loops of the bridge.
#[derive(Debug, Clone, Copy, PartialEq, Eq, Structural)]
pub enum Duty {
    /// Reads the broker and fills the queue towards the pub/sub service.
    BrokerConsume,
    /// Empties that queue into the pub/sub service.
    PubSubPublish,
    /// Long-polls the pub/sub service and fills the queue towards the broker.
    PubSubSubscribe,
    /// Empties that queue into the broker.
    BrokerProduce,
}

/// Where a duty loop stands.
#[derive(Debug, PartialEq, Eq)]
pub enum State {
    /// The client is being made.
    Constructing,
    /// The next message is awaited from the source.
    Obtaining,
    /// This message is on its way to the sink.
    Forwarding(Message),
    /// The loop has met a failure that it cannot outlast.
    Halted,
}

/// What came of the step that the caller performed.
#[derive(Debug, PartialEq, Eq)]
pub enum Event {
    Constructed,
    ConstructFailed,
    Obtained(Message),
    ObtainFailed,
    Forwarded,
    ForwardFailed,
}

/// What the caller does next.
#[derive(Debug, PartialEq, Eq)]
pub enum Action {
    /// Make the client.
    Construct,
    /// Obtain one message from the source.
    Obtain,
    /// Forward this message to the sink.
    Forward(Message),
    /// End the loop.
    Halt,
}

/// One step of a duty loop: sleep for so many seconds, then act.
#[derive(Debug, PartialEq, Eq)]
pub struct Step {
    pub wait_secs: u64,
    pub action: Action,
}

/// What a loop does when its source fails to yield a message.
#[derive(Debug, Clone, Copy, PartialEq, Eq, Structural)]
pub enum SourcePolicy {
    /// Ask again at once: the source has done its own backing off.
    AskAgain,
    /// Give up: the source fails only where nothing can be done.
    GiveUp,
}

/// What a loop does with a message that its sink did not take.
#[derive(Debug, Clone, Copy, PartialEq, Eq, Structural)]
pub enum SinkPolicy {
    /// Back off, then offer the same message again, for as long as it takes.
    Retry,
    /// Back off, then go on with the next message; this one is lost.
    Drop,
    /// Give up: the sink is a queue, which takes everything while it exists.
    GiveUp,
}

/// How each loop treats a failing source. Only the long-poll of the pub/sub
/// service may fail and be asked again; the broker's stream and the queues
/// fail for good.
pub open spec fn source_policy(duty: Duty) -> SourcePolicy {
    match duty {
        Duty::PubSubSubscribe => SourcePolicy::AskAgain,
        _ => SourcePolicy::GiveUp,
    }
}

/// How each loop treats a failing sink. Towards the pub/sub service a message
/// is offered until it is taken; towards the broker it is offered once.
pub open spec fn sink_policy(duty: Duty) -> SinkPolicy {
    match duty {
        Duty::PubSubPublish => SinkPolicy::Retry,
        Duty::BrokerProduce => SinkPolicy::Drop,
        _ => SinkPolicy::GiveUp,
    }
}

/// The step that a state calls for when nothing new has happened.
pub open spec fn pending(state: State) -> Step {
    match state {
        State::Constructing => Step { wait_secs: 0, action: Action::Construct },
        State::Obtaining => Step { wait_secs: 0, action: Action::Obtain },
        State::Forwarding(message) => Step { wait_secs: 0, action: Action::Forward(message) },
        State::Halted => Step { wait_secs: 0, action: Action::Halt },
    }
}

/// The state that follows `state` on `event`, and the step to perform then.
/// An event that the state does not wait for changes nothing.
pub open spec fn transition(duty: Duty, state: State, event: Event) -> (State, Step) {
    match (state, event) {
        (State::Constructing, Event::Constructed) => (State::Obtaining, pending(State::Obtaining)),
        (State::Constructing, Event::ConstructFailed) => (
            State::Constructing,
            Step { wait_secs: BACKOFF_SECS, action: Action::Construct },
        ),
        (State::Obtaining, Event::Obtained(message)) => (
            State::Forwarding(message),
            pending(State::Forwarding(message)),
        ),
        (State::Obtaining, Event::ObtainFailed) => match source_policy(duty) {
            SourcePolicy::AskAgain => (State::Obtaining, pending(State::Obtaining)),
            SourcePolicy::GiveUp => (State::Halted, pending(State::Halted)),
        },
        (State::Forwarding(_), Event::Forwarded) => (State::Obtaining, pending(State::Obtaining)),
        (State::Forwarding(message), Event::ForwardFailed) => match sink_policy(duty) {
            SinkPolicy::Retry => (
                State::Forwarding(message),
                Step { wait_secs: BACKOFF_SECS, action: Action::Forward(message) },
            ),
            SinkPolicy::Drop => (
                State::Obtaining,
                Step { wait_secs: BACKOFF_SECS, action: Action::Obtain },
            ),
            SinkPolicy::GiveUp => (State::Halted, pending(State::Halted)),
        },
        _ => (state, pending(state)),
    }
}

/// The state of a loop after the events of `events`, one after the other.
pub open spec fn run(duty: Duty, state: State, events: Seq<Event>) -> State
    decreases events.len(),
{
    if events.len() == 0 {
        state
    } else {
        run(duty, transition(duty, state, events[0]).0, events.drop_first())
    }
}

/// Whether `event` is a failure that a loop of this duty cannot outlast: its
/// queue is gone, or the broker's stream has failed.
pub open spec fn is_fatal(duty: Duty, state: State, event: Event) -> bool {
    ||| state is Halted
    ||| state is Obtaining && event is ObtainFailed && source_policy(duty) is GiveUp
    ||| state is Forwarding && event is ForwardFailed && sink_policy(duty) is GiveUp
}

/// A loop halts on a fatal failure and on nothing else: no failure to make a
/// client, no failure of the pub/sub service and no failure to produce to the
/// broker ends it.
pub proof fn lemma_halts_only_on_fatal_failure(duty: Duty, state: State, event: Event)
    ensures
        transition(duty, state, event).0 is Halted <==> is_fatal(duty, state, event),
        transition(duty, state, event).1.action is Halt <==> is_fatal(duty, state, event),
{
}

/// A client that cannot be made is made again after the backoff, whichever
/// loop it is for.
pub proof fn lemma_construction_is_retried(duty: Duty)
    ensures
        transition(duty, State::Constructing, Event::ConstructFailed) == (
            State::Constructing,
            Step { wait_secs: BACKOFF_SECS, action: Action::Construct },
        ),
{
}

/// Towards the pub/sub service a message stays in flight until it is taken:
/// however often the publish fails, the same message is offered again after
/// the backoff.
pub proof fn lemma_failed_publish_is_retried(message: Message, failures: nat)
    ensures
        run(
            Duty::PubSubPublish,
            State::Forwarding(message),
            Seq::new(failures, |i: int| Event::ForwardFailed),
        ) == State::Forwarding(message),
        transition(Duty::PubSubPublish, State::Forwarding(message), Event::ForwardFailed).1
            == (Step { wait_secs: BACKOFF_SECS, action: Action::Forward(message) }),
    decreases failures,
{
    if failures > 0 {
        let events = Seq::new(failures, |i: int| Event::ForwardFailed);
        let fewer = Seq::new((failures - 1) as nat, |i: int| Event::ForwardFailed);
        assert(events.drop_first() =~= fewer);
        lemma_failed_publish_is_retried(message, (failures - 1) as nat);
    }
}

/// Towards the broker a message is offered once: when the produce fails, the
/// message is gone, and the next thing forwarded is the next message obtained.
pub proof fn lemma_failed_produce_is_dropped(message: Message, next: Message)
    ensures
        transition(Duty::BrokerProduce, State::Forwarding(message), Event::ForwardFailed) == (
            State::Obtaining,
            Step { wait_secs: BACKOFF_SECS, action: Action::Obtain },
        ),
        transition(Duty::BrokerProduce, State::Obtaining, Event::Obtained(next)) == (
            State::Forwarding(next),
            Step { wait_secs: 0, action: Action::Forward(next) },
        ),
{
}

/// A long-poll that fails is asked again at once, and the loop goes on to
/// forward whatever comes next.
pub proof fn lemma_failed_poll_is_asked_again(next: Message)
    ensures
        transition(Duty::PubSubSubscribe, State::Obtaining, Event::ObtainFailed) == (
            State::Obtaining,
            Step { wait_secs: 0, action: Action::Obtain },
        ),
        run(
            Duty::PubSubSubscribe,
            State::Obtaining,
            seq![Event::ObtainFailed, Event::Obtained(next)],
        ) == State::Forwarding(next),
{
    let events = seq![Event::ObtainFailed, Event::Obtained(next)];
    assert(events.drop_first() =~= seq![Event::Obtained(next)]);
    assert(events.drop_first().drop_first() =~= Seq::<Event>::empty());
    reveal_with_fuel(run, 3);
}

/// The message that a state holds on its way to the sink, if any.
pub open spec fn in_flight(state: State) -> Seq<Message> {
    match state {
        State::Forwarding(message) => seq![message],
        _ => Seq::empty(),
    }
}

/// A message that a loop is done with, and whether the sink took it.
pub struct Settled {
    pub message: Message,
    pub delivered: bool,
}

/// The message that `event` brings into the loop, if any.
pub open spec fn taken_on(state: State, event: Event) -> Seq<Message> {
    match (state, event) {
        (State::Obtaining, Event::Obtained(message)) => seq![message],
        _ => Seq::empty(),
    }
}

/// The message that the loop is done with on `event`, if any: the sink took
/// it, or it was dropped.
pub open spec fn settled_on(duty: Duty, state: State, event: Event) -> Seq<Settled> {
    match (state, event) {
        (State::Forwarding(message), Event::Forwarded) => seq![
            Settled { message, delivered: true },
        ],
        (State::Forwarding(message), Event::ForwardFailed) => if sink_policy(duty) is Drop {
            seq![Settled { message, delivered: false }]
        } else {
            Seq::empty()
        },
        _ => Seq::empty(),
    }
}

/// The messages that a loop takes from its source over `events`, in order.
pub open spec fn taken(duty: Duty, state: State, events: Seq<Event>) -> Seq<Message>
    decreases events.len(),
{
    if events.len() == 0 {
        Seq::empty()
    } else {
        taken_on(state, events[0]) + taken(
            duty,
            transition(duty, state, events[0]).0,
            events.drop_first(),
        )
    }
}

/// The messages that a loop is done with over `events`, in order.
pub open spec fn settled(duty: Duty, state: State, events: Seq<Event>) -> Seq<Settled>
    decreases events.len(),
{
    if events.len() == 0 {
        Seq::empty()
    } else {
        settled_on(duty, state, events[0]) + settled(
            duty,
            transition(duty, state, events[0]).0,
            events.drop_first(),
        )
    }
}

/// The messages of `settled`, in order.
pub open spec fn messages(settled: Seq<Settled>) -> Seq<Message> {
    Seq::new(settled.len(), |i: int| settled[i].message)
}

/// A loop that has halted stays halted.
pub proof fn lemma_halted_stays_halted(duty: Duty, events: Seq<Event>)
    ensures
        run(duty, State::Halted, events) is Halted,
    decreases events.len(),
{
    if events.len() > 0 {
        lemma_halted_stays_halted(duty, events.drop_first());
    }
}

/// A loop is done with its messages in the order in which it took them, one
/// at a time: as long as it has not halted, the messages it took are the
/// messages it is done with, followed by the one in flight.
pub proof fn lemma_messages_settle_in_order(duty: Duty, state: State, events: Seq<Event>)
    requires
        !(run(duty, state, events) is Halted),
    ensures
        in_flight(state) + taken(duty, state, events) == messages(settled(duty, state, events))
            + in_flight(run(duty, state, events)),
    decreases events.len(),
{
    if events.len() == 0 {
        assert(in_flight(state) + taken(duty, state, events) =~= messages(
            settled(duty, state, events),
        ) + in_flight(state));
    } else {
        let next = transition(duty, state, events[0]).0;
        let rest = events.drop_first();
        if next is Halted {
            lemma_halted_stays_halted(duty, rest);
        }
        lemma_messages_settle_in_order(duty, next, rest);
        let now = settled_on(duty, state, events[0]);
        let then = settled(duty, next, rest);
        assert(messages(now + then) =~= messages(now) + messages(then));
        assert(in_flight(state) + taken_on(state, events[0]) =~= messages(now) + in_flight(next));
        assert(in_flight(state) + (taken_on(state, events[0]) + taken(duty, next, rest)) =~= (
        in_flight(state) + taken_on(state, events[0])) + taken(duty, next, rest));
        assert((messages(now) + in_flight(next)) + taken(duty, next, rest) =~= messages(now) + (
        in_flight(next) + taken(duty, next, rest)));
        assert(messages(now) + (messages(then) + in_flight(run(duty, next, rest))) =~= (messages(
            now,
        ) + messages(then)) + in_flight(run(duty, next, rest)));
    }
}

/// Towards the pub/sub service nothing is dropped: every message that the
/// publishing loop is done with was taken by the sink.
pub proof fn lemma_publish_drops_nothing(state: State, events: Seq<Event>)
    ensures
        forall|i: int|
            0 <= i < settled(Duty::PubSubPublish, state, events).len() ==> (#[trigger] settled(
                Duty::PubSubPublish,
                state,
                events,
            )[i]).delivered,
    decreases events.len(),
{
    if events.len() > 0 {
        let next = transition(Duty::PubSubPublish, state, events[0]).0;
        lemma_publish_drops_nothing(next, events.drop_first());
    }
}

/// The two directions of the bridge. Each is a pipeline of two duty loops
/// with a queue between them.
#[derive(Debug, Clone, Copy, PartialEq, Eq, Structural)]
pub enum Way {
    BrokerToPubSub,
    PubSubToBroker,
}

/// The loop that fills the queue of a direction.
pub open spec fn intake_duty(way: Way) -> Duty {
    match way {
        Way::BrokerToPubSub => Duty::BrokerConsume,
        Way::PubSubToBroker => Duty::PubSubSubscribe,
    }
}

/// The loop that empties the queue of a direction.
pub open spec fn delivery_duty(way: Way) -> Duty {
    match way {
        Way::BrokerToPubSub => Duty::PubSubPublish,
        Way::PubSubToBroker => Duty::BrokerProduce,
    }
}

/// One direction of the bridge at one moment, with its books: every message
/// taken from the source so far, and every message that the sink side is done
/// with.
pub struct Direction {
    pub intake: State,
    pub queue: Seq<Message>,
    pub delivery: State,
    pub taken: Seq<Message>,
    pub settled: Seq<Settled>,
}

/// One thing that happens in a direction: an event for one of its two loops.
pub enum Move {
    Intake(Event),
    Delivery(Event),
}

/// Whether `step` can happen in `direction`. The two loops are joined by the
/// queue and by nothing else: what the first loop forwards is sent to the
/// queue, which takes everything, and what the second loop obtains is what
/// the queue hands out, which it does for as long as the bridge runs.
pub open spec fn wired(direction: Direction, step: Move) -> bool {
    match step {
        Move::Intake(Event::ForwardFailed) => false,
        Move::Delivery(Event::ObtainFailed) => false,
        Move::Delivery(Event::Obtained(message)) => direction.delivery is Obtaining ==> {
            &&& direction.queue.len() > 0
            &&& direction.queue[0] == message
        },
        _ => true,
    }
}

/// The direction after `step`.
pub open spec fn moved(way: Way, direction: Direction, step: Move) -> Direction {
    match step {
        Move::Intake(event) => Direction {
            intake: transition(intake_duty(way), direction.intake, event).0,
            queue: if event is Forwarded {
                direction.queue + in_flight(direction.intake)
            } else {
                direction.queue
            },
            taken: direction.taken + taken_on(direction.intake, event),
            ..direction
        },
        Move::Delivery(event) => Direction {
            delivery: transition(delivery_duty(way), direction.delivery, event).0,
            queue: if direction.delivery is Obtaining && event is Obtained {
                direction.queue.drop_first()
            } else {
                direction.queue
            },
            settled: direction.settled + settled_on(
                delivery_duty(way),
                direction.delivery,
                event,
            ),
            ..direction
        },
    }
}

/// Whether every step of `steps` can happen, one after the other.
pub open spec fn all_wired(way: Way, direction: Direction, steps: Seq<Move>) -> bool
    decreases steps.len(),
{
    steps.len() > 0 ==> wired(direction, steps[0]) && all_wired(
        way,
        moved(way, direction, steps[0]),
        steps.drop_first(),
    )
}

/// The direction after `steps`, one after the other.
pub open spec fn played(way: Way, direction: Direction, steps: Seq<Move>) -> Direction
    decreases steps.len(),
{
    if steps.len() == 0 {
        direction
    } else {
        played(way, moved(way, direction, steps[0]), steps.drop_first())
    }
}

/// A direction as it starts: both loops about to make their clients, and
/// nothing taken yet.
pub open spec fn fresh() -> Direction {
    Direction {
        intake: State::Constructing,
        queue: Seq::empty(),
        delivery: State::Constructing,
        taken: Seq::empty(),
        settled: Seq::empty(),
    }
}

/// Whether the books of a direction balance: the messages taken from the
/// source are, in this order, the ones that the sink side is done with, the one
/// on its way to the sink, the ones waiting in the queue, and the one on its
/// way to the queue.
pub open spec fn balanced(direction: Direction) -> bool {
    direction.taken == messages(direction.settled) + in_flight(direction.delivery)
        + direction.queue + in_flight(direction.intake)
}

/// No step unbalances the books.
pub proof fn lemma_step_keeps_balance(way: Way, direction: Direction, step: Move)
    requires
        balanced(direction),
        wired(direction, step),
    ensures
        balanced(moved(way, direction, step)),
{
    let after = moved(way, direction, step);
    let done = messages(direction.settled);
    match step {
        Move::Intake(event) => {
            assert(in_flight(direction.intake) + taken_on(direction.intake, event) =~= (
            after.queue + in_flight(after.intake)).skip(direction.queue.len() as int));
            assert(after.taken =~= done + in_flight(after.delivery) + after.queue + in_flight(
                after.intake,
            ));
        },
        Move::Delivery(event) => {
            let now = settled_on(delivery_duty(way), direction.delivery, event);
            assert(messages(direction.settled + now) =~= done + messages(now));
            assert(in_flight(direction.delivery) + direction.queue =~= messages(now) + in_flight(
                after.delivery,
            ) + after.queue);
            assert(after.taken =~= (done + messages(now)) + in_flight(after.delivery) + after.queue
                + in_flight(after.intake)) by {
                assert(direction.taken =~= done + (in_flight(direction.delivery) + direction.queue)
                    + in_flight(direction.intake));
            }
        },
    }
}

/// Within one direction no message is lost and none overtakes another,
/// whatever fails and however the two loops take turns: the messages taken
/// from the source are, in this order, the ones that the sink side is done
/// with, the one on its way to the sink, the ones waiting in the queue, and the
/// one on its way to the queue.
pub proof fn lemma_direction_keeps_order(way: Way, steps: Seq<Move>)
    requires
        all_wired(way, fresh(), steps),
    ensures
        balanced(played(way, fresh(), steps)),
{
    assert(balanced(fresh())) by {
        assert(fresh().taken =~= messages(fresh().settled) + in_flight(fresh().delivery)
            + fresh().queue + in_flight(fresh().intake));
    }
    lemma_balance_lasts(way, fresh(), steps);
}

proof fn lemma_balance_lasts(way: Way, direction: Direction, steps: Seq<Move>)
    requires
        balanced(direction),
        all_wired(way, direction, steps),
    ensures
        balanced(played(way, direction, steps)),
    decreases steps.len(),
{
    if steps.len() > 0 {
        lemma_step_keeps_balance(way, direction, steps[0]);
        lemma_balance_lasts(way, moved(way, direction, steps[0]), steps.drop_first());
    }
}

/// What the sink side of the direction towards the pub/sub service is done
/// with, the pub/sub service has taken: nothing is dropped on that way.
pub proof fn lemma_nothing_is_dropped_towards_pubsub(direction: Direction, steps: Seq<Move>)
    requires
        forall|i: int| 0 <= i < direction.settled.len() ==> (#[trigger] direction.settled[i]).delivered,
    ensures
        forall|i: int|
            0 <= i < played(Way::BrokerToPubSub, direction, steps).settled.len() ==> (
            #[trigger] played(Way::BrokerToPubSub, direction, steps).settled[i]).delivered,
    decreases steps.len(),
{
    if steps.len() > 0 {
        let after = moved(Way::BrokerToPubSub, direction, steps[0]);
        assert forall|i: int| 0 <= i < after.settled.len() implies (#[trigger] after.settled[
            i
        ]).delivered by {
            if i < direction.settled.len() {
                assert(after.settled[i] == direction.settled[i]);
            }
        }
        lemma_nothing_is_dropped_towards_pubsub(after, steps.drop_first());
    }
}

/// One duty loop.
pub struct DutyLoop {
    pub duty: Duty,
    pub state: State,
}

impl DutyLoop {
    /// A loop that is about to make its client.
    pub fn new(duty: Duty) -> (duty_loop: Self)
        ensures
            duty_loop.duty == duty,
            duty_loop.state == State::Constructing,
    {
        DutyLoop { duty, state: State::Constructing }
    }

    /// The step that the loop waits for.
    pub fn pending(&self) -> (step: Step)
        ensures
            step == pending(self.state),
    {
        match &self.state {
            State::Constructing => Step { wait_secs: 0, action: Action::Construct },
            State::Obtaining => Step { wait_secs: 0, action: Action::Obtain },
            State::Forwarding(message) => Step {
                wait_secs: 0,
                action: Action::Forward(message.clone()),
            },
            State::Halted => Step { wait_secs: 0, action: Action::Halt },
        }
    }

    /// Takes in what came of the last step and says what to do next.
    pub fn step(&mut self, event: Event) -> (step: Step)
        ensures
            final(self).duty == old(self).duty,
            (final(self).state, step) == transition(old(self).duty, old(self).state, event),
    {
        match event {
            Event::Constructed => {
                if let State::Constructing = &self.state {
                    self.state = State::Obtaining;
                }
                self.pending()
            },
            Event::ConstructFailed => {
                if let State::Constructing = &self.state {
                    Step { wait_secs: BACKOFF_SECS, action: Action::Construct }
                } else {
                    self.pending()
                }
            },
            Event::Obtained(message) => {
                if let State::Obtaining = &self.state {
                    self.state = State::Forwarding(message);
                }
                self.pending()
            },
            Event::ObtainFailed => {
                if let State::Obtaining = &self.state {
                    match self.duty {
                        Duty::PubSubSubscribe => {},
                        _ => {
                            self.state = State::Halted;
                        },
                    }
                }
                self.pending()
            },
            Event::Forwarded => {
                if let State::Forwarding(_) = &self.state {
                    self.state = State::Obtaining;
                }
                self.pending()
            },
            Event::ForwardFailed => {
                if let State::Forwarding(message) = &self.state {
                    match self.duty {
                        Duty::PubSubPublish => Step {
                            wait_secs: BACKOFF_SECS,
                            action: Action::Forward(message.clone()),
                        },
                        Duty::BrokerProduce => {
                            self.state = State::Obtaining;
                            Step { wait_secs: BACKOFF_SECS, action: Action::Obtain }
                        },
                        _ => {
                            self.state = State::Halted;
                            self.pending()
                        },
                    }
                } else {
                    self.pending()
                }
            },
        }
    }
}

} // verus!
