//! The transport's decisions.
//!
//! The connection itself belongs to the caller. This module says what the
//! caller does next while a connection is being made, and what each outcome of
//! a write or a read amounts to.

use vstd::prelude::*;
use vstd::slice::slice_subrange;
use vstd::string::*;
use vstd::utf8::{decode_utf8, valid_utf8};

verus! {

/// A failed exchange with the peer.
#[derive(Debug, Clone, Copy, PartialEq, Eq, Structural)]
pub enum Error {
    Write,
    Read,
}

/// The pause before a connection is tried again, in seconds. It never grows.
pub const BACKOFF_SECS: u64 = 1;

/// Where a transport stands.
#[derive(Debug, Clone, Copy, PartialEq, Eq, Structural)]
pub enum Link {
    /// A connection is to be tried now.
    Dialing,
    /// The backoff is to be slept out before the next try.
    Waiting,
    /// The connection stands.
    Connected,
    /// The connection was shut down in both directions.
    Closed,
}

/// What the caller does next.
#[derive(Debug, Clone, Copy, PartialEq, Eq, Structural)]
pub enum Step {
    /// Try to connect to the host, then report with [`Socket::dialed`].
    Dial,
    /// Sleep for so many seconds, then report with [`Socket::slept`].
    Sleep(u64),
    /// Nothing: the transport is not making a connection.
    Idle,
}

/// The step that a link calls for.
pub open spec fn step_of(link: Link) -> Step {
    match link {
        Link::Dialing => Step::Dial,
        Link::Waiting => Step::Sleep(BACKOFF_SECS),
        Link::Connected => Step::Idle,
        Link::Closed => Step::Idle,
    }
}

/// The link after a try: an accepted one connects, a refused one leads into
/// the backoff. There is no count of tries and no point at which they stop.
pub open spec fn after_dial(link: Link, accepted: bool) -> Link {
    match link {
        Link::Dialing => if accepted {
            Link::Connected
        } else {
            Link::Waiting
        },
        _ => link,
    }
}

/// The link after the backoff was slept out.
pub open spec fn after_sleep(link: Link) -> Link {
    match link {
        Link::Waiting => Link::Dialing,
        _ => link,
    }
}

/// The link after a disconnect.
pub open spec fn after_disconnect(link: Link) -> Link {
    match link {
        Link::Connected => Link::Closed,
        _ => link,
    }
}

/// What a write amounts to: the number of bytes where any were written, a
/// failure where none were or the write itself failed.
pub open spec fn write_outcome(written: Option<usize>) -> Result<usize, Error> {
    match written {
        Some(size) => if size > 0 {
            Ok(size)
        } else {
            Err(Error::Write)
        },
        None => Err(Error::Write),
    }
}

/// Whether a read of a line brought anything: a failed read and a read of
/// nothing both mean that the stream has ended.
pub open spec fn line_arrived(size: Option<usize>) -> bool {
    size matches Some(count) && count > 0
}

/// The link and the seconds slept once the caller has followed the steps
/// through `dials`, the outcomes of its successive tries.
pub open spec fn driven(link: Link, dials: Seq<bool>) -> (Link, nat)
    decreases dials.len(), (if link == Link::Waiting { 1nat } else { 0nat }),
{
    match link {
        Link::Waiting => {
            let (end, slept) = driven(Link::Dialing, dials);
            (end, slept + BACKOFF_SECS as nat)
        },
        Link::Dialing => if dials.len() == 0 {
            (link, 0)
        } else {
            driven(after_dial(link, dials[0]), dials.drop_first())
        },
        _ => (link, 0),
    }
}

/// So many refused tries, then an accepted one.
pub open spec fn refused_then_accepted(refusals: nat) -> Seq<bool>
    decreases refusals,
{
    if refusals == 0 {
        seq![true]
    } else {
        seq![false] + refused_then_accepted((refusals - 1) as nat)
    }
}

/// A transport that is refused `refusals` times and then accepted ends up
/// connected, having slept exactly one backoff for each refusal: within
/// `refusals + 1` backoffs. A reconnect sleeps one backoff more, the one it
/// starts with.
pub proof fn lemma_connect_sleeps_once_per_refusal(refusals: nat)
    ensures
        driven(Link::Dialing, refused_then_accepted(refusals)) == (
            Link::Connected,
            refusals * BACKOFF_SECS as nat,
        ),
        driven(Link::Waiting, refused_then_accepted(refusals)) == (
            Link::Connected,
            (refusals + 1) * BACKOFF_SECS as nat,
        ),
        refusals * BACKOFF_SECS as nat <= (refusals + 1) * BACKOFF_SECS as nat,
    decreases refusals,
{
    let dials = refused_then_accepted(refusals);
    if refusals == 0 {
        assert(dials.drop_first() =~= Seq::<bool>::empty());
        assert(driven(Link::Connected, dials.drop_first()) == (Link::Connected, 0nat));
    } else {
        let rest = refused_then_accepted((refusals - 1) as nat);
        lemma_connect_sleeps_once_per_refusal((refusals - 1) as nat);
        assert(dials.drop_first() =~= rest);
        assert(driven(Link::Dialing, dials) == driven(Link::Waiting, rest));
    }
}

/// Disconnecting twice is disconnecting once.
pub proof fn lemma_disconnect_is_idempotent(link: Link)
    ensures
        after_disconnect(after_disconnect(link)) == after_disconnect(link),
{
}

/// The bytes that a read brought: the first `count` bytes of the buffer it
/// read into. A read never brings more than the buffer holds.
pub open spec fn bytes_read(buffer: Seq<u8>, count: usize) -> Seq<u8> {
    if count <= buffer.len() {
        buffer.take(count as int)
    } else {
        buffer
    }
}

/// The text that `String::from_utf8_lossy` makes of `bytes`.
pub uninterp spec fn utf8_lossy(bytes: Seq<u8>) -> Seq<char>;

/// Calls `String::from_utf8_lossy` and takes the text out of what it returns.
///
/// Trusted: the text depends on the bytes alone, and bytes that are valid
/// UTF-8 decode to exactly the characters they encode. Anything else is
/// replaced as the standard library sees fit.
#[verifier::external_body]
fn lossy_text(bytes: &[u8]) -> (text: String)
    ensures
        text@ == utf8_lossy(bytes@),
        valid_utf8(bytes@) ==> text@ == decode_utf8(bytes@),
{
    String::from_utf8_lossy(bytes).into_owned()
}

/// What is reported of every try to connect: what happened, on whose behalf,
/// and with which host.
#[derive(Debug, PartialEq, Eq)]
pub struct Diagnostic {
    pub message: String,
    pub client: String,
    pub host: String,
}

/// What a try to connect is reported as: the refusal in the peer's or the
/// system's own words, or that the host is connected.
pub open spec fn dial_message(refusal: Option<String>) -> Seq<char> {
    match refusal {
        Some(reason) => reason@,
        None => "Connected to host"@,
    }
}

/// What a [`Socket`] holds.
pub struct SocketView {
    pub host: Seq<char>,
    pub link: Link,
}

/// The state of one transport: the host it talks to and where its connection
/// stands.
pub struct Socket {
    host: String,
    link: Link,
}

impl View for Socket {
    type V = SocketView;

    closed spec fn view(&self) -> SocketView {
        SocketView { host: self.host@, link: self.link }
    }
}

impl Socket {
    /// A transport for `host` that is about to make its first try.
    pub fn new(host: &str) -> (socket: Self)
        ensures
            socket@.host == host@,
            socket@.link == Link::Dialing,
    {
        Socket { host: String::from_str(host), link: Link::Dialing }
    }

    /// The host, as `address:port`.
    pub fn host(&self) -> (host: &String)
        ensures
            host@ == self@.host,
    {
        &self.host
    }

    /// Where the connection stands.
    pub fn link(&self) -> (link: Link)
        ensures
            link == self@.link,
    {
        self.link
    }

    /// What the caller does next.
    pub fn next(&self) -> (step: Step)
        ensures
            step == step_of(self@.link),
    {
        match self.link {
            Link::Dialing => Step::Dial,
            Link::Waiting => Step::Sleep(BACKOFF_SECS),
            Link::Connected => Step::Idle,
            Link::Closed => Step::Idle,
        }
    }

    /// The record that reports `message` for this transport.
    pub fn diagnostic(&self, message: String) -> (record: Diagnostic)
        ensures
            record.message == message,
            record.client@ == "MyClient"@,
            record.host@ == self@.host,
    {
        Diagnostic { message, client: String::from_str("MyClient"), host: self.host.clone() }
    }

    /// Takes in the outcome of a try: nothing where the host accepted, the
    /// reason where it did not. Every try has its record to emit.
    pub fn dialed(&mut self, refusal: Option<String>) -> (record: Diagnostic)
        ensures
            final(self)@.host == old(self)@.host,
            final(self)@.link == after_dial(old(self)@.link, refusal is None),
            record.message@ == dial_message(refusal),
            record.client@ == "MyClient"@,
            record.host@ == old(self)@.host,
    {
        let message = match refusal {
            Some(reason) => {
                match self.link {
                    Link::Dialing => {
                        self.link = Link::Waiting;
                    },
                    _ => {},
                }
                reason
            },
            None => {
                match self.link {
                    Link::Dialing => {
                        self.link = Link::Connected;
                    },
                    _ => {},
                }
                String::from_str("Connected to host")
            },
        };
        self.diagnostic(message)
    }

    /// Takes in that the backoff was slept out.
    pub fn slept(&mut self)
        ensures
            final(self)@.host == old(self)@.host,
            final(self)@.link == after_sleep(old(self)@.link),
    {
        match self.link {
            Link::Waiting => {
                self.link = Link::Dialing;
            },
            _ => {},
        }
    }

    /// Classifies a write: `written` is the number of bytes that went out, or
    /// nothing where the write failed. Nothing is tried again here.
    pub fn write(&self, written: Option<usize>) -> (outcome: Result<usize, Error>)
        ensures
            outcome == write_outcome(written),
    {
        match written {
            Some(size) => {
                if size > 0 {
                    Ok(size)
                } else {
                    Err(Error::Write)
                }
            },
            None => Err(Error::Write),
        }
    }

    /// Classifies the read of a line: `size` is the number of bytes that came
    /// in, or nothing where the read failed.
    pub fn readln(&self, line: String, size: Option<usize>) -> (outcome: Result<String, Error>)
        ensures
            line_arrived(size) ==> outcome === Ok(line),
            !line_arrived(size) ==> outcome === Err(Error::Read),
    {
        match size {
            Some(count) => {
                if count > 0 {
                    Ok(line)
                } else {
                    Err(Error::Read)
                }
            },
            None => Err(Error::Read),
        }
    }

    /// Classifies a read into `buffer`, which was allocated for the bytes
    /// asked for: `read` is the number of bytes that came in, or nothing where
    /// the read failed. The text is that of the bytes that came in and of no
    /// others; bytes that are no text are replaced, never refused.
    pub fn read(&self, buffer: &[u8], read: Option<usize>) -> (outcome: Result<String, Error>)
        ensures
            read is None ==> outcome === Err(Error::Read),
            read matches Some(count) ==> outcome is Ok && outcome->Ok_0@ == utf8_lossy(
                bytes_read(buffer@, count),
            ),
            read matches Some(count) ==> (valid_utf8(bytes_read(buffer@, count))
                ==> outcome->Ok_0@ == decode_utf8(bytes_read(buffer@, count))),
    {
        match read {
            Some(count) => {
                let end = if count <= buffer.len() {
                    count
                } else {
                    buffer.len()
                };
                let filled = slice_subrange(buffer, 0, end);
                assert(filled@ =~= bytes_read(buffer@, count));
                Ok(lossy_text(filled))
            },
            None => Err(Error::Read),
        }
    }

    /// Takes in that the connection was shut down in both directions.
    pub fn disconnect(&mut self)
        ensures
            final(self)@.host == old(self)@.host,
            final(self)@.link == after_disconnect(old(self)@.link),
    {
        match self.link {
            Link::Connected => {
                self.link = Link::Closed;
            },
            _ => {},
        }
    }

    /// Starts over: whatever the link was, the backoff is slept out and the
    /// host is tried again until it accepts.
    pub fn reconnect(&mut self)
        ensures
            final(self)@.host == old(self)@.host,
            final(self)@.link == Link::Waiting,
    {
        self.link = Link::Waiting;
    }
}

} // verus!
