//! The pub/sub side of the bridge: requests and response framing.

use vstd::prelude::*;
use vstd::string::*;
use vstd::utf8::encode_utf8;
pub use crate::kafka::{Error, Message};
use crate::payload::{json_parse_ok, json_parsed, normalized, try_normalize, within_parser_limits};
use crate::socket;
use crate::text::views;

verus! {

/// Whether `byte` stands for itself in a URL: an ASCII letter, a digit, or
/// one of `-`, `.`, `_` and `~`.
pub open spec fn is_unreserved(byte: u8) -> bool {
    ||| 0x41 <= byte <= 0x5A
    ||| 0x61 <= byte <= 0x7A
    ||| 0x30 <= byte <= 0x39
    ||| byte == 0x2D
    ||| byte == 0x2E
    ||| byte == 0x5F
    ||| byte == 0x7E
}

/// The upper-case hexadecimal digit for `nibble`.
pub open spec fn hex_digit(nibble: u8) -> char {
    if nibble < 10 {
        (0x30 + nibble) as u8 as char
    } else {
        (0x37 + nibble) as u8 as char
    }
}

/// What one byte becomes in a URL: itself where it is unreserved, `%` and its
/// two hexadecimal digits where it is not.
pub open spec fn encoded_byte(byte: u8) -> Seq<char> {
    if is_unreserved(byte) {
        seq![byte as char]
    } else {
        seq!['%', hex_digit(byte / 16), hex_digit(byte % 16)]
    }
}

/// The percent-encoding of `bytes`.
pub open spec fn percent_encoded(bytes: Seq<u8>) -> Seq<char>
    decreases bytes.len(),
{
    if bytes.len() == 0 {
        Seq::empty()
    } else {
        percent_encoded(bytes.drop_last()) + encoded_byte(bytes.last())
    }
}

fn hex(nibble: u8) -> (digit: char)
    requires
        nibble < 16,
    ensures
        digit == hex_digit(nibble),
{
    if nibble < 10 {
        (0x30 + nibble) as char
    } else {
        (0x37 + nibble) as char
    }
}

fn unreserved(byte: u8) -> (keep: bool)
    ensures
        keep == is_unreserved(byte),
{
    (0x41 <= byte && byte <= 0x5A) || (0x61 <= byte && byte <= 0x7A) || (0x30 <= byte && byte
        <= 0x39) || byte == 0x2D || byte == 0x2E || byte == 0x5F || byte == 0x7E
}

/// Percent-encodes the UTF-8 bytes of `text`.
pub fn urlencode(text: &str) -> (out: String)
    ensures
        out@ == percent_encoded(encode_utf8(text@)),
{
    let bytes = text.as_bytes();
    let mut out = String::new();
    let mut at: usize = 0;
    while at < bytes.len()
        invariant
            at <= bytes.len(),
            bytes@ == encode_utf8(text@),
            out@ == percent_encoded(bytes@.take(at as int)),
        decreases bytes.len() - at,
    {
        let byte: u8 = bytes[at];
        if unreserved(byte) {
            out.push(byte as char);
        } else {
            out.push('%');
            out.push(hex(byte / 16));
            out.push(hex(byte % 16));
        }
        proof {
            let upto = bytes@.take(at + 1);
            assert(upto.drop_last() == bytes@.take(at as int));
            assert(upto.last() == byte);
            assert(out@ == percent_encoded(upto.drop_last()) + encoded_byte(byte));
        }
        at = at + 1;
    }
    proof {
        assert(bytes@.take(bytes.len() as int) == bytes@);
    }
    out
}

/// The number of bytes that `text` takes on the wire.
pub open spec fn byte_len(text: Seq<char>) -> int {
    encode_utf8(text).len() as int
}

/// What the read of one line is, going by its size in bytes alone.
#[derive(Debug, Clone, Copy, PartialEq, Eq, Structural)]
pub enum Line {
    /// Nothing came: the stream has ended.
    Closed,
    /// Exactly two bytes came: the blank line at the end of a block.
    Blank,
    /// Anything else.
    Text,
}

/// The kind of a line of `size` bytes.
pub open spec fn line_kind(size: int) -> Line {
    if size == 0 {
        Line::Closed
    } else if size == 2 {
        Line::Blank
    } else {
        Line::Text
    }
}

/// The kind of what a read brought: a failed read counts as a stream that has
/// ended.
pub open spec fn read_kind(read: Result<String, socket::Error>) -> Line {
    match read {
        Ok(line) => line_kind(byte_len(line@)),
        Err(_) => Line::Closed,
    }
}

/// The sizes in bytes of the lines of a response, in the order they are read.
pub open spec fn line_sizes(lines: Seq<String>) -> Seq<int> {
    Seq::new(lines.len(), |i: int| byte_len(lines[i]@))
}

/// Whether the header block of a response ends with line `k`: that line is
/// blank, and every line before it is text.
pub open spec fn ends_headers_at(sizes: Seq<int>, k: int) -> bool {
    &&& 0 <= k < sizes.len()
    &&& line_kind(sizes[k]) == Line::Blank
    &&& forall|j: int| 0 <= j < k ==> line_kind(#[trigger] sizes[j]) == Line::Text
}

/// Classifies a line by the number of bytes that were read for it.
pub fn classify(size: usize) -> (kind: Line)
    ensures
        kind == line_kind(size as int),
{
    if size == 0 {
        Line::Closed
    } else if size == 2 {
        Line::Blank
    } else {
        Line::Text
    }
}

/// Reads the header block off the front of `lines`, the lines of a response
/// in the order they arrive, and tells how many lines that took: the headers
/// and the blank line after them, and not one line more. There is no header
/// block where the stream ends before a blank line.
pub fn read_headers(lines: &Vec<String>) -> (consumed: Option<usize>)
    ensures
        consumed matches Some(count) ==> 0 < count <= lines.len() && ends_headers_at(
            line_sizes(lines@),
            count - 1,
        ),
        consumed is None ==> forall|k: int| !ends_headers_at(line_sizes(lines@), k),
        forall|k: int| #[trigger]
            ends_headers_at(line_sizes(lines@), k) ==> consumed == Some((k + 1) as usize),
{
    let mut at: usize = 0;
    while at < lines.len()
        invariant
            at <= lines.len(),
            forall|j: int| 0 <= j < at ==> line_kind(#[trigger] line_sizes(lines@)[j]) == Line::Text,
        decreases lines.len() - at,
    {
        let kind = classify(lines[at].as_str().as_bytes().len());
        assert(kind == line_kind(line_sizes(lines@)[at as int]));
        match kind {
            Line::Blank => {
                assert(ends_headers_at(line_sizes(lines@), at as int));
                return Some(at + 1);
            },
            Line::Closed => {
                return None;
            },
            Line::Text => {},
        }
        at = at + 1;
    }
    None
}

/// What a [`PubNub`] holds.
pub struct PubNubView {
    pub host: Seq<char>,
    pub pubkey: Seq<char>,
    pub subkey: Seq<char>,
}

/// The publishing client: one request for each message.
pub struct PubNub {
    host: String,
    pubkey: String,
    subkey: String,
}

impl View for PubNub {
    type V = PubNubView;

    closed spec fn view(&self) -> PubNubView {
        PubNubView { host: self.host@, pubkey: self.pubkey@, subkey: self.subkey@ }
    }
}

/// The request that publishes `message` on `channel`: one request line with
/// both keys, the channel and the percent-encoded payload, then the host
/// header and the blank line.
pub open spec fn publish_request(client: PubNubView, channel: Seq<char>, message: Seq<char>) -> Seq<
    char,
> {
    "GET /publish/"@ + client.pubkey + "/"@ + client.subkey + "/0/"@ + channel + "/0/"@
        + percent_encoded(encode_utf8(message)) + " HTTP/1.1\r\nHost: "@ + client.host
        + "\r\n\r\n"@
}

impl PubNub {
    /// A client that publishes to `host` under the two keys, over a transport
    /// that stands at `link`. There is no client without a connection.
    pub fn new(host: String, pubkey: String, subkey: String, link: socket::Link) -> (outcome:
        Result<PubNub, Error>)
        ensures
            link == socket::Link::Connected ==> (outcome matches Ok(client) && client@ == (
            PubNubView { host: host@, pubkey: pubkey@, subkey: subkey@ })),
            link != socket::Link::Connected ==> outcome === Err(Error::Publish),
    {
        match link {
            socket::Link::Connected => Ok(PubNub { host, pubkey, subkey }),
            _ => Err(Error::Publish),
        }
    }

    /// Writes out the request that publishes `message` on `channel`.
    pub fn publish(&self, channel: String, message: String) -> (request: String)
        ensures
            request@ == publish_request(self@, channel@, message@),
    {
        let mut request = String::from_str("GET /publish/");
        request.append(self.pubkey.as_str());
        request.append("/");
        request.append(self.subkey.as_str());
        request.append("/0/");
        request.append(channel.as_str());
        request.append("/0/");
        request.append(urlencode(message.as_str()).as_str());
        request.append(" HTTP/1.1\r\nHost: ");
        request.append(self.host.as_str());
        request.append("\r\n\r\n");
        request
    }

    /// Takes in the outcome of writing the request. A failure is reported as
    /// it is; nothing is tried again here.
    pub fn sent(&self, written: Result<usize, socket::Error>) -> (outcome: Result<(), Error>)
        ensures
            written is Ok ==> outcome === Ok(()),
            written is Err ==> outcome === Err(Error::PublishWrite),
    {
        match written {
            Ok(_) => Ok(()),
            Err(_) => Err(Error::PublishWrite),
        }
    }

    /// Takes in one line of the response and tells whether the header block
    /// has ended with it, which is all that a publish waits for. A stream
    /// that ends first is a failure.
    pub fn header(&self, line: Result<String, socket::Error>) -> (outcome: Result<bool, Error>)
        ensures
            read_kind(line) == Line::Blank ==> outcome === Ok(true),
            read_kind(line) == Line::Text ==> outcome === Ok(false),
            read_kind(line) == Line::Closed ==> outcome === Err(
                Error::PublishResponse,
            ),
    {
        match line {
            Ok(text) => match classify(text.as_str().as_bytes().len()) {
                Line::Blank => Ok(true),
                Line::Text => Ok(false),
                Line::Closed => Err(Error::PublishResponse),
            },
            Err(_) => Err(Error::PublishResponse),
        }
    }

    /// Runs the publish against a response that is already at hand: `written`
    /// is the outcome of writing the request, and `lines` are the lines that
    /// the peer sends from then on. On success tells how many lines were read:
    /// the header block and nothing after it.
    pub fn confirm(&self, written: Result<usize, socket::Error>, lines: &Vec<String>) -> (outcome:
        Result<usize, Error>)
        ensures
            written is Err ==> outcome === Err(Error::PublishWrite),
            written is Ok ==> forall|k: int| #[trigger]
                ends_headers_at(line_sizes(lines@), k) ==> outcome === Ok(
                    (k + 1) as usize,
                ),
            written is Ok && (forall|k: int| !ends_headers_at(line_sizes(lines@), k)) ==> outcome
                === Err(Error::PublishResponse),
    {
        match self.sent(written) {
            Err(error) => Err(error),
            Ok(_) => match read_headers(lines) {
                Some(count) => Ok(count),
                None => Err(Error::PublishResponse),
            },
        }
    }
}

/// Whether `error` is a failed write or read of the subscribing client. Such
/// a failure leaves the long-poll's connection in doubt: the transport is to
/// be reconnected before the failure is passed on. A failed publish is passed
/// on as it is.
pub open spec fn is_io_failure(error: Error) -> bool {
    ||| error == Error::SubscribeWrite
    ||| error == Error::SubscribeRead
}

/// Tells whether the transport is to be reconnected after `error`.
pub fn calls_for_reconnect(error: Error) -> (reconnect: bool)
    ensures
        reconnect == is_io_failure(error),
{
    match error {
        Error::SubscribeWrite => true,
        Error::SubscribeRead => true,
        _ => false,
    }
}

/// A line without its line end: without the line feed that closes it, and
/// without the carriage return before that.
pub open spec fn without_eol(line: Seq<char>) -> Seq<char> {
    if line.len() > 0 && line.last() == '\n' {
        let cut = line.drop_last();
        if cut.len() > 0 && cut.last() == '\r' {
            cut.drop_last()
        } else {
            cut
        }
    } else {
        line
    }
}

/// Takes the line end off a line.
pub fn strip_eol<'a>(line: &'a str) -> (text: &'a str)
    ensures
        text@ == without_eol(line@),
{
    let len = line.unicode_len();
    if len > 0 && line.get_char(len - 1) == '\n' {
        if len > 1 && line.get_char(len - 2) == '\r' {
            let text = line.substring_char(0, len - 2);
            assert(text@ =~= line@.drop_last().drop_last());
            text
        } else {
            let text = line.substring_char(0, len - 1);
            assert(text@ =~= line@.drop_last());
            text
        }
    } else {
        let text = line.substring_char(0, len);
        assert(text@ =~= line@);
        text
    }
}

/// Whether the body that follows the header block ending with line `h` ends
/// with line `k`: that line is blank, and every line between the two is text.
pub open spec fn ends_body_at(sizes: Seq<int>, h: int, k: int) -> bool {
    &&& ends_headers_at(sizes, h)
    &&& h < k < sizes.len()
    &&& line_kind(sizes[k]) == Line::Blank
    &&& forall|j: int| h < j < k ==> line_kind(#[trigger] sizes[j]) == Line::Text
}

/// The lines from `from` up to `to`, each without its line end, written one
/// after the other.
pub open spec fn body_text(lines: Seq<Seq<char>>, from: int, to: int) -> Seq<char>
    decreases to - from,
{
    if from >= to {
        Seq::empty()
    } else {
        body_text(lines, from, to - 1) + without_eol(lines[to - 1])
    }
}

proof fn lemma_one_header_block(sizes: Seq<int>, h1: int, h2: int)
    requires
        ends_headers_at(sizes, h1),
        ends_headers_at(sizes, h2),
    ensures
        h1 == h2,
{
    if h1 < h2 {
        assert(line_kind(sizes[h1]) == Line::Text);
    } else if h2 < h1 {
        assert(line_kind(sizes[h2]) == Line::Text);
    }
}

proof fn lemma_one_body(sizes: Seq<int>, h1: int, k1: int, h2: int, k2: int)
    requires
        ends_body_at(sizes, h1, k1),
        ends_body_at(sizes, h2, k2),
    ensures
        h1 == h2,
        k1 == k2,
{
    lemma_one_header_block(sizes, h1, h2);
    if k1 < k2 {
        assert(line_kind(sizes[k1]) == Line::Text);
    } else if k2 < k1 {
        assert(line_kind(sizes[k2]) == Line::Text);
    }
}

/// What a [`SubscribeClient`] holds.
pub struct SubscribeClientView {
    pub host: Seq<char>,
    pub channel: Seq<char>,
    pub subkey: Seq<char>,
    /// Whether the header block of the response being read has ended.
    pub in_body: bool,
    /// The body as far as it was read.
    pub body: Seq<char>,
}

/// The subscribing client: one long-poll and one message for each call.
pub struct SubscribeClient {
    host: String,
    channel: String,
    subkey: String,
    in_body: bool,
    body: String,
}

impl View for SubscribeClient {
    type V = SubscribeClientView;

    closed spec fn view(&self) -> SubscribeClientView {
        SubscribeClientView {
            host: self.host@,
            channel: self.channel@,
            subkey: self.subkey@,
            in_body: self.in_body,
            body: self.body@,
        }
    }
}

/// The long-poll request for the client's channel.
pub open spec fn subscribe_request(client: SubscribeClientView) -> Seq<char> {
    "GET /subscribe/"@ + client.subkey + "/"@ + client.channel + "/0/0 HTTP/1.1\r\nHost: "@
        + client.host + "\r\n\r\n"@
}

/// The client with nothing read of a response.
pub open spec fn rewound(client: SubscribeClientView) -> SubscribeClientView {
    SubscribeClientView { in_body: false, body: Seq::empty(), ..client }
}

/// Whether `message` is what the client makes of a body: a message from the
/// client's channel, under no group, with the body normalised.
pub open spec fn carries(message: Message, client: SubscribeClientView, body: Seq<char>) -> bool {
    &&& message.topic@ == client.channel
    &&& message.group is None
    &&& message.data@ == normalized(body)
    &&& !json_parse_ok(body) ==> json_parsed(message.data@) == Some(Some(body))
    &&& message.wf()
}

impl SubscribeClient {
    /// A client that long-polls `host` for `channel`, over a transport that
    /// stands at `link`. There is no client without a connection.
    pub fn new(host: &str, channel: &str, subscribe_key: &str, link: socket::Link) -> (outcome:
        Result<Self, Error>)
        ensures
            link == socket::Link::Connected ==> (outcome matches Ok(client) && client@ == (
            SubscribeClientView {
                host: host@,
                channel: channel@,
                subkey: subscribe_key@,
                in_body: false,
                body: Seq::empty(),
            })),
            link != socket::Link::Connected ==> (outcome matches Err(error) && error
                == Error::Subscribe),
    {
        match link {
            socket::Link::Connected => Ok(
                SubscribeClient {
                    host: String::from_str(host),
                    channel: String::from_str(channel),
                    subkey: String::from_str(subscribe_key),
                    in_body: false,
                    body: String::new(),
                },
            ),
            _ => Err(Error::Subscribe),
        }
    }

    /// Writes out the long-poll request. It is the same for every call.
    pub fn request(&self) -> (request: String)
        ensures
            request@ == subscribe_request(self@),
    {
        let mut request = String::from_str("GET /subscribe/");
        request.append(self.subkey.as_str());
        request.append("/");
        request.append(self.channel.as_str());
        request.append("/0/0 HTTP/1.1\r\nHost: ");
        request.append(self.host.as_str());
        request.append("\r\n\r\n");
        request
    }

    /// Takes in the outcome of writing the request, and gets ready to read a
    /// response from its first line.
    pub fn sent(&mut self, written: Result<usize, socket::Error>) -> (outcome: Result<(), Error>)
        ensures
            final(self)@ == rewound(old(self)@),
            written is Ok ==> outcome === Ok(()),
            written is Err ==> outcome === Err(Error::SubscribeWrite),
    {
        self.in_body = false;
        self.body = String::new();
        match written {
            Ok(_) => Ok(()),
            Err(_) => Err(Error::SubscribeWrite),
        }
    }

    fn message(&self, body: String) -> (outcome: Result<Option<Message>, Error>)
        ensures
            within_parser_limits(encode_utf8(body@)) ==> (outcome matches Ok(Some(message))
                && carries(message, self@, body@)),
            !within_parser_limits(encode_utf8(body@)) ==> outcome === Err(
                Error::HTTPResponse,
            ),
    {
        match try_normalize(body) {
            Some(data) => Ok(Some(Message { topic: self.channel.clone(), group: None, data })),
            None => Err(Error::HTTPResponse),
        }
    }

    /// Takes in one line of the response.
    ///
    /// Header lines are passed over up to the blank line that ends them. The
    /// lines after that are the body, gathered without their line ends up to
    /// the next blank line, which completes the message. A stream that ends
    /// anywhere before that is a failed read. A body that the JSON parser
    /// cannot be asked about makes no message.
    pub fn line(&mut self, read: Result<String, socket::Error>) -> (outcome: Result<
        Option<Message>,
        Error,
    >)
        ensures
            read_kind(read) == Line::Closed ==> final(self)@ == rewound(old(self)@) && outcome
                === Err(Error::SubscribeRead),
            read_kind(read) == Line::Text && !old(self)@.in_body ==> final(self)@ == old(self)@
                && outcome === Ok(None),
            read_kind(read) == Line::Blank && !old(self)@.in_body ==> final(self)@ == (
            SubscribeClientView { in_body: true, body: Seq::empty(), ..old(self)@ }) && outcome
                === Ok(None),
            read_kind(read) == Line::Text && old(self)@.in_body ==> final(self)@ == (
            SubscribeClientView {
                body: old(self)@.body + without_eol(read->Ok_0@),
                ..old(self)@
            }) && outcome === Ok(None),
            read_kind(read) == Line::Blank && old(self)@.in_body ==> final(self)@ == rewound(
                old(self)@,
            ),
            read_kind(read) == Line::Blank && old(self)@.in_body && within_parser_limits(
                encode_utf8(old(self)@.body),
            ) ==> (outcome matches Ok(Some(message)) && carries(
                message,
                old(self)@,
                old(self)@.body,
            )),
            read_kind(read) == Line::Blank && old(self)@.in_body && !within_parser_limits(
                encode_utf8(old(self)@.body),
            ) ==> outcome === Err(Error::HTTPResponse),
    {
        let kind = match &read {
            Ok(text) => classify(text.as_str().as_bytes().len()),
            Err(_) => Line::Closed,
        };
        match kind {
            Line::Closed => {
                self.in_body = false;
                self.body = String::new();
                Err(Error::SubscribeRead)
            },
            Line::Text => {
                if self.in_body {
                    if let Ok(text) = &read {
                        self.body.append(strip_eol(text.as_str()));
                    }
                }
                Ok(None)
            },
            Line::Blank => {
                if self.in_body {
                    let body = self.body.clone();
                    self.in_body = false;
                    self.body = String::new();
                    self.message(body)
                } else {
                    self.in_body = true;
                    self.body = String::new();
                    Ok(None)
                }
            },
        }
    }
    /// Runs one call against a response that is already at hand: `written` is
    /// the outcome of writing the request, and `lines` are the lines that the
    /// peer sends from then on. On success gives the message and tells how
    /// many lines were read: the header block, the body, and the blank line
    /// that ends it.
    pub fn next_message(
        &mut self,
        written: Result<usize, socket::Error>,
        lines: &Vec<String>,
    ) -> (outcome: Result<(Message, usize), Error>)
        ensures
            final(self)@ == rewound(old(self)@),
            written is Err ==> outcome === Err(Error::SubscribeWrite),
            written is Ok ==> forall|h: int, k: int| #[trigger]
                ends_body_at(line_sizes(lines@), h, k) ==> {
                    let body = body_text(views(lines@), h + 1, k);
                    if within_parser_limits(encode_utf8(body)) {
                        outcome matches Ok((message, count)) && count == k + 1 && carries(
                            message,
                            old(self)@,
                            body,
                        )
                    } else {
                        outcome === Err(Error::HTTPResponse)
                    }
                },
            written is Ok && (forall|h: int, k: int| !ends_body_at(line_sizes(lines@), h, k))
                ==> outcome === Err(Error::SubscribeRead),
    {
        match self.sent(written) {
            Err(error) => {
                return Err(error);
            },
            Ok(_) => {},
        }
        let ghost start = self@;
        let ghost sizes = line_sizes(lines@);
        let ghost mut header_end: int = 0;
        let mut at: usize = 0;
        while at < lines.len()
            invariant
                at <= lines.len(),
                written is Ok,
                sizes == line_sizes(lines@),
                start == rewound(old(self)@),
                rewound(self@) == start,
                !self@.in_body ==> self@.body == Seq::<char>::empty() && forall|j: int|
                    0 <= j < at ==> line_kind(#[trigger] sizes[j]) == Line::Text,
                self@.in_body ==> 0 <= header_end < at && ends_headers_at(sizes, header_end)
                    && self@.body == body_text(views(lines@), header_end + 1, at as int)
                    && forall|j: int|
                    header_end < j < at ==> line_kind(#[trigger] sizes[j]) == Line::Text,
            decreases lines.len() - at,
        {
            let ghost before = self@;
            let read: Result<String, socket::Error> = Ok(lines[at].clone());
            assert(read_kind(read) == line_kind(sizes[at as int]));
            let outcome = self.line(read);
            match outcome {
                Ok(Some(message)) => {
                    proof {
                        assert(ends_body_at(sizes, header_end, at as int));
                        assert forall|h: int, k: int| ends_body_at(sizes, h, k) implies h
                            == header_end && k == at by {
                            lemma_one_body(sizes, h, k, header_end, at as int);
                        }
                    }
                    return Ok((message, at + 1));
                },
                Ok(None) => {
                    proof {
                        if !before.in_body && self@.in_body {
                            header_end = at as int;
                        }
                        if before.in_body {
                            assert(views(lines@)[at as int] == lines@[at as int]@);
                        }
                    }
                },
                Err(error) => {
                    proof {
                        if before.in_body && line_kind(sizes[at as int]) == Line::Blank {
                            assert(ends_body_at(sizes, header_end, at as int));
                        }
                        assert forall|h: int, k: int| ends_body_at(sizes, h, k) implies
                            line_kind(sizes[at as int]) == Line::Blank && before.in_body && h
                            == header_end && k == at by {
                            if before.in_body {
                                if line_kind(sizes[at as int]) == Line::Blank {
                                    lemma_one_body(sizes, h, k, header_end, at as int);
                                } else {
                                    lemma_one_header_block(sizes, h, header_end);
                                    if k > at {
                                        assert(line_kind(sizes[at as int]) == Line::Text);
                                    } else if k < at {
                                        assert(line_kind(sizes[k]) == Line::Text);
                                    }
                                }
                            } else {
                                if h > at {
                                    assert(line_kind(sizes[at as int]) == Line::Text);
                                } else if h < at {
                                    assert(line_kind(sizes[h]) == Line::Text);
                                }
                            }
                        }
                    }
                    return Err(error);
                },
            }
            at = at + 1;
        }
        let ghost before = self@;
        let outcome = self.line(Err(socket::Error::Read));
        proof {
            assert forall|h: int, k: int| !ends_body_at(sizes, h, k) by {
                if ends_body_at(sizes, h, k) {
                    if before.in_body {
                        lemma_one_header_block(sizes, h, header_end);
                        assert(line_kind(sizes[k]) == Line::Text);
                    } else {
                        assert(line_kind(sizes[h]) == Line::Text);
                    }
                }
            }
        }
        Err(Error::SubscribeRead)
    }
}

} // verus!
