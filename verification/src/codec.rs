//! The NSQ frame codec: decoding the frames that nsqd sends and encoding the
//! requests that a client sends.
use vstd::prelude::*;
use vstd::string::StringExecFns;
use vstd::utf8::*;
use bytes::BytesMut;
use crate::buffer::{buffer_bytes, buffer_contents, buffer_extend, buffer_split_to};
use crate::config::opt_chars;
use crate::protocol::{strings_view, RequestMessage, RequestView};
use crate::response::{Message, MessageView};
use crate::wire::{
    be_u32, be_u32_bytes, be_u64, lemma_be_u32_roundtrip, read_u32_be, read_u64_be, str_bytes,
    u32_be_bytes, utf8_bytes, utf8_string,
};

verus! {

/// Header: size (4 bytes) and frame type (4 bytes).
pub const HEADER_LENGTH: usize = 8;

/// Frame types.
pub const FRAME_TYPE_RESPONSE: u32 = 0;
pub const FRAME_TYPE_ERROR: u32 = 1;
pub const FRAME_TYPE_MESSAGE: u32 = 2;

/// Within a message frame: where the 16-byte message id starts, after the
/// 8-byte timestamp and the 2-byte attempt count, and where the body starts.
pub const MESSAGE_ID_START: usize = 18;
pub const MESSAGE_BODY_START: usize = 34;

/// The text of nsqd's heartbeat.
pub const HEARTBEAT: &'static str = "_heartbeat_";

/// Holds the service that carries a connection's requests.
#[derive(Clone)]
pub struct ClientTypeMap<T> {
    pub inner: T,
}

/// NSQ codec. While `decoding_head` holds, the codec still waits for the
/// frame that opens the stream of messages.
pub struct NsqCodec {
    pub decoding_head: bool,
}

/// A frame decoded from what nsqd sent.
pub enum DecodedFrame {
    /// A plain response (`body` false), or the announcement that a stream of
    /// messages follows (`body` true, empty `message`).
    Message { message: String, body: bool },
    /// One chunk of the stream of messages.
    Body { chunk: Option<Message> },
}

/// The contents of a [`DecodedFrame`].
pub enum FrameView {
    Message { message: Seq<char>, body: bool },
    Body { chunk: Option<MessageView> },
}

impl View for DecodedFrame {
    type V = FrameView;

    open spec fn view(&self) -> FrameView {
        match self {
            DecodedFrame::Message { message, body } => FrameView::Message {
                message: message@,
                body: *body,
            },
            DecodedFrame::Body { chunk } => FrameView::Body {
                chunk: match chunk {
                    Some(m) => Some(m@),
                    None => None,
                },
            },
        }
    }
}

/// Why a frame could not be decoded.
#[derive(Clone, Copy, Debug, PartialEq, Eq, Structural)]
pub enum DecodeError {
    /// Text in the frame is not valid UTF-8.
    InvalidUtf8,
    /// nsqd sent an error frame.
    InvalidPacket,
    /// A message frame too short for its timestamp, attempt count and id.
    MalformedFrame,
}

/// What one call of [`NsqCodec::decode`] does: its result, how many bytes it
/// takes from the front of the buffer, and the codec's state afterwards.
pub struct DecodeStep {
    pub outcome: Result<Option<FrameView>, DecodeError>,
    pub consumed: int,
    pub decoding_head: bool,
}

pub open spec fn heartbeat_chars() -> Seq<char> {
    seq!['_', 'h', 'e', 'a', 'r', 't', 'b', 'e', 'a', 't', '_']
}

/// The chunk that stands for a heartbeat inside a stream of messages.
pub open spec fn heartbeat_view() -> FrameView {
    FrameView::Body {
        chunk: Some(MessageView {
            timestamp: 0,
            message_id: heartbeat_chars(),
            message_body: heartbeat_chars(),
        }),
    }
}

/// The frame that announces a stream of messages.
pub open spec fn stream_opening() -> FrameView {
    FrameView::Message { message: Seq::empty(), body: true }
}

/// The value of a frame's size field: the number of bytes after the field.
pub open spec fn frame_size(buf: Seq<u8>) -> int {
    be_u32(buf.subrange(0, 4))
}

/// The length of the frame at the front of the buffer, size field included.
/// A size field below 4 cannot cover the frame type; such a frame is taken
/// as its 8-byte header with no data.
pub open spec fn frame_end(buf: Seq<u8>) -> int {
    if frame_size(buf) < 4 {
        HEADER_LENGTH as int
    } else {
        4 + frame_size(buf)
    }
}

pub open spec fn frame_type(buf: Seq<u8>) -> int {
    be_u32(buf.subrange(4, 8))
}

/// The bytes of the frame after its header.
pub open spec fn frame_data(buf: Seq<u8>) -> Seq<u8> {
    buf.subrange(HEADER_LENGTH as int, frame_end(buf))
}

pub open spec fn step(
    outcome: Result<Option<FrameView>, DecodeError>,
    consumed: int,
    decoding_head: bool,
) -> DecodeStep {
    DecodeStep { outcome, consumed, decoding_head }
}

/// A response frame: its text, a heartbeat, or invalid text.
pub open spec fn decode_response(data: Seq<u8>, end: int, head: bool) -> DecodeStep {
    if !valid_utf8(data) {
        step(Err(DecodeError::InvalidUtf8), end, head)
    } else if decode_utf8(data) == heartbeat_chars() {
        if head {
            step(Ok(Some(stream_opening())), end, false)
        } else {
            step(Ok(Some(heartbeat_view())), end, false)
        }
    } else {
        step(Ok(Some(FrameView::Message { message: decode_utf8(data), body: false })), end, head)
    }
}

/// A message frame: while the head is awaited it opens the stream and stays
/// in the buffer, to be decoded again as the stream's first chunk.
pub open spec fn decode_message(data: Seq<u8>, end: int, head: bool) -> DecodeStep {
    let id = data.subrange(10, 26);
    let body = data.subrange(26, data.len() as int);
    if head {
        step(Ok(Some(stream_opening())), 0, false)
    } else if data.len() < 26 {
        step(Err(DecodeError::MalformedFrame), 0, head)
    } else if !valid_utf8(id) || !valid_utf8(body) {
        step(Err(DecodeError::InvalidUtf8), 0, head)
    } else {
        step(
            Ok(Some(FrameView::Body {
                chunk: Some(MessageView {
                    timestamp: be_u64(data.subrange(0, 8)) as i64,
                    message_id: decode_utf8(id),
                    message_body: decode_utf8(body),
                }),
            })),
            end,
            head,
        )
    }
}

/// What decoding the front of `buf` gives, with the codec in state `head`.
pub open spec fn decode_step(buf: Seq<u8>, head: bool) -> DecodeStep {
    if buf.len() < HEADER_LENGTH {
        step(Ok(None), 0, head)
    } else if buf.len() < frame_end(buf) {
        step(Ok(None), 0, head)
    } else if frame_type(buf) == FRAME_TYPE_RESPONSE {
        decode_response(frame_data(buf), frame_end(buf), head)
    } else if frame_type(buf) == FRAME_TYPE_ERROR {
        step(Err(DecodeError::InvalidPacket), 0, head)
    } else if frame_type(buf) == FRAME_TYPE_MESSAGE {
        decode_message(frame_data(buf), frame_end(buf), head)
    } else {
        step(Ok(None), 0, head)
    }
}

/// The contents of a decoding result.
pub open spec fn decoded_view(r: Result<Option<DecodedFrame>, DecodeError>) -> Result<
    Option<FrameView>,
    DecodeError,
> {
    match r {
        Ok(Some(f)) => Ok(Some(f@)),
        Ok(None) => Ok(None),
        Err(e) => Err(e),
    }
}

/// Why a request could not be encoded.
#[derive(Clone, Copy, Debug, PartialEq, Eq, Structural)]
pub enum EncodeError {
    /// The buffer with the encoded request would exceed `isize::MAX` bytes.
    TooLarge,
}

/// Bytes preceded by their length as a 4-byte big-endian integer (cut to 32 bits).
pub open spec fn sized(b: Seq<u8>) -> Seq<u8> {
    be_u32_bytes(b.len() as u32) + b
}

/// Each message preceded by its size, one after another.
pub open spec fn messages_bytes(msgs: Seq<Seq<char>>) -> Seq<u8>
    decreases msgs.len(),
{
    if msgs.len() == 0 {
        Seq::empty()
    } else {
        messages_bytes(msgs.drop_last()) + sized(utf8_bytes(msgs.last()))
    }
}

pub open spec fn text_part(o: Option<Seq<char>>) -> Seq<u8> {
    match o {
        Some(s) => utf8_bytes(s),
        None => Seq::empty(),
    }
}

pub open spec fn body_part(o: Option<Seq<char>>) -> Seq<u8> {
    match o {
        Some(s) => sized(utf8_bytes(s)),
        None => Seq::empty(),
    }
}

/// The size of a multi-publish body: the 4-byte message count and each
/// message with its size.
pub open spec fn messages_body_size(m: Seq<Seq<char>>) -> int {
    4 + messages_bytes(m).len() as int
}

/// The 4-byte body size, the 4-byte message count, then each message with
/// its size.
pub open spec fn messages_part(o: Option<Seq<Seq<char>>>) -> Seq<u8> {
    match o {
        Some(m) => be_u32_bytes(messages_body_size(m) as u32) + be_u32_bytes(m.len() as u32)
            + messages_bytes(m),
        None => Seq::empty(),
    }
}

/// The bytes that encode a request: version, command line, body and
/// messages, each where present.
pub open spec fn encode_request(r: RequestView) -> Seq<u8> {
    text_part(r.version) + text_part(r.header) + body_part(r.body) + messages_part(r.body_messages)
}

/// Encoding a list of messages piece by piece: the bytes of a concatenation
/// are the bytes of its parts, one after the other.
pub proof fn lemma_messages_bytes_concat(a: Seq<Seq<char>>, b: Seq<Seq<char>>)
    ensures
        messages_bytes(a + b) == messages_bytes(a) + messages_bytes(b),
    decreases b.len(),
{
    if b.len() == 0 {
        assert(a + b =~= a);
        assert(messages_bytes(a) + messages_bytes(b) =~= messages_bytes(a));
    } else {
        lemma_messages_bytes_concat(a, b.drop_last());
        assert((a + b).drop_last() =~= a + b.drop_last());
        assert((a + b).last() == b.last());
        assert(messages_bytes(a + b) =~= messages_bytes(a) + messages_bytes(b));
    }
}

/// Appends `x` as four big-endian bytes.
fn put_u32_be(buf: &mut BytesMut, x: u32)
    requires
        buffer_contents(*old(buf)).len() + 4 <= isize::MAX,
    ensures
        buffer_contents(*final(buf)) == buffer_contents(*old(buf)) + be_u32_bytes(x),
{
    let b = u32_be_bytes(x);
    buffer_extend(buf, b.as_slice());
}

/// Appends the bytes of an optional string.
fn put_text(buf: &mut BytesMut, o: &Option<String>)
    requires
        buffer_contents(*old(buf)).len() + text_part(opt_chars(*o)).len() <= isize::MAX,
    ensures
        buffer_contents(*final(buf)) == buffer_contents(*old(buf)) + text_part(opt_chars(*o)),
{
    match o {
        Some(s) => buffer_extend(buf, str_bytes(s.as_str())),
        None => {
            assert(buffer_contents(*buf) + text_part(opt_chars(*o)) =~= buffer_contents(*buf));
        },
    }
}

/// Appends an optional body with its size.
fn put_body(buf: &mut BytesMut, o: &Option<String>)
    requires
        buffer_contents(*old(buf)).len() + body_part(opt_chars(*o)).len() <= isize::MAX,
    ensures
        buffer_contents(*final(buf)) == buffer_contents(*old(buf)) + body_part(opt_chars(*o)),
{
    match o {
        Some(s) => {
            let b = str_bytes(s.as_str());
            put_u32_be(buf, b.len() as u32);
            buffer_extend(buf, b);
            assert(buffer_contents(*buf) =~= buffer_contents(*old(buf)) + body_part(
                opt_chars(*o),
            ));
        },
        None => {
            assert(buffer_contents(*buf) + body_part(opt_chars(*o)) =~= buffer_contents(*buf));
        },
    }
}

/// The messages part of a request, by the messages' view.
pub open spec fn messages_of(o: Option<Vec<String>>) -> Option<Seq<Seq<char>>> {
    match o {
        Some(v) => Some(strings_view(v)),
        None => None,
    }
}

/// Appends the optional messages of a multi-publish.
fn put_messages(buf: &mut BytesMut, o: &Option<Vec<String>>)
    requires
        buffer_contents(*old(buf)).len() + messages_part(messages_of(*o)).len() <= isize::MAX,
    ensures
        buffer_contents(*final(buf)) == buffer_contents(*old(buf)) + messages_part(
            messages_of(*o),
        ),
{
    let ghost start = buffer_contents(*buf);
    match o {
        Some(msgs) => {
            let ghost m = strings_view(*msgs);
            let len = match messages_lengths(msgs) {
                Some(l) => l,
                None => {
                    return;
                },
            };
            let body_size = 4 + len;
            put_u32_be(buf, body_size as u32);
            put_u32_be(buf, msgs.len() as u32);
            let ghost head = start + be_u32_bytes(body_size as u32) + be_u32_bytes(
                msgs.len() as u32,
            );
            assert(buffer_contents(*buf) =~= head + messages_bytes(m.take(0)));
            let n = msgs.len();
            for i in 0..n
                invariant
                    n == msgs@.len(),
                    m == strings_view(*msgs),
                    buffer_contents(*buf) == head + messages_bytes(m.take(i as int)),
                    head.len() + messages_bytes(m).len() <= isize::MAX,
            {
                let b = str_bytes(msgs[i].as_str());
                proof {
                    assert(m.take(i + 1).drop_last() =~= m.take(i as int));
                    assert(m.take(i + 1).last() == msgs@[i as int]@);
                    lemma_messages_bytes_concat(m.take(i + 1), m.skip(i + 1));
                    assert(m.take(i + 1) + m.skip(i + 1) =~= m);
                }
                put_u32_be(buf, b.len() as u32);
                buffer_extend(buf, b);
                assert(buffer_contents(*buf) =~= head + messages_bytes(m.take(i + 1)));
            }
            assert(m.take(n as int) =~= m);
            assert(buffer_contents(*buf) =~= start + messages_part(messages_of(*o)));
        },
        None => {
            assert(start + messages_part(messages_of(*o)) =~= start);
        },
    }
}

/// The byte length of an optional string.
fn text_len(o: &Option<String>) -> (n: usize)
    ensures
        n == text_part(opt_chars(*o)).len(),
{
    match o {
        Some(s) => str_bytes(s.as_str()).len(),
        None => 0,
    }
}

/// The length of the encoded messages; `None` when it exceeds `usize::MAX`.
fn messages_lengths(msgs: &Vec<String>) -> (r: Option<usize>)
    ensures
        ({
            let m = strings_view(*msgs);
            &&& r matches Some(len) ==> len == messages_bytes(m).len()
            &&& r is None ==> messages_bytes(m).len() > usize::MAX
        }),
{
    let ghost m = strings_view(*msgs);
    let mut len: usize = 0;
    let n = msgs.len();
    for i in 0..n
        invariant
            n == msgs@.len(),
            m == strings_view(*msgs),
            len == messages_bytes(m.take(i as int)).len(),
    {
        let b = str_bytes(msgs[i].as_str());
        proof {
            assert(m.take(i + 1).drop_last() =~= m.take(i as int));
            assert(m.take(i + 1).last() == msgs@[i as int]@);
            lemma_messages_bytes_concat(m.take(i + 1), m.skip(i + 1));
            assert(m.take(i + 1) + m.skip(i + 1) =~= m);
        }
        let piece = match b.len().checked_add(4) {
            Some(p) => p,
            None => return None,
        };
        len = match len.checked_add(piece) {
            Some(l) => l,
            None => return None,
        };
    }
    assert(m.take(n as int) =~= m);
    Some(len)
}

/// The length of a request's encoding; `None` when it exceeds `usize::MAX`.
fn encoded_len(message: &RequestMessage) -> (r: Option<usize>)
    ensures
        r matches Some(n) ==> n == encode_request(message@).len(),
        r is None ==> encode_request(message@).len() > usize::MAX,
{
    let ghost v = message@;
    let mut n = text_len(&message.version);
    n = match n.checked_add(text_len(&message.header)) {
        Some(k) => k,
        None => return None,
    };
    if let Some(body) = &message.body {
        let b = str_bytes(body.as_str()).len();
        n = match n.checked_add(b) {
            Some(k) => k,
            None => return None,
        };
        n = match n.checked_add(4) {
            Some(k) => k,
            None => return None,
        };
    }
    if let Some(msgs) = &message.body_messages {
        let len = match messages_lengths(msgs) {
            Some(l) => l,
            None => return None,
        };
        n = match n.checked_add(len) {
            Some(k) => k,
            None => return None,
        };
        n = match n.checked_add(8) {
            Some(k) => k,
            None => return None,
        };
    }
    Some(n)
}

fn heartbeat_string() -> (s: String)
    ensures
        s@ == heartbeat_chars(),
{
    proof {
        reveal_strlit("_heartbeat_");
    }
    let s = String::from_str(HEARTBEAT);
    assert(s@ =~= heartbeat_chars());
    s
}

impl NsqCodec {
    /// Decodes the frame at the front of `buf`, removing what it consumed.
    /// `Ok(None)` asks for more bytes.
    pub fn decode(&mut self, buf: &mut BytesMut) -> (r: Result<Option<DecodedFrame>, DecodeError>)
        ensures
            ({
                let st = decode_step(buffer_contents(*old(buf)), old(self).decoding_head);
                &&& decoded_view(r) == st.outcome
                &&& buffer_contents(*final(buf)) == buffer_contents(*old(buf)).skip(st.consumed)
                &&& final(self).decoding_head == st.decoding_head
            }),
    {
        let ghost contents = buffer_contents(*buf);
        let bytes = buffer_bytes(buf);
        let length = bytes.len();
        if length < HEADER_LENGTH {
            assert(contents.skip(0) =~= contents);
            return Ok(None);
        }
        let size = read_u32_be(bytes, 0);
        let end = if size < 4 {
            HEADER_LENGTH
        } else {
            if length - 4 < size as usize {
                assert(contents.skip(0) =~= contents);
                return Ok(None);
            }
            4 + size as usize
        };
        let frame_type = read_u32_be(bytes, 4);
        if frame_type == FRAME_TYPE_RESPONSE {
            let text = utf8_string(&bytes[HEADER_LENGTH..end]);
            // remove the frame from the buffer.
            buffer_split_to(buf, end);
            match text {
                Some(s) => {
                    let heartbeat = s == heartbeat_string();
                    if heartbeat && !self.decoding_head {
                        Ok(Some(self.heartbeat_message()))
                    } else if heartbeat {
                        // toggle streaming
                        Ok(Some(self.streaming_flag()))
                    } else {
                        Ok(Some(DecodedFrame::Message { message: s, body: false }))
                    }
                },
                None => Err(DecodeError::InvalidUtf8),
            }
        } else if frame_type == FRAME_TYPE_ERROR {
            assert(contents.skip(0) =~= contents);
            Err(DecodeError::InvalidPacket)
        } else if frame_type == FRAME_TYPE_MESSAGE {
            assert(contents.skip(0) =~= contents);
            if self.decoding_head {
                // toggle streaming; the frame stays to be decoded as the first chunk
                Ok(Some(self.streaming_flag()))
            } else if end < MESSAGE_BODY_START {
                Err(DecodeError::MalformedFrame)
            } else {
                let ghost data = contents.subrange(HEADER_LENGTH as int, end as int);
                let timestamp = read_u64_be(bytes, HEADER_LENGTH) as i64;
                let id = utf8_string(&bytes[MESSAGE_ID_START..MESSAGE_BODY_START]);
                let body = utf8_string(&bytes[MESSAGE_BODY_START..end]);
                assert(contents.subrange(HEADER_LENGTH as int, HEADER_LENGTH + 8) =~= data.subrange(0, 8));
                assert(contents.subrange(MESSAGE_ID_START as int, MESSAGE_BODY_START as int) =~= data.subrange(10, 26));
                assert(contents.subrange(MESSAGE_BODY_START as int, end as int) =~= data.subrange(26, data.len() as int));
                match (id, body) {
                    (Some(message_id), Some(message_body)) => {
                        // remove the frame from the buffer.
                        buffer_split_to(buf, end);
                        let message = Message { timestamp, message_id, message_body };
                        Ok(Some(DecodedFrame::Body { chunk: Some(message) }))
                    },
                    _ => Err(DecodeError::InvalidUtf8),
                }
            }
        } else {
            assert(contents.skip(0) =~= contents);
            Ok(None)
        }
    }

    /// Appends the encoding of `message` to `buf`. When the buffer would grow
    /// beyond `isize::MAX` bytes, nothing is written and `TooLarge` comes back.
    pub fn encode(&mut self, message: RequestMessage, buf: &mut BytesMut) -> (r: Result<
        (),
        EncodeError,
    >)
        ensures
            r is Ok <==> buffer_contents(*old(buf)).len() + encode_request(message@).len()
                <= isize::MAX,
            r is Ok ==> buffer_contents(*final(buf)) == buffer_contents(*old(buf))
                + encode_request(message@),
            r is Err ==> buffer_contents(*final(buf)) == buffer_contents(*old(buf)),
            encode_request(message@).len() == 0 ==> r is Ok,
            final(self).decoding_head == old(self).decoding_head,
    {
        let ghost start = buffer_contents(*buf);
        let ghost v = message@;
        let limit = isize::MAX as usize;
        let current = buffer_bytes(buf).len();
        let needed = match encoded_len(&message) {
            Some(n) => n,
            None => return Err(EncodeError::TooLarge),
        };
        if current > limit || needed > limit - current {
            return Err(EncodeError::TooLarge);
        }
        put_text(buf, &message.version);
        put_text(buf, &message.header);
        put_body(buf, &message.body);
        put_messages(buf, &message.body_messages);
        assert(buffer_contents(*buf) =~= start + encode_request(v));
        Ok(())
    }

    fn heartbeat_message(&mut self) -> (f: DecodedFrame)
        ensures
            f@ == heartbeat_view(),
            final(self).decoding_head == old(self).decoding_head,
    {
        let message = Message {
            timestamp: 0,
            message_id: heartbeat_string(),
            message_body: heartbeat_string(),
        };
        DecodedFrame::Body { chunk: Some(message) }
    }

    fn streaming_flag(&mut self) -> (f: DecodedFrame)
        ensures
            f@ == stream_opening(),
            !final(self).decoding_head,
    {
        self.decoding_head = false;
        let message = String::new();
        assert(message@ =~= Seq::<char>::empty());
        DecodedFrame::Message { message, body: true }
    }
}

} // verus!

verus! {

/// Bytes that arrive after a complete frame change neither how that frame
/// is decoded nor what is left behind it.
pub proof fn lemma_decode_ignores_trailing_bytes(buf: Seq<u8>, extra: Seq<u8>, head: bool)
    requires
        HEADER_LENGTH <= buf.len(),
        frame_end(buf) <= buf.len(),
    ensures
        decode_step(buf + extra, head) == decode_step(buf, head),
        (buf + extra).skip(decode_step(buf, head).consumed) == buf.skip(
            decode_step(buf, head).consumed,
        ) + extra,
{
    let all = buf + extra;
    assert(all.subrange(0, 4) =~= buf.subrange(0, 4));
    assert(all.subrange(4, 8) =~= buf.subrange(4, 8));
    assert(frame_data(all) =~= frame_data(buf));
    lemma_decode_consumes_at_most_one_frame(buf, head);
    let c = decode_step(buf, head).consumed;
    assert(all.skip(c) =~= buf.skip(c) + extra);
}

/// Decoding takes nothing or exactly the frame at the front of the buffer.
pub proof fn lemma_decode_consumes_at_most_one_frame(buf: Seq<u8>, head: bool)
    ensures
        0 <= decode_step(buf, head).consumed <= buf.len(),
        decode_step(buf, head).consumed != 0 ==> decode_step(buf, head).consumed == frame_end(buf)
            && HEADER_LENGTH <= frame_end(buf),
{
}

/// A frame that has not fully arrived is left where it is, and more bytes are
/// asked for.
pub proof fn lemma_partial_frame_waits(buf: Seq<u8>, head: bool)
    requires
        buf.len() < HEADER_LENGTH || buf.len() < frame_end(buf),
    ensures
        decode_step(buf, head) == step(Ok(None), 0, head),
{
}

/// Once the stream of messages is open, the codec never waits for its head
/// again; and nothing but an opened stream ends the wait.
pub proof fn lemma_stream_stays_open(buf: Seq<u8>, head: bool)
    ensures
        !head ==> !decode_step(buf, head).decoding_head,
        head && !decode_step(buf, head).decoding_head ==> decode_step(buf, head).outcome == Ok::<
            Option<FrameView>,
            DecodeError,
        >(Some(stream_opening())),
{
}

/// The first message frame is decoded twice: first it opens the stream and
/// stays in the buffer, then it is delivered as the stream's first chunk and
/// removed.
pub proof fn lemma_first_message_opens_stream(buf: Seq<u8>)
    requires
        HEADER_LENGTH <= buf.len(),
        frame_end(buf) <= buf.len(),
        frame_type(buf) == FRAME_TYPE_MESSAGE,
        MESSAGE_BODY_START <= frame_end(buf),
        valid_utf8(buf.subrange(MESSAGE_ID_START as int, MESSAGE_BODY_START as int)),
        valid_utf8(buf.subrange(MESSAGE_BODY_START as int, frame_end(buf))),
    ensures
        ({
            let first = decode_step(buf, true);
            let second = decode_step(buf.skip(first.consumed), first.decoding_head);
            &&& first.outcome == Ok::<Option<FrameView>, DecodeError>(Some(stream_opening()))
            &&& first.consumed == 0
            &&& second.outcome == Ok::<Option<FrameView>, DecodeError>(
                Some(
                    FrameView::Body {
                        chunk: Some(
                            MessageView {
                                timestamp: be_u64(buf.subrange(8, 16)) as i64,
                                message_id: decode_utf8(
                                    buf.subrange(MESSAGE_ID_START as int, MESSAGE_BODY_START as int),
                                ),
                                message_body: decode_utf8(
                                    buf.subrange(MESSAGE_BODY_START as int, frame_end(buf)),
                                ),
                            },
                        ),
                    },
                ),
            )
            &&& second.consumed == frame_end(buf)
            &&& !second.decoding_head
        }),
{
    let data = frame_data(buf);
    assert(buf.skip(0) =~= buf);
    assert(data.subrange(0, 8) =~= buf.subrange(8, 16));
    assert(data.subrange(10, 26) =~= buf.subrange(
        MESSAGE_ID_START as int,
        MESSAGE_BODY_START as int,
    ));
    assert(data.subrange(26, data.len() as int) =~= buf.subrange(
        MESSAGE_BODY_START as int,
        frame_end(buf),
    ));
}

/// The size written before a body reads back as the body's length, and the
/// body follows it unchanged.
pub proof fn lemma_body_reads_back(r: RequestView)
    requires
        r.body is Some,
        r.body_messages is None,
        utf8_bytes(r.body->0).len() <= u32::MAX,
    ensures
        ({
            let e = encode_request(r);
            let at = (text_part(r.version).len() + text_part(r.header).len()) as int;
            let body = utf8_bytes(r.body->0);
            &&& be_u32(e.subrange(at, at + 4)) == body.len()
            &&& e.subrange(at + 4, e.len() as int) == body
        }),
{
    let e = encode_request(r);
    let at = (text_part(r.version).len() + text_part(r.header).len()) as int;
    let body = utf8_bytes(r.body->0);
    lemma_be_u32_roundtrip(body.len() as u32);
    assert(messages_part(r.body_messages) =~= Seq::<u8>::empty());
    assert(e.subrange(at, at + 4) =~= be_u32_bytes(body.len() as u32));
    assert(e.subrange(at + 4, e.len() as int) =~= body);
}

/// The two counts written before the messages of a multi-publish read back
/// as the size of the rest of the body and the number of messages, and the
/// messages follow them.
pub proof fn lemma_messages_read_back(r: RequestView)
    requires
        r.body is None,
        r.body_messages is Some,
        messages_body_size(r.body_messages->0) <= u32::MAX,
        r.body_messages->0.len() <= u32::MAX,
    ensures
        ({
            let e = encode_request(r);
            let at = (text_part(r.version).len() + text_part(r.header).len()) as int;
            let m = r.body_messages->0;
            &&& be_u32(e.subrange(at, at + 4)) == e.len() - (at + 4)
            &&& be_u32(e.subrange(at, at + 4)) == messages_body_size(m)
            &&& be_u32(e.subrange(at + 4, at + 8)) == m.len()
            &&& e.subrange(at + 8, e.len() as int) == messages_bytes(m)
        }),
{
    let e = encode_request(r);
    let at = (text_part(r.version).len() + text_part(r.header).len()) as int;
    let m = r.body_messages->0;
    lemma_be_u32_roundtrip(messages_body_size(m) as u32);
    lemma_be_u32_roundtrip(m.len() as u32);
    assert(body_part(r.body) =~= Seq::<u8>::empty());
    assert(e.subrange(at, at + 4) =~= be_u32_bytes(messages_body_size(m) as u32));
    assert(e.subrange(at + 4, at + 8) =~= be_u32_bytes(m.len() as u32));
    assert(e.subrange(at + 8, e.len() as int) =~= messages_bytes(m));
}

/// A request with nothing in it encodes to no bytes, so encoding it leaves
/// the buffer as it was.
pub proof fn lemma_empty_request_encodes_nothing(r: RequestView)
    requires
        r.version is None,
        r.header is None,
        r.body is None,
        r.body_messages is None,
    ensures
        encode_request(r) == Seq::<u8>::empty(),
{
    assert(encode_request(r) =~= Seq::<u8>::empty());
}

} // verus!
