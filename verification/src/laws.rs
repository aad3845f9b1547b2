//! Laws of the codec stated over the wire format itself: how frames built
//! from their fields decode, and which bytes requests encode to.
use vstd::prelude::*;
use vstd::utf8::*;
use crate::codec::{
    body_part, decode_step, encode_request, frame_data, frame_end, frame_size, frame_type,
    lemma_messages_bytes_concat, messages_bytes, messages_part, text_part, DecodeError,
    DecodeStep, FrameView, HEADER_LENGTH,
};
use crate::protocol::{
    dpub_line, fin_line, identify_line, mpub_line, nop_line, pub_line, rdy_line, sub_line,
    RequestView,
};
use crate::response::MessageView;
use crate::wire::{be_u32, be_u32_bytes, be_u64, decimal_chars, lemma_be_u32_roundtrip, utf8_bytes};

verus! {

/// A frame as nsqd sends it: the 4-byte big-endian size (frame type and data),
/// the 4-byte big-endian frame type, then the data.
pub open spec fn frame_bytes(kind: u32, data: Seq<u8>) -> Seq<u8> {
    be_u32_bytes((4 + data.len()) as u32) + be_u32_bytes(kind) + data
}

/// The data of a message frame: 8-byte timestamp, 2-byte attempt count,
/// 16-byte id, body.
pub open spec fn message_data(timestamp: Seq<u8>, attempts: Seq<u8>, id: Seq<u8>, body: Seq<u8>) -> Seq<u8> {
    timestamp + attempts + id + body
}

proof fn lemma_frame_fields(kind: u32, data: Seq<u8>, rest: Seq<u8>)
    requires
        data.len() + 4 <= u32::MAX,
    ensures
        ({
            let buf = frame_bytes(kind, data) + rest;
            &&& buf.len() == 8 + data.len() + rest.len()
            &&& HEADER_LENGTH <= buf.len()
            &&& frame_size(buf) == 4 + data.len()
            &&& frame_end(buf) == 8 + data.len()
            &&& frame_type(buf) == kind
            &&& frame_data(buf) == data
            &&& buf.skip((8 + data.len()) as int) == rest
        }),
{
    let buf = frame_bytes(kind, data) + rest;
    lemma_be_u32_roundtrip((4 + data.len()) as u32);
    lemma_be_u32_roundtrip(kind);
    assert(buf.subrange(0, 4) =~= be_u32_bytes((4 + data.len()) as u32));
    assert(buf.subrange(4, 8) =~= be_u32_bytes(kind));
    assert(frame_data(buf) =~= data);
    assert(buf.skip((8 + data.len()) as int) =~= rest);
}

/// A response frame whose text is not the heartbeat gives that text, whatever
/// state the codec is in and whatever follows the frame; the frame is
/// removed whole and the state is kept.
pub proof fn lemma_response_frame_gives_its_text(data: Seq<u8>, rest: Seq<u8>, head: bool)
    requires
        data.len() + 4 <= u32::MAX,
        valid_utf8(data),
        decode_utf8(data) != seq!['_', 'h', 'e', 'a', 'r', 't', 'b', 'e', 'a', 't', '_'],
    ensures
        decode_step(frame_bytes(0, data) + rest, head) == (DecodeStep {
            outcome: Ok(Some(FrameView::Message { message: decode_utf8(data), body: false })),
            consumed: (8 + data.len()) as int,
            decoding_head: head,
        }),
{
    lemma_frame_fields(0, data, rest);
}

/// The heartbeat: before the stream it opens the stream; inside the stream it
/// is a chunk holding `_heartbeat_` as id and body, with timestamp 0. Either
/// way the frame is removed and the stream is open afterwards.
pub proof fn lemma_heartbeat_frame(rest: Seq<u8>, head: bool)
    ensures
        ({
            let text = seq!['_', 'h', 'e', 'a', 'r', 't', 'b', 'e', 'a', 't', '_'];
            let st = decode_step(frame_bytes(0, utf8_bytes(text)) + rest, head);
            &&& st.consumed == 8 + utf8_bytes(text).len()
            &&& !st.decoding_head
            &&& head ==> st.outcome == Ok::<Option<FrameView>, DecodeError>(
                Some(FrameView::Message { message: Seq::empty(), body: true }),
            )
            &&& !head ==> st.outcome == Ok::<Option<FrameView>, DecodeError>(
                Some(
                    FrameView::Body {
                        chunk: Some(
                            MessageView { timestamp: 0, message_id: text, message_body: text },
                        ),
                    },
                ),
            )
        }),
{
    let text = seq!['_', 'h', 'e', 'a', 'r', 't', 'b', 'e', 'a', 't', '_'];
    encode_utf8_valid_utf8(text);
    encode_utf8_decode_utf8(text);
    lemma_utf8_len_bound(text);
    lemma_frame_fields(0, utf8_bytes(text), rest);
}

/// Each character takes at most four bytes in UTF-8.
proof fn lemma_utf8_len_bound(s: Seq<char>)
    ensures
        utf8_bytes(s).len() <= 4 * s.len(),
    decreases s.len(),
{
    if s.len() > 0 {
        assert(encode_utf8(s) =~= encode_scalar(s[0] as u32) + encode_utf8(s.drop_first())) by {
            reveal_with_fuel(encode_utf8, 2);
        }
        lemma_utf8_len_bound(s.drop_first());
    }
}

/// An error frame is refused and left in the buffer.
pub proof fn lemma_error_frame_refused(data: Seq<u8>, rest: Seq<u8>, head: bool)
    requires
        data.len() + 4 <= u32::MAX,
    ensures
        decode_step(frame_bytes(1, data) + rest, head) == (DecodeStep {
            outcome: Err(DecodeError::InvalidPacket),
            consumed: 0,
            decoding_head: head,
        }),
{
    lemma_frame_fields(1, data, rest);
}

/// A message frame inside the stream gives its message: the timestamp read
/// big-endian as a signed integer, the id and the body as text; the frame is
/// removed whole. Before the stream, the same frame opens the stream and
/// stays in the buffer.
pub proof fn lemma_message_frame_gives_message(
    timestamp: Seq<u8>,
    attempts: Seq<u8>,
    id: Seq<u8>,
    body: Seq<u8>,
    rest: Seq<u8>,
)
    requires
        timestamp.len() == 8,
        attempts.len() == 2,
        id.len() == 16,
        body.len() + 30 <= u32::MAX,
        valid_utf8(id),
        valid_utf8(body),
    ensures
        ({
            let data = message_data(timestamp, attempts, id, body);
            let buf = frame_bytes(2, data) + rest;
            &&& decode_step(buf, false) == (DecodeStep {
                outcome: Ok(Some(FrameView::Body {
                    chunk: Some(MessageView {
                        timestamp: be_u64(timestamp) as i64,
                        message_id: decode_utf8(id),
                        message_body: decode_utf8(body),
                    }),
                })),
                consumed: (8 + data.len()) as int,
                decoding_head: false,
            })
            &&& decode_step(buf, true) == (DecodeStep {
                outcome: Ok(Some(FrameView::Message { message: Seq::empty(), body: true })),
                consumed: 0,
                decoding_head: false,
            })
        }),
{
    let data = message_data(timestamp, attempts, id, body);
    lemma_frame_fields(2, data, rest);
    assert(data.subrange(0, 8) =~= timestamp);
    assert(data.subrange(10, 26) =~= id);
    assert(data.subrange(26, data.len() as int) =~= body);
}

/// The size of a frame is the big-endian value of its first four bytes: a
/// frame of size `x` is waited for until `4 + x` bytes are there, and then
/// exactly `4 + x` bytes are taken when any are.
pub proof fn lemma_frame_size_is_big_endian(x: u32, buf: Seq<u8>, head: bool)
    requires
        4 <= x,
        HEADER_LENGTH <= buf.len(),
        buf.subrange(0, 4) == be_u32_bytes(x),
    ensures
        buf.len() < 4 + x ==> decode_step(buf, head) == (DecodeStep {
            outcome: Ok(None),
            consumed: 0,
            decoding_head: head,
        }),
        buf.len() >= 4 + x ==> decode_step(buf, head).consumed == 0 || decode_step(
            buf,
            head,
        ).consumed == 4 + x,
{
    lemma_be_u32_roundtrip(x);
}

/// The encoding of a list of messages: nothing for no messages, and one more
/// message appends its UTF-8 byte length as a 4-byte big-endian size followed
/// by its UTF-8 bytes.
pub proof fn lemma_messages_layout(a: Seq<Seq<char>>, s: Seq<char>)
    ensures
        messages_bytes(Seq::empty()) == Seq::<u8>::empty(),
        messages_bytes(a.push(s)) == messages_bytes(a) + be_u32_bytes(utf8_bytes(s).len() as u32)
            + utf8_bytes(s),
{
    assert(a.push(s).drop_last() =~= a);
    assert(messages_bytes(a.push(s)) =~= messages_bytes(a) + be_u32_bytes(
        utf8_bytes(s).len() as u32,
    ) + utf8_bytes(s));
}

/// A multi-publish: its command line, the size of the rest of the body (the
/// count and every sized message), the message count, then the messages.
pub proof fn lemma_mpub_encoding(header: Seq<char>, m: Seq<Seq<char>>)
    ensures
        encode_request(RequestView {
            version: None,
            header: Some(header),
            body: None,
            body_messages: Some(m),
        }) == utf8_bytes(header) + be_u32_bytes((4 + messages_bytes(m).len()) as u32)
            + be_u32_bytes(m.len() as u32) + messages_bytes(m),
{
    let r = RequestView { version: None, header: Some(header), body: None, body_messages: Some(m) };
    assert(text_part(r.version) =~= Seq::<u8>::empty());
    assert(body_part(r.body) =~= Seq::<u8>::empty());
    assert(encode_request(r) =~= utf8_bytes(header) + be_u32_bytes(
        (4 + messages_bytes(m).len()) as u32,
    ) + be_u32_bytes(m.len() as u32) + messages_bytes(m));
}

/// A multi-publish of one message `s` of `n` UTF-8 bytes: body size
/// `8 + n`, count 1, size `n`, then the bytes of `s`.
pub proof fn lemma_mpub_single_message(header: Seq<char>, s: Seq<char>)
    ensures
        encode_request(RequestView {
            version: None,
            header: Some(header),
            body: None,
            body_messages: Some(seq![s]),
        }) == utf8_bytes(header) + be_u32_bytes((8 + utf8_bytes(s).len()) as u32)
            + be_u32_bytes(1) + be_u32_bytes(utf8_bytes(s).len() as u32) + utf8_bytes(s),
{
    lemma_mpub_encoding(header, seq![s]);
    lemma_messages_layout(Seq::empty(), s);
    assert(Seq::<Seq<char>>::empty().push(s) =~= seq![s]);
    assert(messages_bytes(seq![s]) =~= be_u32_bytes(utf8_bytes(s).len() as u32) + utf8_bytes(s));
    assert(encode_request(RequestView {
        version: None,
        header: Some(header),
        body: None,
        body_messages: Some(seq![s]),
    }) =~= utf8_bytes(header) + be_u32_bytes((8 + utf8_bytes(s).len()) as u32) + be_u32_bytes(1)
        + be_u32_bytes(utf8_bytes(s).len() as u32) + utf8_bytes(s));
}

/// A request with a body: its command line, the body's UTF-8 byte length as
/// a 4-byte big-endian size, then the body's bytes.
pub proof fn lemma_body_encoding(header: Seq<char>, body: Seq<char>)
    ensures
        encode_request(RequestView {
            version: None,
            header: Some(header),
            body: Some(body),
            body_messages: None,
        }) == utf8_bytes(header) + be_u32_bytes(utf8_bytes(body).len() as u32) + utf8_bytes(body),
{
    let r = RequestView { version: None, header: Some(header), body: Some(body), body_messages: None };
    assert(text_part(r.version) =~= Seq::<u8>::empty());
    assert(messages_part(r.body_messages) =~= Seq::<u8>::empty());
    assert(encode_request(r) =~= utf8_bytes(header) + be_u32_bytes(utf8_bytes(body).len() as u32)
        + utf8_bytes(body));
}

/// The command lines, character by character.
pub proof fn lemma_command_lines(topic: Seq<char>, channel: Seq<char>, id: Seq<char>, defer: i64)
    ensures
        identify_line() == seq!['I', 'D', 'E', 'N', 'T', 'I', 'F', 'Y', '\n'],
        pub_line(topic) == seq!['P', 'U', 'B', ' '] + topic + seq!['\n'],
        mpub_line(topic) == seq!['M', 'P', 'U', 'B', ' '] + topic + seq!['\n'],
        dpub_line(topic, defer) == seq!['D', 'P', 'U', 'B', ' '] + topic + seq![' '] + decimal_chars(
            defer as int,
        ) + seq!['\n'],
        sub_line(topic, channel) == seq!['S', 'U', 'B', ' '] + topic + seq![' '] + channel + seq![
            '\n',
        ],
        rdy_line() == seq!['R', 'D', 'Y', ' ', '1', '\n'],
        fin_line(id) == seq!['F', 'I', 'N', ' '] + id + seq!['\n'],
        nop_line() == seq!['N', 'O', 'P', '\n'],
{
    assert(identify_line() =~= seq!['I', 'D', 'E', 'N', 'T', 'I', 'F', 'Y', '\n']);
    assert(pub_line(topic) =~= seq!['P', 'U', 'B', ' '] + topic + seq!['\n']);
    assert(mpub_line(topic) =~= seq!['M', 'P', 'U', 'B', ' '] + topic + seq!['\n']);
    assert(dpub_line(topic, defer) =~= seq!['D', 'P', 'U', 'B', ' '] + topic + seq![' ']
        + decimal_chars(defer as int) + seq!['\n']);
    assert(sub_line(topic, channel) =~= seq!['S', 'U', 'B', ' '] + topic + seq![' '] + channel
        + seq!['\n']);
    assert(rdy_line() =~= seq!['R', 'D', 'Y', ' ', '1', '\n']);
    assert(fin_line(id) =~= seq!['F', 'I', 'N', ' '] + id + seq!['\n']);
    assert(nop_line() =~= seq!['N', 'O', 'P', '\n']);
}

} // verus!
