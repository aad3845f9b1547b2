//! The decisions of a subscribing client: which requests it sends and what
//! it makes of nsqd's answers. The connection itself is driven elsewhere.
use vstd::prelude::*;
use crate::protocol::{rdy_line, sub_line, RequestMessage, RequestView};

verus! {

/// What nsqd answered to a request: a bare response, or a response that
/// opens a stream of messages.
pub enum ServerReply {
    WithoutBody(String),
    WithBody(String),
}

/// How far a subscription has come.
#[derive(Clone, Copy, Debug, PartialEq, Eq, Structural)]
pub enum SubscribeState {
    /// SUB was sent; its answer is awaited.
    AwaitingSubReply,
    /// RDY was sent; its answer decides the outcome.
    AwaitingRdyReply,
    /// The outcome is known.
    Finished,
}

/// What the connection should do next.
pub enum SubscribeAction {
    /// Send this request and hand back nsqd's answer.
    Send(RequestMessage),
    /// Deliver the stream of messages that nsqd opened.
    OpenStream,
    /// nsqd answered without a stream, with this text; subscribing this way
    /// is not supported.
    Unsupported(String),
    /// Nothing: the subscription is already settled.
    Ignore,
}

/// A subscription to a channel of a topic.
pub struct Subscription {
    pub state: SubscribeState,
}

/// The request that holds only a command line.
pub open spec fn command_view(line: Seq<char>) -> RequestView {
    RequestView { version: None, header: Some(line), body: None, body_messages: None }
}

/// The state that follows `state` on an answer (with or without a stream).
pub open spec fn next_state(state: SubscribeState) -> SubscribeState {
    match state {
        SubscribeState::AwaitingSubReply => SubscribeState::AwaitingRdyReply,
        _ => SubscribeState::Finished,
    }
}

/// What a subscription in `state` does on `reply`.
pub open spec fn reply_action(state: SubscribeState, reply: ServerReply, a: SubscribeAction) -> bool {
    match state {
        SubscribeState::AwaitingSubReply => a matches SubscribeAction::Send(r) && r@ == command_view(
            rdy_line(),
        ),
        SubscribeState::AwaitingRdyReply => match reply {
            ServerReply::WithBody(_) => a is OpenStream,
            ServerReply::WithoutBody(text) => a matches SubscribeAction::Unsupported(t) && t@
                == text@,
        },
        SubscribeState::Finished => a is Ignore,
    }
}

impl Subscription {
    /// Starts subscribing: the SUB request comes back, to be sent first.
    pub fn begin(topic: String, channel: String) -> (r: (Subscription, RequestMessage))
        ensures
            r.0.state == SubscribeState::AwaitingSubReply,
            r.1@ == command_view(sub_line(topic@, channel@)),
    {
        let mut request = RequestMessage::new();
        request.create_sub_command(topic, channel);
        (Subscription { state: SubscribeState::AwaitingSubReply }, request)
    }

    /// Takes nsqd's answer to the last request sent: the answer to SUB is
    /// followed by `RDY 1`; the answer to RDY either opens the stream or is
    /// not supported.
    pub fn on_reply(&mut self, reply: ServerReply) -> (a: SubscribeAction)
        ensures
            final(self).state == next_state(old(self).state),
            reply_action(old(self).state, reply, a),
    {
        match self.state {
            SubscribeState::AwaitingSubReply => {
                let mut request = RequestMessage::new();
                request.create_rdy_command();
                self.state = SubscribeState::AwaitingRdyReply;
                SubscribeAction::Send(request)
            },
            SubscribeState::AwaitingRdyReply => {
                self.state = SubscribeState::Finished;
                match reply {
                    ServerReply::WithBody(_) => SubscribeAction::OpenStream,
                    ServerReply::WithoutBody(text) => SubscribeAction::Unsupported(text),
                }
            },
            SubscribeState::Finished => SubscribeAction::Ignore,
        }
    }
}

/// A subscription sends `RDY 1` on the answer to SUB, is settled by the
/// answer to RDY, and ignores every answer after that.
pub proof fn lemma_subscription_settles(reply: ServerReply, a: SubscribeAction)
    ensures
        next_state(next_state(SubscribeState::AwaitingSubReply)) == SubscribeState::Finished,
        next_state(SubscribeState::Finished) == SubscribeState::Finished,
        reply_action(SubscribeState::AwaitingSubReply, reply, a) ==> (a matches SubscribeAction::Send(
            r,
        ) && r@ == command_view(rdy_line())),
        reply_action(SubscribeState::AwaitingRdyReply, reply, a) ==> (a is OpenStream
            || a is Unsupported),
        reply_action(SubscribeState::Finished, reply, a) ==> a is Ignore,
{
}

} // verus!
