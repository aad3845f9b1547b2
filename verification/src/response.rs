//! Messages that nsqd delivers to a subscribed client.
use vstd::prelude::*;

verus! {

/// One message of a subscription's stream.
pub struct Message {
    pub timestamp: i64,
    pub message_id: String,
    pub message_body: String,
}

/// The contents of a [`Message`].
pub struct MessageView {
    pub timestamp: i64,
    pub message_id: Seq<char>,
    pub message_body: Seq<char>,
}

impl View for Message {
    type V = MessageView;

    open spec fn view(&self) -> MessageView {
        MessageView {
            timestamp: self.timestamp,
            message_id: self.message_id@,
            message_body: self.message_body@,
        }
    }
}

} // verus!
