//! The requests that a client sends to nsqd.
use vstd::prelude::*;
use vstd::string::StringExecFns;
use crate::commands::{
    self, dpub_word, fin_word, identify_word, mpub_word, nop_word, pub_word, rdy_word, sub_word,
};
use crate::config::{opt_chars, Config};
use crate::wire::{decimal_chars, decimal_string};

verus! {

/// Protocol definition: the settings that the client announces when it
/// connects.
pub struct NsqProtocol {
    pub config: Config,
}

impl NsqProtocol {
    pub fn new(config: Config) -> (p: NsqProtocol)
        ensures
            p.config == config,
    {
        NsqProtocol { config }
    }
}

/// A request to nsqd: the protocol version magic, a command line, a body and
/// the messages of a multi-publish, each sent when present.
#[derive(PartialEq, Debug, Clone)]
pub struct RequestMessage {
    pub version: Option<String>,
    pub header: Option<String>,
    pub body: Option<String>,
    pub body_messages: Option<Vec<String>>,
}

/// The contents of a [`RequestMessage`].
pub struct RequestView {
    pub version: Option<Seq<char>>,
    pub header: Option<Seq<char>>,
    pub body: Option<Seq<char>>,
    pub body_messages: Option<Seq<Seq<char>>>,
}

/// The texts of a list of strings.
pub open spec fn strings_view(v: Vec<String>) -> Seq<Seq<char>> {
    v@.map_values(|s: String| s@)
}

impl View for RequestMessage {
    type V = RequestView;

    open spec fn view(&self) -> RequestView {
        RequestView {
            version: opt_chars(self.version),
            header: opt_chars(self.header),
            body: opt_chars(self.body),
            body_messages: match self.body_messages {
                Some(v) => Some(strings_view(v)),
                None => None,
            },
        }
    }
}

pub open spec fn identify_line() -> Seq<char> {
    identify_word() + seq!['\n']
}

pub open spec fn pub_line(topic: Seq<char>) -> Seq<char> {
    pub_word() + seq![' '] + topic + seq!['\n']
}

pub open spec fn mpub_line(topic: Seq<char>) -> Seq<char> {
    mpub_word() + seq![' '] + topic + seq!['\n']
}

pub open spec fn dpub_line(topic: Seq<char>, defer_time: i64) -> Seq<char> {
    dpub_word() + seq![' '] + topic + seq![' '] + decimal_chars(defer_time as int) + seq!['\n']
}

pub open spec fn sub_line(topic: Seq<char>, channel: Seq<char>) -> Seq<char> {
    sub_word() + seq![' '] + topic + seq![' '] + channel + seq!['\n']
}

pub open spec fn rdy_line() -> Seq<char> {
    rdy_word() + seq![' ', '1', '\n']
}

pub open spec fn fin_line(message_id: Seq<char>) -> Seq<char> {
    fin_word() + seq![' '] + message_id + seq!['\n']
}

pub open spec fn nop_line() -> Seq<char> {
    nop_word() + seq!['\n']
}

/// `word` and a line break.
fn word_line(word: &str) -> (s: String)
    ensures
        s@ == word@ + seq!['\n'],
{
    let mut s = String::from_str(word);
    s.append("\n");
    proof {
        reveal_strlit("\n");
    }
    s
}

/// `word`, a space, `arg` and a line break.
fn word_arg_line(word: &str, arg: &str) -> (s: String)
    ensures
        s@ == word@ + seq![' '] + arg@ + seq!['\n'],
{
    let mut s = String::from_str(word);
    s.append(" ");
    s.append(arg);
    s.append("\n");
    proof {
        reveal_strlit(" ");
        reveal_strlit("\n");
    }
    s
}

/// `word`, a space, `first`, a space, `second` and a line break.
fn word_args_line(word: &str, first: &str, second: &str) -> (s: String)
    ensures
        s@ == word@ + seq![' '] + first@ + seq![' '] + second@ + seq!['\n'],
{
    let mut s = String::from_str(word);
    s.append(" ");
    s.append(first);
    s.append(" ");
    s.append(second);
    s.append("\n");
    proof {
        reveal_strlit(" ");
        reveal_strlit("\n");
    }
    s
}

impl RequestMessage {
    pub fn new() -> (r: RequestMessage)
        ensures
            r@ == (RequestView { version: None, header: None, body: None, body_messages: None }),
    {
        RequestMessage { version: None, header: None, body: None, body_messages: None }
    }

    /// Sets the protocol version magic; the rest is kept.
    pub fn set_protocol_version(&mut self, version: &str)
        ensures
            final(self)@ == (RequestView { version: Some(version@), ..old(self)@ }),
    {
        self.version = Some(String::from_str(version));
    }

    /// `PUB <topic>\n` with the message as body; the rest is kept.
    pub fn create_pub_command(&mut self, topic: String, message: String)
        ensures
            final(self)@ == (RequestView {
                header: Some(pub_line(topic@)),
                body: Some(message@),
                ..old(self)@
            }),
    {
        proof {
            reveal_strlit("PUB");
        }
        assert(commands::PUB@ =~= pub_word());
        self.header = Some(word_arg_line(commands::PUB, topic.as_str()));
        self.body = Some(message);
    }

    /// `MPUB <topic>\n` with the messages; the rest is kept.
    pub fn create_mpub_command(&mut self, topic: String, messages: Vec<String>)
        ensures
            final(self)@ == (RequestView {
                header: Some(mpub_line(topic@)),
                body_messages: Some(strings_view(messages)),
                ..old(self)@
            }),
    {
        proof {
            reveal_strlit("MPUB");
        }
        assert(commands::MPUB@ =~= mpub_word());
        self.header = Some(word_arg_line(commands::MPUB, topic.as_str()));
        self.body_messages = Some(messages);
    }

    /// `DPUB <topic> <defer_time>\n` with the message as body; the rest is kept.
    pub fn create_dpub_command(&mut self, topic: String, message: String, defer_time: i64)
        ensures
            final(self)@ == (RequestView {
                header: Some(dpub_line(topic@, defer_time)),
                body: Some(message@),
                ..old(self)@
            }),
    {
        proof {
            reveal_strlit("DPUB");
        }
        assert(commands::DPUB@ =~= dpub_word());
        let defer = decimal_string(defer_time);
        self.header = Some(word_args_line(commands::DPUB, topic.as_str(), defer.as_str()));
        self.body = Some(message);
    }

    /// `SUB <topic> <channel>\n`; the rest is kept.
    pub fn create_sub_command(&mut self, topic: String, channel: String)
        ensures
            final(self)@ == (RequestView { header: Some(sub_line(topic@, channel@)), ..old(self)@ }),
    {
        proof {
            reveal_strlit("SUB");
        }
        assert(commands::SUB@ =~= sub_word());
        self.header = Some(word_args_line(commands::SUB, topic.as_str(), channel.as_str()));
    }

    /// `IDENTIFY\n` with the JSON form of the client's settings as body; the
    /// rest is kept.
    pub fn create_identify_command(&mut self, config_json: String)
        ensures
            final(self)@ == (RequestView {
                header: Some(identify_line()),
                body: Some(config_json@),
                ..old(self)@
            }),
    {
        proof {
            reveal_strlit("IDENTIFY");
        }
        assert(commands::IDENTIFY@ =~= identify_word());
        self.header = Some(word_line(commands::IDENTIFY));
        self.body = Some(config_json);
    }

    /// `RDY 1\n`; the rest is kept.
    pub fn create_rdy_command(&mut self)
        ensures
            final(self)@ == (RequestView { header: Some(rdy_line()), ..old(self)@ }),
    {
        proof {
            reveal_strlit("RDY");
            reveal_strlit("1");
        }
        assert(commands::RDY@ =~= rdy_word());
        let h = word_arg_line(commands::RDY, "1");
        assert(h@ =~= rdy_line());
        self.header = Some(h);
    }

    /// `FIN <message_id>\n`; the rest is kept.
    pub fn create_fin_command(&mut self, message_id: String)
        ensures
            final(self)@ == (RequestView { header: Some(fin_line(message_id@)), ..old(self)@ }),
    {
        proof {
            reveal_strlit("FIN");
        }
        assert(commands::FIN@ =~= fin_word());
        self.header = Some(word_arg_line(commands::FIN, message_id.as_str()));
    }

    /// `NOP\n`; the rest is kept.
    pub fn create_nop_command(&mut self)
        ensures
            final(self)@ == (RequestView { header: Some(nop_line()), ..old(self)@ }),
    {
        proof {
            reveal_strlit("NOP");
        }
        assert(commands::NOP@ =~= nop_word());
        self.header = Some(word_line(commands::NOP));
    }
}

} // verus!
