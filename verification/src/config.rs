//! The identification and feature settings that a client announces to nsqd.
use vstd::prelude::*;
use vstd::string::StringExecFns;

verus! {

/// Settings that the client sends to nsqd in its IDENTIFY command.
#[derive(Clone, Debug, PartialEq)]
pub struct Config {
    /// Identifiers sent to nsqd representing this client.
    pub client_id: Option<String>,
    pub short_id: Option<String>,
    pub long_id: Option<String>,
    pub hostname: Option<String>,
    pub user_agent: String,
    /// Compression settings.
    pub deflate: bool,
    pub deflate_level: u16,
    pub snappy: bool,
    pub feature_negotiation: bool,
    /// Duration of time between heartbeats.
    pub heartbeat_interval: u32,
    /// Timeout used by nsqd before flushing buffered writes (0 disables it).
    pub message_timeout: u32,
    /// Size of the buffer (in bytes) used by nsqd for buffering writes to this connection.
    pub output_buffer_size: u64,
    pub output_buffer_timeout: u32,
    /// Integer percentage to sample the channel.
    pub sample_rate: u16,
    /// Whether TLS negotiation is enabled.
    pub tls_v1: bool,
}

/// The user agent that a default configuration announces.
pub open spec fn default_user_agent() -> Seq<char> {
    seq![
        'g', 'i', 't', 'h', 'u', 'b', '.', 'c', 'o', 'm', '/', 'w', 'i', 's', 'e', 's', 'p', 'a',
        'c', 'e', '-', 'i', 'o', '/', 'n', 's', 'q', 'u', 'e', 'u', 'e',
    ]
}

/// The view of an optional string.
pub open spec fn opt_chars(o: Option<String>) -> Option<Seq<char>> {
    match o {
        Some(s) => Some(s@),
        None => None,
    }
}

/// Calls `hostname::get_hostname`, which asks the operating system for the
/// machine's host name. What comes back depends on the machine, so nothing
/// is claimed of it.
#[verifier::external_body]
fn local_hostname() -> Option<String> {
    hostname::get_hostname()
}

impl Config {
    /// Every setting but the identifiers at its default value.
    pub open spec fn has_default_settings(&self) -> bool {
        &&& self.user_agent@ == default_user_agent()
        &&& !self.deflate
        &&& self.deflate_level == 6
        &&& !self.snappy
        &&& self.feature_negotiation
        &&& self.heartbeat_interval == 30000
        &&& self.message_timeout == 0
        &&& self.output_buffer_size == 16384
        &&& self.output_buffer_timeout == 250
        &&& self.sample_rate == 0
        &&& !self.tls_v1
    }

    /// The default settings, with the four identifiers given.
    pub fn identified_by(
        client_id: Option<String>,
        short_id: Option<String>,
        long_id: Option<String>,
        hostname: Option<String>,
    ) -> (c: Config)
        ensures
            c.has_default_settings(),
            opt_chars(c.client_id) == opt_chars(client_id),
            opt_chars(c.short_id) == opt_chars(short_id),
            opt_chars(c.long_id) == opt_chars(long_id),
            opt_chars(c.hostname) == opt_chars(hostname),
    {
        let user_agent = String::from_str("github.com/wisespace-io/nsqueue");
        proof {
            reveal_strlit("github.com/wisespace-io/nsqueue");
            assert(user_agent@ =~= default_user_agent());
        }
        Config {
            client_id,
            short_id,
            long_id,
            hostname,
            user_agent,
            deflate: false,
            deflate_level: 6,
            snappy: false,
            feature_negotiation: true,
            heartbeat_interval: 30000,
            message_timeout: 0,
            output_buffer_size: 16384,
            output_buffer_timeout: 250,
            sample_rate: 0,
            tls_v1: false,
        }
    }

    /// The default settings; each of the four identifiers is the machine's
    /// host name, as the operating system reports it at the time of the call.
    pub fn default() -> (c: Config)
        ensures
            c.has_default_settings(),
    {
        Config::identified_by(local_hostname(), local_hostname(), local_hostname(), local_hostname())
    }

    /// Sets the client identifier; every other setting is kept.
    pub fn client_id(self, client_id: String) -> (c: Config)
        ensures
            opt_chars(c.client_id) == Some(client_id@),
            c == (Config { client_id: c.client_id, ..self }),
    {
        let mut c = self;
        c.client_id = Some(client_id);
        c
    }

    /// Sets the host name; every other setting is kept.
    pub fn hostname(self, hostname: String) -> (c: Config)
        ensures
            opt_chars(c.hostname) == Some(hostname@),
            c == (Config { hostname: c.hostname, ..self }),
    {
        let mut c = self;
        c.hostname = Some(hostname);
        c
    }

    /// Sets the user agent; every other setting is kept.
    pub fn user_agent(self, user_agent: String) -> (c: Config)
        ensures
            c.user_agent@ == user_agent@,
            c == (Config { user_agent: c.user_agent, ..self }),
    {
        let mut c = self;
        c.user_agent = user_agent;
        c
    }

    /// Sets whether snappy compression is requested; every other setting is kept.
    pub fn snappy(self, snappy: bool) -> (c: Config)
        ensures
            c == (Config { snappy, ..self }),
    {
        let mut c = self;
        c.snappy = snappy;
        c
    }
}

} // verus!
