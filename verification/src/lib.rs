//! A client library for the NSQ realtime message processing system: the
//! wire codec, the protocol commands and the client's decisions.
pub mod buffer;
pub mod codec;
pub mod commands;
pub mod config;
pub mod consumer;
pub mod error;
pub mod laws;
pub mod producer;
pub mod protocol;
pub mod response;
pub mod wire;
