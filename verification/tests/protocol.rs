use nsqueue::commands::VERSION_2;
use nsqueue::config::Config;
use nsqueue::protocol::{NsqProtocol, RequestMessage};

#[test]
fn new_request_is_empty() {
    let r = RequestMessage::new();
    assert_eq!(r.version, None);
    assert_eq!(r.header, None);
    assert_eq!(r.body, None);
    assert_eq!(r.body_messages, None);
}

#[test]
fn protocol_version() {
    let mut r = RequestMessage::new();
    r.set_protocol_version(VERSION_2);
    assert_eq!(r.version.as_deref(), Some("  V2"));
    assert_eq!(r.header, None);
}

#[test]
fn pub_command() {
    let mut r = RequestMessage::new();
    r.create_pub_command("some_topic".to_string(), "some_message".to_string());
    assert_eq!(r.header.as_deref(), Some("PUB some_topic\n"));
    assert_eq!(r.body.as_deref(), Some("some_message"));
    assert_eq!(r.body_messages, None);
}

#[test]
fn mpub_command() {
    let mut r = RequestMessage::new();
    let messages = vec!["First message".to_string(), "Second message".to_string()];
    r.create_mpub_command("some_topic".to_string(), messages.clone());
    assert_eq!(r.header.as_deref(), Some("MPUB some_topic\n"));
    assert_eq!(r.body_messages, Some(messages));
    assert_eq!(r.body, None);
}

#[test]
fn dpub_command() {
    let mut r = RequestMessage::new();
    r.create_dpub_command("t".to_string(), "m".to_string(), 3000);
    assert_eq!(r.header.as_deref(), Some("DPUB t 3000\n"));
    assert_eq!(r.body.as_deref(), Some("m"));
    r.create_dpub_command("t".to_string(), "m".to_string(), i64::MIN);
    assert_eq!(r.header.as_deref(), Some("DPUB t -9223372036854775808\n"));
}

#[test]
fn sub_command() {
    let mut r = RequestMessage::new();
    r.create_sub_command("some_topic".to_string(), "some_channel".to_string());
    assert_eq!(r.header.as_deref(), Some("SUB some_topic some_channel\n"));
    assert_eq!(r.body, None);
}

#[test]
fn identify_command() {
    let mut r = RequestMessage::new();
    r.create_identify_command("{\"snappy\":false}".to_string());
    assert_eq!(r.header.as_deref(), Some("IDENTIFY\n"));
    assert_eq!(r.body.as_deref(), Some("{\"snappy\":false}"));
}

#[test]
fn rdy_fin_nop_commands() {
    let mut r = RequestMessage::new();
    r.create_rdy_command();
    assert_eq!(r.header.as_deref(), Some("RDY 1\n"));
    r.create_fin_command("0123456789abcdef".to_string());
    assert_eq!(r.header.as_deref(), Some("FIN 0123456789abcdef\n"));
    r.create_nop_command();
    assert_eq!(r.header.as_deref(), Some("NOP\n"));
}

#[test]
fn builders_keep_other_fields() {
    let mut r = RequestMessage::new();
    r.set_protocol_version(VERSION_2);
    r.create_pub_command("t".to_string(), "m".to_string());
    r.create_sub_command("t".to_string(), "c".to_string());
    assert_eq!(r.version.as_deref(), Some("  V2"));
    assert_eq!(r.body.as_deref(), Some("m"));
    assert_eq!(r.header.as_deref(), Some("SUB t c\n"));
}

#[test]
fn protocol_holds_its_config() {
    let p = NsqProtocol::new(Config::default().client_id("me".to_string()));
    assert_eq!(p.config.client_id.as_deref(), Some("me"));
}
