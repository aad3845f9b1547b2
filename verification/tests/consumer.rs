use nsqueue::consumer::{ServerReply, SubscribeAction, SubscribeState, Subscription};

#[test]
fn subscription_sends_sub_then_rdy_then_streams() {
    let (mut s, sub) = Subscription::begin("some_topic".to_string(), "some_channel".to_string());
    assert_eq!(sub.header.as_deref(), Some("SUB some_topic some_channel\n"));
    assert_eq!(s.state, SubscribeState::AwaitingSubReply);
    match s.on_reply(ServerReply::WithoutBody("OK".to_string())) {
        SubscribeAction::Send(rdy) => assert_eq!(rdy.header.as_deref(), Some("RDY 1\n")),
        _ => panic!("expected RDY"),
    }
    assert_eq!(s.state, SubscribeState::AwaitingRdyReply);
    assert!(matches!(
        s.on_reply(ServerReply::WithBody(String::new())),
        SubscribeAction::OpenStream
    ));
    assert_eq!(s.state, SubscribeState::Finished);
    assert!(matches!(
        s.on_reply(ServerReply::WithBody(String::new())),
        SubscribeAction::Ignore
    ));
}

#[test]
fn answer_without_stream_is_unsupported() {
    let (mut s, _) = Subscription::begin("t".to_string(), "c".to_string());
    let _ = s.on_reply(ServerReply::WithoutBody("OK".to_string()));
    match s.on_reply(ServerReply::WithoutBody("_heartbeat_".to_string())) {
        SubscribeAction::Unsupported(text) => assert_eq!(text, "_heartbeat_"),
        _ => panic!("expected unsupported"),
    }
    assert_eq!(s.state, SubscribeState::Finished);
}
