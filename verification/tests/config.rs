use nsqueue::config::Config;

fn assert_default_settings(c: &Config) {
    assert_eq!(c.user_agent, "github.com/wisespace-io/nsqueue");
    assert!(!c.deflate);
    assert_eq!(c.deflate_level, 6);
    assert!(!c.snappy);
    assert!(c.feature_negotiation);
    assert_eq!(c.heartbeat_interval, 30000);
    assert_eq!(c.message_timeout, 0);
    assert_eq!(c.output_buffer_size, 16384);
    assert_eq!(c.output_buffer_timeout, 250);
    assert_eq!(c.sample_rate, 0);
    assert!(!c.tls_v1);
}

#[test]
fn default_settings() {
    let c = Config::default();
    assert_default_settings(&c);
    assert_eq!(c.client_id, c.hostname);
}

#[test]
fn identified_by_sets_identifiers() {
    let c = Config::identified_by(
        Some("a".to_string()),
        Some("b".to_string()),
        None,
        Some("host".to_string()),
    );
    assert_default_settings(&c);
    assert_eq!(c.client_id.as_deref(), Some("a"));
    assert_eq!(c.short_id.as_deref(), Some("b"));
    assert_eq!(c.long_id, None);
    assert_eq!(c.hostname.as_deref(), Some("host"));
}

#[test]
fn builders_change_one_setting() {
    let base = Config::identified_by(None, None, None, None);
    let c = base.clone().client_id("me".to_string());
    assert_eq!(c.client_id.as_deref(), Some("me"));
    assert_eq!(c.hostname, None);
    let c = c.hostname("box".to_string());
    assert_eq!(c.hostname.as_deref(), Some("box"));
    assert_eq!(c.client_id.as_deref(), Some("me"));
    let c = c.user_agent("agent/1".to_string());
    assert_eq!(c.user_agent, "agent/1");
    let c = c.snappy(true);
    assert!(c.snappy);
    assert_eq!(c.deflate_level, 6);
}
