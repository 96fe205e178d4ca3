use clipchamp::config::{is_log_level, mib_to_bytes, Config, ConfigWarning, TlsConfig};

#[test]
fn defaults_match_documentation() {
    let c = Config::default();
    assert_eq!(c.server.bind, "0.0.0.0:9090");
    assert!(c.server.mdns);
    assert_eq!(c.client.server, "auto");
    assert_eq!(c.clipboard.max_size_mb, 10);
    assert_eq!(c.clipboard.poll_interval_ms, 500);
    assert_eq!(c.protocol.max_frame_size_mb, 16);
    assert_eq!(c.history.max_entries, 100);
    assert!(c.history.persist);
    assert!(!c.tls.enabled);
    assert_eq!(c.tls.cert, "");
    assert_eq!(c.tls.key, "");
    assert_eq!(c.tls.ca, "");
    assert_eq!(c.logging.file.as_deref(), Some("/var/log/clipchamp/clipchamp.log"));
    assert_eq!(c.logging.level, "info");
    let t = TlsConfig::default();
    assert!(!t.enabled);
}

#[test]
fn default_config_is_valid() {
    assert!(Config::default().validate().is_empty());
}

#[test]
fn validate_warns_when_clipboard_exceeds_frame() {
    let mut c = Config::default();
    c.clipboard.max_size_mb = 17;
    let w = c.validate();
    assert_eq!(w.len(), 1);
    assert!(matches!(w[0], ConfigWarning::ClipboardExceedsFrame { max_size_mb: 17, max_frame_size_mb: 16 }));
    c.clipboard.max_size_mb = 16;
    assert!(c.validate().is_empty());
}

#[test]
fn validate_warns_on_unknown_level() {
    let mut c = Config::default();
    c.logging.level = "WARN".to_string();
    assert!(c.validate().is_empty());
    c.logging.level = "verbose".to_string();
    c.clipboard.max_size_mb = 100;
    let w = c.validate();
    assert_eq!(w.len(), 2);
    assert!(matches!(w[0], ConfigWarning::ClipboardExceedsFrame { .. }));
    match &w[1] {
        ConfigWarning::InvalidLogLevel { level } => assert_eq!(level, "verbose"),
        _ => panic!("level not reported"),
    }
}

#[test]
fn log_level_names() {
    for l in ["trace", "debug", "info", "warn", "error"] {
        assert!(is_log_level(l));
    }
    assert!(!is_log_level("Info"));
    assert!(!is_log_level(""));
    assert!(!is_log_level("warning"));
}

#[test]
fn mebibytes() {
    assert_eq!(mib_to_bytes(10), 10 * 1024 * 1024);
    assert_eq!(mib_to_bytes(0), 0);
}
