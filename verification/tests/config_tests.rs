use novel_boom_core::config::{load, load_or_default, Config, ConfigSource, DownloadFormat};
use novel_boom_core::error::Error;

#[test]
fn load_or_default_missing_file() {
    let cfg = load_or_default("definitely-missing-novel-boom-config.toml", ConfigSource::Missing)
        .unwrap();
    assert_eq!(cfg.source.active_rules, "main.json");
}

#[test]
fn default_config_is_valid() {
    Config::default().validate().unwrap();
}

#[test]
fn rejects_inverted_intervals() {
    let mut cfg = Config::default();
    cfg.crawl.min_interval_ms = 500;
    cfg.crawl.max_interval_ms = 100;
    assert!(cfg.validate().is_err());
}

#[test]
fn default_values_match_the_documented_defaults() {
    let cfg = Config::default();
    assert_eq!(cfg.download.path, "downloads");
    assert_eq!(cfg.download.format, DownloadFormat::Epub);
    assert_eq!(cfg.download.txt_encoding, "UTF-8");
    assert_eq!(cfg.source.search_limit, 30);
    assert_eq!(cfg.crawl.min_interval_ms, 200);
    assert_eq!(cfg.crawl.max_interval_ms, 400);
    assert_eq!(cfg.crawl.retry_min_interval_ms, 2000);
    assert_eq!(cfg.crawl.retry_max_interval_ms, 4000);
    assert_eq!(cfg.proxy.host, "127.0.0.1");
    assert_eq!(cfg.proxy.port, 7890);
}

#[test]
fn proxy_without_port_is_rejected() {
    let mut cfg = Config::default();
    cfg.proxy.enabled = true;
    cfg.proxy.port = 0;
    match cfg.validate() {
        Err(Error::Message(m)) => assert_eq!(m, "proxy.enabled is true but proxy.port is 0"),
        other => panic!("unexpected: {other:?}"),
    }
}

#[test]
fn inverted_retry_intervals_are_rejected() {
    let mut cfg = Config::default();
    cfg.crawl.retry_min_interval_ms = 5000;
    match cfg.validate() {
        Err(Error::Message(m)) => {
            assert_eq!(m, "crawl.retry_max_interval_ms must be >= retry_min_interval_ms")
        }
        other => panic!("unexpected: {other:?}"),
    }
}

#[test]
fn format_names() {
    assert_eq!(DownloadFormat::Txt.as_str(), "txt");
    assert_eq!(DownloadFormat::Epub.as_str(), "epub");
    assert_eq!(DownloadFormat::Html.as_str(), "html");
    assert_eq!(DownloadFormat::Pdf.as_str(), "pdf");
}

#[test]
fn load_reports_each_failure() {
    assert!(matches!(load("a.toml", ConfigSource::Missing), Err(Error::ConfigNotFound(p)) if p == "a.toml"));
    assert!(matches!(
        load("a.toml", ConfigSource::Unreadable("denied".to_string())),
        Err(Error::Io(m)) if m == "denied"
    ));
    match load("a.toml", ConfigSource::Malformed("bad toml".to_string())) {
        Err(Error::InvalidConfig { path, message }) => {
            assert_eq!(path, "a.toml");
            assert_eq!(message, "bad toml");
        }
        other => panic!("unexpected: {other:?}"),
    }
    let mut cfg = Config::default();
    cfg.source.search_limit = 10;
    let loaded = load("a.toml", ConfigSource::Parsed(cfg)).unwrap();
    assert_eq!(loaded.source.search_limit, 10);
}

#[test]
fn load_or_default_still_rejects_invalid_files() {
    let mut cfg = Config::default();
    cfg.crawl.min_interval_ms = 500;
    cfg.crawl.max_interval_ms = 100;
    assert!(load_or_default("a.toml", ConfigSource::Parsed(cfg)).is_err());
}

#[test]
fn load_example_shaped_toml() {
    // The decoded form of:
    //   [download] path = "out", format = "txt"
    //   [source] active_rules = "main.json", search_limit = 10
    // with every unspecified field at its default.
    let mut decoded = Config::default();
    decoded.download.path = "out".into();
    decoded.download.format = DownloadFormat::Txt;
    decoded.source.active_rules = "main.json".into();
    decoded.source.search_limit = 10;

    let cfg = load("config.toml", ConfigSource::Parsed(decoded)).unwrap();
    assert_eq!(cfg.download.path, "out");
    assert_eq!(cfg.download.format.as_str(), "txt");
    assert_eq!(cfg.source.active_rules, "main.json");
    assert_eq!(cfg.source.search_limit, 10);
    // Unspecified sections keep defaults.
    assert_eq!(cfg.crawl.min_interval_ms, 200);
}
