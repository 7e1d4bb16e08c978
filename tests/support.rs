use bagel_browser::config::BrowserConfig;
use bagel_browser::error::BrowserError;
use bagel_browser::logger::{decimal_text, log_error, log_navigation, log_performance, log_security_event, LogLevel, LogRecord};
use bagel_browser::retention::cookie_expired;
use bagel_browser::text::{joined, text_contains, text_ends_with, text_equal, text_starts_with};

#[test]
fn decimal_digits() {
    assert_eq!(decimal_text(0), "0");
    assert_eq!(decimal_text(7), "7");
    assert_eq!(decimal_text(1234567890), "1234567890");
    assert_eq!(decimal_text(u64::MAX), "18446744073709551615");
}

#[test]
fn log_lines() {
    let mut log: Vec<LogRecord> = Vec::new();
    log_navigation(&mut log, "https://a.com");
    log_security_event(&mut log, "AD_BLOCKED", "https://x");
    log_performance(&mut log, "render", 42);
    log_error(&mut log, "saving", "disk full", &vec!["io error".to_string(), "os error 28".to_string()]);
    let got: Vec<(LogLevel, &str)> = log.iter().map(|r| (r.level, r.message.as_str())).collect();
    assert_eq!(
        got,
        vec![
            (LogLevel::Info, "Navigation: https://a.com"),
            (LogLevel::Warn, "Security Event - AD_BLOCKED: https://x"),
            (LogLevel::Info, "Performance - render: 42ms"),
            (LogLevel::Error, "saving: disk full"),
            (LogLevel::Error, "  Caused by: io error"),
            (LogLevel::Error, "  Caused by: os error 28"),
        ]
    );
}

#[test]
fn text_helpers() {
    assert!(text_contains("https://x.org/analytics", "analytics"));
    assert!(!text_contains("abc", "abcd"));
    assert!(text_contains("abc", ""));
    assert!(text_starts_with("https://a", "https://"));
    assert!(!text_starts_with("http", "https"));
    assert!(text_ends_with("x.doubleclick.net", ".doubleclick.net"));
    assert!(!text_ends_with("doubleclick.net", ".doubleclick.net"));
    assert!(text_equal("héllo", "héllo"));
    assert!(!text_equal("a", "b"));
    assert_eq!(joined("ab", "ü"), "abü");
}

#[test]
fn default_config() {
    let c = BrowserConfig::default();
    assert_eq!(c.search_engine.default_provider, "4get");
    assert_eq!(c.search_engine.fourget_instance, "https://4get.ca");
    assert!(c.search_engine.fallback_enabled);
    assert_eq!(c.privacy.auto_clear_cookies_days, 30);
    assert!(c.privacy.tracking_protection && c.privacy.ad_blocking && c.privacy.https_upgrade);
    assert_eq!(c.ui.font_family, "Ubuntu");
    assert_eq!(c.ui.theme, "light");
    assert_eq!(c.ui.tab_position, "top");
    assert_eq!(c.storage.max_history_days, 90);
    assert_eq!(c.storage.max_cache_size_mb, 500);
    assert!(c.data_dir().ends_with("bagel-browser"));
}

#[test]
fn error_messages() {
    assert_eq!(BrowserError::NavigationBlocked.message(), "Navigation blocked by security policy");
    assert_eq!(BrowserError::InvalidUrl.message(), "Invalid URL");
}

#[test]
fn cookie_expiry() {
    assert!(cookie_expired(Some(10), 11));
    assert!(!cookie_expired(Some(11), 11));
    assert!(!cookie_expired(None, i64::MAX));
}
