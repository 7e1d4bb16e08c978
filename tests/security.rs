use bagel_browser::config::BrowserConfig;
use bagel_browser::logger::{LogLevel, LogRecord};
use bagel_browser::security::{https_form, level_for_scheme, BlockReason, SecurityLevel, SecurityManager};
use bagel_browser::error::BrowserError;

fn policy(ad: bool, tracking: bool, upgrade: bool) -> SecurityManager {
    let mut c = BrowserConfig::default();
    c.privacy.ad_blocking = ad;
    c.privacy.tracking_protection = tracking;
    c.privacy.https_upgrade = upgrade;
    SecurityManager::new(c)
}

#[test]
fn blocked_domain_with_ad_blocking_on() {
    let g = policy(true, false, true);
    let mut log: Vec<LogRecord> = Vec::new();
    assert!(g.should_block_request("https://doubleclick.net/x", &mut log));
    assert!(g.should_block_request("https://x.doubleclick.net/", &mut log));
    assert_eq!(log.len(), 2);
    assert_eq!(log[0].level, LogLevel::Warn);
    assert_eq!(log[0].message, "Security Event - AD_BLOCKED: https://doubleclick.net/x");
    assert_eq!(g.block_reason("https://x.doubleclick.net/"), Some(BlockReason::Ads));
}

#[test]
fn blocked_domain_with_ad_blocking_off() {
    let g = policy(false, false, true);
    let mut log: Vec<LogRecord> = Vec::new();
    assert!(!g.should_block_request("https://doubleclick.net/x", &mut log));
    assert!(!g.should_block_request("https://x.doubleclick.net/", &mut log));
    assert!(log.is_empty());
}

#[test]
fn lookalike_domain_is_not_blocked() {
    let g = policy(true, false, true);
    let mut log: Vec<LogRecord> = Vec::new();
    assert!(!g.should_block_request("https://notdoubleclick.net/", &mut log));
    assert!(!g.should_block_request("https://doubleclick.network/", &mut log));
    assert!(log.is_empty());
}

#[test]
fn tracker_blocked_with_tracking_protection() {
    let g = policy(false, true, true);
    let mut log: Vec<LogRecord> = Vec::new();
    assert!(g.should_block_request("https://example.com/analytics.js", &mut log));
    assert!(g.should_block_request("https://example.com/ads/banner", &mut log));
    assert!(!g.should_block_request("https://example.com/page", &mut log));
    assert_eq!(log.len(), 2);
    assert_eq!(log[1].message, "Security Event - TRACKER_BLOCKED: https://example.com/ads/banner");
    assert_eq!(g.block_reason("https://telemetry.example.com/"), Some(BlockReason::Tracking));
}

#[test]
fn ad_block_takes_precedence_over_tracking() {
    let g = policy(true, true, true);
    assert_eq!(g.block_reason("https://doubleclick.net/analytics"), Some(BlockReason::Ads));
}

#[test]
fn unparseable_url_fails_open() {
    let g = policy(true, true, true);
    let mut log: Vec<LogRecord> = Vec::new();
    assert!(!g.should_block_request("doubleclick.net analytics", &mut log));
    assert!(!g.should_block_request("https://127.0.0.1/analytics", &mut log));
    assert!(log.is_empty());
}

#[test]
fn https_upgrade_of_http_url() {
    let g = policy(true, true, true);
    assert_eq!(g.suggest_https_upgrade("http://a.com"), Some("https://a.com".to_string()));
    assert_eq!(g.suggest_https_upgrade("https://a.com"), None);
    assert_eq!(g.suggest_https_upgrade("ftp://a.com"), None);
    assert_eq!(g.suggest_https_upgrade("not a url"), None);
}

#[test]
fn https_upgrade_off() {
    let g = policy(true, true, false);
    assert_eq!(g.suggest_https_upgrade("http://a.com"), None);
}

#[test]
fn security_level_of_urls() {
    let g = policy(true, true, true);
    let mut log: Vec<LogRecord> = Vec::new();
    let secure = g.check_url_security("https://a.com", &mut log).unwrap();
    assert_eq!(
        secure,
        SecurityLevel {
            is_secure: true,
            certificate_valid: true,
            mixed_content: false,
            tracking_blocked: false,
            ads_blocked: 0
        }
    );
    assert!(log.is_empty());
    let plain = g.check_url_security("http://a.com", &mut log).unwrap();
    assert!(!plain.is_secure);
    assert_eq!(log.len(), 1);
    assert_eq!(log[0].message, "Security Event - HTTPS_UPGRADE_SUGGESTED: http://a.com");
    assert_eq!(g.check_url_security("a.com", &mut log), Err(BrowserError::InvalidUrl));
    assert_eq!(log.len(), 1);
}

#[test]
fn stubs_and_policy() {
    let g = policy(true, true, true);
    assert_eq!(g.validate_certificate("https://a.com"), Ok(true));
    assert_eq!(g.check_malicious_site("https://a.com"), Ok(false));
    assert_eq!(
        g.get_content_security_policy(),
        "default-src 'self'; script-src 'self' 'unsafe-inline'; style-src 'self' 'unsafe-inline';"
    );
    assert!(g.config().privacy.ad_blocking);
}

#[test]
fn verdict_from_given_domain() {
    let g = policy(true, true, true);
    assert_eq!(g.block_reason_for("https://x.doubleclick.net/", Some("x.doubleclick.net")), Some(BlockReason::Ads));
    assert_eq!(g.block_reason_for("https://a.org/tracker.js", Some("a.org")), Some(BlockReason::Tracking));
    assert_eq!(g.block_reason_for("https://a.org/tracker.js", None), None);
    assert_eq!(g.block_reason_for("https://a.org/", Some("a.org")), None);
    let off = policy(false, false, true);
    assert_eq!(off.block_reason_for("https://doubleclick.net/", Some("doubleclick.net")), None);
}

#[test]
fn upgrade_from_given_scheme() {
    let g = policy(true, true, true);
    assert_eq!(g.upgrade_for_scheme("http://a.com", Some("http")), Some("https://a.com".to_string()));
    assert_eq!(g.upgrade_for_scheme("HTTP://a.com/x", Some("http")), Some("https://a.com/x".to_string()));
    assert_eq!(g.upgrade_for_scheme("https://a.com", Some("https")), None);
    assert_eq!(g.upgrade_for_scheme("http://a.com", None), None);
    assert_eq!(https_form("http://a.com:8080/p"), "https://a.com:8080/p");
}

#[test]
fn level_from_given_scheme() {
    assert!(level_for_scheme("https").is_secure);
    assert!(!level_for_scheme("http").is_secure);
    assert!(level_for_scheme("http").certificate_valid);
}
