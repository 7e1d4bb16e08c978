//! The security policy: block lists, tracker heuristics and HTTPS upgrades.
use crate::config::BrowserConfig;
use crate::error::BrowserError;
use crate::logger::{entries, log_security_event, security_line, LogLevel, LogRecord};
use crate::text::{chars_of, contains_text, ends_with, joined, text_contains, text_ends_with, text_equal};
use crate::url_model::{domain_of, scheme_of, url_domain, url_parses, url_scheme};
use vstd::prelude::*;

verus! {

/// The security facts of one URL, taken when it is checked.
#[derive(Clone, Copy, Debug, PartialEq, Eq, Structural)]
pub struct SecurityLevel {
    pub is_secure: bool,
    pub certificate_valid: bool,
    pub mixed_content: bool,
    pub tracking_blocked: bool,
    pub ads_blocked: u32,
}

/// Why a request is blocked.
#[derive(Clone, Copy, Debug, PartialEq, Eq, Structural)]
pub enum BlockReason {
    /// Its domain is on the block list.
    Ads,
    /// It looks like a tracker.
    Tracking,
}

/// The texts of `v`, as characters.
pub open spec fn strings(v: Seq<String>) -> Seq<Seq<char>> {
    v.map_values(|s: String| s@)
}

/// The domains that ad blocking refuses, with their subdomains.
pub open spec fn default_blocked_domains() -> Seq<Seq<char>> {
    seq![
        "doubleclick.net"@,
        "googleadservices.com"@,
        "googlesyndication.com"@,
        "google-analytics.com"@,
        "facebook.com"@,
        "connect.facebook.net"@,
        "scorecardresearch.com"@,
        "outbrain.com"@,
        "taboola.com"@,
    ]
}

/// The tracker patterns that tracking protection is configured with.
pub open spec fn default_tracking_patterns() -> Seq<Seq<char>> {
    seq![
        ".*\\.ads\\..*"@,
        ".*\\.analytics\\..*"@,
        ".*\\.tracker\\..*"@,
        ".*\\.telemetry\\..*"@,
    ]
}

/// `domain` is a listed domain or a subdomain of one.
pub open spec fn domain_blocked(list: Seq<Seq<char>>, domain: Seq<char>) -> bool {
    exists|i: int|
        0 <= i < list.len() && (domain == #[trigger] list[i] || ends_with(domain, "."@ + list[i]))
}

/// `url` carries one of the markers of a tracker.
pub open spec fn tracking_marker(url: Seq<char>) -> bool {
    contains_text(url, "analytics"@) || contains_text(url, "tracker"@) || contains_text(
        url,
        "telemetry"@,
    ) || contains_text(url, "/ads/"@)
}

/// The domain of `url`, where it parses and its host is a domain.
pub open spec fn parsed_domain(url: Seq<char>) -> Option<Seq<char>> {
    if url_parses(url) {
        url_domain(url)
    } else {
        None
    }
}

/// The scheme of `url`, where it parses.
pub open spec fn parsed_scheme(url: Seq<char>) -> Option<Seq<char>> {
    if url_parses(url) {
        Some(url_scheme(url))
    } else {
        None
    }
}

/// `o` with its text as characters.
pub open spec fn opt_text(o: Option<&str>) -> Option<Seq<char>> {
    match o {
        Some(x) => Some(x@),
        None => None,
    }
}

/// The position of the first `:` in `s`, or its length where it has none.
pub open spec fn colon_index(s: Seq<char>) -> int {
    if s.contains(':') {
        choose|i: int| 0 <= i < s.len() && s[i] == ':' && forall|j: int| 0 <= j < i ==> s[j] != ':'
    } else {
        s.len() as int
    }
}

/// `s` with its scheme rewritten to `https`.
pub open spec fn https_rewrite(s: Seq<char>) -> Seq<char> {
    "https"@ + s.subrange(colon_index(s), s.len() as int)
}

/// The name of the security event for a block.
pub open spec fn block_event(reason: BlockReason) -> Seq<char> {
    match reason {
        BlockReason::Ads => "AD_BLOCKED"@,
        BlockReason::Tracking => "TRACKER_BLOCKED"@,
    }
}

/// What blocking for `reason` adds to the log.
pub open spec fn block_entries(reason: Option<BlockReason>, url: Seq<char>) -> Seq<(LogLevel, Seq<char>)> {
    match reason {
        Some(b) => seq![(LogLevel::Warn, security_line(block_event(b), url))],
        None => Seq::empty(),
    }
}

/// The fixed content security policy.
pub open spec fn content_security_policy() -> Seq<char> {
    "default-src 'self'; script-src 'self' 'unsafe-inline'; style-src 'self' 'unsafe-inline';"@
}

/// Evaluates URLs against the configured privacy policy and a static block
/// list.
#[derive(Debug)]
pub struct SecurityManager {
    config: BrowserConfig,
    blocked_domains: Vec<String>,
    tracking_patterns: Vec<String>,
}

impl SecurityManager {
    /// The configuration that the manager was built with.
    pub closed spec fn settings(&self) -> BrowserConfig {
        self.config
    }

    /// The blocked domains.
    pub closed spec fn blocked(&self) -> Seq<Seq<char>> {
        strings(self.blocked_domains@)
    }

    /// The tracker patterns.
    pub closed spec fn patterns(&self) -> Seq<Seq<char>> {
        strings(self.tracking_patterns@)
    }

    /// Why the policy blocks `url`, whose parsed domain is `domain`, if it
    /// does. Nothing is blocked when both protections are off, or when there
    /// is no domain (the policy fails open on what does not parse). A listed
    /// domain is blocked under ad blocking before tracking protection is
    /// consulted.
    pub open spec fn verdict(&self, url: Seq<char>, domain: Option<Seq<char>>) -> Option<BlockReason> {
        let p = self.settings().privacy;
        if !p.ad_blocking && !p.tracking_protection {
            None
        } else {
            match domain {
                None => None,
                Some(d) => if p.ad_blocking && domain_blocked(self.blocked(), d) {
                    Some(BlockReason::Ads)
                } else if p.tracking_protection && self.patterns().len() > 0 && tracking_marker(
                    url,
                ) {
                    Some(BlockReason::Tracking)
                } else {
                    None
                },
            }
        }
    }

    /// Why the policy blocks `url`, if it does.
    pub open spec fn block_reason_of(&self, url: Seq<char>) -> Option<BlockReason> {
        self.verdict(url, parsed_domain(url))
    }

    /// The HTTPS form of `url`, whose parsed scheme is `scheme`, that the
    /// policy suggests, if any: only with upgrades on and for a scheme that is
    /// exactly `http`.
    pub open spec fn upgrade_verdict(&self, url: Seq<char>, scheme: Option<Seq<char>>) -> Option<Seq<char>> {
        if self.settings().privacy.https_upgrade && scheme == Some("http"@) {
            Some(https_rewrite(url))
        } else {
            None
        }
    }

    /// The HTTPS form of `url` that the policy suggests, if any.
    pub open spec fn upgrade_of(&self, url: Seq<char>) -> Option<Seq<char>> {
        self.upgrade_verdict(url, parsed_scheme(url))
    }

    pub fn new(config: BrowserConfig) -> (r: SecurityManager)
        ensures
            r.settings() == config,
            r.blocked() == default_blocked_domains(),
            r.patterns() == default_tracking_patterns(),
    {
        SecurityManager {
            config,
            blocked_domains: Self::load_blocked_domains(),
            tracking_patterns: Self::load_tracking_patterns(),
        }
    }

    fn load_blocked_domains() -> (r: Vec<String>)
        ensures
            strings(r@) == default_blocked_domains(),
    {
        let r = vec![
            "doubleclick.net".to_string(),
            "googleadservices.com".to_string(),
            "googlesyndication.com".to_string(),
            "google-analytics.com".to_string(),
            "facebook.com".to_string(),
            "connect.facebook.net".to_string(),
            "scorecardresearch.com".to_string(),
            "outbrain.com".to_string(),
            "taboola.com".to_string(),
        ];
        assert(strings(r@) =~= default_blocked_domains());
        r
    }

    fn load_tracking_patterns() -> (r: Vec<String>)
        ensures
            strings(r@) == default_tracking_patterns(),
    {
        let r = vec![
            ".*\\.ads\\..*".to_string(),
            ".*\\.analytics\\..*".to_string(),
            ".*\\.tracker\\..*".to_string(),
            ".*\\.telemetry\\..*".to_string(),
        ];
        assert(strings(r@) =~= default_tracking_patterns());
        r
    }

    /// The configuration that the manager was built with.
    pub fn config(&self) -> (r: &BrowserConfig)
        ensures
            *r == self.settings(),
    {
        &self.config
    }

    /// Whether `domain` is a blocked domain or a subdomain of one.
    fn is_domain_blocked(&self, domain: &str) -> (r: bool)
        ensures
            r == domain_blocked(self.blocked(), domain@),
    {
        let mut i: usize = 0;
        while i < self.blocked_domains.len()
            invariant
                i <= self.blocked().len(),
                self.blocked().len() == self.blocked_domains@.len(),
                forall|k: int|
                    0 <= k < i ==> !(domain@ == #[trigger] self.blocked()[k] || ends_with(
                        domain@,
                        "."@ + self.blocked()[k],
                    )),
            decreases self.blocked_domains@.len() - i,
        {
            let b = self.blocked_domains[i].as_str();
            assert(b@ == self.blocked()[i as int]);
            if text_equal(domain, b) || text_ends_with(domain, joined(".", b).as_str()) {
                return true;
            }
            i = i + 1;
        }
        false
    }

    /// Whether `url` looks like a tracker request. The configured patterns
    /// are not interpreted as patterns: with any configured, a fixed set of
    /// markers decides.
    fn is_tracking_request(&self, url: &str) -> (r: bool)
        ensures
            r == (self.patterns().len() > 0 && tracking_marker(url@)),
    {
        self.tracking_patterns.len() > 0 && (text_contains(url, "analytics") || text_contains(
            url,
            "tracker",
        ) || text_contains(url, "telemetry") || text_contains(url, "/ads/"))
    }

    /// Why the policy blocks `url`, whose parsed domain is `domain`, if it
    /// does.
    pub fn block_reason_for(&self, url: &str, domain: Option<&str>) -> (r: Option<BlockReason>)
        ensures
            r == self.verdict(url@, opt_text(domain)),
    {
        let ad = self.config.privacy.ad_blocking;
        let tracking = self.config.privacy.tracking_protection;
        if !ad && !tracking {
            return None;
        }
        match domain {
            None => None,
            Some(d) => {
                if ad && self.is_domain_blocked(d) {
                    Some(BlockReason::Ads)
                } else if tracking && self.is_tracking_request(url) {
                    Some(BlockReason::Tracking)
                } else {
                    None
                }
            },
        }
    }

    /// Why the policy blocks `url`, if it does.
    pub fn block_reason(&self, url: &str) -> (r: Option<BlockReason>)
        ensures
            r == self.block_reason_of(url@),
    {
        if !self.config.privacy.ad_blocking && !self.config.privacy.tracking_protection {
            return None;
        }
        match domain_of(url) {
            None => self.block_reason_for(url, None),
            Some(d) => self.block_reason_for(url, Some(d.as_str())),
        }
    }

    /// Whether the policy blocks a request for `url`; a block is logged as an
    /// `AD_BLOCKED` or `TRACKER_BLOCKED` security event.
    pub fn should_block_request(&self, url: &str, log: &mut Vec<LogRecord>) -> (r: bool)
        ensures
            r == self.block_reason_of(url@) is Some,
            entries(final(log)@) == entries(old(log)@) + block_entries(
                self.block_reason_of(url@),
                url@,
            ),
    {
        match self.block_reason(url) {
            Some(BlockReason::Ads) => {
                log_security_event(log, "AD_BLOCKED", url);
                true
            },
            Some(BlockReason::Tracking) => {
                log_security_event(log, "TRACKER_BLOCKED", url);
                true
            },
            None => {
                assert(entries(log@) =~= entries(log@) + Seq::empty());
                false
            },
        }
    }

    /// The HTTPS form of `url`, whose parsed scheme is `scheme`, where
    /// upgrades are on and the scheme is exactly `http`.
    pub fn upgrade_for_scheme(&self, url: &str, scheme: Option<&str>) -> (r: Option<String>)
        ensures
            match r {
                Some(x) => self.upgrade_verdict(url@, opt_text(scheme)) == Some(x@),
                None => self.upgrade_verdict(url@, opt_text(scheme)) is None,
            },
    {
        if !self.config.privacy.https_upgrade {
            return None;
        }
        match scheme {
            Some(s) => {
                if text_equal(s, "http") {
                    proof {
                        reveal_strlit("http");
                    }
                    Some(https_form(url))
                } else {
                    None
                }
            },
            None => None,
        }
    }

    /// The HTTPS form of `url`, where upgrades are on and its scheme is
    /// exactly `http`. The rewritten URL is a hint: it is not fetched.
    pub fn suggest_https_upgrade(&self, url: &str) -> (r: Option<String>)
        ensures
            match r {
                Some(x) => self.upgrade_of(url@) == Some(x@),
                None => self.upgrade_of(url@) is None,
            },
    {
        if !self.config.privacy.https_upgrade {
            return None;
        }
        match scheme_of(url) {
            Ok(scheme) => self.upgrade_for_scheme(url, Some(scheme.as_str())),
            Err(_) => self.upgrade_for_scheme(url, None),
        }
    }

    /// The security facts of `url`; an error where it is no absolute URL.
    /// An insecure URL under the upgrade policy is logged as an
    /// `HTTPS_UPGRADE_SUGGESTED` security event.
    pub fn check_url_security(&self, url: &str, log: &mut Vec<LogRecord>) -> (r: Result<
        SecurityLevel,
        BrowserError,
    >)
        ensures
            r is Ok == url_parses(url@),
            r matches Ok(l) ==> l == (SecurityLevel {
                is_secure: url_scheme(url@) == "https"@,
                certificate_valid: true,
                mixed_content: false,
                tracking_blocked: false,
                ads_blocked: 0,
            }),
            r matches Err(e) ==> e == BrowserError::InvalidUrl,
            entries(final(log)@) == entries(old(log)@) + (if url_parses(url@) && url_scheme(url@)
                != "https"@ && self.settings().privacy.https_upgrade {
                seq![(LogLevel::Warn, security_line("HTTPS_UPGRADE_SUGGESTED"@, url@))]
            } else {
                Seq::empty()
            }),
    {
        match scheme_of(url) {
            Err(_) => {
                assert(entries(log@) =~= entries(log@) + Seq::empty());
                Err(BrowserError::InvalidUrl)
            },
            Ok(scheme) => {
                let level = level_for_scheme(scheme.as_str());
                if !level.is_secure && self.config.privacy.https_upgrade {
                    log_security_event(log, "HTTPS_UPGRADE_SUGGESTED", url);
                } else {
                    assert(entries(log@) =~= entries(log@) + Seq::empty());
                }
                Ok(level)
            },
        }
    }

    /// Certificate validation is not performed yet: every URL passes.
    pub fn validate_certificate(&self, _url: &str) -> (r: Result<bool, BrowserError>)
        ensures
            r == Ok::<bool, BrowserError>(true),
    {
        Ok(true)
    }

    /// Reputation lookup is not performed yet: no site is reported.
    pub fn check_malicious_site(&self, _url: &str) -> (r: Result<bool, BrowserError>)
        ensures
            r == Ok::<bool, BrowserError>(false),
    {
        Ok(false)
    }

    /// The fixed content security policy.
    pub fn get_content_security_policy(&self) -> (r: String)
        ensures
            r@ == content_security_policy(),
    {
        "default-src 'self'; script-src 'self' 'unsafe-inline'; style-src 'self' 'unsafe-inline';".to_string()
    }
}

/// The security facts of a URL whose scheme is `scheme`: secure exactly for
/// `https`; certificates and mixed content are not examined yet.
pub fn level_for_scheme(scheme: &str) -> (r: SecurityLevel)
    ensures
        r == (SecurityLevel {
            is_secure: scheme@ == "https"@,
            certificate_valid: true,
            mixed_content: false,
            tracking_blocked: false,
            ads_blocked: 0,
        }),
{
    SecurityLevel {
        is_secure: text_equal(scheme, "https"),
        certificate_valid: true,
        mixed_content: false,
        tracking_blocked: false,
        ads_blocked: 0,
    }
}

/// `url` with its scheme rewritten to `https`: the text from its first `:`
/// on, after `https`.
pub fn https_form(url: &str) -> (r: String)
    ensures
        r@ == https_rewrite(url@),
{
    let cs = chars_of(url);
    let n = cs.len();
    let mut i: usize = 0;
    while i < n && cs[i] != ':'
        invariant
            cs@ == url@,
            n == cs@.len(),
            i <= n,
            forall|j: int| 0 <= j < i ==> cs@[j] != ':',
        decreases n - i,
    {
        i = i + 1;
    }
    proof {
        if i < n {
            assert(url@[i as int] == ':');
            assert(url@.contains(':'));
            let c = colon_index(url@);
            assert(0 <= c < url@.len() && url@[c] == ':');
            if c < i {
                assert(cs@[c] != ':');
            }
            if c > i {
                assert(url@[i as int] != ':');
            }
        } else {
            assert(!url@.contains(':'));
        }
    }
    joined("https", url.substring_char(i, n))
}

} // verus!
