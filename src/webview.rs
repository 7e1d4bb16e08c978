//! The navigation coordinator: classifies input, consults the security
//! policy and applies the outcome to the tab store.
use crate::config::BrowserConfig;
use crate::error::BrowserError;
use crate::logger::{entries, log_navigation, log_security_event, navigation_line, record, security_line, LogLevel, LogRecord};
use crate::runtime::{hyphenated, id_text};
use crate::security::{block_entries, default_blocked_domains, default_tracking_patterns, SecurityManager};
use crate::tabs::{new_tab_view, TabManager, TabState, TabView};
use crate::text::{chars_of, joined, starts_with, text_starts_with};
use crate::url_model::{is_white_space, scheme_of, trim_text, trimmed, url_encode, url_encoded, url_parses, white_space};
use vstd::prelude::*;

verus! {

/// A request to show `url`, in the tab `tab_id` or in a new tab.
#[derive(Clone, Debug)]
pub struct NavigationRequest {
    pub url: String,
    pub tab_id: Option<u128>,
    pub is_new_tab: bool,
}

/// What the render layer reports when a navigation completes.
#[derive(Clone, Debug)]
pub struct NavigationEvent {
    pub tab_id: u128,
    pub url: String,
    pub title: String,
    pub can_go_back: bool,
    pub can_go_forward: bool,
}

/// The search address for `query` under the endpoint `base`.
pub open spec fn search_url(base: Seq<char>, query: Seq<char>) -> Seq<char> {
    base + "/web?s="@ + url_encoded(query)
}

/// `t` holds a dot and no white space.
pub open spec fn looks_like_domain(t: Seq<char>) -> bool {
    t.contains('.') && forall|i: int| 0 <= i < t.len() ==> !white_space(#[trigger] t[i])
}

/// `t` with `https://` in front, unless it already starts with `http://` or
/// `https://`.
pub open spec fn with_scheme(t: Seq<char>) -> Seq<char> {
    if starts_with(t, "http://"@) || starts_with(t, "https://"@) {
        t
    } else {
        "https://"@ + t
    }
}

/// Where trimmed input `t` leads, given whether it parses as an absolute URL
/// (`t_is_url`), whether its `https://` form does (`prefixed_is_url`), and
/// its percent-encoded form (`encoded`): `t` itself where it is a URL; else
/// its `https://` form where it looks like a domain and that form is a URL;
/// else a search for it under `base`.
pub open spec fn resolve(
    t: Seq<char>,
    t_is_url: bool,
    prefixed_is_url: bool,
    base: Seq<char>,
    encoded: Seq<char>,
) -> Seq<char> {
    if t_is_url {
        t
    } else if looks_like_domain(t) && prefixed_is_url {
        with_scheme(t)
    } else {
        base + "/web?s="@ + encoded
    }
}

/// What typed input `input` leads to.
pub open spec fn classify(input: Seq<char>, base: Seq<char>) -> Seq<char> {
    let t = trimmed(input);
    resolve(t, url_parses(t), url_parses(with_scheme(t)), base, url_encoded(t))
}

/// `t` with `https://` in front, unless it already starts with `http://` or
/// `https://`.
fn with_scheme_text(t: &str) -> (r: String)
    ensures
        r@ == with_scheme(t@),
{
    if text_starts_with(t, "http://") || text_starts_with(t, "https://") {
        t.to_string()
    } else {
        joined("https://", t)
    }
}

/// Whether `t` holds a dot and no white space.
fn looks_like_domain_text(t: &str) -> (r: bool)
    ensures
        r == looks_like_domain(t@),
{
    let cs = chars_of(t);
    let mut dot = false;
    let mut i: usize = 0;
    while i < cs.len()
        invariant
            cs@ == t@,
            i <= cs@.len(),
            dot == exists|j: int| 0 <= j < i && cs@[j] == '.',
            forall|j: int| 0 <= j < i ==> !white_space(#[trigger] cs@[j]),
        decreases cs@.len() - i,
    {
        if is_white_space(cs[i]) {
            return false;
        }
        if cs[i] == '.' {
            dot = true;
        }
        i = i + 1;
    }
    dot
}

/// The coordinator: owns the tab store and the security manager.
pub struct WebViewManager {
    tab_manager: TabManager,
    security_manager: SecurityManager,
}

impl WebViewManager {
    /// The tab store.
    pub closed spec fn store(&self) -> TabManager {
        self.tab_manager
    }

    /// The security manager.
    pub closed spec fn security(&self) -> SecurityManager {
        self.security_manager
    }

    pub open spec fn wf(&self) -> bool {
        self.store().wf()
    }

    /// The configured search endpoint.
    pub open spec fn search_base(&self) -> Seq<char> {
        self.security().settings().search_engine.fourget_instance@
    }

    /// The URL that a navigation to `input` loads, once classified and, where
    /// the policy suggests it, upgraded to HTTPS.
    pub open spec fn final_url(&self, input: Seq<char>) -> Seq<char> {
        let url = classify(input, self.search_base());
        match self.security().upgrade_of(url) {
            Some(u) => u,
            None => url,
        }
    }

    pub fn new(config: BrowserConfig) -> (r: WebViewManager)
        ensures
            r.wf(),
            r.store()@ == TabState::empty(),
            r.security().settings() == config,
            r.security().blocked() == default_blocked_domains(),
            r.security().patterns() == default_tracking_patterns(),
    {
        WebViewManager { tab_manager: TabManager::new(), security_manager: SecurityManager::new(config) }
    }

    /// Turns typed input into the URL to load: an absolute URL as it
    /// stands, a bare domain with `https://` in front, anything else a search.
    pub fn process_url(&self, input: &str) -> (r: String)
        ensures
            r@ == classify(input@, self.search_base()),
    {
        let t = trim_text(input);
        let t_is_url = scheme_of(t).is_ok();
        let mut prefixed_is_url = false;
        if !t_is_url && looks_like_domain_text(t) {
            let candidate = with_scheme_text(t);
            prefixed_is_url = scheme_of(candidate.as_str()).is_ok();
        }
        let encoded = if t_is_url || prefixed_is_url {
            String::new()
        } else {
            url_encode(t)
        };
        self.resolve_input(t, t_is_url, prefixed_is_url, encoded.as_str())
    }

    /// Where trimmed input `t` leads, given what the URL parser said of it
    /// and of its `https://` form, and its percent-encoded form.
    pub fn resolve_input(&self, t: &str, t_is_url: bool, prefixed_is_url: bool, encoded: &str) -> (r:
        String)
        ensures
            r@ == resolve(t@, t_is_url, prefixed_is_url, self.search_base(), encoded@),
    {
        if t_is_url {
            t.to_string()
        } else if prefixed_is_url && looks_like_domain_text(t) {
            with_scheme_text(t)
        } else {
            let base = joined(
                self.security_manager.config().search_engine.fourget_instance.as_str(),
                "/web?s=",
            );
            joined(base.as_str(), encoded)
        }
    }

    /// The search address for `query`.
    pub fn create_search_url(&self, query: &str) -> (r: String)
        ensures
            r@ == search_url(self.search_base(), query@),
    {
        let base = joined(self.security_manager.config().search_engine.fourget_instance.as_str(), "/web?s=");
        let encoded = url_encode(query);
        joined(base.as_str(), encoded.as_str())
    }
    /// Navigates as `request` asks. The input is classified; where the policy
    /// blocks the result, `NAVIGATION_BLOCKED` is logged after the policy's own
    /// event and no tab changes. Otherwise the URL, upgraded to HTTPS where
    /// the policy suggests it, is logged and loaded: into a new tab where the
    /// request asks for one or names no tab, else into the named tab, which
    /// is marked loading.
    pub fn navigate(&mut self, request: NavigationRequest, log: &mut Vec<LogRecord>) -> (r: Result<
        u128,
        BrowserError,
    >)
        requires
            old(self).wf(),
        ensures
            final(self).wf(),
            final(self).security() == old(self).security(),
            ({
                let url = classify(request.url@, old(self).search_base());
                let reason = old(self).security().block_reason_of(url);
                let fin = old(self).final_url(request.url@);
                let before = old(self).store()@;
                let after = final(self).store()@;
                if reason is Some {
                    &&& r == Err::<u128, BrowserError>(BrowserError::NavigationBlocked)
                    &&& after == before
                    &&& entries(final(log)@) == entries(old(log)@) + block_entries(reason, url)
                        + seq![(LogLevel::Warn, security_line("NAVIGATION_BLOCKED"@, url))]
                } else {
                    &&& entries(final(log)@) == entries(old(log)@).push(
                        (LogLevel::Info, navigation_line(fin)),
                    )
                    &&& if request.is_new_tab || request.tab_id is None {
                        r matches Ok(id) && !before.tabs.contains_key(id) && after
                            == before.created(after.tabs[id]) && new_tab_view(
                            after.tabs[id],
                            id,
                            fin,
                            "New Tab"@,
                        )
                    } else {
                        let id = request.tab_id->0;
                        &&& r == Ok::<u128, BrowserError>(id)
                        &&& after == before.with_tab(
                            id,
                            TabView {
                                url: fin,
                                is_loading: true,
                                last_accessed: after.tabs[id].last_accessed,
                                ..before.tabs[id]
                            },
                        )
                    }
                }
            }),
    {
        let url = self.process_url(request.url.as_str());
        if self.security_manager.should_block_request(url.as_str(), log) {
            log_security_event(log, "NAVIGATION_BLOCKED", url.as_str());
            return Err(BrowserError::NavigationBlocked);
        }
        let final_url = match self.security_manager.suggest_https_upgrade(url.as_str()) {
            Some(u) => u,
            None => url,
        };
        log_navigation(log, final_url.as_str());
        let target = if request.is_new_tab {
            None
        } else {
            request.tab_id
        };
        match target {
            None => Ok(self.tab_manager.create_tab(final_url, None)),
            Some(tab_id) => {
                let ghost before = self.tab_manager@;
                self.tab_manager.update_tab_url(tab_id, final_url);
                let ghost mid = self.tab_manager@;
                self.tab_manager.set_tab_loading(tab_id, true);
                proof {
                    if before.tabs.contains_key(tab_id) {
                        assert(self.tab_manager@.tabs =~= before.tabs.insert(
                            tab_id,
                            self.tab_manager@.tabs[tab_id],
                        ));
                    }
                }
                Ok(tab_id)
            },
        }
    }

    /// Going back has no history to walk yet: where the tab can go back, the
    /// intent is logged.
    pub fn go_back(&self, tab_id: u128, log: &mut Vec<LogRecord>)
        ensures
            entries(final(log)@) == entries(old(log)@) + (if self.store()@.tabs.contains_key(tab_id)
                && self.store()@.tabs[tab_id].can_go_back {
                seq![(LogLevel::Info, "Navigate back for tab: "@ + hyphenated(tab_id))]
            } else {
                Seq::empty()
            }),
    {
        let go = match self.tab_manager.get_tab(tab_id) {
            Some(tab) => tab.can_go_back,
            None => false,
        };
        if go {
            let line = joined("Navigate back for tab: ", id_text(tab_id).as_str());
            record(log, LogLevel::Info, line);
        } else {
            assert(entries(log@) =~= entries(log@) + Seq::empty());
        }
    }

    /// Going forward has no history to walk yet: where the tab can go
    /// forward, the intent is logged.
    pub fn go_forward(&self, tab_id: u128, log: &mut Vec<LogRecord>)
        ensures
            entries(final(log)@) == entries(old(log)@) + (if self.store()@.tabs.contains_key(tab_id)
                && self.store()@.tabs[tab_id].can_go_forward {
                seq![(LogLevel::Info, "Navigate forward for tab: "@ + hyphenated(tab_id))]
            } else {
                Seq::empty()
            }),
    {
        let go = match self.tab_manager.get_tab(tab_id) {
            Some(tab) => tab.can_go_forward,
            None => false,
        };
        if go {
            let line = joined("Navigate forward for tab: ", id_text(tab_id).as_str());
            record(log, LogLevel::Info, line);
        } else {
            assert(entries(log@) =~= entries(log@) + Seq::empty());
        }
    }

    /// Reloading is not performed yet: the intent is logged.
    pub fn reload(&self, tab_id: u128, log: &mut Vec<LogRecord>)
        ensures
            entries(final(log)@) == entries(old(log)@).push(
                (LogLevel::Info, "Reload tab: "@ + hyphenated(tab_id)),
            ),
    {
        record(log, LogLevel::Info, joined("Reload tab: ", id_text(tab_id).as_str()));
    }

    /// Opens a new tab on `url`, or on the home page where none is given.
    pub fn create_new_tab(&mut self, url: Option<String>) -> (r: u128)
        requires
            old(self).wf(),
        ensures
            final(self).wf(),
            final(self).security() == old(self).security(),
            !old(self).store()@.tabs.contains_key(r),
            final(self).store()@ == old(self).store()@.created(final(self).store()@.tabs[r]),
            new_tab_view(
                final(self).store()@.tabs[r],
                r,
                match url {
                    Some(u) => u@,
                    None => "bagel://home"@,
                },
                "New Tab"@,
            ),
    {
        let url = match url {
            Some(u) => u,
            None => "bagel://home".to_string(),
        };
        self.tab_manager.create_tab(url, None)
    }

    /// Closes the tab `tab_id`, as the tab store does.
    pub fn close_tab(&mut self, tab_id: u128) -> (r: bool)
        requires
            old(self).wf(),
        ensures
            final(self).wf(),
            final(self).security() == old(self).security(),
            r == old(self).store()@.order.contains(tab_id),
            final(self).store()@ == old(self).store()@.closed(tab_id),
    {
        self.tab_manager.close_tab(tab_id)
    }

    /// Makes `tab_id` active, as the tab store does.
    pub fn set_active_tab(&mut self, tab_id: u128) -> (r: bool)
        requires
            old(self).wf(),
        ensures
            final(self).wf(),
            final(self).security() == old(self).security(),
            r == old(self).store()@.tabs.contains_key(tab_id),
            r ==> final(self).store()@ == (TabState {
                active: Some(tab_id),
                ..old(self).store()@.with_tab(
                    tab_id,
                    TabView {
                        last_accessed: final(self).store()@.tabs[tab_id].last_accessed,
                        ..old(self).store()@.tabs[tab_id]
                    },
                )
            }),
            !r ==> final(self).store()@ == old(self).store()@,
    {
        self.tab_manager.set_active_tab(tab_id)
    }

    /// The tab store.
    pub fn get_tab_manager(&self) -> (r: &TabManager)
        ensures
            *r == self.store(),
    {
        &self.tab_manager
    }

    /// Records a completed navigation that the render layer reports: title,
    /// url and history flags are set and loading ends.
    pub fn update_tab_info(
        &mut self,
        tab_id: u128,
        title: String,
        url: String,
        can_go_back: bool,
        can_go_forward: bool,
    )
        requires
            old(self).wf(),
        ensures
            final(self).wf(),
            final(self).security() == old(self).security(),
            final(self).store()@ == old(self).store()@.with_tab(
                tab_id,
                TabView {
                    title: title@,
                    url: url@,
                    can_go_back,
                    can_go_forward,
                    is_loading: false,
                    last_accessed: final(self).store()@.tabs[tab_id].last_accessed,
                    ..old(self).store()@.tabs[tab_id]
                },
            ),
    {
        let ghost before = self.tab_manager@;
        self.tab_manager.update_tab_title(tab_id, title);
        self.tab_manager.update_tab_url(tab_id, url);
        self.tab_manager.set_tab_navigation_state(tab_id, can_go_back, can_go_forward);
        self.tab_manager.set_tab_loading(tab_id, false);
        proof {
            if before.tabs.contains_key(tab_id) {
                assert(self.tab_manager@.tabs =~= before.tabs.insert(
                    tab_id,
                    self.tab_manager@.tabs[tab_id],
                ));
            }
        }
    }
}

} // verus!
