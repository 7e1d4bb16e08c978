//! The browser's settings, with their defaults.
use std::path::PathBuf;
use vstd::prelude::*;

verus! {

#[verifier::external_type_specification]
#[verifier::external_body]
pub struct ExPathBuf(PathBuf);

/// Relies on `dirs::data_dir`: the user's data directory, where the
/// platform has one. Nothing is promised of it.
#[verifier::external_body]
fn platform_data_dir() -> (r: Option<PathBuf>) {
    dirs::data_dir()
}

/// Relies on `PathBuf::from`: the path that `s` names.
#[verifier::external_body]
fn path_of(s: &str) -> (r: PathBuf) {
    PathBuf::from(s)
}

/// Relies on `Path::join`: `p` with `child` appended.
#[verifier::external_body]
fn path_joined(p: &PathBuf, child: &str) -> (r: PathBuf) {
    p.join(child)
}

#[derive(Clone, Debug)]
pub struct SearchEngineConfig {
    pub default_provider: String,
    /// Base address of the search endpoint; queries go to `<base>/web?s=<query>`.
    pub fourget_instance: String,
    pub fallback_enabled: bool,
}

#[derive(Clone, Debug)]
pub struct PrivacyConfig {
    pub auto_clear_cookies_days: u32,
    pub tracking_protection: bool,
    pub ad_blocking: bool,
    pub https_upgrade: bool,
}

#[derive(Clone, Debug)]
pub struct UiConfig {
    pub font_family: String,
    pub theme: String,
    pub show_bookmarks_bar: bool,
    pub tab_position: String,
}

#[derive(Debug)]
pub struct StorageConfig {
    pub data_dir: PathBuf,
    pub max_history_days: u32,
    pub max_cache_size_mb: u32,
}

#[derive(Debug)]
pub struct BrowserConfig {
    pub search_engine: SearchEngineConfig,
    pub privacy: PrivacyConfig,
    pub ui: UiConfig,
    pub storage: StorageConfig,
}

impl Default for BrowserConfig {
    /// Search through 4get, every privacy protection on, and data kept under
    /// the platform's data directory (or the working directory).
    fn default() -> (r: BrowserConfig)
        ensures
            r.search_engine.default_provider@ == "4get"@,
            r.search_engine.fourget_instance@ == "https://4get.ca"@,
            r.search_engine.fallback_enabled,
            r.privacy.auto_clear_cookies_days == 30,
            r.privacy.tracking_protection,
            r.privacy.ad_blocking,
            r.privacy.https_upgrade,
            r.ui.font_family@ == "Ubuntu"@,
            r.ui.theme@ == "light"@,
            r.ui.show_bookmarks_bar,
            r.ui.tab_position@ == "top"@,
            r.storage.max_history_days == 90,
            r.storage.max_cache_size_mb == 500,
    {
        let base = match platform_data_dir() {
            Some(p) => p,
            None => path_of("."),
        };
        let data_dir = path_joined(&base, "bagel-browser");
        BrowserConfig {
            search_engine: SearchEngineConfig {
                default_provider: "4get".to_string(),
                fourget_instance: "https://4get.ca".to_string(),
                fallback_enabled: true,
            },
            privacy: PrivacyConfig {
                auto_clear_cookies_days: 30,
                tracking_protection: true,
                ad_blocking: true,
                https_upgrade: true,
            },
            ui: UiConfig {
                font_family: "Ubuntu".to_string(),
                theme: "light".to_string(),
                show_bookmarks_bar: true,
                tab_position: "top".to_string(),
            },
            storage: StorageConfig { data_dir, max_history_days: 90, max_cache_size_mb: 500 },
        }
    }
}

impl BrowserConfig {
    /// The directory that holds the browser's data.
    pub fn data_dir(&self) -> (r: &PathBuf)
        ensures
            *r == self.storage.data_dir,
    {
        &self.storage.data_dir
    }
}

} // verus!
