//! What the engine asks of the host's WebView.

use vstd::prelude::*;

verus! {

use vstd::string::StringExecFns;

/// The WebView timeout when nothing is configured, in seconds.
pub const DEFAULT_WEBVIEW_TIMEOUT_SECS: u64 = 120;

/// The success-check interval when nothing is configured, in milliseconds.
pub const DEFAULT_CHECK_INTERVAL_MS: u64 = 500;

/// A window the host is asked to open: where to go, what to inject, and
/// when to consider the visit done.
#[derive(Debug, Clone, PartialEq)]
pub struct WebViewRequest {
    /// The page to load.
    pub url: String,
    /// The window's title.
    pub title: Option<String>,
    /// What the user is told.
    pub tip: Option<String>,
    /// A User-Agent override.
    pub user_agent: Option<String>,
    /// Cookies injected before loading.
    pub initial_cookies: Vec<(String, String)>,
    /// Headers sent with the first request.
    pub initial_headers: Vec<(String, String)>,
    /// How long the visit may take, in seconds.
    pub timeout_secs: u64,
    /// A script injected once the page has loaded.
    pub inject_script: Option<String>,
    /// A script the window runs periodically; a true result ends the visit.
    pub success_check: Option<String>,
    /// How often the check script runs, in milliseconds.
    pub check_interval_ms: u64,
    /// A script run after success, to pick up data.
    pub finish_script: Option<String>,
    /// Cookies to hand back.
    pub extract_cookies: Option<Vec<String>>,
    /// The window's size.
    pub window_size: Option<(u32, u32)>,
    /// Whether redirects are followed.
    pub allow_redirects: bool,
}

impl Default for WebViewRequest {
    /// An empty request with the documented timing defaults.
    fn default() -> (r: Self)
        ensures
            r.url@ == Seq::<char>::empty(),
            r.title is None && r.tip is None && r.user_agent is None,
            r.initial_cookies@.len() == 0,
            r.initial_headers@.len() == 0,
            r.timeout_secs == DEFAULT_WEBVIEW_TIMEOUT_SECS,
            r.inject_script is None && r.success_check is None,
            r.check_interval_ms == DEFAULT_CHECK_INTERVAL_MS,
            r.finish_script is None && r.extract_cookies is None && r.window_size is None,
            r.allow_redirects == true,
    {
        WebViewRequest {
            url: String::new(),
            title: None,
            tip: None,
            user_agent: None,
            initial_cookies: Vec::new(),
            initial_headers: Vec::new(),
            timeout_secs: DEFAULT_WEBVIEW_TIMEOUT_SECS,
            inject_script: None,
            success_check: None,
            check_interval_ms: DEFAULT_CHECK_INTERVAL_MS,
            finish_script: None,
            extract_cookies: None,
            window_size: None,
            allow_redirects: true,
        }
    }
}

impl WebViewRequest {
    /// A request for one page, everything else at its default.
    pub fn new(url: &str) -> (r: Self)
        ensures
            r.url@ == url@,
            r.timeout_secs == DEFAULT_WEBVIEW_TIMEOUT_SECS,
            r.check_interval_ms == DEFAULT_CHECK_INTERVAL_MS,
            r.allow_redirects == true,
            r.initial_cookies@.len() == 0,
            r.initial_headers@.len() == 0,
            r.title is None && r.tip is None && r.user_agent is None,
            r.inject_script is None && r.success_check is None && r.finish_script is None,
            r.extract_cookies is None && r.window_size is None,
    {
        let mut r = WebViewRequest::default();
        r.url = String::from_str(url);
        r
    }

    /// The request with a window title set.
    pub fn with_title(self, title: &str) -> (r: Self)
        ensures
            r.title matches Some(t) && t@ == title@,
            r.url@ == self.url@,
    {
        WebViewRequest { title: Some(String::from_str(title)), ..self }
    }

    /// The request with a user-facing tip set.
    pub fn with_tip(self, tip: &str) -> (r: Self)
        ensures
            r.tip matches Some(t) && t@ == tip@,
            r.url@ == self.url@,
    {
        WebViewRequest { tip: Some(String::from_str(tip)), ..self }
    }

    /// The request with a User-Agent override set.
    pub fn with_user_agent(self, ua: &str) -> (r: Self)
        ensures
            r.user_agent matches Some(t) && t@ == ua@,
            r.url@ == self.url@,
    {
        WebViewRequest { user_agent: Some(String::from_str(ua)), ..self }
    }

    /// The request with its timeout set, in seconds.
    pub fn with_timeout(self, timeout_secs: u64) -> (r: Self)
        ensures
            r.timeout_secs == timeout_secs,
            r.url@ == self.url@,
    {
        WebViewRequest { timeout_secs, ..self }
    }

    /// The request with a success-check script set.
    pub fn with_success_check(self, script: &str) -> (r: Self)
        ensures
            r.success_check matches Some(s) && s@ == script@,
            r.url@ == self.url@,
    {
        WebViewRequest { success_check: Some(String::from_str(script)), ..self }
    }

    /// The request with its check interval set, in milliseconds.
    pub fn with_check_interval(self, interval_ms: u64) -> (r: Self)
        ensures
            r.check_interval_ms == interval_ms,
            r.url@ == self.url@,
    {
        WebViewRequest { check_interval_ms: interval_ms, ..self }
    }

    /// The request with the cookies to hand back set.
    pub fn with_extract_cookies(self, cookies: Vec<String>) -> (r: Self)
        ensures
            r.extract_cookies == Some(cookies),
            r.url@ == self.url@,
    {
        WebViewRequest { extract_cookies: Some(cookies), ..self }
    }

    /// The request with one more cookie injected before loading.
    pub fn with_cookie(self, name: &str, value: &str) -> (r: Self)
        ensures
            r.initial_cookies@.len() == self.initial_cookies@.len() + 1,
            r.initial_cookies@.last().0@ == name@,
            r.initial_cookies@.last().1@ == value@,
            r.url@ == self.url@,
    {
        let mut cookies = self.initial_cookies;
        cookies.push((String::from_str(name), String::from_str(value)));
        WebViewRequest { initial_cookies: cookies, ..self }
    }

    /// The request with an injected script set.
    pub fn with_inject_script(self, script: &str) -> (r: Self)
        ensures
            r.inject_script matches Some(s) && s@ == script@,
            r.url@ == self.url@,
    {
        WebViewRequest { inject_script: Some(String::from_str(script)), ..self }
    }

    /// The request with a finish script set.
    pub fn with_finish_script(self, script: &str) -> (r: Self)
        ensures
            r.finish_script matches Some(s) && s@ == script@,
            r.url@ == self.url@,
    {
        WebViewRequest { finish_script: Some(String::from_str(script)), ..self }
    }
}

} // verus!
