//! Detection and handling of anti-bot challenges: Cloudflare, reCAPTCHA,
//! hCaptcha and custom checks, handled by a WebView, retries, cookies, an
//! external solver or a script.

use vstd::prelude::*;
use crate::jsonval::JsonValue;
use crate::script::Script;
use crate::template::Template;

verus! {

/// Whether a flag is on when nothing is configured.
pub fn default_true() -> (r: bool)
    ensures
        r == true,
{
    true
}

/// How often a challenge is attempted when nothing is configured.
pub fn default_max_attempts() -> (r: u32)
    ensures
        r == 3,
{
    3
}

/// The WebView timeout when nothing is configured, in seconds.
pub fn default_webview_timeout() -> (r: u32)
    ensures
        r == 120,
{
    120
}

/// The pause before a retry when nothing is configured, in milliseconds.
pub fn default_retry_delay() -> (r: u32)
    ensures
        r == 5000,
{
    5000
}

/// How often a retry handler tries when nothing is configured.
pub fn default_max_retries() -> (r: u32)
    ensures
        r == 3,
{
    3
}

/// The external solver timeout when nothing is configured, in seconds.
pub fn default_external_timeout() -> (r: u32)
    ensures
        r == 120,
{
    120
}

/// How challenges are detected and handled for one rule.
#[derive(Debug)]
pub struct ChallengeConfig {
    /// Whether challenge handling is on.
    pub enabled: bool,
    /// Detectors checked in order; the first match triggers the handler.
    pub detectors: Vec<ChallengeDetector>,
    /// What handles a detected challenge.
    pub handler: ChallengeHandler,
    /// How long passed credentials are kept, in seconds.
    pub cache_duration: Option<u32>,
    /// How often a challenge is attempted.
    pub max_attempts: u32,
}

/// What identifies a response as a challenge page.
#[derive(Debug)]
pub enum ChallengeDetector {
    /// Cloudflare's challenge pages, recognised by their own marks.
    Cloudflare(CloudflareDetector),
    /// reCAPTCHA widgets.
    Recaptcha(RecaptchaDetector),
    /// hCaptcha widgets.
    Hcaptcha(HcaptchaDetector),
    /// A custom rule over status, headers, body and URL.
    Custom(Box<CustomDetector>),
}

/// Extra marks for Cloudflare detection.
#[derive(Debug, Clone, Default, PartialEq)]
pub struct CloudflareDetector {
    /// Patterns checked besides the built-in ones.
    pub extra_patterns: Option<Vec<String>>,
}

/// Which reCAPTCHA generation to look for.
#[derive(Debug, Clone, Default, PartialEq)]
pub struct RecaptchaDetector {
    /// The widget generation, when pinned.
    pub version: Option<RecaptchaVersion>,
}

/// The reCAPTCHA generation.
#[derive(Debug, Clone, Copy, PartialEq, Eq, Structural)]
pub enum RecaptchaVersion {
    /// The checkbox widget.
    V2,
    /// The score-based check.
    V3,
}

impl Default for RecaptchaVersion {
    /// The checkbox widget is assumed when nothing is pinned.
    fn default() -> (r: Self)
        ensures
            r == RecaptchaVersion::V2,
    {
        RecaptchaVersion::V2
    }
}

/// hCaptcha detection; it has no options.
#[derive(Debug, Clone, Default, PartialEq)]
pub struct HcaptchaDetector {
}

/// A custom challenge mark over the response.
#[derive(Debug)]
pub struct CustomDetector {
    /// Status codes that trigger handling.
    pub status_codes: Option<Vec<u16>>,
    /// Header names with patterns that trigger handling.
    pub headers: Option<Vec<(String, String)>>,
    /// Body fragments that trigger handling.
    pub body_patterns: Option<Vec<String>>,
    /// A URL pattern that triggers handling.
    pub url_pattern: Option<String>,
    /// A script deciding from the whole response.
    pub detect_script: Option<Script>,
}

/// What handles a detected challenge.
#[derive(Debug)]
pub enum ChallengeHandler {
    /// Opens a WebView for the user to pass the check.
    Webview(WebviewHandler),
    /// Waits and retries the request.
    Retry(RetryHandler),
    /// Injects previously obtained cookies.
    Cookie(CookieHandler),
    /// Sends the challenge to an external solver.
    External(ExternalHandler),
    /// Runs a custom script.
    Script(ScriptHandler),
}

/// The manual WebView handler.
#[derive(Debug, Clone, PartialEq)]
pub struct WebviewHandler {
    /// What the user is told.
    pub tip: Option<String>,
    /// How long the user has, in seconds.
    pub timeout_seconds: u32,
    /// A User-Agent override.
    pub user_agent: Option<String>,
    /// A script that reports when the check has passed.
    pub success_check: Option<String>,
    /// How often the check script runs, in milliseconds.
    pub check_interval_ms: Option<u32>,
    /// A script run after passing, to pick up credentials.
    pub finish_script: Option<Script>,
    /// Cookies kept after passing.
    pub extract_cookies: Option<Vec<String>>,
}

/// The wait-and-retry handler.
#[derive(Debug, Clone, PartialEq)]
pub struct RetryHandler {
    /// The pause before a retry, in milliseconds.
    pub delay_ms: u32,
    /// How often to retry at most.
    pub max_retries: u32,
    /// Whether retries render in a WebView.
    pub use_webview: bool,
}

/// The cookie-injection handler.
#[derive(Debug)]
pub struct CookieHandler {
    /// Where the cookies come from.
    pub source: CookieSource,
    /// A script that reports whether they still pass.
    pub validate_script: Option<Script>,
}

/// Where injected cookies come from.
#[derive(Debug)]
pub enum CookieSource {
    /// The user is asked for them.
    UserInput {
        /// What the user is told.
        tip: Option<String>,
        /// The cookie names wanted.
        cookie_names: Vec<String>,
    },
    /// They are written in the rule.
    Config {
        /// The cookie string.
        cookies: String,
    },
    /// A script produces them.
    Script(Script),
}

/// The external-solver handler.
#[derive(Debug)]
pub struct ExternalHandler {
    /// Which solver to call.
    pub provider: CaptchaProvider,
    /// The solver's key, rendered against the context.
    pub api_key: Template,
    /// A custom endpoint, for self-hosted solvers.
    pub endpoint: Option<String>,
    /// The solver timeout, in seconds.
    pub timeout_seconds: u32,
    /// Extra parameters handed to the solver.
    pub extra_params: Option<Vec<(String, JsonValue)>>,
}

/// Known challenge solvers.
#[derive(Debug, Clone, Copy, PartialEq, Eq, Structural)]
pub enum CaptchaProvider {
    /// The 2captcha service.
    TwoCaptcha,
    /// The Anti-Captcha service.
    AntiCaptcha,
    /// The CapSolver service.
    CapSolver,
    /// A self-hosted solver.
    Custom,
}

/// The custom-script handler.
#[derive(Debug)]
pub struct ScriptHandler {
    /// The script that handles the challenge.
    pub script: Script,
    /// Its time cap, in seconds.
    pub timeout_seconds: Option<u32>,
}

} // verus!
