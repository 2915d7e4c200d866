//! What the host's WebView hands back.

use vstd::prelude::*;

verus! {

use vstd::string::StringExecFns;

/// Why the window closed.
#[derive(Debug, Clone, Copy, PartialEq, Eq, Structural)]
pub enum WebViewCloseReason {
    /// The success check passed.
    Success,
    /// The user closed the window.
    UserClosed,
    /// The visit ran out of time.
    Timeout,
    /// Something went wrong.
    Error,
}

impl Default for WebViewCloseReason {
    /// Success, matching the default response.
    fn default() -> (r: Self)
        ensures
            r == WebViewCloseReason::Success,
    {
        WebViewCloseReason::Success
    }
}

/// What came back from the window.
#[derive(Debug, Clone, PartialEq)]
pub struct WebViewResponse {
    /// Whether the visit passed its check.
    pub success: bool,
    /// Where the window ended up.
    pub final_url: Option<String>,
    /// The cookies picked up.
    pub cookies: Vec<(String, String)>,
    /// The headers picked up.
    pub headers: Vec<(String, String)>,
    /// What the finish script returned.
    pub script_result: Option<String>,
    /// The page's HTML, when captured.
    pub html: Option<String>,
    /// What went wrong, when something did.
    pub error: Option<String>,
    /// Why the window closed.
    pub close_reason: WebViewCloseReason,
}

impl Default for WebViewResponse {
    /// An empty passing response.
    fn default() -> (r: Self)
        ensures
            r.success == false,
            r.final_url is None,
            r.cookies@.len() == 0,
            r.headers@.len() == 0,
            r.script_result is None && r.html is None && r.error is None,
            r.close_reason == WebViewCloseReason::Success,
    {
        WebViewResponse {
            success: false,
            final_url: None,
            cookies: Vec::new(),
            headers: Vec::new(),
            script_result: None,
            html: None,
            error: None,
            close_reason: WebViewCloseReason::Success,
        }
    }
}

impl WebViewResponse {
    /// A passing response.
    pub fn success() -> (r: Self)
        ensures
            r.success == true,
            r.close_reason == WebViewCloseReason::Success,
            r.final_url is None && r.script_result is None && r.html is None && r.error is None,
            r.cookies@.len() == 0,
            r.headers@.len() == 0,
    {
        let mut r = WebViewResponse::default();
        r.success = true;
        r
    }

    /// A failing response, with why it failed.
    pub fn failure(reason: WebViewCloseReason, error: Option<String>) -> (r: Self)
        ensures
            r.success == false,
            r.close_reason == reason,
            r.error == error,
            r.final_url is None && r.script_result is None && r.html is None,
            r.cookies@.len() == 0,
            r.headers@.len() == 0,
    {
        let mut r = WebViewResponse::default();
        r.close_reason = reason;
        r.error = error;
        r
    }

    /// The response with its cookies set.
    pub fn with_cookies(self, cookies: Vec<(String, String)>) -> (r: Self)
        ensures
            r.cookies == cookies,
            r.success == self.success,
            r.close_reason == self.close_reason,
    {
        WebViewResponse { cookies, ..self }
    }

    /// The response with its headers set.
    pub fn with_headers(self, headers: Vec<(String, String)>) -> (r: Self)
        ensures
            r.headers == headers,
            r.success == self.success,
            r.close_reason == self.close_reason,
    {
        WebViewResponse { headers, ..self }
    }

    /// The response with its final URL set.
    pub fn with_final_url(self, url: &str) -> (r: Self)
        ensures
            r.final_url matches Some(u) && u@ == url@,
            r.success == self.success,
            r.close_reason == self.close_reason,
    {
        WebViewResponse { final_url: Some(String::from_str(url)), ..self }
    }

    /// The response with its script result set.
    pub fn with_script_result(self, result: &str) -> (r: Self)
        ensures
            r.script_result matches Some(s) && s@ == result@,
            r.success == self.success,
            r.close_reason == self.close_reason,
    {
        WebViewResponse { script_result: Some(String::from_str(result)), ..self }
    }
}

} // verus!
