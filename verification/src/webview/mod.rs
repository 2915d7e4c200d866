//! The WebView capability's request and response shapes; the host injects
//! the window itself.

pub mod request;
pub mod response;

pub use request::WebViewRequest;
pub use response::WebViewCloseReason;
pub use response::WebViewResponse;
